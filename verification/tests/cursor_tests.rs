use explorer::file_cursor::FileCursor;
use explorer::listing::Entry;

fn ent(path: &str, is_dir: bool, size: u64, mtime: u64) -> Entry {
    Entry::new(path.as_bytes().to_vec(), is_dir, size, mtime)
}

fn project_listing() -> Vec<Entry> {
    vec![
        ent("/p/src", true, 0, 30),
        ent("/p/Cargo.toml", false, 120, 10),
        ent("/p/README.md", false, 400, 20),
    ]
}

fn names(v: &[Entry]) -> Vec<String> {
    v.iter().map(|e| String::from_utf8(e.path.clone()).unwrap()).collect()
}

fn init_project() -> FileCursor {
    let mut fc = FileCursor::new();
    fc.init(b"/p".to_vec(), project_listing());
    fc
}

#[test]
fn init_selects_first_sorted_sibling() {
    let fc = init_project();
    // Sorted by file name: Cargo.toml, README.md, src.
    assert_eq!(fc.selected(), b"/p/Cargo.toml".to_vec());
    assert_eq!(fc.current_dir(), b"/p".to_vec());
    assert_eq!(fc.start_dir(), b"/p".to_vec());
}

#[test]
fn siblings_sorted_by_name() {
    let fc = init_project();
    let sibs = fc.current_siblings(project_listing()).unwrap();
    assert_eq!(
        names(&sibs),
        vec!["/p/Cargo.toml".to_string(), "/p/README.md".to_string(), "/p/src".to_string()]
    );
}

#[test]
fn sort_determinism_across_calls() {
    let fc = init_project();
    let a = fc.current_siblings(project_listing()).unwrap();
    let b = fc.current_siblings(project_listing()).unwrap();
    assert_eq!(names(&a), names(&b));
}

#[test]
fn move_down_clamps_to_last() {
    // k = 3 siblings; from index 0, moving 2 lands on index 2, moving
    // further clamps at the last sibling.
    let mut fc = init_project();
    fc.move_down(project_listing(), 2);
    assert_eq!(fc.selected(), b"/p/src".to_vec());
    fc.move_down(project_listing(), 5);
    assert_eq!(fc.selected(), b"/p/src".to_vec());
}

#[test]
fn move_down_exact_steps() {
    let mut fc = init_project();
    fc.move_down(project_listing(), 1);
    assert_eq!(fc.selected(), b"/p/README.md".to_vec());
}

#[test]
fn move_up_clamps_to_first() {
    let mut fc = init_project();
    fc.move_down(project_listing(), 2);
    fc.move_up(project_listing(), 1);
    assert_eq!(fc.selected(), b"/p/README.md".to_vec());
    fc.move_up(project_listing(), 9);
    assert_eq!(fc.selected(), b"/p/Cargo.toml".to_vec());
}

#[test]
fn move_top_and_bottom() {
    let mut fc = init_project();
    fc.move_bottom(project_listing());
    assert_eq!(fc.selected(), b"/p/src".to_vec());
    fc.move_top(project_listing());
    assert_eq!(fc.selected(), b"/p/Cargo.toml".to_vec());
    assert_eq!(fc.pos(project_listing()), 0);
}

#[test]
fn empty_directory_yields_placeholder_and_clamped_moves() {
    let mut fc = FileCursor::new();
    fc.init(b"/empty".to_vec(), Vec::new());
    assert_eq!(fc.selected(), b"/empty/..".to_vec());
    assert!(fc.current_siblings(Vec::new()).is_none());
    // move_top / move_bottom clamp instead of indexing out of bounds.
    fc.move_top(Vec::new());
    fc.move_bottom(Vec::new());
    assert_eq!(fc.selected(), b"/empty/..".to_vec());
}

#[test]
fn search_selects_first_case_insensitive_match() {
    // Siblings ["Cargo.toml", "src", "README.md"], pattern "rea": the
    // selection becomes README.md.
    let mut fc = init_project();
    fc.search(project_listing(), &b"rea".to_vec());
    assert_eq!(fc.selected(), b"/p/README.md".to_vec());
}

#[test]
fn search_case_folds_beyond_ascii() {
    // "\u{c9}cole" is "Ecole" with an accented capital E; the lower-cased
    // pattern with the accented small e still matches it.
    let upper = format!("/p/{}cole", '\u{c9}');
    let raw = || vec![ent(&upper, false, 1, 1), ent("/p/zz", false, 1, 1)];
    let mut fc = FileCursor::new();
    fc.init(b"/p".to_vec(), raw());
    let pattern = format!("{}cole", '\u{e9}').into_bytes();
    fc.search(raw(), &pattern);
    assert_eq!(fc.selected(), upper.as_bytes().to_vec());
}

#[test]
fn search_without_match_is_noop() {
    let mut fc = init_project();
    fc.search(project_listing(), &b"zzz".to_vec());
    assert_eq!(fc.selected(), b"/p/Cargo.toml".to_vec());
}

#[test]
fn matching_siblings_in_listing_order() {
    let fc = init_project();
    let m = fc.matching_siblings(project_listing(), &b"ar".to_vec());
    // "/p/Cargo.toml" contains "ar"; nothing else does.
    assert_eq!(names(&m), vec!["/p/Cargo.toml".to_string()]);
}

#[test]
fn move_in_then_out_restores_selection() {
    let mut fc = init_project();
    fc.move_down(project_listing(), 2);
    assert_eq!(fc.selected(), b"/p/src".to_vec());
    let sub = vec![ent("/p/src/main.rs", false, 50, 1), ent("/p/src/lib.rs", false, 60, 2)];
    fc.move_in(sub, true);
    assert_eq!(fc.selected(), b"/p/src/lib.rs".to_vec());
    assert_eq!(fc.current_dir(), b"/p/src".to_vec());
    fc.move_out();
    assert_eq!(fc.selected(), b"/p/src".to_vec());
    assert_eq!(fc.current_dir(), b"/p".to_vec());
}

#[test]
fn move_in_remembers_previous_selection() {
    let mut fc = init_project();
    fc.move_down(project_listing(), 2);
    let sub = || vec![ent("/p/src/main.rs", false, 50, 1), ent("/p/src/lib.rs", false, 60, 2)];
    fc.move_in(sub(), true);
    fc.move_down(sub(), 1);
    assert_eq!(fc.selected(), b"/p/src/main.rs".to_vec());
    fc.move_out();
    // Re-entering restores the remembered child instead of the first one.
    fc.move_in(sub(), true);
    assert_eq!(fc.selected(), b"/p/src/main.rs".to_vec());
}

#[test]
fn move_in_on_file_is_noop() {
    let mut fc = init_project();
    fc.move_in(Vec::new(), false);
    assert_eq!(fc.selected(), b"/p/Cargo.toml".to_vec());
}

#[test]
fn move_in_empty_directory_selects_placeholder() {
    let mut fc = init_project();
    fc.move_down(project_listing(), 2);
    fc.move_in(Vec::new(), true);
    assert_eq!(fc.selected(), b"/p/src/..".to_vec());
}

#[test]
fn move_out_without_memory_falls_back_to_exited_directory() {
    let mut fc = FileCursor::new();
    fc.init(b"/a/b".to_vec(), vec![ent("/a/b/f.txt", false, 1, 1)]);
    fc.move_out();
    // Nothing remembered for "/a": fall back to the directory just exited.
    assert_eq!(fc.selected(), b"/a/b".to_vec());
}

#[test]
fn move_out_at_root_is_noop() {
    let mut fc = FileCursor::new();
    fc.init(b"/".to_vec(), vec![ent("/top", true, 0, 0)]);
    // The current directory is "/", which has no parent.
    assert_eq!(fc.current_dir(), b"/".to_vec());
    fc.move_out();
    assert_eq!(fc.selected(), b"/top".to_vec());
}

#[test]
fn hidden_files_filtered_by_default_and_toggle_round_trips() {
    let raw = || {
        vec![
            ent("/p/.hidden", false, 1, 1),
            ent("/p/shown", false, 1, 1),
        ]
    };
    let mut fc = FileCursor::new();
    fc.init(b"/p".to_vec(), raw());
    let before = names(&fc.current_siblings(raw()).unwrap());
    assert_eq!(before, vec!["/p/shown".to_string()]);
    fc.toggle_hidden_files();
    let shown = names(&fc.current_siblings(raw()).unwrap());
    assert_eq!(shown, vec!["/p/.hidden".to_string(), "/p/shown".to_string()]);
    fc.toggle_hidden_files();
    // Toggling twice returns the listing to its original filtered state.
    let after = names(&fc.current_siblings(raw()).unwrap());
    assert_eq!(after, before);
}

#[test]
fn sort_modes_order_listing() {
    let raw = || {
        vec![
            ent("/p/bb", false, 300, 1),
            ent("/p/aa", true, 100, 3),
            ent("/p/cc", false, 200, 2),
        ]
    };
    let mut fc = FileCursor::new();
    fc.init(b"/p".to_vec(), raw());
    fc.sort_dir();
    // Directories first, otherwise incoming order preserved (stable).
    assert_eq!(
        names(&fc.current_siblings(raw()).unwrap()),
        vec!["/p/aa".to_string(), "/p/bb".to_string(), "/p/cc".to_string()]
    );
    fc.sort_size();
    assert_eq!(
        names(&fc.current_siblings(raw()).unwrap()),
        vec!["/p/aa".to_string(), "/p/cc".to_string(), "/p/bb".to_string()]
    );
    fc.sort_time();
    assert_eq!(
        names(&fc.current_siblings(raw()).unwrap()),
        vec!["/p/bb".to_string(), "/p/cc".to_string(), "/p/aa".to_string()]
    );
    fc.sort_name();
    assert_eq!(
        names(&fc.current_siblings(raw()).unwrap()),
        vec!["/p/aa".to_string(), "/p/bb".to_string(), "/p/cc".to_string()]
    );
}

#[test]
fn stable_sort_keeps_equal_keys_in_order() {
    let raw = || {
        vec![
            ent("/p/zz", false, 7, 7),
            ent("/p/aa", false, 7, 7),
        ]
    };
    let mut fc = FileCursor::new();
    fc.init(b"/p".to_vec(), raw());
    fc.sort_size();
    // Equal sizes: incoming order preserved.
    assert_eq!(
        names(&fc.current_siblings(raw()).unwrap()),
        vec!["/p/zz".to_string(), "/p/aa".to_string()]
    );
}

#[test]
fn case_insensitive_second_pass_orders_by_lowered_text() {
    let raw = || {
        vec![
            ent("/p/b.txt", false, 1, 1),
            ent("/p/A.txt", false, 1, 1),
        ]
    };
    let mut fc = FileCursor::new();
    fc.init(b"/p".to_vec(), raw());
    // Case-sensitive name order: "A.txt" < "b.txt" by bytes.
    assert_eq!(
        names(&fc.current_siblings(raw()).unwrap()),
        vec!["/p/A.txt".to_string(), "/p/b.txt".to_string()]
    );
    fc.toggle_case_sensitivity();
    // Lower-cased full text: "/p/a.txt" < "/p/b.txt" still, so same order;
    // flip the sort mode to size to see the second pass dominate.
    assert_eq!(
        names(&fc.current_siblings(raw()).unwrap()),
        vec!["/p/A.txt".to_string(), "/p/b.txt".to_string()]
    );
}

#[test]
fn pos_tracks_selection_index() {
    let mut fc = init_project();
    assert_eq!(fc.pos(project_listing()), 0);
    fc.move_down(project_listing(), 1);
    assert_eq!(fc.pos(project_listing()), 1);
}

#[test]
fn parent_accessor() {
    let fc = init_project();
    assert_eq!(fc.parent(), b"/".to_vec());
}

#[test]
fn path_helpers() {
    assert_eq!(explorer::paths::parent_of(&b"/a/b/c".to_vec()), b"/a/b".to_vec());
    assert_eq!(explorer::paths::parent_of(&b"/a/b/".to_vec()), b"/a".to_vec());
    assert_eq!(explorer::paths::parent_of(&b"/a".to_vec()), b"/".to_vec());
    assert_eq!(explorer::paths::parent_of(&b"a".to_vec()), b"".to_vec());
    assert_eq!(explorer::paths::parent_of(&b"/".to_vec()), b"".to_vec());
    assert_eq!(explorer::paths::file_name_of(&b"/a/b/c.txt".to_vec()), b"c.txt".to_vec());
    assert_eq!(explorer::paths::file_name_of(&b"/a/b/".to_vec()), b"b".to_vec());
    assert!(explorer::paths::is_hidden(&b"/a/.git".to_vec()));
    assert!(!explorer::paths::is_hidden(&b"/a/git".to_vec()));
    assert!(explorer::paths::has_parent(&b"/a".to_vec()));
    assert!(!explorer::paths::has_parent(&b"/".to_vec()));
    assert_eq!(explorer::paths::normalize(&b"/a/b//".to_vec()), b"/a/b".to_vec());
    assert_eq!(explorer::paths::join_dotdot(&b"/a/b".to_vec()), b"/a/b/..".to_vec());
    assert_eq!(explorer::paths::join_dotdot(&b"/a/b/".to_vec()), b"/a/b/..".to_vec());
    assert!(explorer::paths::contains_sub(&b"readme.md".to_vec(), &b"adm".to_vec()));
    assert!(!explorer::paths::contains_sub(&b"readme.md".to_vec(), &b"xy".to_vec()));
    assert!(explorer::paths::lex_le(&b"abc".to_vec(), &b"abd".to_vec()));
    assert!(!explorer::paths::lex_le(&b"abd".to_vec(), &b"abc".to_vec()));
    assert!(explorer::paths::bytes_eq(&b"ab".to_vec(), &b"ab".to_vec()));
    assert!(!explorer::paths::bytes_eq(&b"ab".to_vec(), &b"ac".to_vec()));
}
