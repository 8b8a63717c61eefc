use explorer::tar_cursor::{TarCursor, TarEntry, TarReadError};

fn sample_archive() -> Vec<u8> {
    let mut builder = tar::Builder::new(Vec::new());

    let mut dir = tar::Header::new_gnu();
    dir.set_entry_type(tar::EntryType::dir());
    dir.set_size(0);
    builder.append_data(&mut dir, "a/", &[][..]).unwrap();

    let mut file = tar::Header::new_gnu();
    file.set_size(5);
    builder.append_data(&mut file, "a/b.txt", &b"hello"[..]).unwrap();

    let mut top = tar::Header::new_gnu();
    top.set_size(3);
    builder.append_data(&mut top, "top.txt", &b"abc"[..]).unwrap();

    builder.into_inner().unwrap()
}

fn names(v: &[explorer::listing::Entry]) -> Vec<String> {
    v.iter().map(|e| String::from_utf8(e.path.clone()).unwrap()).collect()
}

#[test]
fn init_builds_virtual_tree_and_selects_first_root_child() {
    let data = sample_archive();
    let mut tc = TarCursor::new();
    assert!(tc.needs_init(&b"/x/ar.tar".to_vec()));
    assert!(tc.init(&b"/x/ar.tar".to_vec(), &data));
    assert_eq!(tc.start_dir(), b"/x/ar.tar".to_vec());
    // Root children sorted by name: "a/" then "top.txt".
    let sibs = tc.current_siblings().unwrap();
    assert_eq!(
        names(&sibs),
        vec!["/x/ar.tar/a/".to_string(), "/x/ar.tar/top.txt".to_string()]
    );
    assert_eq!(tc.selected(), b"/x/ar.tar/a/".to_vec());
    assert!(!tc.needs_init(&b"/x/ar.tar".to_vec()));
}

#[test]
fn read_file_content_returns_exact_member_bytes() {
    // For an archive containing a/b.txt: after init, descending into a/
    // and selecting b.txt, read_file_content returns the stored bytes.
    let data = sample_archive();
    let mut tc = TarCursor::new();
    assert!(tc.init(&b"/x/ar.tar".to_vec(), &data));
    assert_eq!(tc.selected(), b"/x/ar.tar/a/".to_vec());
    tc.move_in();
    assert_eq!(tc.selected(), b"/x/ar.tar/a/b.txt".to_vec());
    let content = tc.read_file_content(&data, &tc.selected()).unwrap();
    assert_eq!(content, b"hello".to_vec());
}

#[test]
fn read_file_content_top_level_member() {
    let data = sample_archive();
    let mut tc = TarCursor::new();
    assert!(tc.init(&b"/x/ar.tar".to_vec(), &data));
    let content = tc.read_file_content(&data, &b"/x/ar.tar/top.txt".to_vec()).unwrap();
    assert_eq!(content, b"abc".to_vec());
}

#[test]
fn read_file_content_unknown_member_fails_distinctly() {
    let data = sample_archive();
    let mut tc = TarCursor::new();
    assert!(tc.init(&b"/x/ar.tar".to_vec(), &data));
    let err = tc.read_file_content(&data, &b"/x/ar.tar/missing".to_vec()).unwrap_err();
    assert_eq!(err, TarReadError::NotFound);
    let err = tc.read_file_content(&data, &b"/elsewhere/f".to_vec()).unwrap_err();
    assert_eq!(err, TarReadError::NotInArchive);
}

#[test]
fn init_from_entries_builds_the_virtual_tree() {
    let mut tc = TarCursor::new();
    let entries = vec![
        TarEntry { path: b"a/".to_vec(), data: Vec::new() },
        TarEntry { path: b"a/b.txt".to_vec(), data: b"hello".to_vec() },
    ];
    tc.init_from_entries(&b"/x/ar.tar".to_vec(), entries);
    assert_eq!(tc.selected(), b"/x/ar.tar/a/".to_vec());
    tc.move_in();
    assert_eq!(tc.selected(), b"/x/ar.tar/a/b.txt".to_vec());
}

#[test]
fn empty_archive_selects_parent_placeholder() {
    let data = tar::Builder::new(Vec::new()).into_inner().unwrap();
    let mut tc = TarCursor::new();
    assert!(tc.init(&b"/x/empty.tar".to_vec(), &data));
    assert_eq!(tc.selected(), b"/x/empty.tar/..".to_vec());
    assert!(tc.current_siblings().is_none());
}

#[test]
fn malformed_archive_is_rejected() {
    let mut tc = TarCursor::new();
    // A stream of odd bytes is not a tar archive.
    let junk: Vec<u8> = (0u8..=255).cycle().take(2048).collect();
    assert!(!tc.init(&b"/x/bad.tar".to_vec(), &junk));
    assert!(tc.needs_init(&b"/x/bad.tar".to_vec()));
}

#[test]
fn tar_navigation_round_trip() {
    let data = sample_archive();
    let mut tc = TarCursor::new();
    assert!(tc.init(&b"/x/ar.tar".to_vec(), &data));
    tc.move_in();
    assert_eq!(tc.current_dir(), b"/x/ar.tar/a".to_vec());
    tc.move_out();
    // The previously selected directory is restored in the parent.
    assert_eq!(tc.selected(), b"/x/ar.tar/a/".to_vec());
}

#[test]
fn tar_moves_clamp() {
    let data = sample_archive();
    let mut tc = TarCursor::new();
    assert!(tc.init(&b"/x/ar.tar".to_vec(), &data));
    tc.move_down(9);
    assert_eq!(tc.selected(), b"/x/ar.tar/top.txt".to_vec());
    tc.move_up(9);
    assert_eq!(tc.selected(), b"/x/ar.tar/a/".to_vec());
    tc.move_bottom();
    assert_eq!(tc.selected(), b"/x/ar.tar/top.txt".to_vec());
    tc.move_top();
    assert_eq!(tc.selected(), b"/x/ar.tar/a/".to_vec());
}

#[test]
fn tar_search_jumps_to_match() {
    let data = sample_archive();
    let mut tc = TarCursor::new();
    assert!(tc.init(&b"/x/ar.tar".to_vec(), &data));
    tc.search(&b"TOP".to_vec());
    assert_eq!(tc.selected(), b"/x/ar.tar/top.txt".to_vec());
}

#[test]
fn init_is_idempotent_for_same_container() {
    let data = sample_archive();
    let mut tc = TarCursor::new();
    assert!(tc.init(&b"/x/ar.tar".to_vec(), &data));
    tc.move_down(1);
    let before = tc.selected();
    // Initializing again with the same container changes nothing.
    assert!(tc.init(&b"/x/ar.tar".to_vec(), &data));
    assert_eq!(tc.selected(), before);
}

#[test]
fn move_in_on_file_member_is_noop() {
    let data = sample_archive();
    let mut tc = TarCursor::new();
    assert!(tc.init(&b"/x/ar.tar".to_vec(), &data));
    tc.move_down(1);
    assert_eq!(tc.selected(), b"/x/ar.tar/top.txt".to_vec());
    tc.move_in();
    assert_eq!(tc.selected(), b"/x/ar.tar/top.txt".to_vec());
}
