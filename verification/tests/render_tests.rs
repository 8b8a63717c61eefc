use explorer::cursor::Sort;
use explorer::engine::OpType;
use explorer::explorer::{create_status_bar, run_op, Action, OpFacts, State};
use explorer::file_explorer;
use explorer::file_explorer::{parse_op, parse_optype, Op, OpType as LineOpType};
use explorer::file_explorer::{format_lines, format_pathbuf};
use explorer::lines::Lines;
use explorer::listing::Entry;

fn ent(path: &str, is_dir: bool) -> Entry {
    Entry::new(path.as_bytes().to_vec(), is_dir, 0, 0)
}

fn text(lines: &[Vec<u8>]) -> Vec<String> {
    lines.iter().map(|l| String::from_utf8(l.clone()).unwrap()).collect()
}

fn facts() -> OpFacts {
    OpFacts { sel_is_dir: false, sel_is_tar: false, sel_is_dotdot: false, at_archive_root: false }
}

#[test]
fn format_marks_selected_row() {
    let lines = Lines::new();
    let sibs = Some(vec![ent("/p/a.txt", false), ent("/p/b", true)]);
    let out = lines.format(&b"/p".to_vec(), &sibs, 1);
    assert_eq!(
        text(&out),
        vec!["/p".to_string(), "".to_string(), "   a.txt".to_string(), " > b/".to_string()]
    );
}

#[test]
fn format_empty_directory_shows_placeholder() {
    let lines = Lines::new();
    let out = lines.format(&b"/p".to_vec(), &None, 0);
    assert_eq!(text(&out), vec!["/p".to_string(), "".to_string(), " > ../".to_string()]);
}

#[test]
fn status_bar_text() {
    let bar = create_status_bar(Sort::Name, &b"src".to_vec(), true);
    assert_eq!(String::from_utf8(bar).unwrap(), " Selected: src/ | Sorting: N");
    let bar = create_status_bar(Sort::Size, &b"a.txt".to_vec(), false);
    assert_eq!(String::from_utf8(bar).unwrap(), " Selected: a.txt | Sorting: S");
    let bar = create_status_bar(Sort::Dir, &b"x".to_vec(), false);
    assert_eq!(String::from_utf8(bar).unwrap(), " Selected: x | Sorting: D");
    let bar = create_status_bar(Sort::Time, &b"x".to_vec(), false);
    assert_eq!(String::from_utf8(bar).unwrap(), " Selected: x | Sorting: T");
}

#[test]
fn quit_stops_the_session() {
    let mut st = State::new();
    assert_eq!(run_op(&mut st, OpType::Opq, facts()), Action::Nothing);
    assert!(!st.running);
}

#[test]
fn moves_map_to_cursor_actions() {
    let mut st = State::new();
    assert_eq!(run_op(&mut st, OpType::Opj(4), facts()), Action::MoveDown(4));
    assert_eq!(run_op(&mut st, OpType::Opk(2), facts()), Action::MoveUp(2));
    assert_eq!(run_op(&mut st, OpType::OpG, facts()), Action::MoveBottom);
    assert_eq!(run_op(&mut st, OpType::Opgg, facts()), Action::MoveTop);
    assert_eq!(run_op(&mut st, OpType::Opdot, facts()), Action::ToggleHidden);
    assert_eq!(run_op(&mut st, OpType::Opcasing, facts()), Action::ToggleCasing);
    assert_eq!(run_op(&mut st, OpType::Opsortdir, facts()), Action::SortDir);
    assert_eq!(run_op(&mut st, OpType::Opsortname, facts()), Action::SortName);
    assert_eq!(run_op(&mut st, OpType::Opsortsize, facts()), Action::SortSize);
    assert_eq!(run_op(&mut st, OpType::Opsorttime, facts()), Action::SortTime);
    assert_eq!(run_op(&mut st, OpType::Opslash, facts()), Action::ToggleSearch);
    assert_eq!(run_op(&mut st, OpType::Oppage, facts()), Action::Pager);
    assert_eq!(run_op(&mut st, OpType::Opedit, facts()), Action::Editor);
    assert_eq!(run_op(&mut st, OpType::Opbang, facts()), Action::Shell);
    assert_eq!(run_op(&mut st, OpType::Opabort, facts()), Action::Nothing);
    assert_eq!(run_op(&mut st, OpType::Noop, facts()), Action::Nothing);
    assert!(st.running);
}

#[test]
fn status_bar_toggle() {
    let mut st = State::new();
    assert_eq!(run_op(&mut st, OpType::Opquestion, facts()), Action::Nothing);
    assert!(st.status_bar);
    run_op(&mut st, OpType::Opquestion, facts());
    assert!(!st.status_bar);
}

#[test]
fn entering_and_leaving_an_archive() {
    let mut st = State::new();
    let mut f = facts();
    f.sel_is_tar = true;
    assert_eq!(run_op(&mut st, OpType::Opl, f), Action::Nothing);
    assert!(st.tar);
    // Inside the archive, `h` at the container root leaves archive mode.
    let mut f = facts();
    f.at_archive_root = true;
    assert_eq!(run_op(&mut st, OpType::Oph, f), Action::Nothing);
    assert!(!st.tar);
    // Outside an archive, `h` ascends.
    assert_eq!(run_op(&mut st, OpType::Oph, f), Action::MoveOut);
}

#[test]
fn opening_the_selection() {
    let mut st = State::new();
    let mut f = facts();
    f.sel_is_dir = true;
    assert_eq!(run_op(&mut st, OpType::Opl, f), Action::MoveIn);
    assert_eq!(run_op(&mut st, OpType::Opl, facts()), Action::ViewFile);
    st.tar = true;
    assert_eq!(run_op(&mut st, OpType::Opl, facts()), Action::ViewArchiveMember);
    let mut f = facts();
    f.sel_is_dotdot = true;
    assert_eq!(run_op(&mut st, OpType::Opl, f), Action::ViewFile);
}

#[test]
fn config_defaults() {
    let st = State::new();
    assert_eq!(st.config.editor, "vim");
    assert_eq!(st.config.pager, "less");
    assert_eq!(st.config.shell, "bash");
}

#[test]
fn line_parser_classifies_commands() {
    let line: Vec<char> = vec!['5', 'j'];
    let op = parse_op(&line).unwrap();
    assert_eq!(op.optype, LineOpType::Opnj);
    assert_eq!(op.count(), 5);
    let op = parse_op(&vec!['j']).unwrap();
    assert_eq!(op.optype, LineOpType::Opj);
    let op = parse_op(&vec!['g', 'g']).unwrap();
    assert_eq!(op.optype, LineOpType::Opgg);
    assert!(parse_op(&Vec::new()).is_none());
    assert_eq!(parse_optype(&vec!['q'], &Vec::new()), LineOpType::Opq);
    assert_eq!(parse_optype(&vec!['i'], &Vec::new()), LineOpType::Opcasing);
    assert_eq!(parse_optype(&vec!['g'], &vec!['x']), LineOpType::Noop);
    assert_eq!(parse_optype(&vec!['j'], &vec!['x']), LineOpType::Noop);
    assert_eq!(parse_optype(&vec!['z'], &Vec::new()), LineOpType::Noop);
    let op = Op::new(vec!['k'], vec!['1', '2']);
    assert_eq!(op.optype, LineOpType::Opnk);
    assert_eq!(op.count(), 12);
    // A leading plus sign still gives a counted move; a minus does not.
    let op = Op::new(vec!['j'], vec!['+', '3']);
    assert_eq!(op.optype, LineOpType::Opnj);
    assert_eq!(op.count(), 3);
    assert_eq!(parse_optype(&vec!['j'], &vec!['-', '3']), LineOpType::Noop);
    assert_eq!(parse_optype(&vec!['j'], &vec!['+']), LineOpType::Noop);
    // Whatever the integer parse accepts with a non-negative value counts:
    // leading zeros, long runs within the machine range, minus zero.
    let op = Op::new(vec!['j'], "1000000000".chars().collect());
    assert_eq!(op.optype, LineOpType::Opnj);
    assert_eq!(op.count(), 1000000000);
    let op = Op::new(vec!['k'], "0000000001".chars().collect());
    assert_eq!(op.optype, LineOpType::Opnk);
    assert_eq!(op.count(), 1);
    let op = Op::new(vec!['j'], vec!['-', '0']);
    assert_eq!(op.optype, LineOpType::Opnj);
    assert_eq!(op.count(), 0);
    // One past the machine range fails the parse, so it is no operation.
    assert_eq!(parse_optype(&vec!['j'], &"2147483648".chars().collect()), LineOpType::Noop);
    let op = Op::new(vec!['j'], "2147483647".chars().collect());
    assert_eq!(op.optype, LineOpType::Opnj);
    assert_eq!(op.count(), 2147483647);
}

#[test]
fn line_state_toggles_search() {
    let mut st = file_explorer::State::new();
    assert!(!st.search);
    st.toggle_search();
    assert!(st.search);
    st.toggle_search();
    assert!(!st.search);
}

#[test]
fn line_renderer_rows() {
    let row = format_pathbuf(&ent("/p/sub", true));
    assert_eq!(String::from_utf8(row).unwrap(), "   sub/");
    let out = format_lines(&b"/p".to_vec(), &vec![ent("/p/a", false), ent("/p/b", true)], 0);
    assert_eq!(
        text(&out),
        vec!["/p".to_string(), "".to_string(), " > a".to_string(), "   b/".to_string()]
    );
    let out = format_lines(&b"/p".to_vec(), &Vec::new(), 0);
    assert_eq!(text(&out), vec!["/p".to_string(), "".to_string(), " > ../".to_string()]);
}
