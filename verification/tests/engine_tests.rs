use explorer::engine::{Engine, Key, Mode, OpType};

#[test]
fn count_prefix_resolves_down_move() {
    let mut e = Engine::new();
    assert_eq!(e.push(Key::Char('5')), Some(OpType::Noop));
    assert_eq!(e.push(Key::Char('j')), Some(OpType::Opj(5)));
}

#[test]
fn multi_digit_count() {
    let mut e = Engine::new();
    assert_eq!(e.push(Key::Char('1')), Some(OpType::Noop));
    assert_eq!(e.push(Key::Char('2')), Some(OpType::Noop));
    assert_eq!(e.push(Key::Char('k')), Some(OpType::Opk(12)));
}

#[test]
fn double_g_resolves_move_top() {
    let mut e = Engine::new();
    assert_eq!(e.push(Key::Char('g')), Some(OpType::Noop));
    assert_eq!(e.push(Key::Char('g')), Some(OpType::Opgg));
}

#[test]
fn unknown_char_is_noop() {
    let mut e = Engine::new();
    assert_eq!(e.push(Key::Char('x')), Some(OpType::Noop));
    // The retained character does not corrupt later commands.
    assert_eq!(e.push(Key::Char('j')), Some(OpType::Opj(1)));
}

#[test]
fn digit_then_g_resolves_nothing() {
    let mut e = Engine::new();
    assert_eq!(e.push(Key::Char('3')), Some(OpType::Noop));
    assert_eq!(e.push(Key::Char('g')), Some(OpType::Noop));
}

#[test]
fn plain_moves_default_to_one() {
    let mut e = Engine::new();
    assert_eq!(e.push(Key::Char('j')), Some(OpType::Opj(1)));
    assert_eq!(e.push(Key::Char('k')), Some(OpType::Opk(1)));
}

#[test]
fn simple_commands_resolve() {
    let mut e = Engine::new();
    assert_eq!(e.push(Key::Char('q')), Some(OpType::Opq));
    assert_eq!(e.push(Key::Char('G')), Some(OpType::OpG));
    assert_eq!(e.push(Key::Char('h')), Some(OpType::Oph));
    assert_eq!(e.push(Key::Char('l')), Some(OpType::Opl));
    assert_eq!(e.push(Key::Char('.')), Some(OpType::Opdot));
    assert_eq!(e.push(Key::Char('~')), Some(OpType::Opcasing));
    assert_eq!(e.push(Key::Char('d')), Some(OpType::Opsortdir));
    assert_eq!(e.push(Key::Char('n')), Some(OpType::Opsortname));
    assert_eq!(e.push(Key::Char('s')), Some(OpType::Opsortsize));
    assert_eq!(e.push(Key::Char('t')), Some(OpType::Opsorttime));
    assert_eq!(e.push(Key::Char('/')), Some(OpType::Opslash));
    assert_eq!(e.push(Key::Char('p')), Some(OpType::Oppage));
    assert_eq!(e.push(Key::Char('e')), Some(OpType::Opedit));
    assert_eq!(e.push(Key::Char('!')), Some(OpType::Opbang));
    assert_eq!(e.push(Key::Char('?')), Some(OpType::Opquestion));
}

#[test]
fn huge_count_prefix_is_cleared() {
    let mut e = Engine::new();
    // A fourth retained character outgrows the threshold and clears the
    // buffer, so only the last digit counts.
    assert_eq!(e.push(Key::Char('9')), Some(OpType::Noop));
    assert_eq!(e.push(Key::Char('9')), Some(OpType::Noop));
    assert_eq!(e.push(Key::Char('9')), Some(OpType::Noop));
    assert_eq!(e.push(Key::Char('9')), Some(OpType::Noop));
    assert_eq!(e.push(Key::Char('j')), Some(OpType::Opj(9)));
}

#[test]
fn plus_signed_count_is_accepted() {
    let mut e = Engine::new();
    assert_eq!(e.push(Key::Char('+')), Some(OpType::Noop));
    assert_eq!(e.push(Key::Char('3')), Some(OpType::Noop));
    assert_eq!(e.push(Key::Char('j')), Some(OpType::Opj(3)));
}

#[test]
fn minus_signed_count_defaults_to_one() {
    let mut e = Engine::new();
    assert_eq!(e.push(Key::Char('-')), Some(OpType::Noop));
    assert_eq!(e.push(Key::Char('3')), Some(OpType::Noop));
    // Moves take non-negative counts, so a minus-signed prefix is not one.
    assert_eq!(e.push(Key::Char('j')), Some(OpType::Opj(1)));
}

#[test]
fn three_digit_count_is_kept() {
    let mut e = Engine::new();
    assert_eq!(e.push(Key::Char('9')), Some(OpType::Noop));
    assert_eq!(e.push(Key::Char('9')), Some(OpType::Noop));
    assert_eq!(e.push(Key::Char('9')), Some(OpType::Noop));
    assert_eq!(e.push(Key::Char('j')), Some(OpType::Opj(999)));
}

#[test]
fn search_mode_collects_term() {
    let mut e = Engine::new();
    assert!(!e.is_search());
    assert_eq!(e.mode(), Mode::Normal);
    e.toggle_search();
    assert!(e.is_search());
    assert_eq!(e.mode(), Mode::Search);
    assert_eq!(e.push(Key::Char('a')), None);
    assert_eq!(e.push(Key::Char('b')), None);
    assert_eq!(e.search_term(), &vec!['a', 'b']);
    assert!(e.wants_search());
}

#[test]
fn backspace_shortens_then_aborts_search() {
    let mut e = Engine::new();
    e.toggle_search();
    e.push(Key::Char('a'));
    assert_eq!(e.push(Key::Backspace), None);
    assert_eq!(e.search_term(), &Vec::<char>::new());
    assert!(e.is_search());
    // Backspace on an empty term aborts search mode, exactly like Escape.
    assert_eq!(e.push(Key::Backspace), Some(OpType::Opabort));
    assert!(!e.is_search());
}

#[test]
fn escape_aborts_search_distinctly() {
    let mut e = Engine::new();
    e.toggle_search();
    e.push(Key::Char('a'));
    assert_eq!(e.push(Key::Esc), Some(OpType::Opabort));
    assert!(!e.is_search());
    assert_eq!(e.search_term(), &Vec::<char>::new());
}

#[test]
fn enter_aborts_search_distinctly() {
    let mut e = Engine::new();
    e.toggle_search();
    e.push(Key::Char('z'));
    assert_eq!(e.push(Key::Enter), Some(OpType::Opabort));
    assert!(!e.is_search());
}

#[test]
fn escape_outside_search_is_nothing() {
    let mut e = Engine::new();
    assert_eq!(e.push(Key::Esc), None);
    assert_eq!(e.push(Key::Enter), None);
    assert_eq!(e.push(Key::Backspace), None);
    assert_eq!(e.push(Key::Other), None);
}

#[test]
fn finish_key_passes_ops_outside_search() {
    let mut e = Engine::new();
    let op = e.push(Key::Char('G'));
    assert_eq!(e.finish_key(op), Some(OpType::OpG));
    e.toggle_search();
    e.push(Key::Char('a'));
    assert_eq!(e.finish_key(Some(OpType::OpG)), None);
}

#[test]
fn clear_search_term_empties_it() {
    let mut e = Engine::new();
    e.toggle_search();
    e.push(Key::Char('a'));
    e.clear_search_term();
    assert_eq!(e.search_term(), &Vec::<char>::new());
}

#[test]
fn non_digit_prefix_defaults_to_one() {
    let mut e = Engine::new();
    assert_eq!(e.push(Key::Char('x')), Some(OpType::Noop));
    assert_eq!(e.push(Key::Char('5')), Some(OpType::Noop));
    // Buffer "x5" is not a pure digit run, so the count defaults to 1.
    assert_eq!(e.push(Key::Char('j')), Some(OpType::Opj(1)));
}
