//! The modal key-sequence parser: buffers keystrokes and resolves them into
//! discrete operations, independent of which cursor backend is active.
//!
//! Normal mode is a small buffered automaton: each printable character is
//! probed in isolation against the command table, any remaining buffer
//! content serving as a numeric repeat count for `j`/`k`; an ambiguous
//! prefix (a digit, or the first `g` of `gg`) is retained until the buffer
//! outgrows a two-character threshold.  Search mode collects a term, one
//! character per keystroke.

use vstd::prelude::*;

verus! {

/// One key event, as the engine sees it.
#[derive(Clone, Copy, PartialEq, Eq, Structural, Debug)]
pub enum Key {
    Char(char),
    Backspace,
    Esc,
    Enter,
    Other,
}

/// The engine's mode: vim-like command input, or incremental search.
#[derive(Clone, Copy, PartialEq, Eq, Structural, Debug)]
pub enum Mode {
    Normal,
    Search,
}

/// A resolved operation.  `Noop` is "nothing happened"; `Opabort` signals
/// that a search session ended, distinct from `Noop`.
#[derive(Clone, Copy, PartialEq, Eq, Structural, Debug)]
pub enum OpType {
    Opq,
    OpG,
    Opgg,
    Opj(i32),
    Opk(i32),
    Oph,
    Opl,
    Opdot,
    Opcasing,
    Opsortdir,
    Opsortname,
    Opsortsize,
    Opsorttime,
    Opslash,
    Oppage,
    Opedit,
    Opbang,
    Opabort,
    Opquestion,
    Noop,
}

/// The key-sequence engine.
pub struct Engine {
    buffer: Vec<char>,
    mode: Mode,
    search_term: Vec<char>,
}

/// The mathematical value of an [`Engine`].
pub ghost struct EngineV {
    pub buffer: Seq<char>,
    pub mode: Mode,
    pub search_term: Seq<char>,
}

impl View for Engine {
    type V = EngineV;

    closed spec fn view(&self) -> EngineV {
        EngineV { buffer: self.buffer@, mode: self.mode, search_term: self.search_term@ }
    }
}

impl Default for Engine {
    /// A fresh engine, as [`Engine::new`] builds it.
    fn default() -> (e: Engine)
        ensures
            e@ == (EngineV { buffer: Seq::empty(), mode: Mode::Normal, search_term: Seq::empty() }),
    {
        Engine::new()
    }
}

/// Whether every character is a decimal digit.
pub open spec fn all_digits(s: Seq<char>) -> bool {
    forall|i: int| 0 <= i < s.len() ==> '0' <= #[trigger] s[i] <= '9'
}

/// The number a run of digits denotes.
pub open spec fn digits_val(s: Seq<char>) -> int
    decreases s.len(),
{
    if s.len() == 0 {
        0
    } else {
        digits_val(s.drop_last()) * 10 + (s.last() as u32 - 48)
    }
}

/// The digits of a pending count: a leading plus sign is not part of the
/// number.
pub open spec fn buffer_digits(s: Seq<char>) -> Seq<char> {
    if s.len() > 0 && s[0] == '+' {
        s.drop_first()
    } else {
        s
    }
}

/// The repeat count a buffer denotes, as the integer parse reads it: a
/// non-empty digit run, optionally preceded by `+`, otherwise the default
/// 1.  A minus sign does not count (moves take non-negative counts).  The
/// automaton clears the buffer past two retained characters, so a retained
/// prefix never exceeds three.
pub open spec fn parse_count(s: Seq<char>) -> int {
    if 1 <= s.len() <= 3 && buffer_digits(s).len() >= 1 && all_digits(buffer_digits(s)) {
        digits_val(buffer_digits(s))
    } else {
        1
    }
}

/// A short digit run denotes a small number.
proof fn lemma_digits_val_bound(s: Seq<char>)
    requires
        all_digits(s),
        s.len() <= 3,
    ensures
        0 <= digits_val(s) <= 999,
        s.len() <= 2 ==> digits_val(s) <= 99,
        s.len() <= 1 ==> digits_val(s) <= 9,
        s.len() == 0 ==> digits_val(s) == 0,
    decreases s.len(),
{
    if s.len() > 0 {
        assert(all_digits(s.drop_last())) by {
            assert(forall|i: int| 0 <= i < s.len() - 1 ==> s.drop_last()[i] == s[i]);
        }
        lemma_digits_val_bound(s.drop_last());
    }
}

/// Probing one character against the command table, with the rest of the
/// buffer as context: the resolved operation and what is left of the
/// buffer (the two-character `gg` command consumes its pending `g`).
pub open spec fn spec_parse_op(c: char, buf: Seq<char>) -> (OpType, Seq<char>) {
    if c == 'q' {
        (OpType::Opq, buf)
    } else if c == 'G' {
        (OpType::OpG, buf)
    } else if c == 'j' {
        (OpType::Opj(parse_count(buf) as i32), buf)
    } else if c == 'k' {
        (OpType::Opk(parse_count(buf) as i32), buf)
    } else if c == 'h' {
        (OpType::Oph, buf)
    } else if c == 'l' {
        (OpType::Opl, buf)
    } else if c == '.' {
        (OpType::Opdot, buf)
    } else if c == '~' {
        (OpType::Opcasing, buf)
    } else if c == 'd' {
        (OpType::Opsortdir, buf)
    } else if c == 'n' {
        (OpType::Opsortname, buf)
    } else if c == 's' {
        (OpType::Opsortsize, buf)
    } else if c == 't' {
        (OpType::Opsorttime, buf)
    } else if c == '/' {
        (OpType::Opslash, buf)
    } else if c == 'p' {
        (OpType::Oppage, buf)
    } else if c == 'e' {
        (OpType::Opedit, buf)
    } else if c == '!' {
        (OpType::Opbang, buf)
    } else if c == '?' {
        (OpType::Opquestion, buf)
    } else if c == 'g' {
        if buf.len() > 0 {
            if buf.last() == 'g' {
                (OpType::Opgg, buf.drop_last())
            } else {
                (OpType::Noop, buf.drop_last())
            }
        } else {
            (OpType::Noop, buf)
        }
    } else {
        (OpType::Noop, buf)
    }
}

/// One Normal-mode character: probe it, clear the buffer once something
/// resolved or the retained prefix outgrew the threshold, and retain the
/// character itself when nothing resolved.
pub open spec fn spec_handle_char(st: EngineV, c: char) -> (EngineV, OpType) {
    let (op, buf1) = spec_parse_op(c, st.buffer);
    let buf2 = if op != OpType::Noop || buf1.len() > 2 {
        Seq::empty()
    } else {
        buf1
    };
    let buf3 = if op == OpType::Noop {
        buf2.push(c)
    } else {
        buf2
    };
    (EngineV { buffer: buf3, ..st }, op)
}

/// One key event: the engine's next state and the resolved operation.
pub open spec fn spec_push(st: EngineV, k: Key) -> (EngineV, Option<OpType>) {
    match k {
        Key::Char(c) => {
            if st.mode == Mode::Normal {
                let (st2, op) = spec_handle_char(st, c);
                (st2, Some(op))
            } else {
                (EngineV { search_term: st.search_term.push(c), ..st }, None)
            }
        },
        Key::Backspace => {
            if st.mode == Mode::Search {
                if st.search_term.len() > 0 {
                    (EngineV { search_term: st.search_term.drop_last(), ..st }, None)
                } else {
                    // Backspace on an empty term aborts the search session,
                    // exactly like Escape.
                    (
                        EngineV { search_term: Seq::empty(), mode: Mode::Normal, ..st },
                        Some(OpType::Opabort),
                    )
                }
            } else {
                (st, None)
            }
        },
        Key::Esc | Key::Enter => {
            if st.mode == Mode::Search {
                (
                    EngineV { search_term: Seq::empty(), mode: Mode::Normal, ..st },
                    Some(OpType::Opabort),
                )
            } else {
                (st, None)
            }
        },
        Key::Other => (st, None),
    }
}

impl Engine {
    /// A fresh engine: Normal mode, empty buffer, empty search term.
    pub fn new() -> (e: Engine)
        ensures
            e@ == (EngineV { buffer: Seq::empty(), mode: Mode::Normal, search_term: Seq::empty() }),
    {
        Engine { buffer: Vec::new(), mode: Mode::Normal, search_term: Vec::new() }
    }

    /// The repeat count the pending buffer denotes.
    fn count_of_buffer(&self) -> (r: i32)
        ensures
            r == parse_count(self@.buffer),
            r >= 0,
    {
        if self.buffer.len() == 0 || self.buffer.len() > 3 {
            return 1;
        }
        let start: usize = if self.buffer[0] == '+' {
            1
        } else {
            0
        };
        let ghost digits = buffer_digits(self.buffer@);
        proof {
            if start == 1 {
                assert(digits =~= self.buffer@.skip(1));
            } else {
                assert(digits =~= self.buffer@.skip(0));
            }
        }
        if self.buffer.len() - start == 0 {
            return 1;
        }
        let mut acc: u32 = 0;
        let mut i: usize = start;
        while i < self.buffer.len()
            invariant
                start <= i <= self.buffer@.len(),
                self.buffer@.len() <= 3,
                digits == buffer_digits(self.buffer@),
                digits == self.buffer@.skip(start as int),
                forall|j: int| 0 <= j < i - start ==> '0' <= #[trigger] digits[j] <= '9',
                acc == digits_val(digits.subrange(0, i - start)),
                acc <= 999,
            decreases self.buffer@.len() - i,
        {
            let c = self.buffer[i];
            proof {
                assert(digits[i - start] == self.buffer@[i as int]);
            }
            if c < '0' || c > '9' {
                return 1;
            }
            proof {
                let pre = digits.subrange(0, i - start);
                let cur = digits.subrange(0, i - start + 1);
                assert(cur.drop_last() =~= pre);
                assert(cur.last() == digits[i - start]);
                assert(all_digits(cur)) by {
                    assert(forall|j: int| 0 <= j < cur.len() ==> cur[j] == digits[j]);
                }
                lemma_digits_val_bound(cur);
            }
            acc = acc * 10 + (c as u32 - 48);
            i = i + 1;
        }
        proof {
            assert(digits.subrange(0, digits.len() as int) =~= digits);
            assert(all_digits(digits));
        }
        acc as i32
    }

    /// Probes one character against the command table.
    fn parse_op(&mut self, c: char) -> (r: OpType)
        ensures
            ({
                let (op, buf1) = spec_parse_op(c, old(self)@.buffer);
                r == op && final(self)@ == (EngineV { buffer: buf1, ..old(self)@ })
            }),
    {
        match c {
            'q' => OpType::Opq,
            'G' => OpType::OpG,
            'j' => OpType::Opj(self.count_of_buffer()),
            'k' => OpType::Opk(self.count_of_buffer()),
            'h' => OpType::Oph,
            'l' => OpType::Opl,
            '.' => OpType::Opdot,
            '~' => OpType::Opcasing,
            'd' => OpType::Opsortdir,
            'n' => OpType::Opsortname,
            's' => OpType::Opsortsize,
            't' => OpType::Opsorttime,
            '/' => OpType::Opslash,
            'p' => OpType::Oppage,
            'e' => OpType::Opedit,
            '!' => OpType::Opbang,
            '?' => OpType::Opquestion,
            'g' => {
                match self.buffer.pop() {
                    Some(o) => {
                        if o == 'g' {
                            OpType::Opgg
                        } else {
                            OpType::Noop
                        }
                    },
                    None => OpType::Noop,
                }
            },
            _ => OpType::Noop,
        }
    }

    /// One Normal-mode character.
    fn handle_char(&mut self, c: char) -> (r: OpType)
        ensures
            ({
                let (st2, op) = spec_handle_char(old(self)@, c);
                r == op && final(self)@ == st2
            }),
    {
        let op = self.parse_op(c);
        if op != OpType::Noop || self.buffer.len() > 2 {
            self.buffer = Vec::new();
        }
        if op == OpType::Noop {
            self.buffer.push(c);
        }
        op
    }

    /// Feeds one key event to the engine, yielding at most one resolved
    /// operation.
    pub fn push(&mut self, k: Key) -> (r: Option<OpType>)
        ensures
            ({
                let (st2, op) = spec_push(old(self)@, k);
                r == op && final(self)@ == st2
            }),
    {
        match k {
            Key::Char(c) => {
                if self.is_search() {
                    self.search_term.push(c);
                    None
                } else {
                    let op = self.handle_char(c);
                    Some(op)
                }
            },
            Key::Backspace => {
                if self.is_search() {
                    if self.search_term.len() > 0 {
                        self.search_term.pop();
                        None
                    } else {
                        self.clear_search_term();
                        self.toggle_search();
                        Some(OpType::Opabort)
                    }
                } else {
                    None
                }
            },
            Key::Esc => {
                if self.is_search() {
                    self.clear_search_term();
                    self.toggle_search();
                    Some(OpType::Opabort)
                } else {
                    None
                }
            },
            Key::Enter => {
                if self.is_search() {
                    self.clear_search_term();
                    self.toggle_search();
                    Some(OpType::Opabort)
                } else {
                    None
                }
            },
            Key::Other => None,
        }
    }

    /// Switches between Normal and Search mode.
    pub fn toggle_search(&mut self)
        ensures
            final(self)@ == (EngineV {
                mode: if old(self)@.mode == Mode::Normal {
                    Mode::Search
                } else {
                    Mode::Normal
                },
                ..old(self)@
            }),
    {
        match self.mode {
            Mode::Normal => {
                self.mode = Mode::Search;
            },
            Mode::Search => {
                self.mode = Mode::Normal;
            },
        }
    }

    /// The current mode.
    pub fn mode(&self) -> (r: Mode)
        ensures
            r == self@.mode,
    {
        self.mode
    }

    /// Whether the engine is in Search mode.
    pub fn is_search(&self) -> (r: bool)
        ensures
            r == (self@.mode == Mode::Search),
    {
        match self.mode {
            Mode::Normal => false,
            Mode::Search => true,
        }
    }

    /// The collected search term.
    pub fn search_term(&self) -> (r: &Vec<char>)
        ensures
            r@ == self@.search_term,
    {
        &self.search_term
    }

    /// Clears the search term.
    pub fn clear_search_term(&mut self)
        ensures
            final(self)@ == (EngineV { search_term: Seq::empty(), ..old(self)@ }),
    {
        self.search_term = Vec::new();
    }

    /// Whether the dispatcher should re-run the cursor search now: the
    /// engine is collecting a non-empty search term.
    pub fn wants_search(&self) -> (r: bool)
        ensures
            r == (self@.mode == Mode::Search && self@.search_term.len() > 0),
    {
        let s = self.is_search();
        s && self.search_term.len() > 0
    }

    /// Ends one keypress: outside Search mode the term is cleared and the
    /// resolved operation passes through; inside Search mode nothing is
    /// handed on.
    pub fn finish_key(&mut self, op: Option<OpType>) -> (r: Option<OpType>)
        ensures
            old(self)@.mode != Mode::Search ==> final(self)@ == (EngineV {
                search_term: Seq::empty(),
                ..old(self)@
            }) && r == op,
            old(self)@.mode == Mode::Search ==> final(self)@ == old(self)@ && r
                == None::<OpType>,
    {
        if !self.is_search() {
            self.clear_search_term();
            op
        } else {
            None
        }
    }
}

} // verus!
