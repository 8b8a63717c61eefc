//! A simpler, line-based command parser and renderer: the whole pending
//! line is split into a trailing command character and a leading count
//! argument, with no incremental probing.

use vstd::prelude::*;

use crate::engine::{all_digits, digits_val};
use crate::lines::{format_spec, lvs, render_row, row_spec};
use crate::listing::{evs, Entry};
use vstd::string::StringExecFns;

verus! {

/// The external programs this variant hands files to.
pub struct Config {
    pub editor: String,
    pub pager: String,
    pub shell: String,
}

impl Config {
    /// The default programs.
    pub fn new() -> (c: Config)
        ensures
            c.editor@ == "vim"@,
            c.pager@ == "less"@,
            c.shell@ == "bash"@,
    {
        Config {
            editor: String::from_str("vim"),
            pager: String::from_str("less"),
            shell: String::from_str("bash"),
        }
    }
}

/// This variant's session state: the pending command line and the search
/// flag and term.
pub struct State {
    pub config: Config,
    pub line: Vec<char>,
    pub running: bool,
    pub search: bool,
    pub search_term: Vec<char>,
}

impl State {
    /// A fresh session.
    pub fn new() -> (s: State)
        ensures
            s.line@ == Seq::<char>::empty(),
            s.running,
            !s.search,
            s.search_term@ == Seq::<char>::empty(),
    {
        State {
            config: Config::new(),
            line: Vec::new(),
            running: true,
            search: false,
            search_term: Vec::new(),
        }
    }

    /// Flips the search flag.
    pub fn toggle_search(&mut self)
        ensures
            final(self).search == !old(self).search,
            final(self).line == old(self).line,
            final(self).running == old(self).running,
            final(self).search_term == old(self).search_term,
            final(self).config == old(self).config,
    {
        self.search = !self.search;
    }
}

/// This variant's operations: moves carry their count in the separate
/// argument, so a plain and a counted form exist for `j` and `k`.
#[derive(Clone, Copy, PartialEq, Eq, Structural, Debug)]
pub enum OpType {
    Opq,
    OpG,
    Opgg,
    Opnj,
    Opj,
    Opnk,
    Opk,
    Oph,
    Opl,
    Opdot,
    Opcasing,
    Opsortdir,
    Opsortname,
    Opsortsize,
    Opsorttime,
    Opslash,
    Oppage,
    Opedit,
    Opbang,
    Noop,
}

/// The digits of a count argument: a single leading sign is not part of
/// the number.
pub open spec fn count_digits(arg: Seq<char>) -> Seq<char> {
    if arg.len() > 0 && (arg[0] == '+' || arg[0] == '-') {
        arg.drop_first()
    } else {
        arg
    }
}

/// Whether the argument carries a minus sign.
pub open spec fn count_negative(arg: Seq<char>) -> bool {
    arg.len() > 0 && arg[0] == '-'
}

/// Whether the argument is a usable repeat count: whatever the integer
/// parse accepts with a non-negative value that fits the machine range —
/// an optional sign and one or more digits (leading zeros included), the
/// value at most `i32::MAX`, and zero when the sign is minus.
pub open spec fn valid_count(arg: Seq<char>) -> bool {
    &&& count_digits(arg).len() >= 1
    &&& all_digits(count_digits(arg))
    &&& digits_val(count_digits(arg)) <= 0x7fff_ffff
    &&& (count_negative(arg) ==> digits_val(count_digits(arg)) == 0)
}

/// The command a one-character operation with a count argument denotes.
pub open spec fn spec_parse_optype(op: Seq<char>, arg: Seq<char>) -> OpType {
    if op == seq!['q'] {
        OpType::Opq
    } else if op == seq!['G'] {
        OpType::OpG
    } else if op == seq!['g'] {
        if arg == seq!['g'] {
            OpType::Opgg
        } else {
            OpType::Noop
        }
    } else if op == seq!['j'] {
        if arg.len() == 0 {
            OpType::Opj
        } else if valid_count(arg) {
            OpType::Opnj
        } else {
            OpType::Noop
        }
    } else if op == seq!['k'] {
        if arg.len() == 0 {
            OpType::Opk
        } else if valid_count(arg) {
            OpType::Opnk
        } else {
            OpType::Noop
        }
    } else if op == seq!['h'] {
        OpType::Oph
    } else if op == seq!['l'] {
        OpType::Opl
    } else if op == seq!['.'] {
        OpType::Opdot
    } else if op == seq!['i'] {
        OpType::Opcasing
    } else if op == seq!['d'] {
        OpType::Opsortdir
    } else if op == seq!['n'] {
        OpType::Opsortname
    } else if op == seq!['s'] {
        OpType::Opsortsize
    } else if op == seq!['t'] {
        OpType::Opsorttime
    } else if op == seq!['/'] {
        OpType::Opslash
    } else if op == seq!['p'] {
        OpType::Oppage
    } else if op == seq!['e'] {
        OpType::Opedit
    } else if op == seq!['!'] {
        OpType::Opbang
    } else {
        OpType::Noop
    }
}

/// A run of digits denotes a non-negative number.
proof fn lemma_digits_val_nonneg(s: Seq<char>)
    requires
        all_digits(s),
    ensures
        digits_val(s) >= 0,
    decreases s.len(),
{
    if s.len() > 0 {
        assert(all_digits(s.drop_last())) by {
            assert(forall|i: int| 0 <= i < s.len() - 1 ==> s.drop_last()[i] == s[i]);
        }
        lemma_digits_val_nonneg(s.drop_last());
    }
}

/// Scans the digit run of a count argument from `start`: whether it is a
/// non-empty run of digits whose value fits the machine range, and the
/// value where it does.
fn scan_count(arg: &Vec<char>, start: usize) -> (r: (bool, u32))
    requires
        start <= arg@.len(),
    ensures
        ({
            let d = arg@.skip(start as int);
            &&& r.0 == (d.len() >= 1 && all_digits(d) && digits_val(d) <= 0x7fff_ffff)
            &&& r.0 ==> r.1 == digits_val(d)
        }),
{
    let ghost d = arg@.skip(start as int);
    if arg.len() - start == 0 {
        return (false, 0);
    }
    let mut acc: u32 = 0;
    let mut big = false;
    let mut i: usize = start;
    while i < arg.len()
        invariant
            start <= i <= arg@.len(),
            d == arg@.skip(start as int),
            forall|j: int| 0 <= j < i - start ==> '0' <= #[trigger] d[j] <= '9',
            !big ==> acc == digits_val(d.subrange(0, i - start)) && acc <= 0x7fff_ffff,
            big ==> digits_val(d.subrange(0, i - start)) > 0x7fff_ffff,
        decreases arg@.len() - i,
    {
        let c = arg[i];
        proof {
            assert(d[i - start] == arg@[i as int]);
        }
        if c < '0' || c > '9' {
            return (false, 0);
        }
        proof {
            let pre = d.subrange(0, i - start);
            let cur = d.subrange(0, i - start + 1);
            assert(cur.drop_last() =~= pre);
            assert(cur.last() == d[i - start]);
            assert(all_digits(pre)) by {
                assert(forall|j: int| 0 <= j < pre.len() ==> pre[j] == d[j]);
            }
            lemma_digits_val_nonneg(pre);
        }
        if !big {
            let wide: u64 = (acc as u64) * 10 + ((c as u32 - 48) as u64);
            if wide > 0x7fff_ffff {
                big = true;
            } else {
                acc = wide as u32;
            }
        }
        i = i + 1;
    }
    proof {
        assert(d.subrange(0, d.len() as int) =~= d);
        assert(all_digits(d));
    }
    (!big, acc)
}

/// Whether the argument is a usable repeat count.
fn is_valid_count(arg: &Vec<char>) -> (r: bool)
    ensures
        r == valid_count(arg@),
{
    let (neg, start): (bool, usize) = if arg.len() > 0 && arg[0] == '+' {
        (false, 1)
    } else if arg.len() > 0 && arg[0] == '-' {
        (true, 1)
    } else {
        (false, 0)
    };
    proof {
        if start == 1 {
            assert(count_digits(arg@) =~= arg@.skip(1));
        } else {
            assert(count_digits(arg@) =~= arg@.skip(0));
        }
        assert(neg == count_negative(arg@));
    }
    let (ok, v) = scan_count(arg, start);
    ok && (!neg || v == 0)
}

/// Classifies a one-character operation with its count argument.
pub fn parse_optype(op: &Vec<char>, arg: &Vec<char>) -> (r: OpType)
    ensures
        r == spec_parse_optype(op@, arg@),
{
    if op.len() != 1 {
        proof {
            assert(op@.len() != 1);
        }
        return OpType::Noop;
    }
    let c = op[0];
    proof {
        assert(op@ =~= seq![op@[0]]);
    }
    match c {
        'q' => OpType::Opq,
        'G' => OpType::OpG,
        'g' => {
            if arg.len() == 1 && arg[0] == 'g' {
                proof {
                    assert(arg@ =~= seq!['g']);
                }
                OpType::Opgg
            } else {
                proof {
                    if arg@ == seq!['g'] {
                        assert(arg@.len() == 1 && arg@[0] == 'g');
                    }
                }
                OpType::Noop
            }
        },
        'j' => {
            if arg.len() == 0 {
                OpType::Opj
            } else if is_valid_count(arg) {
                OpType::Opnj
            } else {
                OpType::Noop
            }
        },
        'k' => {
            if arg.len() == 0 {
                OpType::Opk
            } else if is_valid_count(arg) {
                OpType::Opnk
            } else {
                OpType::Noop
            }
        },
        'h' => OpType::Oph,
        'l' => OpType::Opl,
        '.' => OpType::Opdot,
        'i' => OpType::Opcasing,
        'd' => OpType::Opsortdir,
        'n' => OpType::Opsortname,
        's' => OpType::Opsortsize,
        't' => OpType::Opsorttime,
        '/' => OpType::Opslash,
        'p' => OpType::Oppage,
        'e' => OpType::Opedit,
        '!' => OpType::Opbang,
        _ => OpType::Noop,
    }
}

/// One parsed command: its classification and the raw count argument.
pub struct Op {
    pub optype: OpType,
    pub arg: Vec<char>,
}

impl Op {
    /// Classifies a command character with its argument.
    pub fn new(op: Vec<char>, arg: Vec<char>) -> (r: Op)
        ensures
            r.optype == spec_parse_optype(op@, arg@),
            r.arg@ == arg@,
    {
        let t = parse_optype(&op, &arg);
        Op { optype: t, arg }
    }

    /// The repeat count the argument denotes, 1 when it is unusable.
    pub fn count(&self) -> (r: i32)
        ensures
            valid_count(self.arg@) ==> r == digits_val(count_digits(self.arg@)),
            !valid_count(self.arg@) ==> r == 1,
            r >= 0,
    {
        if !is_valid_count(&self.arg) {
            return 1;
        }
        let start: usize = if self.arg.len() > 0 && (self.arg[0] == '+' || self.arg[0] == '-') {
            1
        } else {
            0
        };
        proof {
            if start == 1 {
                assert(count_digits(self.arg@) =~= self.arg@.skip(1));
            } else {
                assert(count_digits(self.arg@) =~= self.arg@.skip(0));
            }
        }
        let (ok, v) = scan_count(&self.arg, start);
        proof {
            assert(ok);
        }
        v as i32
    }
}

/// Splits the pending line into its count prefix and trailing command
/// character, and classifies them; `None` for an empty line.
pub fn parse_op(line: &Vec<char>) -> (r: Option<Op>)
    ensures
        match r {
            Some(o) => line@.len() > 0 && o.optype == spec_parse_optype(
                seq![line@.last()],
                line@.drop_last(),
            ) && o.arg@ == line@.drop_last(),
            None => line@.len() == 0,
        },
{
    if line.len() == 0 {
        return None;
    }
    let mut op: Vec<char> = Vec::new();
    op.push(line[line.len() - 1]);
    let mut arg: Vec<char> = Vec::new();
    let mut i: usize = 0;
    while i < line.len() - 1
        invariant
            line@.len() > 0,
            i <= line@.len() - 1,
            arg@ == line@.subrange(0, i as int),
        decreases line@.len() - 1 - i,
    {
        arg.push(line[i]);
        i = i + 1;
        assert(arg@ =~= line@.subrange(0, i as int));
    }
    proof {
        assert(arg@ =~= line@.drop_last());
        assert(op@ =~= seq![line@.last()]);
    }
    Some(Op::new(op, arg))
}

/// One rendered row of this variant's display.
pub fn format_pathbuf(e: &Entry) -> (r: Vec<u8>)
    ensures
        r@ == row_spec(e@, false),
{
    render_row(e, false)
}

/// The whole line list: current directory, a blank line, then one row per
/// sibling, the row at `pos` marked; an empty listing renders as the `../`
/// placeholder.
pub fn format_lines(current_dir: &Vec<u8>, current_siblings: &Vec<Entry>, pos: usize) -> (r: Vec<
    Vec<u8>,
>)
    requires
        current_siblings@.len() > 0 ==> pos < current_siblings@.len(),
        current_siblings@.len() == 0 ==> pos == 0,
    ensures
        lvs(r@) == format_spec(
            current_dir@,
            if current_siblings@.len() > 0 {
                Some(evs(current_siblings@))
            } else {
                None
            },
            pos as int,
        ),
{
    let lines = crate::lines::Lines::new();
    if current_siblings.len() > 0 {
        let mut rows: Vec<Entry> = Vec::new();
        let mut i: usize = 0;
        while i < current_siblings.len()
            invariant
                i <= current_siblings@.len(),
                evs(rows@) == evs(current_siblings@).subrange(0, i as int),
            decreases current_siblings@.len() - i,
        {
            let ghost pre = rows@;
            let d = current_siblings[i].dup();
            rows.push(d);
            proof {
                assert(evs(pre).len() == pre.len());
                assert forall|x: int| 0 <= x < i + 1 implies evs(rows@)[x] == evs(
                    current_siblings@,
                ).subrange(0, i + 1)[x] by {
                    if x < i {
                        assert(rows@[x] == pre[x]);
                        assert(evs(pre)[x] == pre[x]@);
                        assert(evs(pre)[x] == evs(current_siblings@).subrange(0, i as int)[x]);
                    } else {
                        assert(evs(rows@)[x] == d@);
                        assert(d@ == current_siblings@[i as int]@);
                    }
                }
                assert(evs(rows@) =~= evs(current_siblings@).subrange(0, i + 1));
            }
            i = i + 1;
        }
        proof {
            assert(evs(current_siblings@).subrange(0, current_siblings@.len() as int) =~= evs(
                current_siblings@,
            ));
        }
        let sibs = Some(rows);
        lines.format(current_dir, &sibs, pos)
    } else {
        let sibs: Option<Vec<Entry>> = None;
        lines.format(current_dir, &sibs, pos)
    }
}

} // verus!
