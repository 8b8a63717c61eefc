//! The dispatcher's state and decision logic: which cursor or program
//! action a resolved operation asks for, and how it changes the session
//! flags.  Performing the action (moving a cursor, launching a program,
//! redrawing) is the surrounding event loop's job.

use vstd::prelude::*;

use crate::cursor::Sort;
use crate::engine::OpType;
use crate::paths::SEP;
use vstd::string::StringExecFns;

verus! {

/// The external programs the dispatcher hands files to.
pub struct Config {
    pub editor: String,
    pub pager: String,
    pub shell: String,
}

impl Config {
    /// The default programs.
    pub fn new() -> (c: Config)
        ensures
            c.editor@ == "vim"@,
            c.pager@ == "less"@,
            c.shell@ == "bash"@,
    {
        Config {
            editor: String::from_str("vim"),
            pager: String::from_str("less"),
            shell: String::from_str("bash"),
        }
    }
}

/// The dispatcher's session state.
pub struct State {
    pub config: Config,
    pub running: bool,
    pub status_bar: bool,
    pub tar: bool,
}

impl State {
    /// A fresh session: running, status bar hidden, filesystem backend
    /// active.
    pub fn new() -> (s: State)
        ensures
            s.running,
            !s.status_bar,
            !s.tar,
            s.config.editor@ == "vim"@,
            s.config.pager@ == "less"@,
            s.config.shell@ == "bash"@,
    {
        State { config: Config::new(), running: true, status_bar: false, tar: false }
    }
}

/// What the dispatcher knows about the selection when an operation
/// resolves; the filesystem facts come from the caller, the structural
/// ones from the path bytes.
#[derive(Clone, Copy, PartialEq, Eq, Structural, Debug)]
pub struct OpFacts {
    /// The selection is a directory (on disk, or by trailing separator).
    pub sel_is_dir: bool,
    /// The selection's file name carries a `.tar` extension.
    pub sel_is_tar: bool,
    /// The selection is the `..` placeholder.
    pub sel_is_dotdot: bool,
    /// The selection's parent is the archive container itself.
    pub at_archive_root: bool,
}

/// What the event loop should do with the active cursor or an external
/// program after an operation resolved.
#[derive(Clone, Copy, PartialEq, Eq, Structural, Debug)]
pub enum Action {
    Nothing,
    MoveBottom,
    MoveTop,
    MoveDown(i32),
    MoveUp(i32),
    MoveIn,
    MoveOut,
    ToggleHidden,
    ToggleCasing,
    SortDir,
    SortName,
    SortSize,
    SortTime,
    ToggleSearch,
    ViewFile,
    ViewArchiveMember,
    Pager,
    Editor,
    Shell,
}

/// The decision table: the session flags after the operation, and the
/// action it asks for.  Quitting flips `running`; leaving an archive at
/// its root or entering a `.tar` file flips `tar`; the status bar toggle
/// flips `status_bar`; everything else maps to one cursor or program
/// action.
pub open spec fn spec_run_op(
    running: bool,
    status_bar: bool,
    tar: bool,
    op: OpType,
    f: OpFacts,
) -> (bool, bool, bool, Action) {
    match op {
        OpType::Opq => (false, status_bar, tar, Action::Nothing),
        OpType::OpG => (running, status_bar, tar, Action::MoveBottom),
        OpType::Opgg => (running, status_bar, tar, Action::MoveTop),
        OpType::Opj(n) => (running, status_bar, tar, Action::MoveDown(n)),
        OpType::Opk(n) => (running, status_bar, tar, Action::MoveUp(n)),
        OpType::Oph => if tar && f.at_archive_root {
            (running, status_bar, false, Action::Nothing)
        } else {
            (running, status_bar, tar, Action::MoveOut)
        },
        OpType::Opl => if f.sel_is_dir {
            (running, status_bar, tar, Action::MoveIn)
        } else if f.sel_is_tar {
            (running, status_bar, true, Action::Nothing)
        } else if tar && !f.sel_is_dotdot {
            (running, status_bar, tar, Action::ViewArchiveMember)
        } else {
            (running, status_bar, tar, Action::ViewFile)
        },
        OpType::Opdot => (running, status_bar, tar, Action::ToggleHidden),
        OpType::Opcasing => (running, status_bar, tar, Action::ToggleCasing),
        OpType::Opsortdir => (running, status_bar, tar, Action::SortDir),
        OpType::Opsortname => (running, status_bar, tar, Action::SortName),
        OpType::Opsortsize => (running, status_bar, tar, Action::SortSize),
        OpType::Opsorttime => (running, status_bar, tar, Action::SortTime),
        OpType::Opslash => (running, status_bar, tar, Action::ToggleSearch),
        OpType::Oppage => (running, status_bar, tar, Action::Pager),
        OpType::Opedit => (running, status_bar, tar, Action::Editor),
        OpType::Opbang => (running, status_bar, tar, Action::Shell),
        OpType::Opquestion => (running, !status_bar, tar, Action::Nothing),
        OpType::Opabort => (running, status_bar, tar, Action::Nothing),
        OpType::Noop => (running, status_bar, tar, Action::Nothing),
    }
}

/// Applies one resolved operation to the session flags and names the
/// action the event loop should perform.
pub fn run_op(state: &mut State, op: OpType, f: OpFacts) -> (r: Action)
    ensures
        ({
            let (running, status_bar, tar, act) = spec_run_op(
                old(state).running,
                old(state).status_bar,
                old(state).tar,
                op,
                f,
            );
            &&& final(state).running == running
            &&& final(state).status_bar == status_bar
            &&& final(state).tar == tar
            &&& r == act
        }),
        final(state).config == old(state).config,
{
    match op {
        OpType::Opq => {
            state.running = false;
            Action::Nothing
        },
        OpType::OpG => Action::MoveBottom,
        OpType::Opgg => Action::MoveTop,
        OpType::Opj(n) => Action::MoveDown(n),
        OpType::Opk(n) => Action::MoveUp(n),
        OpType::Oph => {
            if state.tar && f.at_archive_root {
                state.tar = false;
                Action::Nothing
            } else {
                Action::MoveOut
            }
        },
        OpType::Opl => {
            if f.sel_is_dir {
                Action::MoveIn
            } else if f.sel_is_tar {
                state.tar = true;
                Action::Nothing
            } else if state.tar && !f.sel_is_dotdot {
                Action::ViewArchiveMember
            } else {
                Action::ViewFile
            }
        },
        OpType::Opdot => Action::ToggleHidden,
        OpType::Opcasing => Action::ToggleCasing,
        OpType::Opsortdir => Action::SortDir,
        OpType::Opsortname => Action::SortName,
        OpType::Opsortsize => Action::SortSize,
        OpType::Opsorttime => Action::SortTime,
        OpType::Opslash => Action::ToggleSearch,
        OpType::Oppage => Action::Pager,
        OpType::Opedit => Action::Editor,
        OpType::Opbang => Action::Shell,
        OpType::Opquestion => {
            state.status_bar = !state.status_bar;
            Action::Nothing
        },
        OpType::Opabort => Action::Nothing,
        OpType::Noop => Action::Nothing,
    }
}

/// `" Selected: "`.
pub open spec fn status_prefix() -> Seq<u8> {
    seq![32u8, 83u8, 101u8, 108u8, 101u8, 99u8, 116u8, 101u8, 100u8, 58u8, 32u8]
}

/// `" | Sorting: "`.
pub open spec fn status_mid() -> Seq<u8> {
    seq![32u8, 124u8, 32u8, 83u8, 111u8, 114u8, 116u8, 105u8, 110u8, 103u8, 58u8, 32u8]
}

/// The letter naming a sort mode.
pub open spec fn sort_letter(s: Sort) -> u8 {
    match s {
        Sort::Dir => 68,
        Sort::Name => 78,
        Sort::Size => 83,
        Sort::Time => 84,
    }
}

/// The status bar text: the selected entry's name (directories with a
/// trailing separator) and the active sort mode's letter.
pub open spec fn status_bar_spec(sort: Sort, name: Seq<u8>, is_dir: bool) -> Seq<u8> {
    status_prefix() + name + (if is_dir {
        seq![SEP]
    } else {
        Seq::<u8>::empty()
    }) + status_mid() + seq![sort_letter(sort)]
}

/// Builds the status bar line from the selected entry's file name.
pub fn create_status_bar(sort: Sort, name: &Vec<u8>, is_dir: bool) -> (r: Vec<u8>)
    ensures
        r@ == status_bar_spec(sort, name@, is_dir),
{
    let mut r: Vec<u8> = Vec::new();
    r.push(32);
    r.push(83);
    r.push(101);
    r.push(108);
    r.push(101);
    r.push(99);
    r.push(116);
    r.push(101);
    r.push(100);
    r.push(58);
    r.push(32);
    assert(r@ =~= status_prefix());
    let mut k: usize = 0;
    while k < name.len()
        invariant
            k <= name@.len(),
            r@ == status_prefix() + name@.subrange(0, k as int),
        decreases name@.len() - k,
    {
        r.push(name[k]);
        k = k + 1;
        assert(r@ =~= status_prefix() + name@.subrange(0, k as int));
    }
    proof {
        assert(name@.subrange(0, name@.len() as int) =~= name@);
    }
    if is_dir {
        r.push(SEP);
    }
    let ghost head = r@;
    r.push(32);
    r.push(124);
    r.push(32);
    r.push(83);
    r.push(111);
    r.push(114);
    r.push(116);
    r.push(105);
    r.push(110);
    r.push(103);
    r.push(58);
    r.push(32);
    assert(r@ =~= head + status_mid());
    match sort {
        Sort::Dir => r.push(68),
        Sort::Name => r.push(78),
        Sort::Size => r.push(83),
        Sort::Time => r.push(84),
    }
    assert(r@ =~= status_bar_spec(sort, name@, is_dir));
    r
}

} // verus!
