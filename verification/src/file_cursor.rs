//! The filesystem backend: a cursor over the live directory tree.
//!
//! The filesystem itself stays outside the library: the caller enumerates a
//! directory (fresh on every call, so the view always reflects the live
//! tree) and hands the raw listing in; every algorithm on it is the shared
//! cursor's.  The caller is also responsible for the working-directory side
//! effect that descending and ascending imply for launching external
//! programs.

use vstd::prelude::*;

use crate::cursor::{
    spec_move_bottom, spec_move_down, spec_move_in, spec_move_out, spec_move_top, spec_move_up,
    spec_reset, spec_search, nav_listing, Nav, NavV, Sort,
};
use crate::listing::{evs, matching_spec, pos_spec, Entry, EntryV};
use crate::paths::{copy_bytes, join_dotdot, parent_spec};

verus! {

/// The filesystem backend's cursor state.
pub struct FileCursor {
    nav: Nav,
    start: Option<Vec<u8>>,
}

/// The mathematical value of a [`FileCursor`].
pub ghost struct FileCursorV {
    pub nav: NavV,
    pub start: Option<Seq<u8>>,
}

impl View for FileCursor {
    type V = FileCursorV;

    closed spec fn view(&self) -> FileCursorV {
        FileCursorV {
            nav: self.nav@,
            start: match self.start {
                Some(ref s) => Some(s@),
                None => None,
            },
        }
    }
}

impl Default for FileCursor {
    /// A fresh filesystem cursor, as [`FileCursor::new`] builds it.
    fn default() -> (c: FileCursor)
        ensures
            c@.start is None,
            c@.nav == (NavV {
                hide: true,
                casing: false,
                sort: Sort::Name,
                by_name: false,
                memory: Map::empty(),
                selected: Seq::empty(),
            }),
    {
        FileCursor::new()
    }
}

impl FileCursor {
    /// A fresh filesystem cursor: no session root yet, position matched by
    /// full path.
    pub fn new() -> (c: FileCursor)
        ensures
            c@.start is None,
            c@.nav == (NavV {
                hide: true,
                casing: false,
                sort: Sort::Name,
                by_name: false,
                memory: Map::empty(),
                selected: Seq::empty(),
            }),
    {
        FileCursor { nav: Nav::new(false), start: None }
    }

    /// (Re)establishes the session root: clears the selection memory and
    /// selects the first sibling of `cwd`'s listing, or the `..`
    /// placeholder under `cwd` when it is empty.  `raw` is the raw listing
    /// of `cwd`.
    pub fn init(&mut self, cwd: Vec<u8>, raw: Vec<Entry>)
        ensures
            final(self)@.start == Some(cwd@),
            final(self)@.nav == spec_reset(
                old(self)@.nav,
                crate::paths::join_dotdot_spec(cwd@),
                evs(raw@),
            ),
    {
        let fallback = join_dotdot(&cwd);
        self.nav.reset(fallback, raw);
        self.start = Some(cwd);
    }

    /// The selected path.
    pub fn selected(&self) -> (r: Vec<u8>)
        ensures
            r@ == self@.nav.selected,
    {
        self.nav.selected()
    }

    /// The current directory: the selected path's parent.
    pub fn current_dir(&self) -> (r: Vec<u8>)
        ensures
            r@ == parent_spec(self@.nav.selected),
    {
        self.nav.current_dir()
    }

    /// The current directory's parent.
    pub fn parent(&self) -> (r: Vec<u8>)
        ensures
            r@ == parent_spec(parent_spec(self@.nav.selected)),
    {
        self.nav.parent()
    }

    /// The session root, empty before initialization.
    pub fn start_dir(&self) -> (r: Vec<u8>)
        ensures
            match self@.start {
                Some(s) => r@ == s,
                None => r@ == Seq::<u8>::empty(),
            },
    {
        match &self.start {
            Some(s) => copy_bytes(s),
            None => Vec::new(),
        }
    }

    /// The ordered, filtered listing computed from the raw enumeration of
    /// the current directory, or `None` when no entry is visible.
    pub fn current_siblings(&self, raw: Vec<Entry>) -> (r: Option<Vec<Entry>>)
        ensures
            match r {
                Some(v) => evs(v@) == nav_listing(self@.nav, evs(raw@)) && v@.len() > 0,
                None => nav_listing(self@.nav, evs(raw@)).len() == 0,
            },
    {
        self.nav.current_siblings(raw)
    }

    /// The selection's index in the listing, matched by full path.
    pub fn pos(&self, raw: Vec<Entry>) -> (r: usize)
        ensures
            r == pos_spec(
                nav_listing(self@.nav, evs(raw@)),
                self@.nav.selected,
                self@.nav.by_name,
            ),
    {
        self.nav.pos(raw)
    }

    /// The listing's entries matching the pattern, in listing order.
    pub fn matching_siblings(&self, raw: Vec<Entry>, pattern: &Vec<u8>) -> (r: Vec<Entry>)
        ensures
            evs(r@) == matching_spec(nav_listing(self@.nav, evs(raw@)), pattern@),
    {
        self.nav.matching_siblings(raw, pattern)
    }

    /// Moves the selection `n` places down, clamping at the last sibling.
    pub fn move_down(&mut self, raw: Vec<Entry>, n: i32)
        requires
            n >= 0,
        ensures
            final(self)@.nav == spec_move_down(old(self)@.nav, evs(raw@), n as int),
            final(self)@.start == old(self)@.start,
    {
        self.nav.move_down(raw, n);
    }

    /// Moves the selection `n` places up, clamping at the first sibling.
    pub fn move_up(&mut self, raw: Vec<Entry>, n: i32)
        requires
            n >= 0,
        ensures
            final(self)@.nav == spec_move_up(old(self)@.nav, evs(raw@), n as int),
            final(self)@.start == old(self)@.start,
    {
        self.nav.move_up(raw, n);
    }

    /// Selects the first sibling; a no-op on an empty listing.
    pub fn move_top(&mut self, raw: Vec<Entry>)
        ensures
            final(self)@.nav == spec_move_top(old(self)@.nav, evs(raw@)),
            final(self)@.start == old(self)@.start,
    {
        self.nav.move_top(raw);
    }

    /// Selects the last sibling; a no-op on an empty listing.
    pub fn move_bottom(&mut self, raw: Vec<Entry>)
        ensures
            final(self)@.nav == spec_move_bottom(old(self)@.nav, evs(raw@)),
            final(self)@.start == old(self)@.start,
    {
        self.nav.move_bottom(raw);
    }

    /// Descends into the selected directory.  `sel_is_dir` is whether the
    /// selection is a directory on disk; `target_raw` is the raw listing of
    /// the selected directory.  The caller changes the process working
    /// directory afterwards, when the move was effective.
    pub fn move_in(&mut self, target_raw: Vec<Entry>, sel_is_dir: bool)
        ensures
            final(self)@.nav == spec_move_in(old(self)@.nav, evs(target_raw@), sel_is_dir),
            final(self)@.start == old(self)@.start,
    {
        self.nav.move_in(target_raw, sel_is_dir);
    }

    /// Ascends to the current directory's parent.
    pub fn move_out(&mut self)
        ensures
            final(self)@.nav == spec_move_out(old(self)@.nav),
            final(self)@.start == old(self)@.start,
    {
        self.nav.move_out();
    }

    /// The active sort mode.
    pub fn sort_mode(&self) -> (r: Sort)
        ensures
            r == self@.nav.sort,
    {
        self.nav.sort_mode()
    }

    /// Flips hidden-file suppression.
    pub fn toggle_hidden_files(&mut self)
        ensures
            final(self)@.nav == (NavV { hide: !old(self)@.nav.hide, ..old(self)@.nav }),
            final(self)@.start == old(self)@.start,
    {
        self.nav.toggle_hidden_files();
    }

    /// Flips case-insensitive ordering.
    pub fn toggle_case_sensitivity(&mut self)
        ensures
            final(self)@.nav == (NavV { casing: !old(self)@.nav.casing, ..old(self)@.nav }),
            final(self)@.start == old(self)@.start,
    {
        self.nav.toggle_case_sensitivity();
    }

    /// Sets the sort mode: directories first.
    pub fn sort_dir(&mut self)
        ensures
            final(self)@.nav == (NavV { sort: Sort::Dir, ..old(self)@.nav }),
            final(self)@.start == old(self)@.start,
    {
        self.nav.sort_dir();
    }

    /// Sets the sort mode: by file name.
    pub fn sort_name(&mut self)
        ensures
            final(self)@.nav == (NavV { sort: Sort::Name, ..old(self)@.nav }),
            final(self)@.start == old(self)@.start,
    {
        self.nav.sort_name();
    }

    /// Sets the sort mode: by size.
    pub fn sort_size(&mut self)
        ensures
            final(self)@.nav == (NavV { sort: Sort::Size, ..old(self)@.nav }),
            final(self)@.start == old(self)@.start,
    {
        self.nav.sort_size();
    }

    /// Sets the sort mode: by modification time.
    pub fn sort_time(&mut self)
        ensures
            final(self)@.nav == (NavV { sort: Sort::Time, ..old(self)@.nav }),
            final(self)@.start == old(self)@.start,
    {
        self.nav.sort_time();
    }

    /// Selects the first sibling matching the pattern.
    pub fn search(&mut self, raw: Vec<Entry>, pattern: &Vec<u8>)
        ensures
            final(self)@.nav == spec_search(old(self)@.nav, evs(raw@), pattern@),
            final(self)@.start == old(self)@.start,
    {
        self.nav.search(raw, pattern);
    }
}

} // verus!
