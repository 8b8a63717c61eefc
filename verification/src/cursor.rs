//! The shared cursor: navigation state, selection memory, and the move,
//! sort, filter and search operations both backends use.
//!
//! The cursor never enumerates a directory itself: every operation that
//! needs the current directory's children takes the raw (unfiltered,
//! unsorted) listing as an argument.  The filesystem backend reads it from
//! disk at its edge; the archive backend takes it from the virtual tree.

use vstd::prelude::*;

use crate::listing::{
    compute_listing, distinct_keys, evs, lemma_find_pos_range, lemma_listing_elements,
    lemma_pos_of_member, listing_spec,
    matching_entries, matching_spec, pos_in, pos_spec, Entry, EntryV,
};
use crate::paths::{
    bytes_eq, copy_bytes, dirlike, file_name_of, file_name_spec, has_parent, has_parent_spec,
    join_dotdot, join_dotdot_spec, lemma_join_dotdot_parent, lemma_norm_idem, lemma_parent_of_norm,
    lemma_parent_shorter, norm_spec, normalize, parent_of, parent_spec, DOT,
};

verus! {

/// The active sort mode for sibling listings.
#[derive(Clone, Copy, PartialEq, Eq, Structural, Debug)]
pub enum Sort {
    Dir,
    Name,
    Size,
    Time,
}

/// Per-directory selection memory: directory path (normalized) to the child
/// that was selected when the cursor last left that directory.
///
/// Entries are append-only; the view keeps the latest binding of each key.
pub struct SelMemory {
    entries: Vec<(Vec<u8>, Vec<u8>)>,
}

/// The map a run of key/value pairs denotes, later bindings winning.
pub open spec fn assoc_view(s: Seq<(Vec<u8>, Vec<u8>)>) -> Map<Seq<u8>, Seq<u8>>
    decreases s.len(),
{
    if s.len() == 0 {
        Map::empty()
    } else {
        assoc_view(s.drop_last()).insert(s.last().0@, s.last().1@)
    }
}

impl View for SelMemory {
    type V = Map<Seq<u8>, Seq<u8>>;

    closed spec fn view(&self) -> Map<Seq<u8>, Seq<u8>> {
        assoc_view(self.entries@)
    }
}

/// A scan that finds the last binding of `k` (or none) determines the view.
proof fn lemma_assoc_get(s: Seq<(Vec<u8>, Vec<u8>)>, k: Seq<u8>, j: int)
    requires
        -1 <= j < s.len(),
        j >= 0 ==> s[j].0@ == k,
        forall|i: int| j < i < s.len() ==> (#[trigger] s[i]).0@ != k,
    ensures
        j >= 0 ==> assoc_view(s).contains_key(k) && assoc_view(s)[k] == s[j].1@,
        j < 0 ==> !assoc_view(s).contains_key(k),
    decreases s.len(),
{
    if s.len() > 0 {
        if j == s.len() - 1 {
        } else {
            assert(s.last() == s[s.len() - 1]);
            lemma_assoc_get(s.drop_last(), k, j);
        }
    }
}

impl SelMemory {
    /// An empty memory.
    pub fn new() -> (m: SelMemory)
        ensures
            m@ == Map::<Seq<u8>, Seq<u8>>::empty(),
    {
        SelMemory { entries: Vec::new() }
    }

    /// Records that `v` was the selection in directory `k`.
    pub fn insert(&mut self, k: Vec<u8>, v: Vec<u8>)
        ensures
            final(self)@ == old(self)@.insert(k@, v@),
    {
        let ghost pre = self.entries@;
        self.entries.push((k, v));
        proof {
            assert(self.entries@.drop_last() =~= pre);
        }
    }

    /// Looks up the remembered selection for directory `k`.
    pub fn get(&self, k: &Vec<u8>) -> (r: Option<Vec<u8>>)
        ensures
            match r {
                Some(v) => self@.contains_key(k@) && v@ == self@[k@],
                None => !self@.contains_key(k@),
            },
    {
        let mut i: usize = self.entries.len();
        while i > 0
            invariant
                i <= self.entries@.len(),
                forall|x: int| i <= x < self.entries@.len() ==> (#[trigger] self.entries@[x]).0@
                    != k@,
            decreases i,
        {
            i = i - 1;
            if bytes_eq(&self.entries[i].0, k) {
                proof {
                    lemma_assoc_get(self.entries@, k@, i as int);
                }
                return Some(copy_bytes(&self.entries[i].1));
            }
        }
        proof {
            lemma_assoc_get(self.entries@, k@, -1);
        }
        None
    }
}

/// The cursor's navigation state.
///
/// `by_name` selects how the position of the selection is found in a
/// listing: the archive backend matches by file name only, the filesystem
/// backend by the full path.
pub struct Nav {
    pub hide: bool,
    pub casing: bool,
    pub sort: Sort,
    pub by_name: bool,
    pub memory: SelMemory,
    pub selected: Vec<u8>,
}

/// The mathematical value of a [`Nav`].
pub ghost struct NavV {
    pub hide: bool,
    pub casing: bool,
    pub sort: Sort,
    pub by_name: bool,
    pub memory: Map<Seq<u8>, Seq<u8>>,
    pub selected: Seq<u8>,
}

impl View for Nav {
    type V = NavV;

    open spec fn view(&self) -> NavV {
        NavV {
            hide: self.hide,
            casing: self.casing,
            sort: self.sort,
            by_name: self.by_name,
            memory: self.memory@,
            selected: self.selected@,
        }
    }
}

/// The listing the cursor computes from a raw enumeration of the current
/// directory, under its flags and sort mode.
pub open spec fn nav_listing(c: NavV, raw: Seq<EntryV>) -> Seq<EntryV> {
    listing_spec(raw, c.hide, c.casing, c.sort)
}

/// The state with a different selection.
pub open spec fn with_sel(c: NavV, sel: Seq<u8>) -> NavV {
    NavV { selected: sel, ..c }
}

/// Selection memory is well-formed when every remembered selection lies in
/// the directory it is remembered for.
pub open spec fn memory_wf(m: Map<Seq<u8>, Seq<u8>>) -> bool {
    forall|k: Seq<u8>| m.contains_key(k) ==> parent_spec(#[trigger] m[k]) == k
}

impl Nav {
    /// A fresh cursor: hidden files suppressed, case-sensitive ordering,
    /// sorted by name, nothing selected yet.
    pub fn new(by_name: bool) -> (n: Nav)
        ensures
            n@ == (NavV {
                hide: true,
                casing: false,
                sort: Sort::Name,
                by_name,
                memory: Map::empty(),
                selected: Seq::empty(),
            }),
    {
        let n = Nav {
            hide: true,
            casing: false,
            sort: Sort::Name,
            by_name,
            memory: SelMemory::new(),
            selected: Vec::new(),
        };
        n
    }

    /// The selected path.
    pub fn selected(&self) -> (r: Vec<u8>)
        ensures
            r@ == self@.selected,
    {
        copy_bytes(&self.selected)
    }

    /// The current directory: the selected path's parent.
    pub fn current_dir(&self) -> (r: Vec<u8>)
        ensures
            r@ == parent_spec(self@.selected),
    {
        parent_of(&self.selected)
    }

    /// The current directory's parent.
    pub fn parent(&self) -> (r: Vec<u8>)
        ensures
            r@ == parent_spec(parent_spec(self@.selected)),
    {
        let cd = parent_of(&self.selected);
        parent_of(&cd)
    }

    /// The active sort mode.
    pub fn sort_mode(&self) -> (r: Sort)
        ensures
            r == self@.sort,
    {
        self.sort
    }

    /// Flips hidden-file suppression; the next listing reflects it.
    pub fn toggle_hidden_files(&mut self)
        ensures
            final(self)@ == (NavV { hide: !old(self)@.hide, ..old(self)@ }),
    {
        self.hide = !self.hide;
    }

    /// Flips case-insensitive ordering; the next listing reflects it.
    pub fn toggle_case_sensitivity(&mut self)
        ensures
            final(self)@ == (NavV { casing: !old(self)@.casing, ..old(self)@ }),
    {
        self.casing = !self.casing;
    }

    /// Sets the sort mode: directories first.
    pub fn sort_dir(&mut self)
        ensures
            final(self)@ == (NavV { sort: Sort::Dir, ..old(self)@ }),
    {
        self.sort = Sort::Dir;
    }

    /// Sets the sort mode: by file name.
    pub fn sort_name(&mut self)
        ensures
            final(self)@ == (NavV { sort: Sort::Name, ..old(self)@ }),
    {
        self.sort = Sort::Name;
    }

    /// Sets the sort mode: by size, ascending.
    pub fn sort_size(&mut self)
        ensures
            final(self)@ == (NavV { sort: Sort::Size, ..old(self)@ }),
    {
        self.sort = Sort::Size;
    }

    /// Sets the sort mode: by modification time, ascending.
    pub fn sort_time(&mut self)
        ensures
            final(self)@ == (NavV { sort: Sort::Time, ..old(self)@ }),
    {
        self.sort = Sort::Time;
    }

    /// The ordered, filtered listing of the current directory, or `None`
    /// when no entry is visible.  A pure function of the raw listing and
    /// the cursor's flags: repeated calls on the same input agree.
    pub fn current_siblings(&self, raw: Vec<Entry>) -> (r: Option<Vec<Entry>>)
        ensures
            match r {
                Some(v) => evs(v@) == nav_listing(self@, evs(raw@)) && v@.len() > 0,
                None => nav_listing(self@, evs(raw@)).len() == 0,
            },
    {
        let sibs = compute_listing(raw, self.hide, self.casing, self.sort);
        if sibs.len() > 0 {
            Some(sibs)
        } else {
            None
        }
    }

    /// The selection's index in the listing, 0 when it is not listed.
    pub fn pos(&self, raw: Vec<Entry>) -> (r: usize)
        ensures
            r == pos_spec(nav_listing(self@, evs(raw@)), self@.selected, self@.by_name),
            r <= nav_listing(self@, evs(raw@)).len(),
    {
        let sibs = compute_listing(raw, self.hide, self.casing, self.sort);
        proof {
            lemma_find_pos_range(evs(sibs@), self@.selected, self@.by_name);
        }
        pos_in(&sibs, &self.selected, self.by_name)
    }

    /// The listing's entries whose lower-cased path text contains the
    /// lower-cased pattern, in listing order.
    pub fn matching_siblings(&self, raw: Vec<Entry>, pattern: &Vec<u8>) -> (r: Vec<Entry>)
        ensures
            evs(r@) == matching_spec(nav_listing(self@, evs(raw@)), pattern@),
    {
        let sibs = compute_listing(raw, self.hide, self.casing, self.sort);
        matching_entries(&sibs, pattern)
    }

    /// Moves the selection `n` places down, clamping at the last sibling:
    /// from index `i` in a listing of `k` entries it lands on
    /// `min(i + n, k - 1)`.  A no-op on an empty listing.
    pub fn move_down(&mut self, raw: Vec<Entry>, n: i32)
        requires
            n >= 0,
        ensures
            final(self)@ == spec_move_down(old(self)@, evs(raw@), n as int),
    {
        let sibs = compute_listing(raw, self.hide, self.casing, self.sort);
        if sibs.len() == 0 {
            return;
        }
        let i = pos_in(&sibs, &self.selected, self.by_name);
        let len = sibs.len();
        let step = n as usize;
        let j = if step < len - i {
            i + step
        } else {
            len - 1
        };
        self.selected = copy_bytes(&sibs[j].path);
        proof {
            assert(evs(sibs@)[j as int].path == sibs@[j as int]@.path);
        }
    }

    /// Moves the selection `n` places up, clamping at the first sibling:
    /// from index `i` it lands on `max(i - n, 0)`.  A no-op on an empty
    /// listing.
    pub fn move_up(&mut self, raw: Vec<Entry>, n: i32)
        requires
            n >= 0,
        ensures
            final(self)@ == spec_move_up(old(self)@, evs(raw@), n as int),
    {
        let sibs = compute_listing(raw, self.hide, self.casing, self.sort);
        if sibs.len() == 0 {
            return;
        }
        let i = pos_in(&sibs, &self.selected, self.by_name);
        let step = n as usize;
        let j = if i >= step {
            i - step
        } else {
            0
        };
        self.selected = copy_bytes(&sibs[j].path);
        proof {
            assert(evs(sibs@)[j as int].path == sibs@[j as int]@.path);
        }
    }

    /// Selects the first sibling; a no-op on an empty listing (it clamps,
    /// it never indexes out of bounds).
    pub fn move_top(&mut self, raw: Vec<Entry>)
        ensures
            final(self)@ == spec_move_top(old(self)@, evs(raw@)),
    {
        let sibs = compute_listing(raw, self.hide, self.casing, self.sort);
        if sibs.len() == 0 {
            return;
        }
        self.selected = copy_bytes(&sibs[0].path);
        proof {
            assert(evs(sibs@)[0].path == sibs@[0]@.path);
        }
    }

    /// Selects the last sibling; a no-op on an empty listing.
    pub fn move_bottom(&mut self, raw: Vec<Entry>)
        ensures
            final(self)@ == spec_move_bottom(old(self)@, evs(raw@)),
    {
        let sibs = compute_listing(raw, self.hide, self.casing, self.sort);
        if sibs.len() == 0 {
            return;
        }
        let j = sibs.len() - 1;
        self.selected = copy_bytes(&sibs[j].path);
        proof {
            assert(evs(sibs@)[j as int].path == sibs@[j as int]@.path);
        }
    }

    /// Selects the first sibling matching the pattern; a no-op when none
    /// matches.
    pub fn search(&mut self, raw: Vec<Entry>, pattern: &Vec<u8>)
        ensures
            final(self)@ == spec_search(old(self)@, evs(raw@), pattern@),
    {
        let sibs = compute_listing(raw, self.hide, self.casing, self.sort);
        let matches = matching_entries(&sibs, pattern);
        if matches.len() > 0 {
            self.selected = copy_bytes(&matches[0].path);
            proof {
                assert(evs(matches@)[0].path == matches@[0]@.path);
            }
        }
    }

    /// Descends into the selected directory.  Effective only when the
    /// selection is a directory, is not the current directory itself, and
    /// is not the `..` placeholder.  Records the current selection in
    /// memory, then selects the remembered child of the target, its first
    /// sibling, or the `..` placeholder when it is empty.
    ///
    /// `target_raw` is the raw listing of the selected directory;
    /// `sel_is_dir` is whether the selection is a directory (the
    /// filesystem backend asks the filesystem, the archive backend the
    /// trailing separator).
    pub fn move_in(&mut self, target_raw: Vec<Entry>, sel_is_dir: bool)
        ensures
            final(self)@ == spec_move_in(old(self)@, evs(target_raw@), sel_is_dir),
    {
        let cd = parent_of(&self.selected);
        if !sel_is_dir {
            return;
        }
        if bytes_eq(&self.selected, &cd) {
            return;
        }
        let name = file_name_of(&self.selected);
        if name.len() == 2 && name[0] == DOT && name[1] == DOT {
            proof {
                assert(name@ =~= seq![DOT, DOT]);
            }
            return;
        }
        proof {
            if file_name_spec(self@.selected) == seq![DOT, DOT] {
                assert(name@[0] == DOT && name@[1] == DOT && name@.len() == 2);
            }
        }
        self.memory.insert(cd, copy_bytes(&self.selected));
        let key = normalize(&self.selected);
        match self.memory.get(&key) {
            Some(p) => {
                self.selected = p;
            },
            None => {
                let sibs = compute_listing(target_raw, self.hide, self.casing, self.sort);
                if sibs.len() > 0 {
                    self.selected = copy_bytes(&sibs[0].path);
                    proof {
                        assert(evs(sibs@)[0].path == sibs@[0]@.path);
                    }
                } else {
                    self.selected = join_dotdot(&self.selected);
                }
            },
        }
    }

    /// Ascends to the current directory's parent.  Effective only when the
    /// current directory has one.  Records the current selection in memory,
    /// then restores the parent's remembered selection, falling back to the
    /// directory just exited.
    pub fn move_out(&mut self)
        ensures
            final(self)@ == spec_move_out(old(self)@),
    {
        let cd = parent_of(&self.selected);
        if !has_parent(&cd) {
            return;
        }
        let up = parent_of(&cd);
        self.memory.insert(copy_bytes(&cd), copy_bytes(&self.selected));
        match self.memory.get(&up) {
            Some(p) => {
                self.selected = p;
            },
            None => {
                self.selected = cd;
            },
        }
    }

    /// Re-establishes a session root: clears the selection memory and
    /// selects the first sibling of the root's listing, falling back to
    /// `fallback` when the root is empty.
    pub fn reset(&mut self, fallback: Vec<u8>, raw: Vec<Entry>)
        ensures
            final(self)@ == spec_reset(old(self)@, fallback@, evs(raw@)),
    {
        self.memory = SelMemory::new();
        let sibs = compute_listing(raw, self.hide, self.casing, self.sort);
        if sibs.len() > 0 {
            self.selected = copy_bytes(&sibs[0].path);
            proof {
                assert(evs(sibs@)[0].path == sibs@[0]@.path);
            }
        } else {
            self.selected = fallback;
        }
    }
}

/// One step down: the selection lands on `min(i + n, k - 1)`.
pub open spec fn spec_move_down(c: NavV, raw: Seq<EntryV>, n: int) -> NavV {
    let sibs = nav_listing(c, raw);
    if sibs.len() == 0 {
        c
    } else {
        let i = pos_spec(sibs, c.selected, c.by_name);
        let j = vstd::math::min(i + n, sibs.len() - 1);
        with_sel(c, sibs[j].path)
    }
}

/// One step up: the selection lands on `max(i - n, 0)`.
pub open spec fn spec_move_up(c: NavV, raw: Seq<EntryV>, n: int) -> NavV {
    let sibs = nav_listing(c, raw);
    if sibs.len() == 0 {
        c
    } else {
        let i = pos_spec(sibs, c.selected, c.by_name);
        let j = vstd::math::max(i - n, 0);
        with_sel(c, sibs[j].path)
    }
}

/// Select the first sibling (no-op when the listing is empty).
pub open spec fn spec_move_top(c: NavV, raw: Seq<EntryV>) -> NavV {
    let sibs = nav_listing(c, raw);
    if sibs.len() == 0 {
        c
    } else {
        with_sel(c, sibs[0].path)
    }
}

/// Select the last sibling (no-op when the listing is empty).
pub open spec fn spec_move_bottom(c: NavV, raw: Seq<EntryV>) -> NavV {
    let sibs = nav_listing(c, raw);
    if sibs.len() == 0 {
        c
    } else {
        with_sel(c, sibs[sibs.len() - 1].path)
    }
}

/// Select the first match of the pattern (no-op when nothing matches).
pub open spec fn spec_search(c: NavV, raw: Seq<EntryV>, pat: Seq<u8>) -> NavV {
    let m = matching_spec(nav_listing(c, raw), pat);
    if m.len() == 0 {
        c
    } else {
        with_sel(c, m[0].path)
    }
}

/// When descending is effective: the selection is a directory, not the
/// current directory itself, and not the `..` placeholder.
pub open spec fn move_in_enabled(c: NavV, sel_is_dir: bool) -> bool {
    sel_is_dir && c.selected != parent_spec(c.selected) && file_name_spec(c.selected) != seq![
        DOT,
        DOT,
    ]
}

/// Descending: record the selection under the current directory, then
/// select the target's remembered child, its first sibling, or the `..`
/// placeholder.
pub open spec fn spec_move_in(c: NavV, target_raw: Seq<EntryV>, sel_is_dir: bool) -> NavV {
    if !move_in_enabled(c, sel_is_dir) {
        c
    } else {
        let cd = parent_spec(c.selected);
        let mem = c.memory.insert(cd, c.selected);
        let key = norm_spec(c.selected);
        let sel = if mem.contains_key(key) {
            mem[key]
        } else {
            let sibs = nav_listing(c, target_raw);
            if sibs.len() > 0 {
                sibs[0].path
            } else {
                join_dotdot_spec(c.selected)
            }
        };
        NavV { memory: mem, selected: sel, ..c }
    }
}

/// Ascending: record the selection under the current directory, then
/// restore the parent's remembered selection or fall back to the directory
/// just exited.
pub open spec fn spec_move_out(c: NavV) -> NavV {
    let cd = parent_spec(c.selected);
    if !has_parent_spec(cd) {
        c
    } else {
        let mem = c.memory.insert(cd, c.selected);
        let up = parent_spec(cd);
        let sel = if mem.contains_key(up) {
            mem[up]
        } else {
            cd
        };
        NavV { memory: mem, selected: sel, ..c }
    }
}

/// Re-establishing a session root.
pub open spec fn spec_reset(c: NavV, fallback: Seq<u8>, raw: Seq<EntryV>) -> NavV {
    let sibs = nav_listing(c, raw);
    let sel = if sibs.len() > 0 {
        sibs[0].path
    } else {
        fallback
    };
    NavV { memory: Map::empty(), selected: sel, ..c }
}

/// Flipping hidden-file suppression.
pub open spec fn spec_toggle_hidden(c: NavV) -> NavV {
    NavV { hide: !c.hide, ..c }
}

/// Toggling hidden files twice restores the cursor state exactly, so any
/// listing computed afterwards equals the one computed before.
pub proof fn lemma_toggle_hidden_round_trip(c: NavV, raw: Seq<EntryV>)
    ensures
        spec_toggle_hidden(spec_toggle_hidden(c)) == c,
        nav_listing(spec_toggle_hidden(spec_toggle_hidden(c)), raw) == nav_listing(c, raw),
{
    assert(spec_toggle_hidden(spec_toggle_hidden(c)) == c);
}

/// Down-moves land where they say: where the listing's entries have
/// pairwise distinct selection keys (true of a real directory), the
/// position after a down-move from index `i` over `k` siblings is exactly
/// `min(i + n, k - 1)`.
pub proof fn lemma_move_down_lands(c: NavV, raw: Seq<EntryV>, n: int)
    requires
        n >= 0,
        nav_listing(c, raw).len() > 0,
        distinct_keys(nav_listing(c, raw), c.by_name),
    ensures
        pos_spec(nav_listing(c, raw), spec_move_down(c, raw, n).selected, c.by_name)
            == vstd::math::min(
            pos_spec(nav_listing(c, raw), c.selected, c.by_name) + n,
            nav_listing(c, raw).len() - 1,
        ),
{
    let sibs = nav_listing(c, raw);
    lemma_find_pos_range(sibs, c.selected, c.by_name);
    let i = pos_spec(sibs, c.selected, c.by_name);
    let j = vstd::math::min(i + n, sibs.len() - 1);
    lemma_pos_of_member(sibs, j, c.by_name);
}

/// Up-moves land where they say: under the same distinct-keys hypothesis,
/// the position after an up-move from index `i` is exactly `max(i - n, 0)`.
pub proof fn lemma_move_up_lands(c: NavV, raw: Seq<EntryV>, n: int)
    requires
        n >= 0,
        nav_listing(c, raw).len() > 0,
        distinct_keys(nav_listing(c, raw), c.by_name),
    ensures
        pos_spec(nav_listing(c, raw), spec_move_up(c, raw, n).selected, c.by_name)
            == vstd::math::max(pos_spec(nav_listing(c, raw), c.selected, c.by_name) - n, 0),
{
    let sibs = nav_listing(c, raw);
    lemma_find_pos_range(sibs, c.selected, c.by_name);
    let i = pos_spec(sibs, c.selected, c.by_name);
    let j = vstd::math::max(i - n, 0);
    lemma_pos_of_member(sibs, j, c.by_name);
}

/// Sort determinism: the sibling listing is a function of the raw
/// enumeration and the cursor's flags alone, so for a fixed set of
/// siblings and a fixed mode, repeated listings agree.
pub proof fn lemma_siblings_deterministic(c: NavV, raw1: Seq<EntryV>, raw2: Seq<EntryV>)
    requires
        raw1 == raw2,
    ensures
        nav_listing(c, raw1) == nav_listing(c, raw2),
{
}

/// Descending records the selection under its own parent, so memory
/// well-formedness is preserved.
pub proof fn lemma_move_in_preserves_wf(c: NavV, target_raw: Seq<EntryV>, sel_is_dir: bool)
    requires
        memory_wf(c.memory),
    ensures
        memory_wf(spec_move_in(c, target_raw, sel_is_dir).memory),
{
    if move_in_enabled(c, sel_is_dir) {
        let cd = parent_spec(c.selected);
        let mem = c.memory.insert(cd, c.selected);
        assert forall|k: Seq<u8>| mem.contains_key(k) implies parent_spec(#[trigger] mem[k])
            == k by {
            if k != cd {
                assert(c.memory.contains_key(k));
            }
        }
    }
}

/// Ascending records the selection under its own parent, so memory
/// well-formedness is preserved.
pub proof fn lemma_move_out_preserves_wf(c: NavV)
    requires
        memory_wf(c.memory),
    ensures
        memory_wf(spec_move_out(c).memory),
{
    let cd = parent_spec(c.selected);
    if has_parent_spec(cd) {
        let mem = c.memory.insert(cd, c.selected);
        assert forall|k: Seq<u8>| mem.contains_key(k) implies parent_spec(#[trigger] mem[k])
            == k by {
            if k != cd {
                assert(c.memory.contains_key(k));
            }
        }
    }
}

/// Round trip: descending into the selected directory and immediately
/// ascending restores the exact previously selected path.
///
/// The selection must be a directory-like path on which descending is
/// effective, the target listing must consist of the selected directory's
/// children, and the selection memory must be well-formed (which the
/// cursor's own operations preserve).
pub proof fn lemma_move_in_out_round_trip(c: NavV, target_raw: Seq<EntryV>, sel_is_dir: bool)
    requires
        memory_wf(c.memory),
        move_in_enabled(c, sel_is_dir),
        dirlike(c.selected),
        forall|i: int|
            0 <= i < target_raw.len() ==> parent_spec((#[trigger] target_raw[i]).path)
                == norm_spec(c.selected),
    ensures
        spec_move_out(spec_move_in(c, target_raw, sel_is_dir)).selected == c.selected,
{
    let s = c.selected;
    let q = norm_spec(s);
    let cd = parent_spec(s);
    lemma_norm_idem(s);
    lemma_parent_of_norm(s);
    lemma_parent_shorter(q);
    assert(parent_spec(q) == cd);
    assert(q != cd);

    let c1 = spec_move_in(c, target_raw, sel_is_dir);
    let mem1 = c.memory.insert(cd, s);
    let sel1 = c1.selected;
    assert(c1.memory == mem1);

    if mem1.contains_key(q) {
        assert(mem1[q] == c.memory[q]);
        assert(parent_spec(sel1) == q);
    } else {
        let sibs = nav_listing(c, target_raw);
        if sibs.len() > 0 {
            lemma_listing_elements(target_raw, c.hide, c.casing, c.sort);
            assert(sibs.contains(sibs[0]));
            let x = sibs[0];
            assert(target_raw.contains(x));
            let i = choose|i: int| 0 <= i < target_raw.len() && target_raw[i] == x;
            assert(parent_spec(target_raw[i].path) == q);
            assert(parent_spec(sel1) == q);
        } else {
            lemma_join_dotdot_parent(s);
            assert(parent_spec(sel1) == q);
        }
    }

    let cd1 = parent_spec(sel1);
    assert(cd1 == q);
    assert(has_parent_spec(cd1));
    let mem2 = mem1.insert(q, sel1);
    let up = parent_spec(cd1);
    assert(up == cd);
    assert(mem2.contains_key(cd));
    assert(mem2[cd] == s);
    assert(spec_move_out(c1).selected == s);
}

} // verus!
