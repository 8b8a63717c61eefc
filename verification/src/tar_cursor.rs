//! The archive backend: a cursor over a virtual tree parsed out of a tar
//! byte stream.
//!
//! On initialization every member's synthetic full path is computed as
//! `container/entryPath`; directory-ness is the stored trailing separator
//! (no filesystem metadata exists for virtual entries, so sizes and times
//! are 0).  The children of a directory are the members whose synthetic
//! parent it is, in archive order.  Navigation reuses the shared cursor;
//! the position of the selection is matched by file name only, a
//! deliberate looseness that tolerates the synthetic path reconstruction
//! not being byte-identical to the stored member paths.

use std::io::Read;

use vstd::prelude::*;

use crate::cursor::{
    lemma_move_in_out_round_trip, memory_wf, move_in_enabled, spec_move_bottom, spec_move_down,
    spec_move_in, spec_move_out, spec_move_top, spec_move_up, spec_reset, spec_search, nav_listing,
    Nav, NavV, Sort,
};
use crate::listing::{evs, matching_spec, pos_spec, Entry, EntryV};
use crate::paths::{
    bytes_eq, copy_bytes, dirlike, join_dotdot, join_dotdot_spec, norm_spec, normalize, parent_of,
    parent_spec, SEP,
};

verus! {

/// One archive member: its stored path and its raw contents.
pub struct TarEntry {
    pub path: Vec<u8>,
    pub data: Vec<u8>,
}

/// The views of a run of archive members.
pub open spec fn tevs(s: Seq<TarEntry>) -> Seq<(Seq<u8>, Seq<u8>)> {
    s.map_values(|t: TarEntry| (t.path@, t.data@))
}

/// What the tar format stores in an archive byte stream: each member's
/// path bytes and contents, in order.  A function of the bytes alone.
pub uninterp spec fn archive_listing(data: Seq<u8>) -> Seq<(Seq<u8>, Seq<u8>)>;

/// Whether the byte stream parses as a tar archive, end to end.  Parsing
/// an in-memory buffer is deterministic, so this too is a function of the
/// bytes alone.
pub uninterp spec fn archive_ok(data: Seq<u8>) -> bool;

/// Relies on tar::Archive::entries over an in-memory reader: iterating it
/// yields the archive's members in order, each member's stored path bytes
/// coming from tar::Entry::path_bytes and its contents from tar::Entry's
/// Read implementation.  What comes back, and whether every member parses,
/// is a function of the archive bytes alone; a malformed stream gives
/// None.
#[verifier::external_body]
fn read_archive(data: &Vec<u8>) -> (r: Option<Vec<TarEntry>>)
    ensures
        r matches Some(v) ==> tevs(v@) == archive_listing(data@),
        r is Some <==> archive_ok(data@),
{
    let mut archive = tar::Archive::new(&data[..]);
    let mut out: Vec<TarEntry> = Vec::new();
    for entry in archive.entries().ok()? {
        let mut entry = entry.ok()?;
        let path = entry.path_bytes().to_vec();
        let mut data: Vec<u8> = Vec::new();
        entry.read_to_end(&mut data).ok()?;
        out.push(TarEntry { path, data });
    }
    Some(out)
}

/// The synthetic full path of an archive member under the container root.
pub open spec fn full_path_spec(root: Seq<u8>, ep: Seq<u8>) -> Seq<u8> {
    root + seq![SEP] + ep
}

/// The directory entry an archive member denotes.
pub open spec fn arc_entry_spec(root: Seq<u8>, ep: Seq<u8>) -> EntryV {
    EntryV {
        path: full_path_spec(root, ep),
        is_dir: ep.len() > 0 && ep.last() == SEP,
        size: 0,
        mtime: 0,
    }
}

/// The virtual tree's entries, in archive order.
pub open spec fn arc_entries_spec(listing: Seq<(Seq<u8>, Seq<u8>)>, root: Seq<u8>) -> Seq<EntryV> {
    listing.map_values(|p: (Seq<u8>, Seq<u8>)| arc_entry_spec(root, p.0))
}

/// The children of directory `d`: the members whose synthetic parent is
/// `d`, in archive order.
pub open spec fn children_spec(all: Seq<EntryV>, d: Seq<u8>) -> Seq<EntryV>
    decreases all.len(),
{
    if all.len() == 0 {
        all
    } else if parent_spec(all.last().path) == d {
        children_spec(all.drop_last(), d).push(all.last())
    } else {
        children_spec(all.drop_last(), d)
    }
}

/// One step of child collection.
proof fn lemma_children_push(all: Seq<EntryV>, e: EntryV, d: Seq<u8>)
    ensures
        children_spec(all.push(e), d) == if parent_spec(e.path) == d {
            children_spec(all, d).push(e)
        } else {
            children_spec(all, d)
        },
{
    let t = all.push(e);
    assert(t.drop_last() =~= all);
    assert(t.last() == e);
}

/// Every child's synthetic parent is the directory it is listed under.
pub proof fn lemma_children_parent(all: Seq<EntryV>, d: Seq<u8>)
    ensures
        forall|i: int|
            0 <= i < children_spec(all, d).len() ==> parent_spec(
                (#[trigger] children_spec(all, d)[i]).path,
            ) == d,
    decreases all.len(),
{
    if all.len() > 0 {
        lemma_children_parent(all.drop_last(), d);
        let c = children_spec(all, d);
        let below = children_spec(all.drop_last(), d);
        assert forall|i: int| 0 <= i < c.len() implies parent_spec((#[trigger] c[i]).path)
            == d by {
            if parent_spec(all.last().path) == d && i == c.len() - 1 {
                assert(c[i] == all.last());
            } else {
                assert(c[i] == below[i]);
            }
        }
    }
}

/// Copies out the children of directory `d`.
fn children_of(all: &Vec<Entry>, d: &Vec<u8>) -> (r: Vec<Entry>)
    ensures
        evs(r@) == children_spec(evs(all@), d@),
{
    let ghost orig = evs(all@);
    let mut r: Vec<Entry> = Vec::new();
    let mut j: usize = 0;
    proof {
        assert(orig.subrange(0, 0) =~= Seq::<EntryV>::empty());
        assert(evs(r@) =~= children_spec(orig.subrange(0, 0), d@));
    }
    while j < all.len()
        invariant
            j <= all@.len(),
            orig == evs(all@),
            evs(r@) == children_spec(orig.subrange(0, j as int), d@),
        decreases all@.len() - j,
    {
        let ghost pre_r = r@;
        let e = &all[j];
        let p = parent_of(&e.path);
        let keep = bytes_eq(&p, d);
        if keep {
            r.push(e.dup());
        }
        proof {
            assert(e@ == orig[j as int]);
            let below = orig.subrange(0, j as int);
            let upto = orig.subrange(0, j + 1);
            assert(upto =~= below.push(orig[j as int]));
            lemma_children_push(below, orig[j as int], d@);
            if keep {
                assert(evs(r@) =~= pre_r.map_values(|x: Entry| x@).push(orig[j as int]));
            }
        }
        j = j + 1;
    }
    proof {
        assert(orig.subrange(0, orig.len() as int) =~= orig);
    }
    r
}

/// Round trip in the archive backend: the listing its descend hands the
/// shared cursor consists of the selected directory's children by
/// construction, so descending into the selected directory and immediately
/// ascending restores the previously selected path, with no hypothesis
/// about the listing itself.
pub proof fn lemma_tar_move_in_out_round_trip(c: TarCursorV)
    requires
        memory_wf(c.nav.memory),
        dirlike(c.nav.selected),
        move_in_enabled(c.nav, c.nav.selected.len() > 0 && c.nav.selected.last() == SEP),
    ensures
        spec_move_out(
            spec_move_in(
                c.nav,
                children_spec(c.all, norm_spec(c.nav.selected)),
                c.nav.selected.len() > 0 && c.nav.selected.last() == SEP,
            ),
        ).selected == c.nav.selected,
{
    let target = children_spec(c.all, norm_spec(c.nav.selected));
    lemma_children_parent(c.all, norm_spec(c.nav.selected));
    lemma_move_in_out_round_trip(
        c.nav,
        target,
        c.nav.selected.len() > 0 && c.nav.selected.last() == SEP,
    );
}

/// Index of the first archive member stored under `rel`, or -1.
pub open spec fn find_member(listing: Seq<(Seq<u8>, Seq<u8>)>, rel: Seq<u8>) -> int
    decreases listing.len(),
{
    if listing.len() == 0 {
        -1
    } else if listing[0].0 == rel {
        0
    } else {
        let r = find_member(listing.drop_first(), rel);
        if r < 0 {
            -1
        } else {
            r + 1
        }
    }
}

/// `find_member` is determined by the first matching scan position.
proof fn lemma_find_member_at(listing: Seq<(Seq<u8>, Seq<u8>)>, rel: Seq<u8>, j: int)
    requires
        0 <= j <= listing.len(),
        forall|k: int| 0 <= k < j ==> (#[trigger] listing[k]).0 != rel,
        j < listing.len() ==> listing[j].0 == rel,
    ensures
        find_member(listing, rel) == if j < listing.len() {
            j
        } else {
            -1
        },
    decreases j,
{
    if j > 0 {
        lemma_find_member_at(listing.drop_first(), rel, j - 1);
        assert(forall|k: int|
            0 <= k < listing.drop_first().len() ==> listing.drop_first()[k] == listing[k + 1]);
    }
}

/// The contents of the first member stored under `rel`, or `None` when
/// no member's path matches.
pub fn member_content(entries: &Vec<TarEntry>, rel: &Vec<u8>) -> (r: Option<Vec<u8>>)
    ensures
        match r {
            Some(bytes) => find_member(tevs(entries@), rel@) >= 0 && bytes@ == tevs(entries@)[
                find_member(tevs(entries@), rel@)
            ].1,
            None => find_member(tevs(entries@), rel@) == -1,
        },
{
    let mut j: usize = 0;
    while j < entries.len()
        invariant
            j <= entries@.len(),
            forall|k: int| 0 <= k < j ==> (#[trigger] tevs(entries@)[k]).0 != rel@,
        decreases entries@.len() - j,
    {
        if bytes_eq(&entries[j].path, rel) {
            proof {
                assert(tevs(entries@)[j as int].0 == rel@);
                lemma_find_member_at(tevs(entries@), rel@, j as int);
            }
            return Some(copy_bytes(&entries[j].data));
        }
        proof {
            assert(tevs(entries@)[j as int].0 == entries@[j as int].path@);
        }
        j = j + 1;
    }
    proof {
        lemma_find_member_at(tevs(entries@), rel@, entries@.len() as int);
    }
    None
}

/// The member's path relative to the container root: defined when the path
/// is `root`, a separator, and a non-empty rest.
pub open spec fn rel_spec(root: Seq<u8>, p: Seq<u8>) -> Option<Seq<u8>> {
    if p.len() > root.len() + 1 && p.subrange(0, root.len() as int) == root && p[root.len() as int]
        == SEP {
        Some(p.subrange(root.len() as int + 1, p.len() as int))
    } else {
        None
    }
}

/// Strips the container root and its separator off a synthetic path.
fn strip_root(root: &Vec<u8>, p: &Vec<u8>) -> (r: Option<Vec<u8>>)
    ensures
        match r {
            Some(v) => rel_spec(root@, p@) == Some(v@),
            None => rel_spec(root@, p@) is None,
        },
{
    if root.len() >= p.len() || p.len() - root.len() < 2 {
        return None;
    }
    if p[root.len()] != SEP {
        return None;
    }
    let mut k: usize = 0;
    while k < root.len()
        invariant
            k <= root@.len(),
            root@.len() + 1 < p@.len(),
            forall|i: int| 0 <= i < k ==> p@[i] == root@[i],
        decreases root@.len() - k,
    {
        if p[k] != root[k] {
            proof {
                assert(p@.subrange(0, root@.len() as int)[k as int] != root@[k as int]);
            }
            return None;
        }
        k = k + 1;
    }
    proof {
        assert(p@.subrange(0, root@.len() as int) =~= root@);
    }
    Some(crate::paths::copy_range(p, root.len() + 1, p.len()))
}

/// Why reading a member's bytes failed.
#[derive(Clone, Copy, PartialEq, Eq, Structural, Debug)]
pub enum TarReadError {
    /// The path does not lie under the archive's container root.
    NotInArchive,
    /// The archive byte stream could not be parsed.
    BadArchive,
    /// No member of the archive is stored under that relative path.
    NotFound,
}

/// The archive backend's cursor state.
pub struct TarCursor {
    nav: Nav,
    start: Option<Vec<u8>>,
    all: Vec<Entry>,
}

/// The mathematical value of a [`TarCursor`].
pub ghost struct TarCursorV {
    pub nav: NavV,
    pub start: Option<Seq<u8>>,
    pub all: Seq<EntryV>,
}

impl View for TarCursor {
    type V = TarCursorV;

    closed spec fn view(&self) -> TarCursorV {
        TarCursorV {
            nav: self.nav@,
            start: match self.start {
                Some(ref s) => Some(s@),
                None => None,
            },
            all: evs(self.all@),
        }
    }
}

/// The raw listing the archive backend hands the shared cursor: the
/// children of the selection's parent directory.
pub open spec fn tar_raw(c: TarCursorV) -> Seq<EntryV> {
    children_spec(c.all, parent_spec(c.nav.selected))
}

/// Initialization: the virtual tree of the archive listing and the cursor
/// reset onto the (normalized) container root, the selection falling back
/// to the `..` placeholder under the root when it has no children.
pub open spec fn spec_tar_init(c: TarCursorV, container: Seq<u8>, listing: Seq<(Seq<u8>, Seq<u8>)>)
    -> TarCursorV {
    let root = norm_spec(container);
    let all = arc_entries_spec(listing, root);
    TarCursorV {
        nav: spec_reset(c.nav, join_dotdot_spec(root), children_spec(all, root)),
        start: Some(root),
        all,
    }
}

impl Default for TarCursor {
    /// A fresh archive cursor, as [`TarCursor::new`] builds it.
    fn default() -> (c: TarCursor)
        ensures
            c@.start is None,
            c@.all == Seq::<EntryV>::empty(),
            c@.nav == (NavV {
                hide: true,
                casing: false,
                sort: Sort::Name,
                by_name: true,
                memory: Map::empty(),
                selected: Seq::empty(),
            }),
    {
        TarCursor::new()
    }
}

impl TarCursor {
    /// A fresh archive cursor: no archive loaded, position matched by file
    /// name.
    pub fn new() -> (c: TarCursor)
        ensures
            c@.start is None,
            c@.all == Seq::<EntryV>::empty(),
            c@.nav == (NavV {
                hide: true,
                casing: false,
                sort: Sort::Name,
                by_name: true,
                memory: Map::empty(),
                selected: Seq::empty(),
            }),
    {
        let c = TarCursor { nav: Nav::new(true), start: None, all: Vec::new() };
        proof {
            assert(evs(c.all@) =~= Seq::<EntryV>::empty());
        }
        c
    }

    /// Whether `init` with this container would re-parse the archive.
    pub fn needs_init(&self, container: &Vec<u8>) -> (r: bool)
        ensures
            r == (self@.start != Some(norm_spec(container@))),
    {
        let root = normalize(container);
        match &self.start {
            Some(s) => !bytes_eq(s, &root),
            None => true,
        }
    }

    /// Rebuilds the virtual tree from the archive's members and resets the
    /// cursor onto the (normalized) container root.
    pub fn init_from_entries(&mut self, container: &Vec<u8>, entries: Vec<TarEntry>)
        ensures
            final(self)@ == spec_tar_init(old(self)@, container@, tevs(entries@)),
    {
        let root = normalize(container);
        let mut all: Vec<Entry> = Vec::new();
        let mut i: usize = 0;
        proof {
            assert(evs(all@) =~= arc_entries_spec(tevs(entries@).subrange(0, 0), root@));
        }
        while i < entries.len()
            invariant
                i <= entries@.len(),
                root@ == norm_spec(container@),
                evs(all@) == arc_entries_spec(tevs(entries@).subrange(0, i as int), root@),
            decreases entries@.len() - i,
        {
            let ghost pre = all@;
            let e = &entries[i];
            let mut full = copy_bytes(&root);
            full.push(SEP);
            let mut k: usize = 0;
            while k < e.path.len()
                invariant
                    k <= e.path@.len(),
                    full@ == root@ + seq![SEP] + e.path@.subrange(0, k as int),
                decreases e.path@.len() - k,
            {
                full.push(e.path[k]);
                k = k + 1;
                assert(full@ =~= root@ + seq![SEP] + e.path@.subrange(0, k as int));
            }
            proof {
                assert(e.path@.subrange(0, e.path@.len() as int) =~= e.path@);
            }
            let is_dir = e.path.len() > 0 && e.path[e.path.len() - 1] == SEP;
            all.push(Entry::new(full, is_dir, 0, 0));
            proof {
                let lst = tevs(entries@);
                assert(lst[i as int].0 == entries@[i as int].path@);
                let target = arc_entries_spec(lst.subrange(0, i + 1), root@);
                assert(evs(pre).len() == pre.len());
                assert(arc_entries_spec(lst.subrange(0, i as int), root@).len() == i);
                assert(pre.len() == i);
                assert(evs(all@).len() == target.len());
                assert forall|x: int| 0 <= x < i + 1 implies evs(all@)[x] == target[x] by {
                    assert(lst.subrange(0, i + 1)[x] == lst[x]);
                    if x < i {
                        assert(evs(all@)[x] == evs(pre)[x]);
                        assert(evs(pre)[x] == arc_entries_spec(lst.subrange(0, i as int), root@)[
                            x
                        ]);
                        assert(lst.subrange(0, i as int)[x] == lst[x]);
                    } else {
                        assert(evs(all@)[x] == all@[x]@);
                    }
                }
                assert(evs(all@) =~= target);
            }
            i = i + 1;
        }
        proof {
            assert(tevs(entries@).subrange(0, entries@.len() as int) =~= tevs(entries@));
        }
        let raw = children_of(&all, &root);
        let fallback = join_dotdot(&root);
        self.nav.reset(fallback, raw);
        self.start = Some(root);
        self.all = all;
    }

    /// (Re)establishes the session root.  When the container differs from
    /// the previously initialized one, parses the archive bytes, rebuilds
    /// the virtual tree and resets the cursor; idempotent otherwise.
    /// Succeeds exactly when the byte stream parses as a tar archive, and
    /// leaves the cursor unchanged when it does not.
    pub fn init(&mut self, container: &Vec<u8>, data: &Vec<u8>) -> (r: bool)
        ensures
            old(self)@.start == Some(norm_spec(container@)) ==> r && final(self)@ == old(self)@,
            old(self)@.start != Some(norm_spec(container@)) ==> (r <==> archive_ok(data@)),
            old(self)@.start != Some(norm_spec(container@)) && r ==> final(self)@ == spec_tar_init(
                old(self)@,
                container@,
                archive_listing(data@),
            ),
            !r ==> final(self)@ == old(self)@,
    {
        if !self.needs_init(container) {
            return true;
        }
        match read_archive(data) {
            Some(entries) => {
                self.init_from_entries(container, entries);
                true
            },
            None => false,
        }
    }

    /// The selected path.
    pub fn selected(&self) -> (r: Vec<u8>)
        ensures
            r@ == self@.nav.selected,
    {
        self.nav.selected()
    }

    /// The current directory: the selected path's parent.
    pub fn current_dir(&self) -> (r: Vec<u8>)
        ensures
            r@ == parent_spec(self@.nav.selected),
    {
        self.nav.current_dir()
    }

    /// The current directory's parent.
    pub fn parent(&self) -> (r: Vec<u8>)
        ensures
            r@ == parent_spec(parent_spec(self@.nav.selected)),
    {
        self.nav.parent()
    }

    /// The session root: the archive container's (normalized) path, empty
    /// before initialization.
    pub fn start_dir(&self) -> (r: Vec<u8>)
        ensures
            match self@.start {
                Some(s) => r@ == s,
                None => r@ == Seq::<u8>::empty(),
            },
    {
        match &self.start {
            Some(s) => copy_bytes(s),
            None => Vec::new(),
        }
    }

    /// The ordered, filtered listing of the current directory, or `None`
    /// when no entry is visible.
    pub fn current_siblings(&self) -> (r: Option<Vec<Entry>>)
        ensures
            match r {
                Some(v) => evs(v@) == nav_listing(self@.nav, tar_raw(self@)) && v@.len() > 0,
                None => nav_listing(self@.nav, tar_raw(self@)).len() == 0,
            },
    {
        let cd = self.nav.current_dir();
        let raw = children_of(&self.all, &cd);
        self.nav.current_siblings(raw)
    }

    /// The selection's index in the listing, matched by file name.
    pub fn pos(&self) -> (r: usize)
        ensures
            r == pos_spec(
                nav_listing(self@.nav, tar_raw(self@)),
                self@.nav.selected,
                self@.nav.by_name,
            ),
    {
        let cd = self.nav.current_dir();
        let raw = children_of(&self.all, &cd);
        self.nav.pos(raw)
    }

    /// The listing's entries matching the pattern, in listing order.
    pub fn matching_siblings(&self, pattern: &Vec<u8>) -> (r: Vec<Entry>)
        ensures
            evs(r@) == matching_spec(nav_listing(self@.nav, tar_raw(self@)), pattern@),
    {
        let cd = self.nav.current_dir();
        let raw = children_of(&self.all, &cd);
        self.nav.matching_siblings(raw, pattern)
    }

    /// Moves the selection `n` places down, clamping at the last sibling.
    pub fn move_down(&mut self, n: i32)
        requires
            n >= 0,
        ensures
            final(self)@.nav == spec_move_down(old(self)@.nav, tar_raw(old(self)@), n as int),
            final(self)@.start == old(self)@.start,
            final(self)@.all == old(self)@.all,
    {
        let cd = self.nav.current_dir();
        let raw = children_of(&self.all, &cd);
        self.nav.move_down(raw, n);
    }

    /// Moves the selection `n` places up, clamping at the first sibling.
    pub fn move_up(&mut self, n: i32)
        requires
            n >= 0,
        ensures
            final(self)@.nav == spec_move_up(old(self)@.nav, tar_raw(old(self)@), n as int),
            final(self)@.start == old(self)@.start,
            final(self)@.all == old(self)@.all,
    {
        let cd = self.nav.current_dir();
        let raw = children_of(&self.all, &cd);
        self.nav.move_up(raw, n);
    }

    /// Selects the first sibling; a no-op on an empty listing.
    pub fn move_top(&mut self)
        ensures
            final(self)@.nav == spec_move_top(old(self)@.nav, tar_raw(old(self)@)),
            final(self)@.start == old(self)@.start,
            final(self)@.all == old(self)@.all,
    {
        let cd = self.nav.current_dir();
        let raw = children_of(&self.all, &cd);
        self.nav.move_top(raw);
    }

    /// Selects the last sibling; a no-op on an empty listing.
    pub fn move_bottom(&mut self)
        ensures
            final(self)@.nav == spec_move_bottom(old(self)@.nav, tar_raw(old(self)@)),
            final(self)@.start == old(self)@.start,
            final(self)@.all == old(self)@.all,
    {
        let cd = self.nav.current_dir();
        let raw = children_of(&self.all, &cd);
        self.nav.move_bottom(raw);
    }

    /// Descends into the selected directory (a member with a trailing
    /// separator); purely virtual, no working directory changes.
    pub fn move_in(&mut self)
        ensures
            ({
                let sel = old(self)@.nav.selected;
                let is_dir = sel.len() > 0 && sel.last() == SEP;
                let target = children_spec(old(self)@.all, norm_spec(sel));
                final(self)@.nav == spec_move_in(old(self)@.nav, target, is_dir)
            }),
            final(self)@.start == old(self)@.start,
            final(self)@.all == old(self)@.all,
    {
        let sel = self.nav.selected();
        let is_dir = sel.len() > 0 && sel[sel.len() - 1] == SEP;
        let key = normalize(&sel);
        let target = children_of(&self.all, &key);
        self.nav.move_in(target, is_dir);
    }

    /// Ascends to the current directory's parent.
    pub fn move_out(&mut self)
        ensures
            final(self)@.nav == spec_move_out(old(self)@.nav),
            final(self)@.start == old(self)@.start,
            final(self)@.all == old(self)@.all,
    {
        self.nav.move_out();
    }

    /// The active sort mode.
    pub fn sort_mode(&self) -> (r: Sort)
        ensures
            r == self@.nav.sort,
    {
        self.nav.sort_mode()
    }

    /// Flips hidden-file suppression.
    pub fn toggle_hidden_files(&mut self)
        ensures
            final(self)@.nav == (NavV { hide: !old(self)@.nav.hide, ..old(self)@.nav }),
            final(self)@.start == old(self)@.start,
            final(self)@.all == old(self)@.all,
    {
        self.nav.toggle_hidden_files();
    }

    /// Flips case-insensitive ordering.
    pub fn toggle_case_sensitivity(&mut self)
        ensures
            final(self)@.nav == (NavV { casing: !old(self)@.nav.casing, ..old(self)@.nav }),
            final(self)@.start == old(self)@.start,
            final(self)@.all == old(self)@.all,
    {
        self.nav.toggle_case_sensitivity();
    }

    /// Sets the sort mode: directories first.
    pub fn sort_dir(&mut self)
        ensures
            final(self)@.nav == (NavV { sort: Sort::Dir, ..old(self)@.nav }),
            final(self)@.start == old(self)@.start,
            final(self)@.all == old(self)@.all,
    {
        self.nav.sort_dir();
    }

    /// Sets the sort mode: by file name.
    pub fn sort_name(&mut self)
        ensures
            final(self)@.nav == (NavV { sort: Sort::Name, ..old(self)@.nav }),
            final(self)@.start == old(self)@.start,
            final(self)@.all == old(self)@.all,
    {
        self.nav.sort_name();
    }

    /// Sets the sort mode: by size.
    pub fn sort_size(&mut self)
        ensures
            final(self)@.nav == (NavV { sort: Sort::Size, ..old(self)@.nav }),
            final(self)@.start == old(self)@.start,
            final(self)@.all == old(self)@.all,
    {
        self.nav.sort_size();
    }

    /// Sets the sort mode: by modification time.
    pub fn sort_time(&mut self)
        ensures
            final(self)@.nav == (NavV { sort: Sort::Time, ..old(self)@.nav }),
            final(self)@.start == old(self)@.start,
            final(self)@.all == old(self)@.all,
    {
        self.nav.sort_time();
    }

    /// Selects the first sibling matching the pattern.
    pub fn search(&mut self, pattern: &Vec<u8>)
        ensures
            final(self)@.nav == spec_search(old(self)@.nav, tar_raw(old(self)@), pattern@),
            final(self)@.start == old(self)@.start,
            final(self)@.all == old(self)@.all,
    {
        let cd = self.nav.current_dir();
        let raw = children_of(&self.all, &cd);
        self.nav.search(raw, pattern);
    }

    /// Reads one member's raw bytes out of the archive byte stream, so a
    /// selected archive member can be materialized for viewing without
    /// extracting the whole archive.  `path` is the synthetic full path;
    /// the member is found by its path relative to the container root.
    /// Each outcome is owed exactly: success when the path lies under the
    /// root, the bytes parse and the member exists; a distinct error
    /// otherwise, a missing member never a silently empty result.
    pub fn read_file_content(&self, data: &Vec<u8>, path: &Vec<u8>) -> (r: Result<
        Vec<u8>,
        TarReadError,
    >)
        ensures
            ({
                let root = self@.start;
                match r {
                    Ok(bytes) => root is Some && {
                        let rel = rel_spec(root->Some_0, path@);
                        let listing = archive_listing(data@);
                        rel is Some && archive_ok(data@) && find_member(listing, rel->Some_0) >= 0
                            && bytes@ == listing[find_member(listing, rel->Some_0)].1
                    },
                    Err(TarReadError::NotInArchive) => root is None || rel_spec(
                        root->Some_0,
                        path@,
                    ) is None,
                    Err(TarReadError::BadArchive) => root is Some && rel_spec(
                        root->Some_0,
                        path@,
                    ) is Some && !archive_ok(data@),
                    Err(TarReadError::NotFound) => root is Some && {
                        let rel = rel_spec(root->Some_0, path@);
                        rel is Some && archive_ok(data@) && find_member(
                            archive_listing(data@),
                            rel->Some_0,
                        ) == -1
                    },
                }
            }),
    {
        let root = match &self.start {
            Some(s) => s,
            None => {
                return Err(TarReadError::NotInArchive);
            },
        };
        let rel = match strip_root(root, path) {
            Some(rel) => rel,
            None => {
                return Err(TarReadError::NotInArchive);
            },
        };
        let entries = match read_archive(data) {
            Some(e) => e,
            None => {
                return Err(TarReadError::BadArchive);
            },
        };
        match member_content(&entries, &rel) {
            Some(bytes) => Ok(bytes),
            None => Err(TarReadError::NotFound),
        }
    }
}

} // verus!
