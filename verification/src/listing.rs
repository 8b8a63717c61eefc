//! Directory listings: entries, hidden-file filtering, and the two-pass
//! stable sort that orders the siblings of the current directory.
//!
//! Sorting is specified as insertion sort on the entry views, which pins the
//! exact (stable) result: entries with equal keys keep their incoming order,
//! and repeated calls on the same input give the same listing.

use vstd::prelude::*;

use crate::cursor::Sort;
use crate::paths::{
    copy_bytes, file_name_of, file_name_spec, is_hidden, is_hidden_spec, lemma_lex_leq_total,
    lex_le, lex_leq, contains_sub, is_substr, lower_of, to_lower,
};

verus! {

/// One directory entry: its full path and the metadata the sort modes read.
/// Virtual entries (archive members) carry size and mtime 0.
pub struct Entry {
    pub path: Vec<u8>,
    pub is_dir: bool,
    pub size: u64,
    pub mtime: u64,
}

/// The mathematical value of an [`Entry`].
pub ghost struct EntryV {
    pub path: Seq<u8>,
    pub is_dir: bool,
    pub size: u64,
    pub mtime: u64,
}

impl View for Entry {
    type V = EntryV;

    open spec fn view(&self) -> EntryV {
        EntryV { path: self.path@, is_dir: self.is_dir, size: self.size, mtime: self.mtime }
    }
}

/// The views of a run of entries.
pub open spec fn evs(s: Seq<Entry>) -> Seq<EntryV> {
    s.map_values(|e: Entry| e@)
}

impl Entry {
    /// Builds an entry from its parts.
    pub fn new(path: Vec<u8>, is_dir: bool, size: u64, mtime: u64) -> (e: Entry)
        ensures
            e@ == (EntryV { path: path@, is_dir, size, mtime }),
    {
        Entry { path, is_dir, size, mtime }
    }

    /// Copies the entry, preserving its value.
    pub fn dup(&self) -> (r: Entry)
        ensures
            r@ == self@,
    {
        Entry {
            path: copy_bytes(&self.path),
            is_dir: self.is_dir,
            size: self.size,
            mtime: self.mtime,
        }
    }
}

/// The comparison each sort pass uses.  The primary pass orders by the
/// active mode: directories first, file name, size, or modification time.
/// The secondary pass (`by_lower`) orders by the lower-cased full path.
pub open spec fn le_spec(a: EntryV, b: EntryV, mode: Sort, by_lower: bool) -> bool {
    if by_lower {
        lex_leq(lower_of(a.path), lower_of(b.path))
    } else {
        match mode {
            Sort::Dir => b.is_dir ==> a.is_dir,
            Sort::Name => lex_leq(file_name_spec(a.path), file_name_spec(b.path)),
            Sort::Size => a.size <= b.size,
            Sort::Time => a.mtime <= b.mtime,
        }
    }
}

/// Inserts `e` in front of the first element it compares no later than;
/// the placement after all earlier equals is what makes the sort stable.
pub open spec fn insert_sorted_spec(e: EntryV, s: Seq<EntryV>, mode: Sort, by_lower: bool) -> Seq<
    EntryV,
>
    decreases s.len(),
{
    if s.len() == 0 {
        seq![e]
    } else if le_spec(e, s[0], mode, by_lower) {
        seq![e] + s
    } else {
        seq![s[0]] + insert_sorted_spec(e, s.drop_first(), mode, by_lower)
    }
}

/// Stable insertion sort of the entry views.
pub open spec fn sort_spec(s: Seq<EntryV>, mode: Sort, by_lower: bool) -> Seq<EntryV>
    decreases s.len(),
{
    if s.len() == 0 {
        Seq::empty()
    } else {
        insert_sorted_spec(s[0], sort_spec(s.drop_first(), mode, by_lower), mode, by_lower)
    }
}

/// Every element of an insertion is the inserted one or from the run.
proof fn lemma_insert_elements(e: EntryV, s: Seq<EntryV>, mode: Sort, by_lower: bool)
    ensures
        forall|x: EntryV|
            insert_sorted_spec(e, s, mode, by_lower).contains(x) ==> x == e || s.contains(x),
    decreases s.len(),
{
    if s.len() == 0 {
    } else if le_spec(e, s[0], mode, by_lower) {
    } else {
        lemma_insert_elements(e, s.drop_first(), mode, by_lower);
        assert forall|x: EntryV|
            insert_sorted_spec(e, s, mode, by_lower).contains(x) implies x == e || s.contains(
            x,
        ) by {
            let r = insert_sorted_spec(e, s, mode, by_lower);
            let i = choose|i: int| 0 <= i < r.len() && r[i] == x;
            if i == 0 {
                assert(s[0] == x);
            } else {
                let rest = insert_sorted_spec(e, s.drop_first(), mode, by_lower);
                assert(rest[i - 1] == x);
                assert(rest.contains(x));
                if s.drop_first().contains(x) {
                    let j = choose|j: int| 0 <= j < s.drop_first().len() && s.drop_first()[j] == x;
                    assert(s[j + 1] == x);
                }
            }
        }
    }
}

/// The sorted run holds only elements of the input.
pub proof fn lemma_sort_elements(s: Seq<EntryV>, mode: Sort, by_lower: bool)
    ensures
        forall|x: EntryV| sort_spec(s, mode, by_lower).contains(x) ==> s.contains(x),
    decreases s.len(),
{
    if s.len() > 0 {
        lemma_sort_elements(s.drop_first(), mode, by_lower);
        lemma_insert_elements(s[0], sort_spec(s.drop_first(), mode, by_lower), mode, by_lower);
        assert forall|x: EntryV| sort_spec(s, mode, by_lower).contains(x) implies s.contains(
            x,
        ) by {
            if x != s[0] {
                assert(s.drop_first().contains(x));
                let j = choose|j: int| 0 <= j < s.drop_first().len() && s.drop_first()[j] == x;
                assert(s[j + 1] == x);
            } else {
                assert(s[0] == x);
            }
        }
    }
}

/// The run is ordered under a pass's comparison: each entry compares no
/// later than its successor.
pub open spec fn sorted_adj(s: Seq<EntryV>, mode: Sort, by_lower: bool) -> bool {
    forall|i: int| 0 <= i < s.len() - 1 ==> le_spec(#[trigger] s[i], s[i + 1], mode, by_lower)
}

/// Each pass's comparison is total.
proof fn lemma_le_total(a: EntryV, b: EntryV, mode: Sort, by_lower: bool)
    ensures
        le_spec(a, b, mode, by_lower) || le_spec(b, a, mode, by_lower),
{
    if by_lower {
        lemma_lex_leq_total(lower_of(a.path), lower_of(b.path));
    } else {
        match mode {
            Sort::Name => {
                lemma_lex_leq_total(file_name_spec(a.path), file_name_spec(b.path));
            },
            _ => {},
        }
    }
}

/// Insertion keeps a sorted run sorted.
proof fn lemma_insert_sorted_keeps(e: EntryV, s: Seq<EntryV>, mode: Sort, by_lower: bool)
    requires
        sorted_adj(s, mode, by_lower),
    ensures
        sorted_adj(insert_sorted_spec(e, s, mode, by_lower), mode, by_lower),
    decreases s.len(),
{
    if s.len() == 0 {
    } else if le_spec(e, s[0], mode, by_lower) {
        let r = seq![e] + s;
        assert forall|i: int| 0 <= i < r.len() - 1 implies le_spec(
            #[trigger] r[i],
            r[i + 1],
            mode,
            by_lower,
        ) by {
            if i > 0 {
                assert(r[i] == s[i - 1]);
                assert(r[i + 1] == s[i]);
            }
        }
    } else {
        let dl = s.drop_first();
        assert(sorted_adj(dl, mode, by_lower)) by {
            assert(forall|k: int| 0 <= k < dl.len() ==> dl[k] == s[k + 1]);
        }
        lemma_insert_sorted_keeps(e, dl, mode, by_lower);
        let rest = insert_sorted_spec(e, dl, mode, by_lower);
        let r = seq![s[0]] + rest;
        assert(le_spec(s[0], rest[0], mode, by_lower)) by {
            lemma_le_total(e, s[0], mode, by_lower);
            if dl.len() == 0 {
                assert(rest[0] == e);
            } else if le_spec(e, dl[0], mode, by_lower) {
                assert(rest[0] == e);
            } else {
                assert(rest[0] == dl[0]);
                assert(dl[0] == s[1]);
            }
        }
        assert forall|i: int| 0 <= i < r.len() - 1 implies le_spec(
            #[trigger] r[i],
            r[i + 1],
            mode,
            by_lower,
        ) by {
            if i > 0 {
                assert(r[i] == rest[i - 1]);
                assert(r[i + 1] == rest[i]);
            }
        }
    }
}

/// The sort pass returns a sorted run.
pub proof fn lemma_sort_sorted(s: Seq<EntryV>, mode: Sort, by_lower: bool)
    ensures
        sorted_adj(sort_spec(s, mode, by_lower), mode, by_lower),
    decreases s.len(),
{
    if s.len() > 0 {
        lemma_sort_sorted(s.drop_first(), mode, by_lower);
        lemma_insert_sorted_keeps(s[0], sort_spec(s.drop_first(), mode, by_lower), mode, by_lower);
    }
}

/// Where the first acceptable slot is `j`, the insertion splits the run there.
proof fn lemma_insert_at(e: EntryV, s: Seq<EntryV>, j: int, mode: Sort, by_lower: bool)
    requires
        0 <= j <= s.len(),
        forall|k: int| 0 <= k < j ==> !le_spec(e, s[k], mode, by_lower),
        j < s.len() ==> le_spec(e, s[j], mode, by_lower),
    ensures
        insert_sorted_spec(e, s, mode, by_lower) == s.subrange(0, j) + seq![e] + s.subrange(
            j,
            s.len() as int,
        ),
    decreases j,
{
    if j == 0 {
        if s.len() == 0 {
            assert(insert_sorted_spec(e, s, mode, by_lower) =~= s.subrange(0, 0) + seq![e]
                + s.subrange(0, 0));
        } else {
            assert(insert_sorted_spec(e, s, mode, by_lower) =~= s.subrange(0, 0) + seq![e]
                + s.subrange(0, s.len() as int));
        }
    } else {
        lemma_insert_at(e, s.drop_first(), j - 1, mode, by_lower);
        assert(insert_sorted_spec(e, s, mode, by_lower) =~= s.subrange(0, j) + seq![e]
            + s.subrange(j, s.len() as int)) by {
            assert(forall|k: int|
                0 <= k < s.drop_first().len() ==> s.drop_first()[k] == s[k + 1]);
        }
    }
}

/// Entry comparison for one sort pass.
fn le_exec(a: &Entry, b: &Entry, mode: Sort, by_lower: bool) -> (r: bool)
    ensures
        r == le_spec(a@, b@, mode, by_lower),
{
    if by_lower {
        let la = to_lower(&a.path);
        let lb = to_lower(&b.path);
        lex_le(&la, &lb)
    } else {
        match mode {
            Sort::Dir => !b.is_dir || a.is_dir,
            Sort::Name => {
                let na = file_name_of(&a.path);
                let nb = file_name_of(&b.path);
                lex_le(&na, &nb)
            },
            Sort::Size => a.size <= b.size,
            Sort::Time => a.mtime <= b.mtime,
        }
    }
}

/// Inserts one entry into an already sorted run.
fn insert_sorted(v: Vec<Entry>, e: Entry, mode: Sort, by_lower: bool) -> (r: Vec<Entry>)
    ensures
        evs(r@) == insert_sorted_spec(e@, evs(v@), mode, by_lower),
{
    let mut v = v;
    let mut j: usize = 0;
    while j < v.len() && !le_exec(&e, &v[j], mode, by_lower)
        invariant
            j <= v@.len(),
            forall|k: int| 0 <= k < j ==> !le_spec(e@, #[trigger] evs(v@)[k], mode, by_lower),
        decreases v@.len() - j,
    {
        j = j + 1;
    }
    proof {
        lemma_insert_at(e@, evs(v@), j as int, mode, by_lower);
    }
    let ghost old_v = v@;
    v.insert(j, e);
    proof {
        assert(evs(v@) =~= evs(old_v).subrange(0, j as int) + seq![e@] + evs(old_v).subrange(
            j as int,
            old_v.len() as int,
        ));
    }
    v
}

/// Stable sort of the entries under the given pass.
pub fn sort_entries(v: Vec<Entry>, mode: Sort, by_lower: bool) -> (r: Vec<Entry>)
    ensures
        evs(r@) == sort_spec(evs(v@), mode, by_lower),
{
    let ghost orig = evs(v@);
    let mut v = v;
    let mut r: Vec<Entry> = Vec::new();
    proof {
        assert(evs(v@) =~= orig.subrange(0, v@.len() as int));
        assert(evs(r@) =~= sort_spec(orig.subrange(v@.len() as int, orig.len() as int), mode,
            by_lower));
    }
    while v.len() > 0
        invariant
            v@.len() <= orig.len(),
            evs(v@) == orig.subrange(0, v@.len() as int),
            evs(r@) == sort_spec(orig.subrange(v@.len() as int, orig.len() as int), mode, by_lower),
        decreases v@.len(),
    {
        let ghost pre = v@;
        let e = match v.pop() {
            Some(e) => e,
            None => {
                proof {
                    assert(false);
                }
                return r;
            },
        };
        let ghost k = v@.len() as int;
        proof {
            assert(evs(v@) =~= orig.subrange(0, k));
            assert(e@ == evs(pre)[k]);
            assert(e@ == orig[k]);
            let tail = orig.subrange(k, orig.len() as int);
            assert(tail[0] == orig[k]);
            assert(tail.drop_first() =~= orig.subrange(k + 1, orig.len() as int));
        }
        r = insert_sorted(r, e, mode, by_lower);
    }
    proof {
        assert(orig.subrange(0, orig.len() as int) =~= orig);
    }
    r
}

/// The entries whose names are not hidden, in order.
pub open spec fn visible_rec(s: Seq<EntryV>) -> Seq<EntryV>
    decreases s.len(),
{
    if s.len() == 0 {
        s
    } else if !is_hidden_spec(s.last().path) {
        visible_rec(s.drop_last()).push(s.last())
    } else {
        visible_rec(s.drop_last())
    }
}

/// The hidden-name filter: with `hide` set, names starting with `.` drop out.
pub open spec fn visible_spec(s: Seq<EntryV>, hide: bool) -> Seq<EntryV> {
    if hide {
        visible_rec(s)
    } else {
        s
    }
}

/// One step of the hidden-name filter: appending an entry keeps it exactly
/// when its name is not hidden.
pub proof fn lemma_visible_push(s: Seq<EntryV>, e: EntryV)
    ensures
        visible_spec(s.push(e), true) == if !is_hidden_spec(e.path) {
            visible_spec(s, true).push(e)
        } else {
            visible_spec(s, true)
        },
{
    let t = s.push(e);
    assert(t.drop_last() =~= s);
    assert(t.last() == e);
}

/// The visible entries all come from the input.
pub proof fn lemma_visible_subset(s: Seq<EntryV>, hide: bool)
    ensures
        forall|x: EntryV| visible_spec(s, hide).contains(x) ==> s.contains(x),
    decreases s.len(),
{
    if hide && s.len() > 0 {
        lemma_visible_subset(s.drop_last(), true);
        assert forall|x: EntryV| visible_spec(s, true).contains(x) implies s.contains(x) by {
            let f = visible_rec(s);
            let i = choose|i: int| 0 <= i < f.len() && f[i] == x;
            if !is_hidden_spec(s.last().path) && i == f.len() - 1 {
                assert(s[s.len() - 1] == x);
            } else {
                assert(visible_rec(s.drop_last())[i] == x);
                assert(visible_rec(s.drop_last()).contains(x));
                assert(s.drop_last().contains(x));
                let j = choose|j: int| 0 <= j < s.drop_last().len() && s.drop_last()[j] == x;
                assert(s[j] == x);
            }
        }
    }
}

/// Drops hidden entries when `hide` is set.
pub fn filter_visible(v: Vec<Entry>, hide: bool) -> (r: Vec<Entry>)
    ensures
        evs(r@) == visible_spec(evs(v@), hide),
{
    if !hide {
        return v;
    }
    let ghost orig = evs(v@);
    let mut v = v;
    let mut r: Vec<Entry> = Vec::new();
    proof {
        assert(evs(v@) =~= orig.subrange(0, orig.len() as int));
        assert(orig.subrange(0, 0) =~= Seq::<EntryV>::empty());
        assert(evs(r@) =~= visible_spec(orig.subrange(0, 0), true));
    }
    while v.len() > 0
        invariant
            v@.len() <= orig.len(),
            evs(v@) == orig.subrange(orig.len() - v@.len(), orig.len() as int),
            evs(r@) == visible_spec(orig.subrange(0, orig.len() - v@.len()), true),
        decreases v@.len(),
    {
        let ghost k = orig.len() - v@.len();
        let ghost pre_r = r@;
        let ghost pre_v = v@;
        let e = v.remove(0);
        proof {
            assert(evs(pre_v)[0] == pre_v[0]@);
            assert(evs(pre_v)[0] == orig.subrange(k as int, orig.len() as int)[0]);
            assert(e@ == orig[k as int]);
            assert(v@ =~= pre_v.drop_first());
            assert forall|i: int| 0 <= i < v@.len() implies evs(v@)[i] == orig.subrange(
                k + 1,
                orig.len() as int,
            )[i] by {
                assert(v@[i] == pre_v[i + 1]);
                assert(evs(pre_v)[i + 1] == pre_v[i + 1]@);
            }
            assert(evs(v@) =~= orig.subrange(k + 1, orig.len() as int));
        }
        let keep = !is_hidden(&e.path);
        if keep {
            r.push(e);
        }
        proof {
            let below = orig.subrange(0, k as int);
            let upto = orig.subrange(0, k + 1);
            assert(upto =~= below.push(orig[k as int]));
            lemma_visible_push(below, orig[k as int]);
            if keep {
                assert(evs(r@) =~= pre_r.map_values(|x: Entry| x@).push(orig[k as int]));
            }
        }
    }
    proof {
        assert(orig.subrange(0, orig.len() as int) =~= orig);
    }
    r
}

/// The listing pipeline: filter hidden names, sort by the active mode, and,
/// when case-insensitive ordering is on, re-sort by lower-cased path text as
/// a second stable pass.
pub open spec fn listing_spec(raw: Seq<EntryV>, hide: bool, casing: bool, mode: Sort) -> Seq<
    EntryV,
> {
    let visible = visible_spec(raw, hide);
    let primary = sort_spec(visible, mode, false);
    if casing {
        sort_spec(primary, mode, true)
    } else {
        primary
    }
}

/// The listing is ordered: under the case-insensitive flag by lower-cased
/// path text (the second stable pass), otherwise by the active sort mode.
pub proof fn lemma_listing_sorted(raw: Seq<EntryV>, hide: bool, casing: bool, mode: Sort)
    ensures
        !casing ==> sorted_adj(listing_spec(raw, hide, casing, mode), mode, false),
        casing ==> sorted_adj(listing_spec(raw, hide, casing, mode), mode, true),
{
    let vis = visible_spec(raw, hide);
    lemma_sort_sorted(vis, mode, false);
    if casing {
        lemma_sort_sorted(sort_spec(vis, mode, false), mode, true);
    }
}

/// Every entry of the listing comes from the raw enumeration: filtering
/// and the sort passes add nothing.
pub proof fn lemma_listing_elements(raw: Seq<EntryV>, hide: bool, casing: bool, mode: Sort)
    ensures
        forall|x: EntryV| listing_spec(raw, hide, casing, mode).contains(x) ==> raw.contains(x),
{
    let vis = visible_spec(raw, hide);
    let primary = sort_spec(vis, mode, false);
    lemma_visible_subset(raw, hide);
    lemma_sort_elements(vis, mode, false);
    if casing {
        lemma_sort_elements(primary, mode, true);
    }
}

/// Computes the ordered, filtered sibling listing.
pub fn compute_listing(raw: Vec<Entry>, hide: bool, casing: bool, mode: Sort) -> (r: Vec<Entry>)
    ensures
        evs(r@) == listing_spec(evs(raw@), hide, casing, mode),
{
    let visible = filter_visible(raw, hide);
    let primary = sort_entries(visible, mode, false);
    if casing {
        sort_entries(primary, mode, true)
    } else {
        primary
    }
}

/// Whether an entry is the selected one: the archive backend matches by
/// file name only, the filesystem backend by the full path.
pub open spec fn sel_matches(e: EntryV, sel: Seq<u8>, by_name: bool) -> bool {
    if by_name {
        file_name_spec(e.path) == file_name_spec(sel)
    } else {
        e.path == sel
    }
}

/// Index of the first entry matching the selection, or -1.
pub open spec fn find_pos(s: Seq<EntryV>, sel: Seq<u8>, by_name: bool) -> int
    decreases s.len(),
{
    if s.len() == 0 {
        -1
    } else if sel_matches(s[0], sel, by_name) {
        0
    } else {
        let r = find_pos(s.drop_first(), sel, by_name);
        if r < 0 {
            -1
        } else {
            r + 1
        }
    }
}

/// The selection's index in the listing, defaulting to 0 when absent.
pub open spec fn pos_spec(s: Seq<EntryV>, sel: Seq<u8>, by_name: bool) -> int {
    if find_pos(s, sel, by_name) < 0 {
        0
    } else {
        find_pos(s, sel, by_name)
    }
}

/// `find_pos` is determined by the first matching scan position.
proof fn lemma_find_pos_at(s: Seq<EntryV>, sel: Seq<u8>, by_name: bool, j: int)
    requires
        0 <= j <= s.len(),
        forall|k: int| 0 <= k < j ==> !sel_matches(#[trigger] s[k], sel, by_name),
        j < s.len() ==> sel_matches(s[j], sel, by_name),
    ensures
        find_pos(s, sel, by_name) == if j < s.len() {
            j
        } else {
            -1
        },
    decreases j,
{
    if j == 0 {
    } else {
        lemma_find_pos_at(s.drop_first(), sel, by_name, j - 1);
        assert(forall|k: int| 0 <= k < s.drop_first().len() ==> s.drop_first()[k] == s[k + 1]);
    }
}

/// Distinct selection keys: no entry of the listing matches another's
/// path.  A real directory guarantees this (its entries' full paths are
/// distinct); in the archive backend two members of different directories
/// may share a file name, and the position genuinely lands on the first.
pub open spec fn distinct_keys(s: Seq<EntryV>, by_name: bool) -> bool {
    forall|a: int, b: int| #![trigger s[a], s[b]]
        0 <= a < b < s.len() ==> !sel_matches(s[a], s[b].path, by_name)
}

/// Where the listing's entries have pairwise distinct selection keys, the
/// position of a listed entry's own path is its index.
pub proof fn lemma_pos_of_member(s: Seq<EntryV>, j: int, by_name: bool)
    requires
        0 <= j < s.len(),
        distinct_keys(s, by_name),
    ensures
        pos_spec(s, s[j].path, by_name) == j,
{
    assert(sel_matches(s[j], s[j].path, by_name));
    assert forall|k: int| 0 <= k < j implies !sel_matches(#[trigger] s[k], s[j].path, by_name) by {
        assert(s[k] == s[k] && s[j] == s[j]);
    }
    lemma_find_pos_at(s, s[j].path, by_name, j);
}

/// `find_pos` stays within the listing.
pub proof fn lemma_find_pos_range(s: Seq<EntryV>, sel: Seq<u8>, by_name: bool)
    ensures
        -1 <= find_pos(s, sel, by_name) < s.len(),
        s.len() > 0 ==> 0 <= pos_spec(s, sel, by_name) < s.len(),
        s.len() == 0 ==> pos_spec(s, sel, by_name) == 0,
    decreases s.len(),
{
    if s.len() > 0 && !sel_matches(s[0], sel, by_name) {
        lemma_find_pos_range(s.drop_first(), sel, by_name);
    }
}

/// Whether the entry is the selected one.
fn matches_sel_exec(e: &Entry, sel: &Vec<u8>, by_name: bool) -> (r: bool)
    ensures
        r == sel_matches(e@, sel@, by_name),
{
    if by_name {
        let ne = file_name_of(&e.path);
        let ns = file_name_of(sel);
        crate::paths::bytes_eq(&ne, &ns)
    } else {
        crate::paths::bytes_eq(&e.path, sel)
    }
}

/// The selection's index in the listing, 0 when it is not listed.
pub fn pos_in(sibs: &Vec<Entry>, sel: &Vec<u8>, by_name: bool) -> (r: usize)
    ensures
        r == pos_spec(evs(sibs@), sel@, by_name),
        sibs@.len() > 0 ==> r < sibs@.len(),
        sibs@.len() == 0 ==> r == 0,
{
    let mut j: usize = 0;
    while j < sibs.len()
        invariant
            j <= sibs@.len(),
            forall|k: int| 0 <= k < j ==> !sel_matches(#[trigger] evs(sibs@)[k], sel@, by_name),
        decreases sibs@.len() - j,
    {
        if matches_sel_exec(&sibs[j], sel, by_name) {
            proof {
                lemma_find_pos_at(evs(sibs@), sel@, by_name, j as int);
            }
            return j;
        }
        j = j + 1;
    }
    proof {
        lemma_find_pos_at(evs(sibs@), sel@, by_name, sibs@.len() as int);
    }
    0
}

/// The search match: the lower-cased pattern occurs in the lower-cased
/// full path text.
pub open spec fn matches_pattern(e: EntryV, pat: Seq<u8>) -> bool {
    is_substr(lower_of(e.path), lower_of(pat))
}

/// The listing's entries that match the pattern, in listing order.
pub open spec fn matching_spec(s: Seq<EntryV>, pat: Seq<u8>) -> Seq<EntryV>
    decreases s.len(),
{
    if s.len() == 0 {
        s
    } else if matches_pattern(s.last(), pat) {
        matching_spec(s.drop_last(), pat).push(s.last())
    } else {
        matching_spec(s.drop_last(), pat)
    }
}

/// One step of pattern matching: appending an entry keeps it exactly when
/// its lower-cased path contains the lower-cased pattern.
pub proof fn lemma_matching_push(s: Seq<EntryV>, e: EntryV, pat: Seq<u8>)
    ensures
        matching_spec(s.push(e), pat) == if matches_pattern(e, pat) {
            matching_spec(s, pat).push(e)
        } else {
            matching_spec(s, pat)
        },
{
    let t = s.push(e);
    assert(t.drop_last() =~= s);
    assert(t.last() == e);
}

/// What searching means: when anything matches, the head of the match run
/// is the first entry of the listing whose lower-cased path contains the
/// lower-cased pattern; when the match run is empty, nothing matches.
pub proof fn lemma_matching_first(s: Seq<EntryV>, pat: Seq<u8>)
    ensures
        matching_spec(s, pat).len() > 0 ==> exists|j: int|
            0 <= j < s.len() && #[trigger] s[j] == matching_spec(s, pat)[0] && matches_pattern(
                s[j],
                pat,
            ) && (forall|k: int| 0 <= k < j ==> !matches_pattern(#[trigger] s[k], pat)),
        matching_spec(s, pat).len() == 0 ==> forall|k: int|
            0 <= k < s.len() ==> !matches_pattern(#[trigger] s[k], pat),
    decreases s.len(),
{
    if s.len() > 0 {
        lemma_matching_first(s.drop_last(), pat);
        let dl = s.drop_last();
        let m = matching_spec(s, pat);
        let md = matching_spec(dl, pat);
        assert(forall|k: int| 0 <= k < dl.len() ==> dl[k] == s[k]);
        if md.len() > 0 {
            let j = choose|j: int|
                0 <= j < dl.len() && #[trigger] dl[j] == md[0] && matches_pattern(dl[j], pat) && (
                forall|k: int| 0 <= k < j ==> !matches_pattern(#[trigger] dl[k], pat));
            assert(m[0] == md[0]);
            assert(s[j] == m[0] && matches_pattern(s[j], pat));
        } else if matches_pattern(s.last(), pat) {
            let j = s.len() - 1;
            assert(s[j] == m[0] && matches_pattern(s[j], pat));
        }
    }
}

/// Copies out the entries whose lower-cased path contains the pattern.
pub fn matching_entries(sibs: &Vec<Entry>, pat: &Vec<u8>) -> (r: Vec<Entry>)
    ensures
        evs(r@) == matching_spec(evs(sibs@), pat@),
{
    let ghost orig = evs(sibs@);
    let low_pat = to_lower(pat);
    let mut r: Vec<Entry> = Vec::new();
    let mut j: usize = 0;
    proof {
        assert(orig.subrange(0, 0) =~= Seq::<EntryV>::empty());
        assert(evs(r@) =~= matching_spec(orig.subrange(0, 0), pat@));
    }
    while j < sibs.len()
        invariant
            j <= sibs@.len(),
            orig == evs(sibs@),
            low_pat@ == lower_of(pat@),
            evs(r@) == matching_spec(orig.subrange(0, j as int), pat@),
        decreases sibs@.len() - j,
    {
        let ghost pre_r = r@;
        let e = &sibs[j];
        let low = to_lower(&e.path);
        let keep = contains_sub(&low, &low_pat);
        if keep {
            r.push(e.dup());
        }
        proof {
            assert(e@ == orig[j as int]);
            let below = orig.subrange(0, j as int);
            let upto = orig.subrange(0, j + 1);
            assert(upto =~= below.push(orig[j as int]));
            lemma_matching_push(below, orig[j as int], pat@);
            if keep {
                assert(evs(r@) =~= pre_r.map_values(|x: Entry| x@).push(orig[j as int]));
            }
        }
        j = j + 1;
    }
    proof {
        assert(orig.subrange(0, orig.len() as int) =~= orig);
    }
    r
}

} // verus!
