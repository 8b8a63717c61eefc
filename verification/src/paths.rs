//! Structural path model: paths are byte strings with `/` separators.
//!
//! Parent and file-name derivation mirror the usual component rules: trailing
//! separators are ignored, the parent of a one-component path is the empty
//! path, and the parent of `/name` is `/`.

use vstd::prelude::*;

verus! {

/// Path separator byte (`/`).
pub const SEP: u8 = 47;

/// The byte `.`, which starts hidden names and the `..` placeholder.
pub const DOT: u8 = 46;

/// `p` with its trailing separators removed.
pub open spec fn norm_spec(p: Seq<u8>) -> Seq<u8>
    decreases p.len(),
{
    if p.len() > 0 && p.last() == SEP {
        norm_spec(p.drop_last())
    } else {
        p
    }
}

/// Index of the last separator in `p`, or -1 if there is none.
pub open spec fn last_sep(p: Seq<u8>) -> int
    decreases p.len(),
{
    if p.len() == 0 {
        -1
    } else if p.last() == SEP {
        p.len() - 1
    } else {
        last_sep(p.drop_last())
    }
}

/// The path without its final component; empty when there is no parent,
/// `/` when the final component hangs directly off the root.
pub open spec fn parent_spec(p: Seq<u8>) -> Seq<u8> {
    let q = norm_spec(p);
    let i = last_sep(q);
    if i < 0 {
        Seq::empty()
    } else if i == 0 {
        seq![SEP]
    } else {
        q.subrange(0, i)
    }
}

/// The final component of the path (trailing separators ignored).
pub open spec fn file_name_spec(p: Seq<u8>) -> Seq<u8> {
    let q = norm_spec(p);
    q.subrange(last_sep(q) + 1, q.len() as int)
}

/// A name is hidden when its final component starts with `.`.
pub open spec fn is_hidden_spec(p: Seq<u8>) -> bool {
    file_name_spec(p).len() > 0 && file_name_spec(p)[0] == DOT
}

/// Whether the path has a parent: anything but the empty path and the root.
pub open spec fn has_parent_spec(p: Seq<u8>) -> bool {
    norm_spec(p).len() > 0
}

/// `p` joined with the `..` placeholder component.
pub open spec fn join_dotdot_spec(p: Seq<u8>) -> Seq<u8> {
    if p.len() > 0 && p.last() != SEP {
        p + seq![SEP, DOT, DOT]
    } else {
        p + seq![DOT, DOT]
    }
}

/// Characterizes `norm_spec`: it is the longest prefix without a trailing
/// separator.
pub proof fn lemma_norm_prefix(p: Seq<u8>)
    ensures
        norm_spec(p).len() <= p.len(),
        norm_spec(p) == p.subrange(0, norm_spec(p).len() as int),
        forall|j: int| norm_spec(p).len() <= j < p.len() ==> p[j] == SEP,
        norm_spec(p).len() > 0 ==> p[norm_spec(p).len() - 1] != SEP,
    decreases p.len(),
{
    if p.len() > 0 && p.last() == SEP {
        lemma_norm_prefix(p.drop_last());
        assert(p.drop_last() == p.subrange(0, p.len() - 1));
        let n = norm_spec(p).len() as int;
        assert(p.drop_last().subrange(0, n) =~= p.subrange(0, n));
        assert forall|j: int| n <= j < p.len() implies p[j] == SEP by {
            if j < p.len() - 1 {
                assert(p.drop_last()[j] == p[j]);
            }
        }
        if n > 0 {
            assert(p.drop_last()[n - 1] == p[n - 1]);
        }
    } else {
        assert(p =~= p.subrange(0, p.len() as int));
    }
}

/// Any index that cuts exactly the trailing separators gives `norm_spec`.
pub proof fn lemma_norm_val(p: Seq<u8>, e: int)
    requires
        0 <= e <= p.len(),
        forall|j: int| e <= j < p.len() ==> p[j] == SEP,
        e == 0 || p[e - 1] != SEP,
    ensures
        norm_spec(p) == p.subrange(0, e),
    decreases p.len(),
{
    if p.len() > 0 && p.last() == SEP {
        assert(e < p.len());
        lemma_norm_val(p.drop_last(), e);
        assert(p.drop_last().subrange(0, e) =~= p.subrange(0, e));
    } else {
        assert(e == p.len());
        assert(p =~= p.subrange(0, p.len() as int));
    }
}

/// A separator position with none after it is the last one.
pub proof fn lemma_last_sep_val(q: Seq<u8>, i: int)
    requires
        -1 <= i < q.len(),
        i >= 0 ==> q[i] == SEP,
        forall|j: int| i < j < q.len() ==> q[j] != SEP,
    ensures
        last_sep(q) == i,
    decreases q.len(),
{
    if q.len() == 0 {
    } else if q.last() == SEP {
        assert(i == q.len() - 1);
    } else {
        assert(i < q.len() - 1);
        lemma_last_sep_val(q.drop_last(), i);
    }
}

/// Bounds and the defining properties of `last_sep`.
pub proof fn lemma_last_sep_props(q: Seq<u8>)
    ensures
        -1 <= last_sep(q) < q.len(),
        last_sep(q) >= 0 ==> q[last_sep(q)] == SEP,
        forall|j: int| last_sep(q) < j < q.len() ==> q[j] != SEP,
    decreases q.len(),
{
    if q.len() == 0 {
    } else if q.last() == SEP {
    } else {
        lemma_last_sep_props(q.drop_last());
        assert forall|j: int| last_sep(q) < j < q.len() implies q[j] != SEP by {
            if j < q.len() - 1 {
                assert(q.drop_last()[j] == q[j]);
            }
        }
        if last_sep(q) >= 0 {
            assert(q.drop_last()[last_sep(q)] == q[last_sep(q)]);
        }
    }
}

/// Copies the byte range `[a, b)` of `p` into a fresh vector.
pub fn copy_range(p: &Vec<u8>, a: usize, b: usize) -> (r: Vec<u8>)
    requires
        a <= b <= p@.len(),
    ensures
        r@ == p@.subrange(a as int, b as int),
{
    let mut r: Vec<u8> = Vec::new();
    let mut k: usize = a;
    while k < b
        invariant
            a <= k <= b <= p@.len(),
            r@ == p@.subrange(a as int, k as int),
        decreases b - k,
    {
        r.push(p[k]);
        k = k + 1;
        assert(r@ =~= p@.subrange(a as int, k as int));
    }
    r
}

/// Copies a byte path.
pub fn copy_bytes(p: &Vec<u8>) -> (r: Vec<u8>)
    ensures
        r@ == p@,
{
    let r = copy_range(p, 0, p.len());
    assert(p@.subrange(0, p@.len() as int) =~= p@);
    r
}

/// Byte-wise equality of two paths.
pub fn bytes_eq(a: &Vec<u8>, b: &Vec<u8>) -> (r: bool)
    ensures
        r <==> a@ == b@,
{
    if a.len() != b.len() {
        return false;
    }
    let mut k: usize = 0;
    while k < a.len()
        invariant
            k <= a@.len(),
            a@.len() == b@.len(),
            forall|j: int| 0 <= j < k ==> a@[j] == b@[j],
        decreases a@.len() - k,
    {
        if a[k] != b[k] {
            return false;
        }
        k = k + 1;
    }
    assert(a@ =~= b@);
    true
}

/// Finds the end of the normalized path and the start of its final
/// component: `e` cuts the trailing separators, `j - 1` is the last
/// separator before `e` (`j == 0` when there is none).
pub fn split_points(p: &Vec<u8>) -> (r: (usize, usize))
    ensures
        ({
            let (e, j) = r;
            &&& j <= e <= p@.len()
            &&& norm_spec(p@) == p@.subrange(0, e as int)
            &&& last_sep(norm_spec(p@)) == j - 1
        }),
{
    let mut e: usize = p.len();
    while e > 0 && p[e - 1] == SEP
        invariant
            e <= p@.len(),
            forall|j: int| e <= j < p@.len() ==> p@[j] == SEP,
        decreases e,
    {
        e = e - 1;
    }
    proof {
        lemma_norm_val(p@, e as int);
    }
    let ghost q = norm_spec(p@);
    let mut j: usize = e;
    while j > 0 && p[j - 1] != SEP
        invariant
            j <= e <= p@.len(),
            norm_spec(p@) == p@.subrange(0, e as int),
            forall|k: int| j <= k < e ==> p@[k] != SEP,
        decreases j,
    {
        j = j - 1;
    }
    proof {
        assert(forall|k: int| j <= k < e ==> q[k] == p@[k]);
        lemma_last_sep_val(q, j - 1);
    }
    (e, j)
}

/// The path without its final component.
pub fn parent_of(p: &Vec<u8>) -> (r: Vec<u8>)
    ensures
        r@ == parent_spec(p@),
{
    let (e, j) = split_points(p);
    if j == 0 {
        let r: Vec<u8> = Vec::new();
        assert(r@ =~= parent_spec(p@));
        r
    } else if j == 1 {
        let mut r: Vec<u8> = Vec::new();
        r.push(SEP);
        assert(r@ =~= parent_spec(p@));
        r
    } else {
        let r = copy_range(p, 0, j - 1);
        proof {
            let q = norm_spec(p@);
            assert(q.subrange(0, j - 1) =~= p@.subrange(0, j - 1));
        }
        r
    }
}

/// The final component of the path.
pub fn file_name_of(p: &Vec<u8>) -> (r: Vec<u8>)
    ensures
        r@ == file_name_spec(p@),
{
    let (e, j) = split_points(p);
    let r = copy_range(p, j, e);
    proof {
        let q = norm_spec(p@);
        assert(q.subrange(j as int, q.len() as int) =~= p@.subrange(j as int, e as int));
    }
    r
}

/// Whether the final component starts with `.`.
pub fn is_hidden(p: &Vec<u8>) -> (r: bool)
    ensures
        r == is_hidden_spec(p@),
{
    let (e, j) = split_points(p);
    proof {
        let q = norm_spec(p@);
        assert(file_name_spec(p@) == q.subrange(j as int, q.len() as int));
        if j < e {
            assert(q.subrange(j as int, q.len() as int)[0] == p@[j as int]);
        }
    }
    j < e && p[j] == DOT
}

/// Whether the path has a parent.
pub fn has_parent(p: &Vec<u8>) -> (r: bool)
    ensures
        r == has_parent_spec(p@),
{
    let (e, _j) = split_points(p);
    e > 0
}

/// `p` with its trailing separators removed.
pub fn normalize(p: &Vec<u8>) -> (r: Vec<u8>)
    ensures
        r@ == norm_spec(p@),
{
    let (e, _j) = split_points(p);
    copy_range(p, 0, e)
}

/// Normalization is idempotent.
pub proof fn lemma_norm_idem(p: Seq<u8>)
    ensures
        norm_spec(norm_spec(p)) == norm_spec(p),
{
    lemma_norm_prefix(p);
    let q = norm_spec(p);
    if q.len() > 0 {
        assert(q[q.len() - 1] == p[q.len() - 1]);
    }
}

/// The parent of a path is the parent of its normalization.
pub proof fn lemma_parent_of_norm(p: Seq<u8>)
    ensures
        parent_spec(norm_spec(p)) == parent_spec(p),
{
    lemma_norm_idem(p);
}

/// A normalized, non-empty path is strictly longer than its parent; in
/// particular the two differ.
pub proof fn lemma_parent_shorter(q: Seq<u8>)
    requires
        q == norm_spec(q),
        q.len() > 0,
    ensures
        parent_spec(q).len() < q.len(),
        parent_spec(q) != q,
{
    lemma_norm_prefix(q);
    lemma_last_sep_props(q);
    let i = last_sep(q);
    if i == 0 {
        assert(q[0] == SEP);
        assert(q[q.len() - 1] != SEP);
        assert(q.len() >= 2);
    }
}

/// A directory-like path: non-empty once normalized, with at most one
/// trailing separator.
pub open spec fn dirlike(p: Seq<u8>) -> bool {
    let q = norm_spec(p);
    q.len() > 0 && (p == q || p == q.push(SEP))
}

/// Joining `..` onto a directory-like path and taking the parent lands on
/// the normalized path again.
pub proof fn lemma_join_dotdot_parent(p: Seq<u8>)
    requires
        dirlike(p),
    ensures
        parent_spec(join_dotdot_spec(p)) == norm_spec(p),
{
    lemma_norm_prefix(p);
    let q = norm_spec(p);
    let j = join_dotdot_spec(p);
    assert(j =~= q + seq![SEP, DOT, DOT]) by {
        if p == q {
            assert(p.len() > 0 && p.last() != SEP);
        } else {
            assert(p.last() == SEP);
        }
    }
    assert(j.last() == DOT);
    assert(norm_spec(j) == j);
    lemma_last_sep_val(j, q.len() as int);
    assert(parent_spec(j) =~= q) by {
        assert(q.len() >= 1);
        if q.len() as int == 0 {
        } else {
            assert(j.subrange(0, q.len() as int) =~= q);
        }
    }
}

/// Lexicographic byte order: `a` comes no later than `b`.
pub open spec fn lex_leq(a: Seq<u8>, b: Seq<u8>) -> bool
    decreases a.len(),
{
    if a.len() == 0 {
        true
    } else if b.len() == 0 {
        false
    } else if a[0] < b[0] {
        true
    } else if a[0] > b[0] {
        false
    } else {
        lex_leq(a.drop_first(), b.drop_first())
    }
}

/// `lex_leq` is total: one of the two orders always holds.
pub proof fn lemma_lex_leq_total(a: Seq<u8>, b: Seq<u8>)
    ensures
        lex_leq(a, b) || lex_leq(b, a),
    decreases a.len(),
{
    if a.len() > 0 && b.len() > 0 && a[0] == b[0] {
        lemma_lex_leq_total(a.drop_first(), b.drop_first());
    }
}

/// Skipping an equal prefix does not change the lexicographic order.
pub proof fn lemma_lex_leq_skip(a: Seq<u8>, b: Seq<u8>, i: int)
    requires
        0 <= i <= a.len(),
        i <= b.len(),
        forall|j: int| 0 <= j < i ==> a[j] == b[j],
    ensures
        lex_leq(a, b) == lex_leq(a.skip(i), b.skip(i)),
    decreases i,
{
    if i > 0 {
        assert(a.len() > 0 && b.len() > 0 && a[0] == b[0]);
        lemma_lex_leq_skip(a.drop_first(), b.drop_first(), i - 1);
        assert(a.drop_first().skip(i - 1) =~= a.skip(i));
        assert(b.drop_first().skip(i - 1) =~= b.skip(i));
    } else {
        assert(a.skip(0) =~= a);
        assert(b.skip(0) =~= b);
    }
}

/// Lexicographic byte comparison.
pub fn lex_le(a: &Vec<u8>, b: &Vec<u8>) -> (r: bool)
    ensures
        r == lex_leq(a@, b@),
{
    let mut k: usize = 0;
    while k < a.len() && k < b.len()
        invariant
            k <= a@.len(),
            k <= b@.len(),
            forall|j: int| 0 <= j < k ==> a@[j] == b@[j],
        decreases a@.len() - k,
    {
        proof {
            lemma_lex_leq_skip(a@, b@, k as int);
        }
        if a[k] < b[k] {
            return true;
        }
        if a[k] > b[k] {
            return false;
        }
        k = k + 1;
    }
    proof {
        lemma_lex_leq_skip(a@, b@, k as int);
    }
    a.len() <= b.len()
}

/// The Unicode lower-casing of path text, taken as a function of the bytes
/// alone: the lower-cased UTF-8 decoding, or the empty string where the
/// bytes are not UTF-8 (path text that cannot be decoded compares as
/// empty).
pub uninterp spec fn lower_of(s: Seq<u8>) -> Seq<u8>;

/// Relies on str::to_lowercase: the Unicode lower-casing of a string is a
/// function of its characters alone.  Decoding the bytes and re-encoding
/// the result convert the argument and the result; bytes that are not
/// UTF-8 lower to the empty string.
#[verifier::external_body]
pub(crate) fn to_lower(s: &Vec<u8>) -> (r: Vec<u8>)
    ensures
        r@ == lower_of(s@),
{
    match std::str::from_utf8(s) {
        Ok(text) => text.to_lowercase().into_bytes(),
        Err(_) => Vec::new(),
    }
}

/// Whether `needle` occurs as a contiguous run of bytes in `hay`.
pub open spec fn is_substr(hay: Seq<u8>, needle: Seq<u8>) -> bool {
    exists|i: int|
        0 <= i <= hay.len() - needle.len() && #[trigger] hay.subrange(i, i + needle.len())
            == needle
}

/// Whether `needle` occurs at position `i` of `hay`.
fn match_at(hay: &Vec<u8>, needle: &Vec<u8>, i: usize) -> (r: bool)
    requires
        i + needle@.len() <= hay@.len(),
    ensures
        r == (hay@.subrange(i as int, i + needle@.len()) == needle@),
{
    let hl = hay.len();
    let mut k: usize = 0;
    while k < needle.len()
        invariant
            k <= needle@.len(),
            hl == hay@.len(),
            i + needle@.len() <= hay@.len(),
            forall|j: int| 0 <= j < k ==> hay@[i + j] == needle@[j],
        decreases needle@.len() - k,
    {
        assert(i + k < hl);
        if hay[i + k] != needle[k] {
            proof {
                let sub = hay@.subrange(i as int, i + needle@.len());
                assert(sub[k as int] == hay@[i + k]);
            }
            return false;
        }
        k = k + 1;
    }
    assert(hay@.subrange(i as int, i + needle@.len()) =~= needle@);
    true
}

/// Substring search.
pub fn contains_sub(hay: &Vec<u8>, needle: &Vec<u8>) -> (r: bool)
    ensures
        r == is_substr(hay@, needle@),
{
    if needle.len() > hay.len() {
        return false;
    }
    if needle.len() == 0 {
        assert(hay@.subrange(0, 0 + needle@.len() as int) =~= needle@);
        return true;
    }
    let hl = hay.len();
    let n = needle.len();
    let last = hl - n;
    let mut i: usize = 0;
    while i <= last
        invariant
            i <= last + 1,
            n == needle@.len(),
            hl == hay@.len(),
            n >= 1,
            last == hl - n,
            forall|j: int|
                0 <= j < i ==> #[trigger] hay@.subrange(j, j + needle@.len()) != needle@,
        decreases last + 1 - i,
    {
        if match_at(hay, needle, i) {
            assert(hay@.subrange(i as int, i + needle@.len()) == needle@);
            assert(is_substr(hay@, needle@));
            return true;
        }
        i = i + 1;
    }
    false
}

/// `p` joined with the `..` placeholder component.
pub fn join_dotdot(p: &Vec<u8>) -> (r: Vec<u8>)
    ensures
        r@ == join_dotdot_spec(p@),
{
    let mut r = copy_bytes(p);
    if r.len() > 0 && r[r.len() - 1] != SEP {
        r.push(SEP);
        r.push(DOT);
        r.push(DOT);
        assert(r@ =~= join_dotdot_spec(p@));
    } else {
        r.push(DOT);
        r.push(DOT);
        assert(r@ =~= join_dotdot_spec(p@));
    }
    r
}

} // verus!
