//! Builds the line list a renderer prints: the current directory, a blank
//! line, then one row per sibling, the selected row marked with `>`.

use vstd::prelude::*;

use crate::listing::{evs, Entry, EntryV};
use crate::paths::{file_name_of, file_name_spec, DOT, SEP};

verus! {

/// The views of a run of byte lines.
pub open spec fn lvs(s: Seq<Vec<u8>>) -> Seq<Seq<u8>> {
    s.map_values(|v: Vec<u8>| v@)
}

/// The three-byte margin of a row: `" > "` for the selected row, spaces
/// otherwise.
pub open spec fn mark_spec(sel: bool) -> Seq<u8> {
    if sel {
        seq![32u8, 62u8, 32u8]
    } else {
        seq![32u8, 32u8, 32u8]
    }
}

/// One row: the margin, the entry's file name, and a trailing separator
/// for directories.
pub open spec fn row_spec(e: EntryV, sel: bool) -> Seq<u8> {
    mark_spec(sel) + file_name_spec(e.path) + if e.is_dir {
        seq![SEP]
    } else {
        Seq::empty()
    }
}

/// The placeholder entry an empty directory is rendered as: `../`.
pub open spec fn placeholder_spec() -> EntryV {
    EntryV { path: seq![DOT, DOT], is_dir: true, size: 0, mtime: 0 }
}

/// The whole line list: current directory, a blank line, one row per
/// sibling (the row at `pos` marked), or a single marked `../` placeholder
/// row for an empty directory.
pub open spec fn format_spec(cd: Seq<u8>, sibs: Option<Seq<EntryV>>, pos: int) -> Seq<Seq<u8>> {
    let rows = match sibs {
        Some(s) => Seq::new(s.len(), |i: int| row_spec(s[i], i == pos)),
        None => seq![row_spec(placeholder_spec(), true)],
    };
    seq![cd, Seq::<u8>::empty()] + rows
}

/// Builds one row.
pub fn render_row(e: &Entry, sel: bool) -> (r: Vec<u8>)
    ensures
        r@ == row_spec(e@, sel),
{
    let mut r: Vec<u8> = Vec::new();
    r.push(32);
    if sel {
        r.push(62);
    } else {
        r.push(32);
    }
    r.push(32);
    let name = file_name_of(&e.path);
    let mut k: usize = 0;
    while k < name.len()
        invariant
            k <= name@.len(),
            r@ == mark_spec(sel) + name@.subrange(0, k as int),
        decreases name@.len() - k,
    {
        r.push(name[k]);
        k = k + 1;
        assert(r@ =~= mark_spec(sel) + name@.subrange(0, k as int));
    }
    proof {
        assert(name@.subrange(0, name@.len() as int) =~= name@);
    }
    if e.is_dir {
        r.push(SEP);
        assert(r@ =~= row_spec(e@, sel));
    } else {
        assert(r@ =~= row_spec(e@, sel));
    }
    r
}

/// The line builder.
pub struct Lines {}

impl Default for Lines {
    /// A line builder.
    fn default() -> Lines {
        Lines::new()
    }
}

impl Lines {
    /// A line builder.
    pub fn new() -> Lines {
        Lines {  }
    }

    /// Builds the line list for the current directory `cd`, its listing
    /// (`None` for an empty directory), and the selected row's index.
    pub fn format(&self, cd: &Vec<u8>, siblings: &Option<Vec<Entry>>, pos: usize) -> (r: Vec<
        Vec<u8>,
    >)
        requires
            match siblings@ {
                Some(v) => pos < v@.len(),
                None => pos == 0,
            },
        ensures
            lvs(r@) == format_spec(
                cd@,
                match siblings@ {
                    Some(v) => Some(evs(v@)),
                    None => None,
                },
                pos as int,
            ),
    {
        let mut r: Vec<Vec<u8>> = Vec::new();
        r.push(crate::paths::copy_bytes(cd));
        r.push(Vec::new());
        match siblings {
            Some(v) => {
                let ghost target = format_spec(cd@, Some(evs(v@)), pos as int);
                let mut j: usize = 0;
                proof {
                    assert(lvs(r@) =~= target.subrange(0, 2));
                }
                while j < v.len()
                    invariant
                        j <= v@.len(),
                        pos < v@.len(),
                        target == format_spec(cd@, Some(evs(v@)), pos as int),
                        target.len() == 2 + v@.len(),
                        lvs(r@) == target.subrange(0, 2 + j as int),
                    decreases v@.len() - j,
                {
                    let ghost pre = r@;
                    let row = render_row(&v[j], j == pos);
                    r.push(row);
                    proof {
                        assert(evs(v@)[j as int] == v@[j as int]@);
                        assert(target[2 + j as int] == row_spec(evs(v@)[j as int], j == pos));
                        assert(r@ == pre.push(row));
                        assert(lvs(pre).len() == pre.len());
                        assert(lvs(pre).len() == 2 + j);
                        assert(lvs(r@).len() == 2 + j + 1);
                        assert forall|x: int| 0 <= x < 2 + j + 1 implies lvs(r@)[x]
                            == target.subrange(0, 2 + j + 1)[x] by {
                            if x < 2 + j {
                                assert(lvs(r@)[x] == r@[x]@);
                                assert(r@[x] == pre[x]);
                                assert(lvs(pre)[x] == pre[x]@);
                                assert(lvs(pre)[x] == target.subrange(0, 2 + j as int)[x]);
                            } else {
                                assert(lvs(r@)[x] == row@);
                            }
                        }
                        assert(lvs(r@) =~= target.subrange(0, 2 + j + 1));
                    }
                    j = j + 1;
                }
                proof {
                    assert(target.subrange(0, target.len() as int) =~= target);
                }
                r
            },
            None => {
                let mut ph: Vec<u8> = Vec::new();
                ph.push(DOT);
                ph.push(DOT);
                let e = Entry::new(ph, true, 0, 0);
                proof {
                    assert(e@.path =~= seq![DOT, DOT]);
                    assert(e@ == placeholder_spec());
                }
                let row = render_row(&e, true);
                r.push(row);
                proof {
                    assert(lvs(r@) =~= format_spec(cd@, None, pos as int));
                }
                r
            },
        }
    }
}

} // verus!
