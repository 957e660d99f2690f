//! Sparse differences between two grid snapshots, and their replay.
use vstd::prelude::*;

use crate::grid::{Cell, Term, GRID_CELLS};

verus! {

/// Flat row-major position of a diff triple `(x, y, cell)`.
pub open spec fn diff_pos(t: (u8, u8, Cell)) -> int {
    t.1 * 64 + t.0
}

/// The changed-cell triples of positions below `n`, in row-major scan order.
pub open spec fn spec_grid_diff_upto(a: Seq<Cell>, b: Seq<Cell>, n: int) -> Seq<(u8, u8, Cell)>
    decreases n,
{
    if n <= 0 {
        Seq::empty()
    } else {
        let p = n - 1;
        spec_grid_diff_upto(a, b, p) + if a[p] != b[p] {
            seq![(((p % 64) as u8), ((p / 64) as u8), b[p])]
        } else {
            Seq::empty()
        }
    }
}

/// The full row-major sequence of changed-cell triples between `a` and `b`.
pub open spec fn spec_grid_diff(a: Seq<Cell>, b: Seq<Cell>) -> Seq<(u8, u8, Cell)> {
    spec_grid_diff_upto(a, b, GRID_CELLS as int)
}

/// Every triple names a coordinate inside the grid.
pub open spec fn diff_coords_ok(d: Seq<(u8, u8, Cell)>) -> bool {
    forall|i: int| 0 <= i < d.len() ==> (#[trigger] d[i]).0 < 64 && d[i].1 < 64
}

/// Triples carry in-range coordinates and appear in strictly increasing
/// row-major order (so each coordinate appears at most once).
pub open spec fn diff_wf(d: Seq<(u8, u8, Cell)>) -> bool {
    &&& diff_coords_ok(d)
    &&& forall|i: int, j: int|
        #![trigger d[i], d[j]]
        0 <= i < j < d.len() ==> diff_pos(d[i]) < diff_pos(d[j])
}

/// `d` is exactly the set of cells on which `a` and `b` disagree, each triple
/// holding `b`'s cell, in strictly increasing row-major order.
pub open spec fn is_diff_of(d: Seq<(u8, u8, Cell)>, a: Seq<Cell>, b: Seq<Cell>) -> bool {
    &&& diff_wf(d)
    &&& forall|i: int|
        0 <= i < d.len() ==> a[diff_pos(#[trigger] d[i])] != b[diff_pos(d[i])] && d[i].2
            == b[diff_pos(d[i])]
    &&& forall|p: int|
        #![trigger a[p], b[p]]
        0 <= p < GRID_CELLS && a[p] != b[p] ==> exists|i: int|
            0 <= i < d.len() && diff_pos(#[trigger] d[i]) == p
}

/// The prefix diff has every property of `is_diff_of`, restricted to
/// positions below `n`.
proof fn lemma_grid_diff_upto_props(a: Seq<Cell>, b: Seq<Cell>, n: int)
    requires
        a.len() == GRID_CELLS,
        b.len() == GRID_CELLS,
        0 <= n <= GRID_CELLS,
    ensures
        forall|i: int|
            0 <= i < spec_grid_diff_upto(a, b, n).len() ==> {
                let t = #[trigger] spec_grid_diff_upto(a, b, n)[i];
                &&& t.0 < 64
                &&& t.1 < 64
                &&& diff_pos(t) < n
                &&& a[diff_pos(t)] != b[diff_pos(t)]
                &&& t.2 == b[diff_pos(t)]
            },
        forall|i: int, j: int|
            #![trigger spec_grid_diff_upto(a, b, n)[i], spec_grid_diff_upto(a, b, n)[j]]
            0 <= i < j < spec_grid_diff_upto(a, b, n).len() ==> diff_pos(
                spec_grid_diff_upto(a, b, n)[i],
            ) < diff_pos(spec_grid_diff_upto(a, b, n)[j]),
        forall|p: int|
            #![trigger a[p], b[p]]
            0 <= p < n && a[p] != b[p] ==> exists|i: int|
                0 <= i < spec_grid_diff_upto(a, b, n).len() && diff_pos(
                    #[trigger] spec_grid_diff_upto(a, b, n)[i],
                ) == p,
    decreases n,
{
    if n > 0 {
        lemma_grid_diff_upto_props(a, b, n - 1);
        let prev = spec_grid_diff_upto(a, b, n - 1);
        let cur = spec_grid_diff_upto(a, b, n);
        let p = n - 1;
        if a[p] != b[p] {
            let t = (((p % 64) as u8), ((p / 64) as u8), b[p]);
            assert(diff_pos(t) == p) by {
                assert(p / 64 * 64 + p % 64 == p) by (nonlinear_arith)
                    requires 0 <= p;
            }
            assert(cur == prev + seq![t]);
            assert(cur[cur.len() - 1] == t);
            assert(forall|i: int| 0 <= i < prev.len() ==> cur[i] == prev[i]);
        } else {
            assert(cur =~= prev);
        }
    }
}

/// An ordered list of cells that changed between two grid snapshots.
pub struct Diff {
    pub diff: Vec<(u8, u8, Cell)>,
}

impl Diff {
    /// Row-major scan of both grids, collecting `next`'s cell wherever the
    /// two snapshots disagree.
    pub fn new(prev: &Term, next: &Term) -> (r: Diff)
        requires
            prev.wf(),
            next.wf(),
        ensures
            r.diff@ == spec_grid_diff(prev@, next@),
            is_diff_of(r.diff@, prev@, next@),
    {
        let mut diff: Vec<(u8, u8, Cell)> = Vec::new();
        let mut p: usize = 0;
        while p < GRID_CELLS
            invariant
                p <= GRID_CELLS,
                prev.wf(),
                next.wf(),
                diff@ == spec_grid_diff_upto(prev@, next@, p as int),
            decreases GRID_CELLS - p,
        {
            let ca = prev.cells[p];
            let cb = next.cells[p];
            if !(ca == cb) {
                diff.push(((p % 64) as u8, (p / 64) as u8, cb));
            }
            p = p + 1;
        }
        proof {
            lemma_grid_diff_upto_props(prev@, next@, GRID_CELLS as int);
        }
        Diff { diff }
    }

    /// Replay this diff onto `t`, patching each named coordinate.
    pub fn apply(&self, t: &mut Term)
        requires
            old(t).wf(),
            diff_coords_ok(self.diff@),
        ensures
            final(t).wf(),
            final(t)@ == spec_apply_diff(old(t)@, self.diff@),
            final(t).count == old(t).count,
    {
        let n = self.diff.len();
        let mut i: usize = 0;
        while i < n
            invariant
                i <= n,
                n == self.diff@.len(),
                diff_coords_ok(self.diff@),
                t.wf(),
                t.count == old(t).count,
                t@ == spec_apply_diff(old(t)@, self.diff@.take(i as int)),
            decreases n - i,
        {
            let (x, y, c) = self.diff[i];
            t.set_cell(x as usize, y as usize, c);
            proof {
                let d = self.diff@;
                assert(d.take(i + 1).drop_last() =~= d.take(i as int));
                assert(d.take(i + 1).last() == d[i as int]);
            }
            i = i + 1;
        }
        proof {
            assert(self.diff@.take(n as int) =~= self.diff@);
        }
    }
}

/// The grid that results from patching `a` with the triples of `d`, in order.
pub open spec fn spec_apply_diff(a: Seq<Cell>, d: Seq<(u8, u8, Cell)>) -> Seq<Cell>
    decreases d.len(),
{
    if d.len() == 0 {
        a
    } else {
        spec_apply_diff(a, d.drop_last()).update(diff_pos(d.last()), d.last().2)
    }
}

proof fn lemma_apply_diff_len(a: Seq<Cell>, d: Seq<(u8, u8, Cell)>)
    requires
        a.len() == GRID_CELLS,
        diff_coords_ok(d),
    ensures
        spec_apply_diff(a, d).len() == GRID_CELLS,
    decreases d.len(),
{
    if d.len() > 0 {
        assert(diff_coords_ok(d.drop_last()));
        lemma_apply_diff_len(a, d.drop_last());
    }
}

/// What replaying a well-formed diff leaves at position `p`: the triple's
/// cell where one names `p`, the starting grid's cell otherwise.
proof fn lemma_apply_diff_at(a: Seq<Cell>, d: Seq<(u8, u8, Cell)>, p: int)
    requires
        a.len() == GRID_CELLS,
        diff_wf(d),
        0 <= p < GRID_CELLS,
    ensures
        (forall|i: int| 0 <= i < d.len() ==> diff_pos(#[trigger] d[i]) != p) ==> spec_apply_diff(
            a,
            d,
        )[p] == a[p],
        forall|i: int|
            0 <= i < d.len() && diff_pos(#[trigger] d[i]) == p ==> spec_apply_diff(a, d)[p]
                == d[i].2,
    decreases d.len(),
{
    if d.len() > 0 {
        let dl = d.drop_last();
        let t = d.last();
        assert(diff_wf(dl));
        lemma_apply_diff_len(a, dl);
        lemma_apply_diff_at(a, dl, p);
        if diff_pos(t) == p {
            assert(spec_apply_diff(a, d)[p] == t.2);
            assert(forall|i: int|
                0 <= i < d.len() - 1 ==> diff_pos(#[trigger] d[i]) < diff_pos(t));
        } else {
            assert(spec_apply_diff(a, d)[p] == spec_apply_diff(a, dl)[p]);
            assert(forall|i: int| 0 <= i < dl.len() ==> dl[i] == d[i]);
        }
    }
}

/// A diff between identical snapshots is empty.
pub proof fn lemma_diff_of_equal_is_empty(a: Seq<Cell>, d: Seq<(u8, u8, Cell)>)
    requires
        a.len() == GRID_CELLS,
        is_diff_of(d, a, a),
    ensures
        d.len() == 0,
{
    if d.len() > 0 {
        let t = d[0];
        assert(a[diff_pos(t)] != a[diff_pos(t)] && t.2 == a[diff_pos(t)]);
    }
}

/// Conversely, an empty diff can only stand between identical snapshots.
pub proof fn lemma_empty_diff_means_equal(a: Seq<Cell>, b: Seq<Cell>, d: Seq<(u8, u8, Cell)>)
    requires
        a.len() == GRID_CELLS,
        b.len() == GRID_CELLS,
        is_diff_of(d, a, b),
        d.len() == 0,
    ensures
        a == b,
{
    assert forall|p: int| 0 <= p < GRID_CELLS implies a[p] == b[p] by {
        if a[p] != b[p] {
            let i = choose|i: int| 0 <= i < d.len() && diff_pos(#[trigger] d[i]) == p;
        }
    }
    assert(a =~= b);
}

/// Replaying the diff of `a` against `b` onto `a` reconstructs `b` exactly.
pub proof fn lemma_apply_diff_reconstructs(a: Seq<Cell>, b: Seq<Cell>, d: Seq<(u8, u8, Cell)>)
    requires
        a.len() == GRID_CELLS,
        b.len() == GRID_CELLS,
        is_diff_of(d, a, b),
    ensures
        spec_apply_diff(a, d) == b,
{
    lemma_apply_diff_len(a, d);
    assert forall|p: int| 0 <= p < GRID_CELLS implies spec_apply_diff(a, d)[p] == b[p] by {
        lemma_apply_diff_at(a, d, p);
        if a[p] != b[p] {
            let i = choose|i: int| 0 <= i < d.len() && diff_pos(#[trigger] d[i]) == p;
            assert(d[i].2 == b[p]);
        }
    }
    assert(spec_apply_diff(a, d) =~= b);
}

} // verus!
