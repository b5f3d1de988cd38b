//! Widow/orphan control for threaded text chains.
//!
//! When a chain's lines are poured into a box, a greedy height cut keeps the
//! first `take` lines and carries the rest into the next box. If the cut
//! splits a paragraph, this pass pulls lines DOWN into the next box so that
//! neither side of the boundary holds fewer than `n` lines of that paragraph.
//! Lines are modelled by their paragraph index only: that is all the rule reads.

use vstd::prelude::*;

verus! {

/// The number of consecutive lines of paragraph `p` that end just before
/// position `i` (a run read backwards from `i - 1`).
pub open spec fn run_back(paras: Seq<usize>, i: int, p: usize) -> nat
    decreases i,
{
    if i <= 0 || i > paras.len() || paras[i - 1] != p {
        0
    } else {
        1 + run_back(paras, i - 1, p)
    }
}

/// The number of consecutive lines of paragraph `p` starting at position `i`.
pub open spec fn run_fwd(paras: Seq<usize>, i: int, p: usize) -> nat
    decreases paras.len() - i,
{
    if i < 0 || i >= paras.len() || paras[i] != p {
        0
    } else {
        1 + run_fwd(paras, i + 1, p)
    }
}

/// The cut at `take` separates two lines of the same paragraph.
pub open spec fn splits_paragraph(paras: Seq<usize>, take: int) -> bool {
    0 < take < paras.len() && paras[take - 1] == paras[take]
}

/// A cut at `c` is acceptable: it keeps at least one line in the box, and
/// either it falls between paragraphs or both sides hold at least `n` lines
/// of the paragraph it splits.
pub open spec fn cut_ok(paras: Seq<usize>, c: int, n: int) -> bool {
    &&& c >= 1
    &&& (!splits_paragraph(paras, c) || (run_back(paras, c, paras[c - 1]) >= n && run_fwd(
        paras,
        c,
        paras[c],
    ) >= n))
}

/// `r` is the largest acceptable cut at or below `take`, or `take` itself
/// when no cut at or below it is acceptable.
pub open spec fn largest_ok_cut(paras: Seq<usize>, take: int, n: int, r: int) -> bool {
    if exists|c: int| 1 <= c <= take && #[trigger] cut_ok(paras, c, n) {
        &&& r <= take
        &&& cut_ok(paras, r, n)
        &&& forall|c: int| r < c <= take ==> !#[trigger] cut_ok(paras, c, n)
    } else {
        r == take
    }
}

/// The adjusted cut: with `top` lines of the split paragraph kept and `bottom`
/// carried over, move `n - bottom` lines down for a widow, or the whole top
/// chunk for an orphan, unless that would empty the box.
spec fn spec_adjust(paras: Seq<usize>, take: int, n: int) -> int {
    if !splits_paragraph(paras, take) {
        take
    } else {
        let p = paras[take - 1];
        let top = run_back(paras, take, p) as int;
        let bottom = run_fwd(paras, take, p) as int;
        let t1 = if bottom < n {
            if take >= n - bottom {
                take - (n - bottom)
            } else {
                0
            }
        } else {
            take
        };
        let moved = take - t1;
        let top_after = if top >= moved {
            top - moved
        } else {
            0
        };
        let t2 = if top_after < n {
            if take >= top {
                take - top
            } else {
                0
            }
        } else {
            t1
        };
        if t2 >= 1 {
            t2
        } else {
            take
        }
    }
}

proof fn lemma_run_back_bound(paras: Seq<usize>, i: int, p: usize)
    ensures
        run_back(paras, i, p) <= (if i > 0 {
            i
        } else {
            0
        }),
        0 < i <= paras.len() && paras[i - 1] == p ==> run_back(paras, i, p) >= 1,
        forall|k: int|
            i - run_back(paras, i, p) <= k < i ==> #[trigger] paras[k] == p,
        i - run_back(paras, i, p) > 0 && i <= paras.len() ==> paras[i - run_back(paras, i, p) - 1]
            != p,
    decreases i,
{
    if !(i <= 0 || i > paras.len() || paras[i - 1] != p) {
        lemma_run_back_bound(paras, i - 1, p);
    }
}

proof fn lemma_run_fwd_bound(paras: Seq<usize>, i: int, p: usize)
    ensures
        0 <= i ==> i + run_fwd(paras, i, p) <= (if i <= paras.len() {
            paras.len() as int
        } else {
            i
        }),
        forall|k: int| i <= k < i + run_fwd(paras, i, p) ==> #[trigger] paras[k] == p,
        0 <= i && i + run_fwd(paras, i, p) < paras.len() ==> paras[i + run_fwd(paras, i, p)] != p,
    decreases paras.len() - i,
{
    if !(i < 0 || i >= paras.len() || paras[i] != p) {
        lemma_run_fwd_bound(paras, i + 1, p);
    }
}

/// A run of `p` ending at `i` continues backwards from any point inside it.
proof fn lemma_run_back_inside(paras: Seq<usize>, i: int, j: int, p: usize)
    requires
        0 <= j <= i <= paras.len(),
        i - run_back(paras, i, p) <= j,
    ensures
        run_back(paras, j, p) == run_back(paras, i, p) - (i - j),
    decreases i - j,
{
    lemma_run_back_bound(paras, i, p);
    if j < i {
        assert(paras[i - 1] == p);
        lemma_run_back_inside(paras, i - 1, j, p);
    }
}

/// Extending a forward run of `p` backwards over lines of `p`.
proof fn lemma_run_fwd_extend(paras: Seq<usize>, j: int, i: int, p: usize)
    requires
        0 <= j <= i <= paras.len(),
        forall|k: int| j <= k < i ==> paras[k] == p,
    ensures
        run_fwd(paras, j, p) == (i - j) + run_fwd(paras, i, p),
    decreases i - j,
{
    if j < i {
        lemma_run_fwd_extend(paras, j + 1, i, p);
    }
}

/// The widow/orphan adjustment gives the largest acceptable cut at or below
/// the greedy one, and leaves the greedy cut as it is when no cut at or
/// below it is acceptable (lines only move down; the box is never emptied).
proof fn lemma_adjust_is_largest_ok_cut(paras: Seq<usize>, take: int, n: int)
    requires
        0 <= take,
        0 <= n,
    ensures
        largest_ok_cut(paras, take, n, spec_adjust(paras, take, n)),
{
    let r = spec_adjust(paras, take, n);
    if !splits_paragraph(paras, take) {
        if take >= 1 {
            assert(cut_ok(paras, take, n));
        }
    } else {
        let p = paras[take - 1];
        let top = run_back(paras, take, p) as int;
        let bottom = run_fwd(paras, take, p) as int;
        lemma_run_back_bound(paras, take, p);
        lemma_run_fwd_bound(paras, take, p);
        assert(bottom >= 1);
        assert(top >= 1);
        // Inside the run, acceptability is arithmetic on the position.
        assert forall|c: int| take - top < c <= take implies #[trigger] cut_ok(paras, c, n) == (
        c >= 1 && top - (take - c) >= n && (take - c) + bottom >= n) by {
            assert(paras[c - 1] == p);
            assert(paras[c] == p);
            lemma_run_back_inside(paras, take, c, p);
            lemma_run_fwd_extend(paras, c, take, p);
        }
        // The run's start is a paragraph boundary.
        if take - top >= 1 {
            assert(paras[take - top] == p);
            assert(!splits_paragraph(paras, take - top));
            assert(cut_ok(paras, take - top, n));
        }
        let t1 = if bottom < n {
            if take >= n - bottom {
                take - (n - bottom)
            } else {
                0
            }
        } else {
            take
        };
        let moved = take - t1;
        let top_after = if top >= moved {
            top - moved
        } else {
            0
        };
        if top_after >= n {
            assert(moved < top);
            assert(t1 >= 1);
            assert(r == t1);
            assert(cut_ok(paras, t1, n));
            assert forall|c: int| r < c <= take implies !#[trigger] cut_ok(paras, c, n) by {}
        } else {
            assert forall|c: int| take - top < c <= take implies !#[trigger] cut_ok(paras, c, n) by {}
            if take - top >= 1 {
                assert(r == take - top);
            } else {
                assert(r == take);
                assert forall|c: int| 1 <= c <= take implies !#[trigger] cut_ok(paras, c, n) by {}
            }
        }
    }
}

/// Adjust a greedy height cut `take` (lines kept in THIS box, out of the
/// lines whose paragraph indices are `line_paragraphs`) to honor a
/// widow/orphan minimum of `n` lines per paragraph across the box boundary.
///
/// Returns the possibly-reduced `take`; lines only ever move DOWN into the
/// next box. When the cut splits a paragraph, the next box is made to start
/// with at least `n` lines of it (widow rule); if that leaves this box with
/// fewer than `n` of them, the whole top chunk moves down instead (orphan
/// rule). A change that would empty this box is not made.
pub fn adjust_for_widow_orphan(line_paragraphs: &[usize], take: usize, n: usize) -> (r: usize)
    ensures
        largest_ok_cut(line_paragraphs@, take as int, n as int, r as int),
        r <= take,
        take >= 1 ==> r >= 1,
        !splits_paragraph(line_paragraphs@, take as int) ==> r == take,
        r < take ==> !splits_paragraph(line_paragraphs@, r as int) || (run_back(
            line_paragraphs@,
            r as int,
            line_paragraphs@[r as int],
        ) >= n && run_fwd(line_paragraphs@, r as int, line_paragraphs@[r as int]) >= n),
{
    let ghost s = line_paragraphs@;
    let len = line_paragraphs.len();
    proof {
        lemma_adjust_is_largest_ok_cut(s, take as int, n as int);
    }
    if take == 0 || take >= len {
        return take;
    }
    let para = line_paragraphs[take - 1];
    if para != line_paragraphs[take] {
        return take;
    }
    // Trailing lines of `para` kept in this box.

    let mut top: usize = 0;
    while top < take && line_paragraphs[take - 1 - top] == para
        invariant
            s == line_paragraphs@,
            len == s.len(),
            0 < take < len,
            top <= take,
            run_back(s, take as int, para) == top + run_back(s, take - top, para),
        decreases take - top,
    {
        top = top + 1;
    }
    // Leading lines of `para` in the next box.
    let mut bottom: usize = 0;
    proof {
        lemma_run_fwd_extend(s, take as int, take as int, para);
    }
    while take + bottom < len && line_paragraphs[take + bottom] == para
        invariant
            s == line_paragraphs@,
            len == s.len(),
            0 < take < len,
            take + bottom <= len,
            run_fwd(s, take as int, para) == bottom + run_fwd(s, take + bottom, para),
        decreases len - take - bottom,
    {
        bottom = bottom + 1;
    }
    let mut new_take = take;
    if bottom < n {
        let need = n - bottom;
        new_take = if take >= need {
            take - need
        } else {
            0
        };
    }
    let moved = take - new_take;
    let top_after = if top >= moved {
        top - moved
    } else {
        0
    };
    if top_after < n {
        new_take = if take >= top {
            take - top
        } else {
            0
        };
    }
    let r = if new_take >= 1 {
        new_take
    } else {
        take
    };
    proof {
        lemma_adjust_is_largest_ok_cut(s, take as int, n as int);
        let ti = take as int;
        let ri = r as int;
        lemma_run_back_bound(s, ti, para);
        lemma_run_fwd_bound(s, ti, para);
        assert(top == run_back(s, ti, para));
        assert(bottom == run_fwd(s, ti, para));
        if ri < ti && splits_paragraph(s, ri) {
            // The cut moved down inside the paragraph run of `para`.
            if top_after < n {
                // Whole top chunk moved: the new cut is at the run's start.
                assert(ri == ti - top);
                lemma_run_back_bound(s, ti, para);
                assert(s[ri] == para);
                assert(s[ri - 1] != para);
                assert(false);
            } else {
                assert(ri == ti - (n - bottom));
                lemma_run_back_inside(s, ti, ri, para);
                assert(s[ri] == para);
                lemma_run_fwd_extend(s, ri, ti, para);
            }
        }
    }
    r
}

} // verus!
