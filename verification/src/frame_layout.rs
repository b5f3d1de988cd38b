//! Child participation and grid cell placement for `flow` and `grid` frames.
//!
//! A frame with `layout="flow"` or `layout="grid"` places its participating
//! children (visible, non-guide) itself. The grid auto-places them row-major
//! into `cols x rows` cells; the pixel geometry of each cell is derived from
//! these integer cell coordinates by the renderer.

use vstd::prelude::*;

use crate::text::{opt_eq, opt_is};

verus! {

/// What flow and grid layout read of a frame child.
pub struct FlowChild {
    /// The child's `role` property.
    pub role: Option<String>,
    /// The child's `visible` property.
    pub visible: Option<bool>,
}

/// The child takes no space in a flow or grid: it is hidden
/// (`visible=false`) or a non-printing guide (`role="guide"`).
pub open spec fn skipped_spec(role: Option<Seq<char>>, visible: Option<bool>) -> bool {
    role == Some("guide"@) || visible == Some(false)
}

/// The `role` of a child as characters.
pub open spec fn role_of(c: FlowChild) -> Option<Seq<char>> {
    match c.role {
        Some(r) => Some(r@),
        None => None,
    }
}

/// Whether a child is excluded from flow layout entirely (consumes no space):
/// `visible == Some(false)` or `role == "guide"`.
pub fn node_skipped_in_flow(role: Option<&str>, visible: Option<bool>) -> (b: bool)
    ensures
        b == skipped_spec(
            match role {
                Some(r) => Some(r@),
                None => None,
            },
            visible,
        ),
{
    let guide = opt_eq(role, "guide");
    proof {
        if role is Some {
            assert(opt_is(role, "guide"@) == (role.unwrap()@ == "guide"@));
        }
    }
    guide || visible == Some(false)
}

/// The indices of the participating children, in source order.
pub open spec fn participants(children: Seq<FlowChild>, n: int) -> Seq<usize>
    decreases n,
{
    if n <= 0 {
        Seq::empty()
    } else if skipped_spec(role_of(children[n - 1]), children[n - 1].visible) {
        participants(children, n - 1)
    } else {
        participants(children, n - 1).push((n - 1) as usize)
    }
}

/// Indices of the children that take part in flow/grid layout, in source order.
pub fn flow_participants(children: &[FlowChild]) -> (p: Vec<usize>)
    ensures
        p@ == participants(children@, children@.len() as int),
{
    let mut p: Vec<usize> = Vec::new();
    let mut i: usize = 0;
    while i < children.len()
        invariant
            i <= children@.len(),
            p@ == participants(children@, i as int),
        decreases children@.len() - i,
    {
        let c = &children[i];
        let role: Option<&str> = match &c.role {
            Some(r) => Some(r.as_str()),
            None => None,
        };
        if !node_skipped_in_flow(role, c.visible) {
            p.push(i);
        }
        i = i + 1;
    }
    p
}

/// One placed grid child: which child, and its column and row.
#[derive(Clone, Copy, PartialEq, Eq, Structural, Debug)]
pub struct GridCell {
    pub child: usize,
    pub col: usize,
    pub row: usize,
}

/// The grid's shape and the cell of every participating child.
pub struct GridPlan {
    /// Column count (at least 1).
    pub cols: usize,
    /// Effective row count (at least 1).
    pub rows: usize,
    /// Participating children in source order with their cells.
    pub cells: Vec<GridCell>,
}

/// Column count: the authored `columns`, default 1, at least 1.
pub open spec fn grid_cols_spec(columns: Option<u32>) -> int {
    match columns {
        Some(c) => if c >= 1 {
            c as int
        } else {
            1
        },
        None => 1,
    }
}

/// Effective row count: the authored `rows` (at least 1) or, when absent,
/// just enough rows for `n` children: `ceil(n / cols)`, at least 1.
pub open spec fn grid_rows_spec(rows: Option<u32>, n: int, cols: int) -> int {
    match rows {
        Some(r) => if r >= 1 {
            r as int
        } else {
            1
        },
        None => {
            let q = n / cols + (if n % cols != 0 {
                1int
            } else {
                0int
            });
            if q >= 1 {
                q
            } else {
                1
            }
        },
    }
}

/// Lay a grid-frame's participating children out row-major into its cells.
///
/// `cols = columns.unwrap_or(1).max(1)`; the effective row count is
/// `rows.max(1)` or, when absent, `ceil(n / cols).max(1)` so the grid grows
/// to fit its children. The k-th participating child goes to column
/// `k % cols`, row `k / cols`.
pub fn grid_layout(children: &[FlowChild], columns: Option<u32>, rows: Option<u32>) -> (plan:
    GridPlan)
    ensures
        plan.cols == grid_cols_spec(columns),
        plan.rows == grid_rows_spec(
            rows,
            participants(children@, children@.len() as int).len() as int,
            plan.cols as int,
        ),
        plan.cols >= 1,
        plan.rows >= 1,
        plan.cells@.len() == participants(children@, children@.len() as int).len(),
        forall|k: int|
            #![trigger plan.cells@[k]]
            0 <= k < plan.cells@.len() ==> {
                &&& plan.cells@[k].child == participants(
                    children@,
                    children@.len() as int,
                )[k]
                &&& plan.cells@[k].col == k % (plan.cols as int)
                &&& plan.cells@[k].row == k / (plan.cols as int)
                &&& plan.cells@[k].col < plan.cols
            },
        forall|a: int, b: int|
            0 <= a < b < plan.cells@.len() ==> (plan.cells@[a].col != plan.cells@[b].col
                || plan.cells@[a].row != plan.cells@[b].row),
        rows is None ==> forall|k: int|
            0 <= k < plan.cells@.len() ==> #[trigger] plan.cells@[k].row < plan.rows,
{
    let parts = flow_participants(children);
    let n = parts.len();
    let cols: usize = match columns {
        Some(c) => if c >= 1 {
            c as usize
        } else {
            1
        },
        None => 1,
    };
    let eff_rows: usize = match rows {
        Some(r) => if r >= 1 {
            r as usize
        } else {
            1
        },
        None => {
            let q = if n % cols != 0 {
                proof {
                    let (ni, ci) = (n as int, cols as int);
                    assert(ci >= 2);
                    assert(ni / ci < usize::MAX) by (nonlinear_arith)
                        requires
                            ci >= 2,
                            0 <= ni <= usize::MAX,
                    ;
                }
                n / cols + 1
            } else {
                n / cols
            };
            if q >= 1 {
                q
            } else {
                1
            }
        },
    };
    let mut cells: Vec<GridCell> = Vec::new();
    let mut k: usize = 0;
    while k < n
        invariant
            n == parts@.len(),
            cols >= 1,
            k <= n,
            cells@.len() == k,
            forall|q: int|
                #![trigger cells@[q]]
                0 <= q < k ==> {
                    &&& cells@[q].child == parts@[q]
                    &&& cells@[q].col == q % (cols as int)
                    &&& cells@[q].row == q / (cols as int)
                    &&& cells@[q].col < cols
                },
        decreases n - k,
    {
        cells.push(GridCell { child: parts[k], col: k % cols, row: k / cols });
        k = k + 1;
    }
    proof {
        let c = cols as int;
        assert forall|a: int, b: int| 0 <= a < b < cells@.len() implies (cells@[a].col
            != cells@[b].col || cells@[a].row != cells@[b].row) by {
            if cells@[a].col == cells@[b].col && cells@[a].row == cells@[b].row {
                vstd::arithmetic::div_mod::lemma_fundamental_div_mod(a, c);
                vstd::arithmetic::div_mod::lemma_fundamental_div_mod(b, c);
                assert(a % c == b % c && a / c == b / c);
                assert(a == b) by (nonlinear_arith)
                    requires
                        a == c * (a / c) + a % c,
                        b == c * (b / c) + b % c,
                        a % c == b % c,
                        a / c == b / c,
                ;
            }
        }
        if rows is None {
            assert forall|q: int| 0 <= q < cells@.len() implies #[trigger] cells@[q].row
                < eff_rows by {
                let nn = n as int;
                vstd::arithmetic::div_mod::lemma_div_is_ordered(q, nn, c);
                if nn % c == 0 {
                    vstd::arithmetic::div_mod::lemma_fundamental_div_mod(nn, c);
                    vstd::arithmetic::div_mod::lemma_fundamental_div_mod(q, c);
                    assert(q / c < nn / c) by (nonlinear_arith)
                        requires
                            nn == c * (nn / c),
                            q == c * (q / c) + q % c,
                            0 <= q % c,
                            q < nn,
                            c > 0,
                            0 <= q / c <= nn / c,
                    ;
                }
            }
        }
    }
    GridPlan { cols, rows: eff_rows, cells }
}

/// The grid's shape: an authored column or row count is used as written
/// (a zero counts as one); without authored rows there are just enough rows
/// for the `n` participating children and no more.
pub proof fn law_grid_shape(columns: Option<u32>, rows: Option<u32>, n: int)
    requires
        n >= 0,
    ensures
        columns is Some && columns.unwrap() >= 1 ==> grid_cols_spec(columns) == columns.unwrap(),
        columns == Some(0u32) ==> grid_cols_spec(columns) == 1,
        columns is None ==> grid_cols_spec(columns) == 1,
        rows is Some && rows.unwrap() >= 1 ==> grid_rows_spec(rows, n, grid_cols_spec(columns))
            == rows.unwrap(),
        rows == Some(0u32) ==> grid_rows_spec(rows, n, grid_cols_spec(columns)) == 1,
        rows is None ==> n <= grid_rows_spec(rows, n, grid_cols_spec(columns)) * grid_cols_spec(
            columns,
        ),
        rows is None && n >= 1 ==> (grid_rows_spec(rows, n, grid_cols_spec(columns)) - 1)
            * grid_cols_spec(columns) < n,
        rows is None && n == 0 ==> grid_rows_spec(rows, n, grid_cols_spec(columns)) == 1,
{
    let c = grid_cols_spec(columns);
    assert(c >= 1);
    if rows is None {
        let q = n / c;
        let m = n % c;
        assert(n == q * c + m && 0 <= m < c) by (nonlinear_arith)
            requires
                c >= 1,
                n >= 0,
                q == n / c,
                m == n % c,
        ;
        assert(q >= 0) by (nonlinear_arith)
            requires
                c >= 1,
                n >= 0,
                q == n / c,
        ;
        let r = grid_rows_spec(rows, n, c);
        if m != 0 {
            assert(r == q + 1);
            assert(r * c == q * c + c) by (nonlinear_arith)
                requires
                    r == q + 1,
            ;
        } else {
            if q >= 1 {
                assert(r == q);
            } else {
                assert(n == 0) by (nonlinear_arith)
                    requires
                        n == q * c + m,
                        m == 0,
                        q <= 0,
                        q >= 0,
                ;
                assert(r == 1);
            }
        }
        assert(n <= r * c) by (nonlinear_arith)
            requires
                n == q * c + m,
                0 <= m < c,
                (m != 0 ==> r == q + 1),
                (m == 0 && q >= 1 ==> r == q),
                (m == 0 && q < 1 ==> r == 1),
                c >= 1,
                q >= 0,
        ;
        if n >= 1 {
            assert((r - 1) * c < n) by (nonlinear_arith)
                requires
                    n == q * c + m,
                    0 <= m < c,
                    (m != 0 ==> r == q + 1),
                    (m == 0 && q >= 1 ==> r == q),
                    (m == 0 && q < 1 ==> r == 1),
                    c >= 1,
                    n >= 1,
                    q >= 0,
            ;
        }
    }
}

/// The participants of a flow or grid frame are exactly its children that
/// are neither hidden (`visible=false`) nor guides (`role="guide"`), each
/// once, in source order.
pub proof fn law_flow_participants(children: Seq<FlowChild>, n: int)
    requires
        0 <= n <= children.len(),
        children.len() <= usize::MAX,
    ensures
        forall|i: int|
            0 <= i < n ==> (participants(children, n).contains(i as usize) <==> !(role_of(
                #[trigger] children[i],
            ) == Some("guide"@) || children[i].visible == Some(false))),
        forall|a: int, b: int|
            0 <= a < b < participants(children, n).len() ==> participants(children, n)[a]
                < participants(children, n)[b],
        forall|k: int|
            0 <= k < participants(children, n).len() ==> participants(children, n)[k] < n,
    decreases n,
{
    if n > 0 {
        law_flow_participants(children, n - 1);
        let prev = participants(children, n - 1);
        let cur = participants(children, n);
        let skip = skipped_spec(role_of(children[n - 1]), children[n - 1].visible);
        if skip {
            assert(cur == prev);
        } else {
            assert(cur == prev.push((n - 1) as usize));
            assert forall|a: int, b: int| 0 <= a < b < cur.len() implies cur[a] < cur[b] by {
                if b == cur.len() - 1 {
                    assert(cur[a] == prev[a]);
                } else {
                    assert(cur[a] == prev[a] && cur[b] == prev[b]);
                }
            }
            assert forall|k: int| 0 <= k < cur.len() implies cur[k] < n by {
                if k < prev.len() {
                    assert(cur[k] == prev[k]);
                }
            }
        }
        assert forall|i: int| 0 <= i < n implies (cur.contains(i as usize) <==> !(role_of(
            #[trigger] children[i],
        ) == Some("guide"@) || children[i].visible == Some(false))) by {
            if i < n - 1 {
                if cur.contains(i as usize) {
                    let k = choose|k: int| 0 <= k < cur.len() && cur[k] == i as usize;
                    if k < prev.len() {
                        assert(prev[k] == cur[k]);
                    }
                }
                if prev.contains(i as usize) {
                    let k = choose|k: int| 0 <= k < prev.len() && prev[k] == i as usize;
                    assert(cur[k] == prev[k]);
                }
            } else {
                if cur.contains(i as usize) {
                    let k = choose|k: int| 0 <= k < cur.len() && cur[k] == i as usize;
                    if k < prev.len() {
                        assert(prev[k] == cur[k]);
                    }
                }
                if !(role_of(children[i]) == Some("guide"@) || children[i].visible == Some(false)) {
                    assert(cur[cur.len() - 1] == (n - 1) as usize);
                }
            }
        }
    }
}

} // verus!
