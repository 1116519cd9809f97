use vstd::arithmetic::div_mod::{lemma_fundamental_div_mod, lemma_mod_bound};
use vstd::prelude::*;

use crate::geometry::{Offset, RectTransform, Size, UIContraints};
use crate::layout::{
    child_live, fill_writes, flex_prefix, node_writes, pass_spec, row_child_offset,
    row_child_width, row_start, row_writes, share,
};
use crate::style::{Expanded, Padding, Row, UIStyle};
use crate::tree::{live, node_at, UINode};

verus! {

/// The sum of the widths a row of width `w` assigns its first `n` children.
pub open spec fn row_width_sum(nodes: Seq<Option<UINode>>, h: int, kids: Seq<usize>, w: int, n: int) -> int
    decreases n,
{
    if n <= 0 {
        0
    } else {
        row_width_sum(nodes, h, kids, w, n - 1) + row_child_width(nodes, h, kids, w, n - 1)
    }
}

/// The flex weight of the `k`-th child: its own where it holds a node,
/// nothing where its handle dangles.
pub open spec fn child_flex(nodes: Seq<Option<UINode>>, h: int, kids: Seq<usize>, k: int) -> nat {
    if child_live(nodes, h, kids[k] as int) {
        node_at(nodes, kids[k] as int).style.flex_spec()
    } else {
        0
    }
}

proof fn lemma_width_sum(nodes: Seq<Option<UINode>>, h: int, kids: Seq<usize>, w: int, n: int)
    requires
        0 <= n,
    ensures
        row_width_sum(nodes, h, kids, w, n) == row_start(nodes, h, kids, w, n) - row_start(nodes, h, kids, w, 0),
    decreases n,
{
    if n > 0 {
        lemma_width_sum(nodes, h, kids, w, n - 1);
    }
}

proof fn lemma_floor_gap(m: int, a: int, b: int, t: int)
    requires
        m >= 0,
        0 <= a <= b,
        t > 0,
    ensures
        m * b - m * a - t < t * ((m * b) / t - (m * a) / t) < m * b - m * a + t,
{
    lemma_fundamental_div_mod(m * a, t);
    lemma_fundamental_div_mod(m * b, t);
    lemma_mod_bound(m * a, t);
    lemma_mod_bound(m * b, t);
    assert(m * a >= 0 && m * b >= 0) by (nonlinear_arith)
        requires
            m >= 0,
            0 <= a <= b,
    ;
    assert(t * ((m * b) / t - (m * a) / t) == t * ((m * b) / t) - t * ((m * a) / t)) by (nonlinear_arith);
}

/// A row divides its width among its children in proportion to their flex
/// weights: the widths add up to the row's width exactly, each lies within
/// one unit of `w * f / total`, a dangling child gets nothing, and when the
/// weights add up to nothing every child gets nothing.
pub proof fn row_flex_distribution(nodes: Seq<Option<UINode>>, h: int, kids: Seq<usize>, w: int)
    ensures
        ({
            let total = flex_prefix(nodes, h, kids, kids.len() as int);
            &&& total > 0 ==> row_width_sum(nodes, h, kids, w, kids.len() as int) == w
            &&& total == 0 ==> forall|k: int|
                0 <= k < kids.len() ==> #[trigger] row_child_width(nodes, h, kids, w, k) == 0
            &&& forall|k: int|
                total > 0 && 0 <= k < kids.len() ==> w * child_flex(nodes, h, kids, k) - total < total
                    * #[trigger] row_child_width(nodes, h, kids, w, k) < w * child_flex(nodes, h, kids, k)
                    + total
            &&& forall|k: int|
                0 <= k < kids.len() && !child_live(nodes, h, kids[k] as int) ==> #[trigger] row_child_width(
                    nodes,
                    h,
                    kids,
                    w,
                    k,
                ) == 0
        }),
{
    let n = kids.len() as int;
    let total = flex_prefix(nodes, h, kids, n);
    lemma_width_sum(nodes, h, kids, w, n);
    assert forall|k: int| 0 <= k < kids.len() implies (total > 0 ==> w * child_flex(nodes, h, kids, k) - total
        < total * #[trigger] row_child_width(nodes, h, kids, w, k) < w * child_flex(nodes, h, kids, k) + total)
        && (!child_live(nodes, h, kids[k] as int) ==> row_child_width(nodes, h, kids, w, k) == 0)
        && (total == 0 ==> row_child_width(nodes, h, kids, w, k) == 0) by {
        let a = flex_prefix(nodes, h, kids, k);
        let b = flex_prefix(nodes, h, kids, k + 1);
        let f = child_flex(nodes, h, kids, k);
        assert(b == a + f);
        crate::layout::lemma_flex_prefix_monotone(nodes, h, kids, k + 1, n);
        crate::layout::lemma_flex_prefix_monotone(nodes, h, kids, k, k + 1);
        assert(row_child_width(nodes, h, kids, w, k) == share(w, b, total) - share(w, a, total));
        if f == 0 {
            assert(b == a);
        }
        if total > 0 {
            let m = if w >= 0 {
                w
            } else {
                -w
            };
            lemma_floor_gap(m, a as int, b as int, total as int);
            assert(m * b - m * a == m * f) by (nonlinear_arith)
                requires
                    b == a + f,
            ;
            if w < 0 {
                assert(w * f == -(m * f)) by (nonlinear_arith)
                    requires
                        m == -w,
                ;
                assert(total * (-((m * b) / (total as int)) - (-((m * a) / (total as int))))
                    == -(total * ((m * b) / (total as int) - (m * a) / (total as int)))) by (nonlinear_arith);
            }
        }
    }
    if total > 0 {
        crate::layout::lemma_share_bounds(w, 0, total, total);
    }
}

/// A row's width lies within the limits it receives whenever they are not
/// inverted, and its height is always the largest offered.
pub proof fn row_clamping(r: Row, c: UIContraints)
    ensures
        c.min_width <= c.max_width ==> c.min_width <= r.size_spec(c).width <= c.max_width,
        r.size_spec(c).height == c.max_height,
{
}

/// An expanded node takes the largest size offered, and its children are
/// laid out under exactly the limits it received, each at the centre.
pub proof fn expanded_identity(nodes: Seq<Option<UINode>>, h: int, e: Expanded, c: UIContraints)
    requires
        live(nodes, h),
        node_at(nodes, h).style == UIStyle::Expanded(e),
    ensures
        e.size_spec(c) == (Size { width: c.max_width, height: c.max_height }),
        node_writes(nodes, h, c) == fill_writes(
            nodes,
            h,
            node_at(nodes, h).children@,
            c,
            Offset { x: 0, y: 0 },
            node_at(nodes, h).children@.len() as int,
        ),
{
}

/// A padded node takes the largest size offered, whatever its insets, and
/// its children are laid out under the limits it received less the two
/// insets of each axis, on both bounds (exactly so wherever that stays
/// within `i32`).
pub proof fn padding_constraint_transform(nodes: Seq<Option<UINode>>, h: int, p: Padding, c: UIContraints)
    requires
        live(nodes, h),
        node_at(nodes, h).style == UIStyle::Padding(p),
    ensures
        p.size_spec(c) == (Size { width: c.max_width, height: c.max_height }),
        node_writes(nodes, h, c) == fill_writes(
            nodes,
            h,
            node_at(nodes, h).children@,
            p.child_constraints_spec(c),
            p.child_offset_spec(),
            node_at(nodes, h).children@.len() as int,
        ),
        i32::MIN <= c.min_width - (p.left + p.right) <= i32::MAX ==> p.child_constraints_spec(c).min_width
            == c.min_width - (p.left + p.right),
        i32::MIN <= c.max_width - (p.left + p.right) <= i32::MAX ==> p.child_constraints_spec(c).max_width
            == c.max_width - (p.left + p.right),
        i32::MIN <= c.min_height - (p.top + p.bottom) <= i32::MAX ==> p.child_constraints_spec(c).min_height
            == c.min_height - (p.top + p.bottom),
        i32::MIN <= c.max_height - (p.top + p.bottom) <= i32::MAX ==> p.child_constraints_spec(c).max_height
            == c.max_height - (p.top + p.bottom),
{
}

/// A second pass over an unchanged tree and viewport writes the very
/// rectangles the first one wrote.
pub proof fn pass_idempotent(nodes: Seq<Option<UINode>>, rects: Seq<RectTransform>, width: int, height: int)
    ensures
        pass_spec(nodes, pass_spec(nodes, rects, width, height), width, height) == pass_spec(
            nodes,
            rects,
            width,
            height,
        ),
{
    assert(pass_spec(nodes, pass_spec(nodes, rects, width, height), width, height) =~= pass_spec(
        nodes,
        rects,
        width,
        height,
    ));
}

proof fn lemma_flex_skip(nodes: Seq<Option<UINode>>, h: int, kids: Seq<usize>, k: int, n: int)
    requires
        0 <= k < kids.len(),
        !child_live(nodes, h, kids[k] as int),
        0 <= n <= kids.len(),
    ensures
        n <= k ==> flex_prefix(nodes, h, kids, n) == flex_prefix(nodes, h, kids.remove(k), n),
        n > k ==> flex_prefix(nodes, h, kids, n) == flex_prefix(nodes, h, kids.remove(k), n - 1),
    decreases n,
{
    if n > 0 {
        lemma_flex_skip(nodes, h, kids, k, n - 1);
        if n > k + 1 {
            assert(kids.remove(k)[n - 2] == kids[n - 1]);
        } else if n <= k {
            assert(kids.remove(k)[n - 1] == kids[n - 1]);
        }
    }
}

proof fn lemma_row_skip(nodes: Seq<Option<UINode>>, h: int, kids: Seq<usize>, k: int, w: int, height: int, n: int)
    requires
        0 <= k < kids.len(),
        !child_live(nodes, h, kids[k] as int),
        0 <= n <= kids.len(),
    ensures
        n <= k ==> row_writes(nodes, h, kids, w, height, n) == row_writes(nodes, h, kids.remove(k), w, height, n),
        n > k ==> row_writes(nodes, h, kids, w, height, n) == row_writes(
            nodes,
            h,
            kids.remove(k),
            w,
            height,
            n - 1,
        ),
    decreases n,
{
    let ks = kids.remove(k);
    lemma_flex_skip(nodes, h, kids, k, kids.len() as int);
    if n > 0 {
        lemma_row_skip(nodes, h, kids, k, w, height, n - 1);
        lemma_flex_skip(nodes, h, kids, k, n);
        lemma_flex_skip(nodes, h, kids, k, n - 1);
        if n > k + 1 {
            assert(ks[n - 2] == kids[n - 1]);
            assert(row_child_width(nodes, h, kids, w, n - 1) == row_child_width(nodes, h, ks, w, n - 2));
            assert(row_child_offset(nodes, h, kids, w, n - 1) == row_child_offset(nodes, h, ks, w, n - 2));
        } else if n <= k {
            assert(ks[n - 1] == kids[n - 1]);
            assert(row_child_width(nodes, h, kids, w, n - 1) == row_child_width(nodes, h, ks, w, n - 1));
            assert(row_child_offset(nodes, h, kids, w, n - 1) == row_child_offset(nodes, h, ks, w, n - 1));
        }
    }
}

proof fn lemma_fill_skip(
    nodes: Seq<Option<UINode>>,
    h: int,
    kids: Seq<usize>,
    k: int,
    cc: UIContraints,
    pos: Offset,
    n: int,
)
    requires
        0 <= k < kids.len(),
        !child_live(nodes, h, kids[k] as int),
        0 <= n <= kids.len(),
    ensures
        n <= k ==> fill_writes(nodes, h, kids, cc, pos, n) == fill_writes(nodes, h, kids.remove(k), cc, pos, n),
        n > k ==> fill_writes(nodes, h, kids, cc, pos, n) == fill_writes(
            nodes,
            h,
            kids.remove(k),
            cc,
            pos,
            n - 1,
        ),
    decreases n,
{
    let ks = kids.remove(k);
    if n > 0 {
        lemma_fill_skip(nodes, h, kids, k, cc, pos, n - 1);
        if n > k + 1 {
            assert(ks[n - 2] == kids[n - 1]);
        } else if n <= k {
            assert(ks[n - 1] == kids[n - 1]);
        }
    }
}

/// A child handle that dangles is passed over: a node writes exactly what it
/// would write were that handle not among its children, so its siblings are
/// laid out as if it were absent.
pub proof fn dangling_child_ignored(
    nodes: Seq<Option<UINode>>,
    h: int,
    kids: Seq<usize>,
    k: int,
    w: int,
    height: int,
    cc: UIContraints,
    pos: Offset,
)
    requires
        0 <= k < kids.len(),
        !live(nodes, kids[k] as int),
    ensures
        row_writes(nodes, h, kids, w, height, kids.len() as int) == row_writes(
            nodes,
            h,
            kids.remove(k),
            w,
            height,
            kids.len() - 1,
        ),
        fill_writes(nodes, h, kids, cc, pos, kids.len() as int) == fill_writes(
            nodes,
            h,
            kids.remove(k),
            cc,
            pos,
            kids.len() - 1,
        ),
{
    lemma_row_skip(nodes, h, kids, k, w, height, kids.len() as int);
    lemma_fill_skip(nodes, h, kids, k, cc, pos, kids.len() as int);
}

} // verus!
