use vstd::arithmetic::div_mod::{lemma_div_is_ordered, lemma_div_multiples_vanish};
use vstd::prelude::*;

use crate::geometry::{half, halve, viewport, viewport_spec, Offset, RectTransform, Size, UIContraints};
use crate::style::{Expanded, Padding, Row, UIStyle};
use crate::tree::{live, node_at, nodes_wf, UINode, UITree};

verus! {

/// Whether `kid`, listed among the children of `h`, is a node the pass
/// visits: a handle to an emptied or absent slot is skipped.
pub open spec fn child_live(nodes: Seq<Option<UINode>>, h: int, kid: int) -> bool {
    h < kid && live(nodes, kid)
}

/// The sum of the flex weights of the first `k` children that hold a node.
pub open spec fn flex_prefix(nodes: Seq<Option<UINode>>, h: int, kids: Seq<usize>, k: int) -> nat
    decreases k,
{
    if k <= 0 || k > kids.len() {
        0
    } else {
        flex_prefix(nodes, h, kids, k - 1) + if child_live(nodes, h, kids[k - 1] as int) {
            node_at(nodes, kids[k - 1] as int).style.flex_spec()
        } else {
            0
        }
    }
}

/// The share `part / total` of the length `w`, rounded toward zero; nothing
/// when the total is nothing.
pub open spec fn share(w: int, part: nat, total: nat) -> int {
    if total == 0 {
        0
    } else if w >= 0 {
        (w * part) / (total as int)
    } else {
        -(((-w) * part) / (total as int))
    }
}

/// Where the `k`-th child of a row of width `w` begins, from the row's start.
pub open spec fn row_start(nodes: Seq<Option<UINode>>, h: int, kids: Seq<usize>, w: int, k: int) -> int {
    share(w, flex_prefix(nodes, h, kids, k), flex_prefix(nodes, h, kids, kids.len() as int))
}

/// The width a row of width `w` assigns its `k`-th child.
pub open spec fn row_child_width(nodes: Seq<Option<UINode>>, h: int, kids: Seq<usize>, w: int, k: int) -> int {
    row_start(nodes, h, kids, w, k + 1) - row_start(nodes, h, kids, w, k)
}

/// The limits a row hands a child: width and height pinned.
pub open spec fn pinned(width: int, height: int) -> UIContraints {
    UIContraints {
        min_width: width as i32,
        max_width: width as i32,
        min_height: height as i32,
        max_height: height as i32,
    }
}

/// Where a row of width `w` places the centre of its `k`-th child.
pub open spec fn row_child_offset(nodes: Seq<Option<UINode>>, h: int, kids: Seq<usize>, w: int, k: int) -> Offset {
    Offset {
        x: (row_start(nodes, h, kids, w, k) - half(w) + half(row_child_width(nodes, h, kids, w, k))) as i64,
        y: 0,
    }
}

/// The placements a node writes for its subtree under limits `c`, keyed by
/// handle; a later write to the same handle replaces an earlier one.
pub open spec fn node_writes(nodes: Seq<Option<UINode>>, h: int, c: UIContraints) -> Map<int, (Offset, Size)>
    decreases nodes.len() - h,
        if live(nodes, h) {
            node_at(nodes, h).children@.len() + 1
        } else {
            0
        },
{
    if live(nodes, h) {
        let node = node_at(nodes, h);
        let kids = node.children@;
        match node.style {
            UIStyle::Row(r) => {
                let s = r.size_spec(c);
                row_writes(nodes, h, kids, s.width as int, s.height as int, kids.len() as int)
            },
            UIStyle::Expanded(_) => fill_writes(nodes, h, kids, c, Offset { x: 0, y: 0 }, kids.len() as int),
            UIStyle::Padding(p) => fill_writes(
                nodes,
                h,
                kids,
                p.child_constraints_spec(c),
                p.child_offset_spec(),
                kids.len() as int,
            ),
        }
    } else {
        Map::empty()
    }
}

/// The placements a row of width `w` and height `height` writes for its
/// first `n` children and their subtrees.
pub open spec fn row_writes(
    nodes: Seq<Option<UINode>>,
    h: int,
    kids: Seq<usize>,
    w: int,
    height: int,
    n: int,
) -> Map<int, (Offset, Size)>
    decreases nodes.len() - h, n,
{
    if n <= 0 || n > kids.len() {
        Map::empty()
    } else {
        let prev = row_writes(nodes, h, kids, w, height, n - 1);
        let kid = kids[n - 1] as int;
        if child_live(nodes, h, kid) {
            let cc = pinned(row_child_width(nodes, h, kids, w, n - 1), height);
            prev.union_prefer_right(node_writes(nodes, kid, cc)).insert(
                kid,
                (row_child_offset(nodes, h, kids, w, n - 1), node_at(nodes, kid).style.size_spec(cc)),
            )
        } else {
            prev
        }
    }
}

/// The placements written for the first `n` children and their subtrees
/// when every child gets the limits `cc` and sits at `pos`.
pub open spec fn fill_writes(
    nodes: Seq<Option<UINode>>,
    h: int,
    kids: Seq<usize>,
    cc: UIContraints,
    pos: Offset,
    n: int,
) -> Map<int, (Offset, Size)>
    decreases nodes.len() - h, n,
{
    if n <= 0 || n > kids.len() {
        Map::empty()
    } else {
        let prev = fill_writes(nodes, h, kids, cc, pos, n - 1);
        let kid = kids[n - 1] as int;
        if child_live(nodes, h, kid) {
            prev.union_prefer_right(node_writes(nodes, kid, cc)).insert(
                kid,
                (pos, node_at(nodes, kid).style.size_spec(cc)),
            )
        } else {
            prev
        }
    }
}

/// Whether slot `i` holds a node with no parent.
pub open spec fn is_root(nodes: Seq<Option<UINode>>, i: int) -> bool {
    live(nodes, i) && node_at(nodes, i).parent is None
}

/// The placements written from the roots among the first `n` slots, each
/// laid out under `c` and placed at the origin.
pub open spec fn root_writes(nodes: Seq<Option<UINode>>, c: UIContraints, n: int) -> Map<int, (Offset, Size)>
    decreases n,
{
    if n <= 0 || n > nodes.len() {
        Map::empty()
    } else {
        let prev = root_writes(nodes, c, n - 1);
        if is_root(nodes, n - 1) {
            prev.union_prefer_right(node_writes(nodes, n - 1, c)).insert(
                n - 1,
                (Offset { x: 0, y: 0 }, node_at(nodes, n - 1).style.size_spec(c)),
            )
        } else {
            prev
        }
    }
}

/// The rectangles after the placements `w` are written: position and size
/// replaced, paint order kept.
pub open spec fn apply(rects: Seq<RectTransform>, w: Map<int, (Offset, Size)>) -> Seq<RectTransform> {
    Seq::new(
        rects.len(),
        |j: int|
            if w.contains_key(j) {
                RectTransform { position: w[j].0, size: w[j].1, depth: rects[j].depth }
            } else {
                rects[j]
            },
    )
}

/// The rectangles after one pass over the tree with a viewport of the given
/// size.
pub open spec fn pass_spec(nodes: Seq<Option<UINode>>, rects: Seq<RectTransform>, width: int, height: int) -> Seq<
    RectTransform,
> {
    apply(rects, root_writes(nodes, viewport_spec(width, height), nodes.len() as int))
}

proof fn lemma_apply_compose(r: Seq<RectTransform>, a: Map<int, (Offset, Size)>, b: Map<int, (Offset, Size)>)
    ensures
        apply(apply(r, a), b) == apply(r, a.union_prefer_right(b)),
{
    assert(apply(apply(r, a), b) =~= apply(r, a.union_prefer_right(b)));
}

proof fn lemma_apply_place(r: Seq<RectTransform>, a: Map<int, (Offset, Size)>, kid: int, p: (Offset, Size))
    requires
        0 <= kid < r.len(),
    ensures
        apply(r, a).update(kid, RectTransform { position: p.0, size: p.1, depth: apply(r, a)[kid].depth })
            == apply(r, a.insert(kid, p)),
{
    assert(apply(r, a).update(kid, RectTransform { position: p.0, size: p.1, depth: apply(r, a)[kid].depth })
        =~= apply(r, a.insert(kid, p)));
}

pub(crate) proof fn lemma_flex_prefix_monotone(nodes: Seq<Option<UINode>>, h: int, kids: Seq<usize>, k: int, m: int)
    requires
        0 <= k <= m <= kids.len(),
    ensures
        flex_prefix(nodes, h, kids, k) <= flex_prefix(nodes, h, kids, m),
        flex_prefix(nodes, h, kids, m) <= m * 0xffff_ffff,
    decreases m,
{
    if m > 0 {
        if k < m {
            lemma_flex_prefix_monotone(nodes, h, kids, k, m - 1);
        } else {
            lemma_flex_prefix_monotone(nodes, h, kids, m - 1, m - 1);
        }
    }
}

pub(crate) proof fn lemma_share_bounds(w: int, p: nat, q: nat, total: nat)
    requires
        p <= q <= total,
    ensures
        w >= 0 ==> 0 <= share(w, p, total) <= share(w, q, total) <= w,
        w < 0 ==> w <= share(w, q, total) <= share(w, p, total) <= 0,
        share(w, 0, total) == 0,
        total > 0 ==> share(w, total, total) == w,
{
    if total > 0 {
        let t = total as int;
        let m = if w >= 0 {
            w
        } else {
            -w
        };
        assert(0 <= m * p <= m * q <= m * t) by (nonlinear_arith)
            requires
                m >= 0,
                p <= q <= t,
        ;
        lemma_div_is_ordered(m * p, m * q, t);
        lemma_div_is_ordered(m * q, m * t, t);
        lemma_div_is_ordered(0, m * p, t);
        lemma_div_multiples_vanish(m, t);
        assert(m * t == t * m) by (nonlinear_arith);
        assert(m * 0 == 0);
    }
}

/// `share` computed on machine integers.
fn share_exec(w: i32, part: u128, total: u128) -> (r: i64)
    requires
        part <= total,
        total <= 0x1_0000_0000_0000_0000_0000_0000,
    ensures
        r == share(w as int, part as nat, total as nat),
{
    proof {
        lemma_share_bounds(w as int, part as nat, part as nat, total as nat);
    }
    if total == 0 {
        0
    } else if w >= 0 {
        let m: u128 = w as u128;
        assert(m * part <= 0x8000_0000 * 0x1_0000_0000_0000_0000_0000_0000) by (nonlinear_arith)
            requires
                m <= 0x8000_0000,
                part <= 0x1_0000_0000_0000_0000_0000_0000,
        ;
        ((m * part) / total) as i64
    } else {
        let m: u128 = (-(w as i64)) as u128;
        assert(m * part <= 0x8000_0000 * 0x1_0000_0000_0000_0000_0000_0000) by (nonlinear_arith)
            requires
                m <= 0x8000_0000,
                part <= 0x1_0000_0000_0000_0000_0000_0000,
        ;
        -(((m * part) / total) as i64)
    }
}

/// Lays out the subtree of node `h` under limits `c`: writes the rectangle
/// of every node below it and returns the node's own size.
pub fn layout_node(nodes: &Vec<Option<UINode>>, h: usize, c: UIContraints, rects: &mut Vec<RectTransform>) -> (r: Size)
    requires
        nodes_wf(nodes@),
        live(nodes@, h as int),
        old(rects)@.len() == nodes@.len(),
    ensures
        r == node_at(nodes@, h as int).style.size_spec(c),
        final(rects)@ == apply(old(rects)@, node_writes(nodes@, h as int, c)),
    decreases nodes@.len() - h, node_at(nodes@, h as int).children@.len() + 1, 3int,
{
    match &nodes[h] {
        Some(node) => match &node.style {
            UIStyle::Row(row) => row.layout(c, nodes, h, rects),
            UIStyle::Expanded(e) => e.layout(c, nodes, h, rects),
            UIStyle::Padding(p) => p.layout(c, nodes, h, rects),
        },
        None => Size { width: 0, height: 0 },
    }
}

/// Lays out every child of node `h` that holds a node under the same limits
/// `cc`, and places each at `pos`.
fn fill_children(
    nodes: &Vec<Option<UINode>>,
    h: usize,
    cc: UIContraints,
    pos: Offset,
    rects: &mut Vec<RectTransform>,
)
    requires
        nodes_wf(nodes@),
        live(nodes@, h as int),
        old(rects)@.len() == nodes@.len(),
    ensures
        final(rects)@ == apply(
            old(rects)@,
            fill_writes(
                nodes@,
                h as int,
                node_at(nodes@, h as int).children@,
                cc,
                pos,
                node_at(nodes@, h as int).children@.len() as int,
            ),
        ),
    decreases nodes@.len() - h, node_at(nodes@, h as int).children@.len() + 1, 1int,
{
    let kids: &Vec<usize> = match &nodes[h] {
        Some(node) => &node.children,
        None => {
            return ;
        },
    };
    let ghost start = rects@;
    let mut i: usize = 0;
    while i < kids.len()
        invariant
            nodes_wf(nodes@),
            live(nodes@, h as int),
            kids@ == node_at(nodes@, h as int).children@,
            i <= kids@.len(),
            rects@ == apply(start, fill_writes(nodes@, h as int, kids@, cc, pos, i as int)),
            start.len() == nodes@.len(),
        decreases kids@.len() - i,
    {
        let kid = kids[i];
        if kid > h && kid < nodes.len() {
            if nodes[kid].is_some() {
                let ghost before = fill_writes(nodes@, h as int, kids@, cc, pos, i as int);
                let child_size = layout_node(nodes, kid, cc, rects);
                let depth = rects[kid].depth;
                proof {
                    lemma_apply_compose(start, before, node_writes(nodes@, kid as int, cc));
                    lemma_apply_place(
                        start,
                        before.union_prefer_right(node_writes(nodes@, kid as int, cc)),
                        kid as int,
                        (pos, child_size),
                    );
                }
                rects.set(kid, RectTransform { position: pos, size: child_size, depth });
            }
        }
        i += 1;
    }
}

impl Row {
    /// Settles the row's size, then divides its width among the children
    /// that hold a node in proportion to their flex weights, pinning each
    /// child's width and height and placing the children left to right.
    pub fn layout(&self, c: UIContraints, nodes: &Vec<Option<UINode>>, node: usize, rects: &mut Vec<RectTransform>) -> (r: Size)
        requires
            nodes_wf(nodes@),
            live(nodes@, node as int),
            node_at(nodes@, node as int).style == UIStyle::Row(*self),
            old(rects)@.len() == nodes@.len(),
        ensures
            r == self.size_spec(c),
            final(rects)@ == apply(old(rects)@, node_writes(nodes@, node as int, c)),
        decreases nodes@.len() - node, node_at(nodes@, node as int).children@.len() + 1, 2int,
    {
        let size = self.resolve_size(c);
        let w = size.width;
        let height = size.height;
        let kids: &Vec<usize> = match &nodes[node] {
            Some(n) => &n.children,
            None => {
                return size;
            },
        };
        let ghost h = node as int;
        let ghost ks = kids@;
        let ghost wi = w as int;
        let ghost hi = height as int;
        let mut total: u128 = 0;
        let mut i: usize = 0;
        while i < kids.len()
            invariant
                h == node,
                ks == kids@,
                i <= ks.len(),
                total == flex_prefix(nodes@, h, ks, i as int),
            decreases ks.len() - i,
        {
            proof {
                lemma_flex_prefix_monotone(nodes@, h, ks, i as int, i as int);
                assert(i * 0xffff_ffff <= 0xffff_ffff_ffff_ffff * 0xffff_ffff) by (nonlinear_arith)
                    requires
                        i <= 0xffff_ffff_ffff_ffff,
                ;
            }
            let kid = kids[i];
            if kid > node && kid < nodes.len() {
                if let Some(child) = &nodes[kid] {
                    total = total + child.style.flex_weight() as u128;
                }
            }
            i += 1;
        }
        proof {
            lemma_flex_prefix_monotone(nodes@, h, ks, ks.len() as int, ks.len() as int);
            assert(ks.len() * 0xffff_ffff <= 0xffff_ffff_ffff_ffff * 0xffff_ffff) by (nonlinear_arith)
                requires
                    ks.len() <= 0xffff_ffff_ffff_ffff,
            ;
        }
        let ghost start = rects@;
        let half_w = halve(w as i64);
        let mut prefix: u128 = 0;
        i = 0;
        while i < kids.len()
            invariant
                nodes_wf(nodes@),
                live(nodes@, h),
                h == node,
                ks == kids@,
                ks == node_at(nodes@, h).children@,
                i <= ks.len(),
                prefix == flex_prefix(nodes@, h, ks, i as int),
                total == flex_prefix(nodes@, h, ks, ks.len() as int),
                total <= 0x1_0000_0000_0000_0000_0000_0000,
                half_w == half(wi),
                wi == w,
                hi == height,
                rects@ == apply(start, row_writes(nodes@, h, ks, wi, hi, i as int)),
                start.len() == nodes@.len(),
            decreases ks.len() - i,
        {
            let kid = kids[i];
            proof {
                lemma_flex_prefix_monotone(nodes@, h, ks, i as int, i + 1);
                lemma_flex_prefix_monotone(nodes@, h, ks, i + 1, ks.len() as int);
            }
            if kid > node && kid < nodes.len() {
                if let Some(child) = &nodes[kid] {
                    let next: u128 = prefix + child.style.flex_weight() as u128;
                    let from = share_exec(w, prefix, total);
                    let to = share_exec(w, next, total);
                    proof {
                        lemma_share_bounds(wi, prefix as nat, next as nat, total as nat);
                    }
                    let width: i32 = (to - from) as i32;
                    let cc = UIContraints { min_width: width, max_width: width, min_height: height, max_height: height };
                    let ghost before = row_writes(nodes@, h, ks, wi, hi, i as int);
                    assert(cc == pinned(row_child_width(nodes@, h, ks, wi, i as int), hi));
                    let child_size = layout_node(nodes, kid, cc, rects);
                    let x: i64 = from - half_w + halve(width as i64);
                    let pos = Offset { x, y: 0 };
                    assert(pos == row_child_offset(nodes@, h, ks, wi, i as int));
                    let depth = rects[kid].depth;
                    proof {
                        lemma_apply_compose(start, before, node_writes(nodes@, kid as int, cc));
                        lemma_apply_place(
                            start,
                            before.union_prefer_right(node_writes(nodes@, kid as int, cc)),
                            kid as int,
                            (pos, child_size),
                        );
                    }
                    rects.set(kid, RectTransform { position: pos, size: child_size, depth });
                    prefix = next;
                }
            }
            i += 1;
        }
        size
    }
}

impl Expanded {
    /// Takes the largest size offered and hands the same limits, unchanged,
    /// to every child, each placed at the centre.
    pub fn layout(&self, c: UIContraints, nodes: &Vec<Option<UINode>>, node: usize, rects: &mut Vec<RectTransform>) -> (r: Size)
        requires
            nodes_wf(nodes@),
            live(nodes@, node as int),
            node_at(nodes@, node as int).style == UIStyle::Expanded(*self),
            old(rects)@.len() == nodes@.len(),
        ensures
            r == self.size_spec(c),
            final(rects)@ == apply(old(rects)@, node_writes(nodes@, node as int, c)),
        decreases nodes@.len() - node, node_at(nodes@, node as int).children@.len() + 1, 2int,
    {
        fill_children(nodes, node, c, Offset { x: 0, y: 0 }, rects);
        Size { width: c.max_width, height: c.max_height }
    }
}

impl Padding {
    /// Takes the largest size offered and hands every child the limits
    /// shrunk by the insets, each placed at the same inset offset.
    pub fn layout(&self, c: UIContraints, nodes: &Vec<Option<UINode>>, node: usize, rects: &mut Vec<RectTransform>) -> (r: Size)
        requires
            nodes_wf(nodes@),
            live(nodes@, node as int),
            node_at(nodes@, node as int).style == UIStyle::Padding(*self),
            old(rects)@.len() == nodes@.len(),
        ensures
            r == self.size_spec(c),
            final(rects)@ == apply(old(rects)@, node_writes(nodes@, node as int, c)),
        decreases nodes@.len() - node, node_at(nodes@, node as int).children@.len() + 1, 2int,
    {
        let cc = self.child_constraints(c);
        let pos = self.child_offset();
        fill_children(nodes, node, cc, pos, rects);
        Size { width: c.max_width, height: c.max_height }
    }
}

/// One layout pass: every node without a parent is laid out under the
/// viewport's limits and placed at the origin with the size it settled on;
/// the rectangles of all nodes below the roots are written on the way.
pub fn update_layout(tree: &mut UITree, window_width: i32, window_height: i32)
    requires
        old(tree).wf(),
    ensures
        final(tree).wf(),
        final(tree).nodes@ == old(tree).nodes@,
        final(tree).rects@ == pass_spec(old(tree).nodes@, old(tree).rects@, window_width as int, window_height as int),
{
    let c = viewport(window_width, window_height);
    let ghost start = tree.rects@;
    let ghost nodes = tree.nodes@;
    let mut i: usize = 0;
    while i < tree.nodes.len()
        invariant
            tree.nodes@ == nodes,
            nodes_wf(nodes),
            start.len() == nodes.len(),
            c == viewport_spec(window_width as int, window_height as int),
            i <= nodes.len(),
            tree.rects@ == apply(start, root_writes(nodes, c, i as int)),
        decreases nodes.len() - i,
    {
        let is_root = match &tree.nodes[i] {
            Some(node) => node.parent.is_none(),
            None => false,
        };
        if is_root {
            let ghost before = root_writes(nodes, c, i as int);
            let size = layout_node(&tree.nodes, i, c, &mut tree.rects);
            let depth = tree.rects[i].depth;
            let pos = Offset { x: 0, y: 0 };
            proof {
                lemma_apply_compose(start, before, node_writes(nodes, i as int, c));
                lemma_apply_place(
                    start,
                    before.union_prefer_right(node_writes(nodes, i as int, c)),
                    i as int,
                    (pos, size),
                );
            }
            tree.rects.set(i, RectTransform { position: pos, size, depth });
        }
        i += 1;
    }
}

} // verus!
