use vstd::prelude::*;

use crate::geometry::RectTransform;
use crate::style::UIStyle;

verus! {

/// A node of the tree: its strategy, its parent edge, and its children in
/// order. Children are handles into the tree's arena; a handle whose slot
/// has been emptied dangles.
pub struct UINode {
    pub style: UIStyle,
    pub parent: Option<usize>,
    pub children: Vec<usize>,
}

/// Whether slot `h` holds a node.
pub open spec fn live(nodes: Seq<Option<UINode>>, h: int) -> bool {
    0 <= h < nodes.len() && nodes[h] is Some
}

/// The node in slot `h`, where there is one.
pub open spec fn node_at(nodes: Seq<Option<UINode>>, h: int) -> UINode {
    nodes[h]->Some_0
}

/// The arena is ordered: every child handle and every parent handle of a
/// node points past it, or before it, respectively. No cycle can arise.
pub open spec fn nodes_wf(nodes: Seq<Option<UINode>>) -> bool {
    &&& forall|i: int, k: int|
        live(nodes, i) && 0 <= k < node_at(nodes, i).children@.len() ==> i
            < #[trigger] node_at(nodes, i).children@[k]
    &&& forall|i: int|
        #![trigger node_at(nodes, i)]
        live(nodes, i) && node_at(nodes, i).parent is Some ==> node_at(nodes, i).parent->Some_0 < i
}

/// The tree store: the nodes, and beside them the rectangle of every slot.
pub struct UITree {
    pub nodes: Vec<Option<UINode>>,
    pub rects: Vec<RectTransform>,
}

impl UINode {
    fn duplicate(&self) -> (r: UINode)
        ensures
            r.style == self.style,
            r.parent == self.parent,
            r.children@ == self.children@,
    {
        let mut children: Vec<usize> = Vec::new();
        let mut i: usize = 0;
        while i < self.children.len()
            invariant
                i <= self.children@.len(),
                children@ == self.children@.subrange(0, i as int),
            decreases self.children@.len() - i,
        {
            children.push(self.children[i]);
            i += 1;
            assert(children@ =~= self.children@.subrange(0, i as int));
        }
        assert(children@ =~= self.children@);
        UINode { style: self.style, parent: self.parent, children }
    }
}

impl UITree {
    pub open spec fn wf(&self) -> bool {
        &&& nodes_wf(self.nodes@)
        &&& self.rects@.len() == self.nodes@.len()
    }

    /// An empty tree.
    pub fn new() -> (r: UITree)
        ensures
            r.wf(),
            r.nodes@.len() == 0,
    {
        UITree { nodes: Vec::new(), rects: Vec::new() }
    }

    /// The number of slots, emptied ones included.
    pub fn len(&self) -> (r: usize)
        ensures
            r == self.nodes@.len(),
    {
        self.nodes.len()
    }

    /// Adds a node with no parent, whose rectangle starts empty with the
    /// given paint order; returns its handle.
    pub fn add_root(&mut self, style: UIStyle, depth: i32) -> (r: usize)
        requires
            old(self).wf(),
            old(self).nodes@.len() < usize::MAX,
        ensures
            final(self).wf(),
            r == old(self).nodes@.len(),
            final(self).nodes@.len() == r + 1,
            forall|i: int| 0 <= i < r ==> final(self).nodes@[i] == old(self).nodes@[i],
            final(self).rects@ == old(self).rects@.push(RectTransform::with_depth_spec(depth)),
            live(final(self).nodes@, r as int),
            node_at(final(self).nodes@, r as int).style == style,
            node_at(final(self).nodes@, r as int).parent is None,
            node_at(final(self).nodes@, r as int).children@.len() == 0,
    {
        let r = self.nodes.len();
        self.nodes.push(Some(UINode { style, parent: None, children: Vec::new() }));
        self.rects.push(RectTransform::with_depth(depth));
        proof {
            let n = self.nodes@;
            assert forall|i: int, k: int|
                live(n, i) && 0 <= k < node_at(n, i).children@.len() implies i
                    < #[trigger] node_at(n, i).children@[k] by {
                assert(node_at(n, i) == node_at(old(self).nodes@, i));
            }
            assert forall|i: int|
                #![trigger node_at(n, i)]
                live(n, i) && node_at(n, i).parent is Some implies node_at(n, i).parent->Some_0
                    < i by {
                assert(node_at(n, i) == node_at(old(self).nodes@, i));
            }
        }
        r
    }

    /// Adds a node as the last child of `parent`; returns its handle, or
    /// `None`, with the tree unchanged, where `parent` holds no node.
    pub fn add_child(&mut self, parent: usize, style: UIStyle, depth: i32) -> (r: Option<usize>)
        requires
            old(self).wf(),
            old(self).nodes@.len() < usize::MAX,
        ensures
            final(self).wf(),
            !live(old(self).nodes@, parent as int) ==> r is None && final(self).nodes@
                == old(self).nodes@ && final(self).rects@ == old(self).rects@,
            live(old(self).nodes@, parent as int) ==> {
                let c = old(self).nodes@.len() as int;
                &&& r == Some(c as usize)
                &&& final(self).nodes@.len() == c + 1
                &&& forall|i: int|
                    0 <= i < c && i != parent ==> final(self).nodes@[i] == old(self).nodes@[i]
                &&& live(final(self).nodes@, parent as int)
                &&& node_at(final(self).nodes@, parent as int).style == node_at(
                    old(self).nodes@,
                    parent as int,
                ).style
                &&& node_at(final(self).nodes@, parent as int).parent == node_at(
                    old(self).nodes@,
                    parent as int,
                ).parent
                &&& node_at(final(self).nodes@, parent as int).children@ == node_at(
                    old(self).nodes@,
                    parent as int,
                ).children@.push(c as usize)
                &&& live(final(self).nodes@, c)
                &&& node_at(final(self).nodes@, c).style == style
                &&& node_at(final(self).nodes@, c).parent == Some(parent)
                &&& node_at(final(self).nodes@, c).children@.len() == 0
                &&& final(self).rects@ == old(self).rects@.push(RectTransform::with_depth_spec(depth))
            },
    {
        if parent >= self.nodes.len() {
            return None;
        }
        let updated = match &self.nodes[parent] {
            Some(node) => {
                let mut copy = node.duplicate();
                copy.children.push(self.nodes.len());
                copy
            },
            None => {
                return None;
            },
        };
        let c = self.nodes.len();
        self.nodes.set(parent, Some(updated));
        self.nodes.push(Some(UINode { style, parent: Some(parent), children: Vec::new() }));
        self.rects.push(RectTransform::with_depth(depth));
        proof {
            let o = old(self).nodes@;
            let n = self.nodes@;
            assert forall|i: int, k: int|
                live(n, i) && 0 <= k < node_at(n, i).children@.len() implies i
                    < #[trigger] node_at(n, i).children@[k] by {
                if i != parent as int && i != c as int {
                    assert(node_at(n, i) == node_at(o, i));
                } else if i == parent as int {
                    if k < node_at(o, i).children@.len() {
                        assert(node_at(n, i).children@[k] == node_at(o, i).children@[k]);
                    }
                }
            }
            assert forall|i: int|
                #![trigger node_at(n, i)]
                live(n, i) && node_at(n, i).parent is Some implies node_at(n, i).parent->Some_0
                    < i by {
                if i != c as int {
                    assert(node_at(o, i).parent == node_at(n, i).parent);
                }
            }
        }
        Some(c)
    }

    /// Empties slot `h`: the node is gone, and handles to it dangle.
    pub fn remove(&mut self, h: usize)
        requires
            old(self).wf(),
        ensures
            final(self).wf(),
            final(self).rects@ == old(self).rects@,
            h < old(self).nodes@.len() ==> final(self).nodes@ == old(self).nodes@.update(h as int, None),
            h >= old(self).nodes@.len() ==> final(self).nodes@ == old(self).nodes@,
    {
        if h < self.nodes.len() {
            self.nodes.set(h, None);
            proof {
                let o = old(self).nodes@;
                let n = self.nodes@;
                assert forall|i: int, k: int|
                    live(n, i) && 0 <= k < node_at(n, i).children@.len() implies i
                        < #[trigger] node_at(n, i).children@[k] by {
                    assert(node_at(n, i) == node_at(o, i));
                }
                assert forall|i: int|
                    #![trigger node_at(n, i)]
                    live(n, i) && node_at(n, i).parent is Some implies node_at(n, i).parent->Some_0
                        < i by {
                    assert(node_at(n, i) == node_at(o, i));
                }
            }
        }
    }

    /// The rectangle of slot `h`, where there is such a slot.
    pub fn rect(&self, h: usize) -> (r: Option<RectTransform>)
        ensures
            h < self.rects@.len() ==> r == Some(self.rects@[h as int]),
            h >= self.rects@.len() ==> r is None,
    {
        if h < self.rects.len() {
            Some(self.rects[h])
        } else {
            None
        }
    }
}

} // verus!
