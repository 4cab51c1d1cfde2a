//! A concrete syntax tree held as plain values.
//!
//! The nodes of one file stand in one vector, each after its parent, so that
//! an index is a node and walks up or down the tree end.

use vstd::prelude::*;
use vstd::utf8::valid_utf8;
use crate::kinds::{NodeKind, NodeName};
use crate::point::Point;
use crate::text::{slice_text, text_between};

verus! {

/// What a node says of itself.
#[derive(Clone, Copy, Debug, PartialEq, Eq)]
pub struct NodeInfo {
    pub kind: NodeKind,
    /// The field of its parent that holds the node, if any.
    pub field: Option<NodeName>,
    /// Whether the grammar names the node (a literal token is not named).
    pub named: bool,
    pub start: Point,
    pub end: Point,
    pub start_byte: usize,
    pub end_byte: usize,
}

/// A node and its place in the tree.
#[derive(Clone, Debug, PartialEq, Eq)]
pub struct SyntaxNode {
    pub info: NodeInfo,
    pub parent: Option<usize>,
    pub children: Vec<usize>,
}

/// The syntax tree of one source text. Node 0 is the root.
#[derive(Clone, Debug, PartialEq, Eq)]
pub struct SyntaxTree {
    pub nodes: Vec<SyntaxNode>,
    pub source: Vec<u8>,
}

impl SyntaxTree {
    /// Every node but the root has a parent that stands before it, and the
    /// children that a node lists stand after it and name it as their parent.
    pub open spec fn wf(&self) -> bool {
        &&& self.nodes.len() > 0
        &&& self.nodes[0].parent is None
        &&& forall|i: int|
            0 < i < self.nodes.len() ==> {
                &&& (#[trigger] self.nodes[i]).parent is Some
                &&& self.nodes[i].parent->0 < i
            }
        &&& forall|i: int, k: int|
            0 <= i < self.nodes.len() && 0 <= k < self.nodes[i].children.len() ==> {
                &&& i < (#[trigger] self.nodes[i].children[k]) < self.nodes.len()
                &&& self.nodes[self.nodes[i].children[k] as int].parent == Some(i as usize)
            }
    }

    pub open spec fn has(&self, node: int) -> bool {
        0 <= node < self.nodes.len()
    }

    pub open spec fn kind_of(&self, node: int) -> NodeKind {
        self.nodes[node].info.kind
    }

    pub open spec fn parent_of(&self, node: int) -> Option<int> {
        match self.nodes[node].parent {
            Some(p) => Some(p as int),
            None => None,
        }
    }

    /// The children of `node`, in source order.
    pub open spec fn children_of(&self, node: int) -> Seq<usize> {
        self.nodes[node].children@
    }

    /// Whether `a` and `b` cover the same stretch of the source.
    pub open spec fn same_range(&self, a: int, b: int) -> bool {
        &&& self.nodes[a].info.start_byte == self.nodes[b].info.start_byte
        &&& self.nodes[a].info.end_byte == self.nodes[b].info.end_byte
        &&& self.nodes[a].info.start == self.nodes[b].info.start
        &&& self.nodes[a].info.end == self.nodes[b].info.end
    }

    /// Whether `node` spans `position`: it starts at or before it and ends at
    /// or behind it.
    pub open spec fn spans(&self, node: int, position: Point) -> bool {
        &&& self.nodes[node].info.start.at_or_before(position)
        &&& position.at_or_before(self.nodes[node].info.end)
    }

    /// Whether `position` lies in `node` before its end.
    pub open spec fn holds(&self, node: int, position: Point) -> bool {
        &&& self.nodes[node].info.start.at_or_before(position)
        &&& position.before(self.nodes[node].info.end)
    }

    /// Whether `node` is the smallest node at `position`: it spans the
    /// position, and the position lies in none of its children.
    pub open spec fn innermost_at(&self, node: int, position: Point) -> bool {
        &&& self.has(node)
        &&& self.spans(node, position)
        &&& forall|k: int|
            0 <= k < self.children_of(node).len() ==> !self.holds(
                #[trigger] self.children_of(node)[k] as int,
                position,
            )
    }

    /// Whether the bytes of `node` lie in the source and are well-formed text.
    pub open spec fn has_text(&self, node: int) -> bool {
        let info = self.nodes[node].info;
        &&& info.start_byte <= info.end_byte <= self.source.len()
        &&& valid_utf8(self.source@.subrange(info.start_byte as int, info.end_byte as int))
    }

    /// The source text that `node` covers.
    pub open spec fn text_of(&self, node: int) -> Option<Seq<char>> {
        let info = self.nodes[node].info;
        if self.has_text(node) {
            Some(text_between(self.source@, info.start_byte as int, info.end_byte as int))
        } else {
            None
        }
    }

    /// The first of `children[from..]` that its parent holds in `field`.
    pub open spec fn first_in_field(
        &self,
        children: Seq<usize>,
        field: NodeName,
        from: int,
    ) -> Option<int>
        decreases children.len() - from,
    {
        if from < 0 || from >= children.len() {
            None
        } else if self.has(children[from] as int) && self.nodes[children[from] as int].info.field
            == Some(field) {
            Some(children[from] as int)
        } else {
            self.first_in_field(children, field, from + 1)
        }
    }

    /// The first child of `node` that it holds in `field`.
    pub open spec fn field_child(&self, node: int, field: NodeName) -> Option<int> {
        self.first_in_field(self.children_of(node), field, 0)
    }

    /// The first of `children[from..]` that the grammar names.
    pub open spec fn first_named(&self, children: Seq<usize>, from: int) -> Option<int>
        decreases children.len() - from,
    {
        if from < 0 || from >= children.len() {
            None
        } else if self.has(children[from] as int) && self.nodes[children[from] as int].info.named {
            Some(children[from] as int)
        } else {
            self.first_named(children, from + 1)
        }
    }

    /// The first of `children[from..]` that is of kind `kind`.
    pub open spec fn first_of_kind(
        &self,
        children: Seq<usize>,
        kind: NodeKind,
        from: int,
    ) -> Option<int>
        decreases children.len() - from,
    {
        if from < 0 || from >= children.len() {
            None
        } else if self.has(children[from] as int) && self.kind_of(children[from] as int) == kind {
            Some(children[from] as int)
        } else {
            self.first_of_kind(children, kind, from + 1)
        }
    }

    /// A tree of the one node `root`.
    pub fn new(source: Vec<u8>, root: NodeInfo) -> (tree: SyntaxTree)
        ensures
            tree.wf(),
            tree.nodes.len() == 1,
            tree.nodes[0].info == root,
            tree.nodes[0].children@.len() == 0,
            tree.source@ == source@,
    {
        let mut nodes: Vec<SyntaxNode> = Vec::new();
        nodes.push(SyntaxNode { info: root, parent: None, children: Vec::new() });
        SyntaxTree { nodes, source }
    }

    /// Adds a node as the last child of `parent` and returns its index, the
    /// number of nodes so far. Without such a parent nothing changes.
    pub fn add_child(&mut self, parent: usize, info: NodeInfo) -> (added: Option<usize>)
        requires
            old(self).wf(),
        ensures
            final(self).wf(),
            final(self).source == old(self).source,
            added is Some <==> parent < old(self).nodes.len(),
            added is None ==> *final(self) == *old(self),
            added is Some ==> {
                &&& added->0 == old(self).nodes.len()
                &&& final(self).nodes.len() == old(self).nodes.len() + 1
                &&& final(self).nodes[added->0 as int].info == info
                &&& final(self).nodes[added->0 as int].parent == Some(parent)
                &&& final(self).nodes[added->0 as int].children@.len() == 0
                &&& final(self).nodes[parent as int].children@ == old(self).nodes[parent as int].children@.push(
                    added->0,
                )
                &&& final(self).nodes[parent as int].info == old(self).nodes[parent as int].info
                &&& final(self).nodes[parent as int].parent == old(self).nodes[parent as int].parent
                &&& forall|i: int|
                    0 <= i < old(self).nodes.len() && i != parent ==> final(self).nodes[i] == old(
                        self,
                    ).nodes[i]
            },
    {
        let index = self.nodes.len();
        if parent >= index {
            return None;
        }
        self.nodes[parent].children.push(index);
        self.nodes.push(SyntaxNode { info, parent: Some(parent), children: Vec::new() });
        proof {
            assert forall|i: int, k: int|
                0 <= i < self.nodes.len() && 0 <= k < self.nodes[i].children.len() implies {
                &&& i < (#[trigger] self.nodes[i].children[k]) < self.nodes.len()
                &&& self.nodes[self.nodes[i].children[k] as int].parent == Some(i as usize)
            } by {
                if i == parent as int {
                    if k < old(self).nodes[i].children.len() {
                        assert(self.nodes[i].children[k] == old(self).nodes[i].children[k]);
                    }
                } else if i < index {
                    assert(self.nodes[i] == old(self).nodes[i]);
                    assert(self.nodes[i].children[k] == old(self).nodes[i].children[k]);
                }
            }
            assert forall|i: int| 0 < i < self.nodes.len() implies {
                &&& (#[trigger] self.nodes[i]).parent is Some
                &&& self.nodes[i].parent->0 < i
            } by {
                if i < index {
                    assert(old(self).nodes[i].parent is Some);
                }
            }
        }
        Some(index)
    }

    pub fn len(&self) -> (n: usize)
        ensures
            n == self.nodes.len(),
    {
        self.nodes.len()
    }

    pub fn kind(&self, node: usize) -> (kind: NodeKind)
        requires
            self.has(node as int),
        ensures
            kind == self.kind_of(node as int),
    {
        self.nodes[node].info.kind
    }

    pub fn start(&self, node: usize) -> (p: Point)
        requires
            self.has(node as int),
        ensures
            p == self.nodes[node as int].info.start,
    {
        self.nodes[node].info.start
    }

    pub fn end(&self, node: usize) -> (p: Point)
        requires
            self.has(node as int),
        ensures
            p == self.nodes[node as int].info.end,
    {
        self.nodes[node].info.end
    }

    pub fn parent(&self, node: usize) -> (p: Option<usize>)
        requires
            self.wf(),
            self.has(node as int),
        ensures
            p == self.nodes[node as int].parent,
            p is Some ==> p->0 < node,
            p is None <==> node == 0,
    {
        self.nodes[node].parent
    }

    /// Whether `a` and `b` cover the same stretch of the source.
    pub fn covers_same(&self, a: usize, b: usize) -> (r: bool)
        requires
            self.has(a as int),
            self.has(b as int),
        ensures
            r == self.same_range(a as int, b as int),
    {
        let x = &self.nodes[a].info;
        let y = &self.nodes[b].info;
        x.start_byte == y.start_byte && x.end_byte == y.end_byte && x.start == y.start && x.end
            == y.end
    }

    /// Whether `node` is the smallest node at `position`: it spans the
    /// position, and the position lies in none of its children.
    pub fn is_innermost_at(&self, node: usize, position: &Point) -> (r: bool)
        requires
            self.wf(),
            self.has(node as int),
        ensures
            r == self.innermost_at(node as int, *position),
    {
        let info = &self.nodes[node].info;
        if !info.start.is_at_or_before(position) || !position.is_at_or_before(&info.end) {
            return false;
        }
        let children = &self.nodes[node].children;
        let mut k: usize = 0;
        while k < children.len()
            invariant
                self.wf(),
                self.has(node as int),
                children@ == self.children_of(node as int),
                k <= children.len(),
                forall|j: int| 0 <= j < k ==> !self.holds(#[trigger] children@[j] as int, *position),
            decreases children.len() - k,
        {
            let child = children[k];
            assert(child == self.nodes[node as int].children[k as int]);
            let inside = &self.nodes[child].info;
            if inside.start.is_at_or_before(position) && position.is_before(&inside.end) {
                return false;
            }
            k += 1;
        }
        true
    }

    /// The first child of `node` that it holds in `field`.
    pub fn child_by_field(&self, node: usize, field: NodeName) -> (child: Option<usize>)
        requires
            self.wf(),
            self.has(node as int),
        ensures
            child is Some <==> self.field_child(node as int, field) is Some,
            child is Some ==> {
                &&& child->0 as int == self.field_child(node as int, field)->0
                &&& node < child->0 < self.nodes.len()
                &&& self.nodes[child->0 as int].parent == Some(node)
                &&& self.nodes[child->0 as int].info.field == Some(field)
            },
    {
        let children = &self.nodes[node].children;
        let mut k: usize = 0;
        while k < children.len()
            invariant
                self.wf(),
                self.has(node as int),
                children@ == self.children_of(node as int),
                k <= children.len(),
                self.field_child(node as int, field) == self.first_in_field(
                    children@,
                    field,
                    k as int,
                ),
            decreases children.len() - k,
        {
            let c = children[k];
            assert(c == self.nodes[node as int].children[k as int]);
            if self.nodes[c].info.field == Some(field) {
                return Some(c);
            }
            k += 1;
        }
        None
    }

    /// The first child of `node` that the grammar names.
    pub fn first_named_child(&self, node: usize) -> (child: Option<usize>)
        requires
            self.wf(),
            self.has(node as int),
        ensures
            child is Some <==> self.first_named(self.children_of(node as int), 0) is Some,
            child is Some ==> {
                &&& child->0 as int == self.first_named(self.children_of(node as int), 0)->0
                &&& node < child->0 < self.nodes.len()
            },
    {
        let children = &self.nodes[node].children;
        let mut k: usize = 0;
        while k < children.len()
            invariant
                self.wf(),
                self.has(node as int),
                children@ == self.children_of(node as int),
                k <= children.len(),
                self.first_named(children@, 0) == self.first_named(children@, k as int),
            decreases children.len() - k,
        {
            let c = children[k];
            assert(c == self.nodes[node as int].children[k as int]);
            if self.nodes[c].info.named {
                return Some(c);
            }
            k += 1;
        }
        None
    }

    /// The first child of `node` that is of kind `kind`.
    pub fn first_child_of_kind(&self, node: usize, kind: NodeKind) -> (child: Option<usize>)
        requires
            self.wf(),
            self.has(node as int),
        ensures
            child is Some <==> self.first_of_kind(self.children_of(node as int), kind, 0) is Some,
            child is Some ==> {
                &&& child->0 as int == self.first_of_kind(self.children_of(node as int), kind, 0)->0
                &&& node < child->0 < self.nodes.len()
            },
    {
        let children = &self.nodes[node].children;
        let mut k: usize = 0;
        while k < children.len()
            invariant
                self.wf(),
                self.has(node as int),
                children@ == self.children_of(node as int),
                k <= children.len(),
                self.first_of_kind(children@, kind, 0) == self.first_of_kind(
                    children@,
                    kind,
                    k as int,
                ),
            decreases children.len() - k,
        {
            let c = children[k];
            assert(c == self.nodes[node as int].children[k as int]);
            if self.nodes[c].info.kind == kind {
                return Some(c);
            }
            k += 1;
        }
        None
    }

    /// The children of `node`, in source order.
    pub fn children(&self, node: usize) -> (children: &Vec<usize>)
        requires
            self.wf(),
            self.has(node as int),
        ensures
            children@ == self.children_of(node as int),
            forall|k: int|
                0 <= k < children@.len() ==> node < #[trigger] children@[k] < self.nodes.len(),
    {
        &self.nodes[node].children
    }

    pub fn is_named(&self, node: usize) -> (named: bool)
        requires
            self.has(node as int),
        ensures
            named == self.nodes[node as int].info.named,
    {
        self.nodes[node].info.named
    }

    /// The source text that `node` covers, where it is well-formed.
    pub fn text(&self, node: usize) -> (text: Option<String>)
        requires
            self.has(node as int),
        ensures
            text is Some <==> self.text_of(node as int) is Some,
            text is Some ==> text->0@ == self.text_of(node as int)->0,
    {
        let info = &self.nodes[node].info;
        if info.start_byte <= info.end_byte && info.end_byte <= self.source.len() {
            slice_text(self.source.as_slice(), info.start_byte, info.end_byte)
        } else {
            None
        }
    }
}

/// What `first_in_field` finds is one of the children, and so stands after
/// its parent and names it.
pub proof fn lemma_first_in_field(tree: &SyntaxTree, node: int, field: NodeName, from: int)
    requires
        tree.wf(),
        tree.has(node),
        0 <= from,
    ensures
        match tree.first_in_field(tree.children_of(node), field, from) {
            Some(child) => node < child < tree.nodes.len() && tree.nodes[child].parent == Some(
                node as usize,
            ),
            None => true,
        },
    decreases tree.children_of(node).len() - from,
{
    let children = tree.children_of(node);
    if from < children.len() {
        assert(children[from] == tree.nodes[node].children[from]);
        if !(tree.has(children[from] as int) && tree.nodes[children[from] as int].info.field
            == Some(field)) {
            lemma_first_in_field(tree, node, field, from + 1);
        }
    }
}

/// The child that a node holds in a field stands after the node and names it
/// as its parent.
pub proof fn lemma_field_child(tree: &SyntaxTree, node: int, field: NodeName)
    requires
        tree.wf(),
        tree.has(node),
    ensures
        match tree.field_child(node, field) {
            Some(child) => node < child < tree.nodes.len() && tree.parent_of(child) == Some(node),
            None => true,
        },
{
    lemma_first_in_field(tree, node, field, 0);
}

} // verus!
