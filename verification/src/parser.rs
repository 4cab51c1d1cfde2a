//! The Ruby parser, and the syntax tree that it gives in plain values.
//!
//! The parser is asked for the nodes of its tree level by level: first the
//! root, then the children of the root, then their children, and so on. That
//! list, with the number of children of each node, tells the whole tree, and
//! the tree is put together from it here.

use vstd::prelude::*;
use vstd::slice::slice_to_vec;
use std::iter::successors;
use tree_sitter::Parser;
use tree_sitter_ruby::language;
use crate::kinds::{NodeKind, NodeName};
use crate::point::Point;
use crate::syntax::{NodeInfo, SyntaxTree};

verus! {

/// What the parser reports of one node.
#[derive(Clone, Copy, Debug)]
pub struct RawNode {
    /// The grammar's name for the kind of the node.
    pub kind: &'static str,
    pub named: bool,
    pub start_byte: usize,
    pub end_byte: usize,
    /// How many children the node has.
    pub children: usize,
}

/// What the parser reports of one node, as a mathematical value.
pub struct RawNodeView {
    pub kind: Seq<char>,
    pub named: bool,
    pub start_byte: usize,
    pub end_byte: usize,
    pub children: usize,
}

impl View for RawNode {
    type V = RawNodeView;

    open spec fn view(&self) -> RawNodeView {
        RawNodeView {
            kind: self.kind@,
            named: self.named,
            start_byte: self.start_byte,
            end_byte: self.end_byte,
            children: self.children,
        }
    }
}

/// The reports that a vector holds, as mathematical values.
pub open spec fn raw_views(nodes: Seq<RawNode>) -> Seq<RawNodeView> {
    nodes.map_values(|node: RawNode| node@)
}

/// For each node the byte ranges that a vector of vectors holds.
pub open spec fn range_views(fields: Seq<Vec<Option<(usize, usize)>>>) -> Seq<
    Seq<Option<(usize, usize)>>,
> {
    fields.map_values(|ranges: Vec<Option<(usize, usize)>>| ranges@)
}

/// The characters of each of the names that a vector holds.
pub open spec fn name_views(names: Seq<&'static str>) -> Seq<Seq<char>> {
    names.map_values(|name: &'static str| name@)
}

/// The nodes of the syntax tree that the Ruby parser gives for `source`, down
/// to `depth` levels: the root, then the nodes of each level below it from
/// left to right. `None` where the parser gives no tree.
pub uninterp spec fn ruby_nodes(source: Seq<u8>, depth: usize) -> Option<Seq<RawNodeView>>;

/// Where each node of that list starts and ends.
pub uninterp spec fn ruby_spans(source: Seq<u8>, depth: usize) -> Option<Seq<(Point, Point)>>;

/// For each node of that list, and for each of `fields`, the bytes that the
/// child covers which the node holds in the field, if it holds one.
pub uninterp spec fn ruby_fields(source: Seq<u8>, depth: usize, fields: Seq<Seq<char>>) -> Option<
    Seq<Seq<Option<(usize, usize)>>>,
>;

/// The bytes that the node covers which the Ruby parser finds at `position`
/// in the tree of `source`: the smallest that spans it.
pub uninterp spec fn ruby_range_at(source: Seq<u8>, position: Point) -> Option<(usize, usize)>;

impl RawNode {
    /// The report of a node from its parts.
    pub fn new(
        kind: &'static str,
        named: bool,
        children: usize,
        start_byte: usize,
        end_byte: usize,
    ) -> (node: RawNode)
        ensures
            node.kind@ == kind@,
            node.named == named,
            node.children == children,
            node.start_byte == start_byte,
            node.end_byte == end_byte,
    {
        RawNode { kind, named, start_byte, end_byte, children }
    }
}

/// A fresh `Parser` with the grammar of `tree_sitter_ruby::language` parses
/// `source`; `Node::children` then gives the levels of the tree, from
/// `Tree::root_node` down, and `Node::kind`, `is_named`, `child_count`,
/// `start_byte` and `end_byte` what is kept of each node. The result depends
/// on the source and the depth alone.
#[verifier::external_body]
fn list_nodes(source: &[u8], depth: usize) -> (r: Option<Vec<RawNode>>)
    ensures
        r is Some <==> ruby_nodes(source@, depth) is Some,
        r matches Some(nodes) ==> ruby_nodes(source@, depth) == Some(raw_views(nodes@)),
{
    let mut parser = Parser::new();
    parser.set_language(language()).ok()?;
    let tree = parser.parse(source, None)?;
    let levels = successors(Some(vec![tree.root_node()]), |level| {
        Some(level.iter().flat_map(|n| n.children(&mut n.walk()).collect::<Vec<_>>()).collect())
    });
    let nodes = levels.take(depth).flatten().map(|n| {
        RawNode::new(n.kind(), n.is_named(), n.child_count(), n.start_byte(), n.end_byte())
    });
    Some(nodes.collect())
}

/// The same walk over the same tree; `Node::start_position` and
/// `Node::end_position` give where each node starts and ends. The result
/// depends on the source and the depth alone.
#[verifier::external_body]
fn list_spans(source: &[u8], depth: usize) -> (r: Option<Vec<(Point, Point)>>)
    ensures
        r is Some <==> ruby_spans(source@, depth) is Some,
        r matches Some(spans) ==> ruby_spans(source@, depth) == Some(spans@),
{
    let mut parser = Parser::new();
    parser.set_language(language()).ok()?;
    let tree = parser.parse(source, None)?;
    let levels = successors(Some(vec![tree.root_node()]), |level| {
        Some(level.iter().flat_map(|n| n.children(&mut n.walk()).collect::<Vec<_>>()).collect())
    });
    let spans = levels.take(depth).flatten().map(|n| (n.start_position(), n.end_position()));
    Some(spans.map(|(s, e)| (Point::new(s.row, s.column), Point::new(e.row, e.column))).collect())
}

/// The same walk over the same tree; `Node::child_by_field_name` gives, for
/// each node and each of `fields`, the child in that field, of which
/// `start_byte` and `end_byte` are kept. The result depends on the source, the
/// depth and the field names alone.
#[verifier::external_body]
fn list_fields(source: &[u8], depth: usize, fields: &Vec<&'static str>) -> (r: Option<
    Vec<Vec<Option<(usize, usize)>>>,
>)
    ensures
        r is Some <==> ruby_fields(source@, depth, name_views(fields@)) is Some,
        r matches Some(ranges) ==> ruby_fields(source@, depth, name_views(fields@)) == Some(
            range_views(ranges@),
        ),
{
    let mut parser = Parser::new();
    parser.set_language(language()).ok()?;
    let tree = parser.parse(source, None)?;
    let levels = successors(Some(vec![tree.root_node()]), |level| {
        Some(level.iter().flat_map(|n| n.children(&mut n.walk()).collect::<Vec<_>>()).collect())
    });
    let held = |n: tree_sitter::Node, field: &&str| {
        n.child_by_field_name(field).map(|child| (child.start_byte(), child.end_byte()))
    };
    let nodes = levels.take(depth).flatten();
    Some(nodes.map(|n| fields.iter().map(|field| held(n, field)).collect()).collect())
}

/// A fresh `Parser` with the grammar of `tree_sitter_ruby::language` parses
/// `source`, and `Node::descendant_for_point_range` finds the smallest node
/// under `Tree::root_node` that spans `position`, of which `start_byte` and
/// `end_byte` are kept. The result depends on the source and the position
/// alone.
#[verifier::external_body]
fn range_at(source: &[u8], position: Point) -> (r: Option<(usize, usize)>)
    ensures
        r == ruby_range_at(source@, position),
{
    let mut parser = Parser::new();
    parser.set_language(language()).ok()?;
    let tree = parser.parse(source, None)?;
    let point = tree_sitter::Point { row: position.row, column: position.column };
    let found = tree.root_node().descendant_for_point_range(point, point)?;
    Some((found.start_byte(), found.end_byte()))
}

/// How many levels of the tree are asked for: more than a source of `length`
/// bytes can nest.
pub open spec fn depth_for(length: nat) -> usize {
    if 2 * length + 64 <= usize::MAX {
        (2 * length + 64) as usize
    } else {
        usize::MAX
    }
}

/// The names of the fields that are asked for, in their order.
pub open spec fn field_list() -> Seq<Seq<char>> {
    Seq::new(10, |place: int| NodeName::at(place)->0.grammar_name())
}

/// Where the children of the node `index` of the list start: behind the root
/// and the children of all nodes before it.
pub open spec fn children_start(nodes: Seq<RawNodeView>, index: int) -> int
    decreases index,
{
    if index <= 0 {
        1
    } else {
        children_start(nodes, index - 1) + nodes[index - 1].children
    }
}

/// Whether the list tells a tree: it has a root, the children of each node
/// stand behind the node, the children of all nodes are the whole list but
/// the root, and each node has its reported fields.
pub open spec fn tells_a_tree(
    nodes: Seq<RawNodeView>,
    spans: Seq<(Point, Point)>,
    fields: Seq<Seq<Option<(usize, usize)>>>,
) -> bool {
    &&& nodes.len() >= 1
    &&& spans.len() == nodes.len()
    &&& fields.len() == nodes.len()
    &&& children_start(nodes, nodes.len() as int) == nodes.len()
    &&& forall|index: int| 0 <= index < nodes.len() ==> #[trigger] children_start(nodes, index) > index
}

/// The first place from `from` on at which `reported` holds `range`.
pub open spec fn first_reported(
    reported: Seq<Option<(usize, usize)>>,
    range: (usize, usize),
    from: int,
) -> Option<int>
    decreases reported.len() - from,
{
    if from < 0 || from >= reported.len() {
        None
    } else if reported[from] == Some(range) {
        Some(from)
    } else {
        first_reported(reported, range, from + 1)
    }
}

/// The field in which a node holds the child that covers `range`: the first
/// of the fields asked for whose reported child covers just that.
pub open spec fn field_of(reported: Seq<Option<(usize, usize)>>, range: (usize, usize)) -> Option<
    NodeName,
> {
    match first_reported(reported, range, 0) {
        Some(place) => NodeName::at(place),
        None => None,
    }
}

/// What the tree keeps of a reported node that starts and ends at `span` and
/// that its parent holds in `field`.
pub open spec fn info_for(node: RawNodeView, span: (Point, Point), field: Option<NodeName>) -> NodeInfo {
    NodeInfo {
        kind: NodeKind::of(node.kind),
        field,
        named: node.named,
        start: span.0,
        end: span.1,
        start_byte: node.start_byte,
        end_byte: node.end_byte,
    }
}

/// Whether the node `index` of `tree` is the node `index` of the list: it
/// keeps what is reported of it, in the field that its parent reports for
/// it, and its children are those that the list gives it.
pub open spec fn describes_node(
    nodes: Seq<RawNodeView>,
    spans: Seq<(Point, Point)>,
    fields: Seq<Seq<Option<(usize, usize)>>>,
    tree: SyntaxTree,
    index: int,
) -> bool {
    &&& tree.nodes[index].info == info_for(
        nodes[index],
        spans[index],
        match tree.nodes[index].parent {
            Some(parent) => field_of(
                fields[parent as int],
                (nodes[index].start_byte, nodes[index].end_byte),
            ),
            None => None,
        },
    )
    &&& tree.nodes[index].children@.len() == nodes[index].children
    &&& forall|k: int|
        0 <= k < nodes[index].children ==> #[trigger] tree.nodes[index].children@[k]
            == children_start(nodes, index) + k
}

/// Whether `tree` is the tree that the list tells.
pub open spec fn describes(
    nodes: Seq<RawNodeView>,
    spans: Seq<(Point, Point)>,
    fields: Seq<Seq<Option<(usize, usize)>>>,
    tree: SyntaxTree,
) -> bool {
    &&& tree.nodes.len() == nodes.len()
    &&& forall|index: int|
        0 <= index < nodes.len() ==> #[trigger] describes_node(nodes, spans, fields, tree, index)
}

/// Whether the Ruby parser gives a tree for `source`.
pub open spec fn ruby_parses(source: Seq<u8>) -> bool {
    let depth = depth_for(source.len());
    &&& ruby_nodes(source, depth) is Some
    &&& ruby_spans(source, depth) is Some
    &&& ruby_fields(source, depth, field_list()) is Some
    &&& tells_a_tree(
        ruby_nodes(source, depth)->0,
        ruby_spans(source, depth)->0,
        ruby_fields(source, depth, field_list())->0,
    )
}

/// Whether `tree` is the syntax tree that the Ruby parser gives for `source`.
pub open spec fn is_ruby_syntax(source: Seq<u8>, tree: SyntaxTree) -> bool {
    let depth = depth_for(source.len());
    &&& ruby_parses(source)
    &&& tree.wf()
    &&& tree.source@ == source
    &&& describes(
        ruby_nodes(source, depth)->0,
        ruby_spans(source, depth)->0,
        ruby_fields(source, depth, field_list())->0,
        tree,
    )
}

/// Where the children of a node start does not come before where those of an
/// earlier node start.
proof fn lemma_children_start_grows(nodes: Seq<RawNodeView>, earlier: int, later: int)
    requires
        0 <= earlier <= later,
    ensures
        children_start(nodes, earlier) <= children_start(nodes, later),
    decreases later - earlier,
{
    if earlier < later {
        lemma_children_start_grows(nodes, earlier, later - 1);
    }
}

/// The field in which a node with the reported `fields` holds the child that
/// covers `start..end`.
fn field_for(fields: &Vec<Option<(usize, usize)>>, start: usize, end: usize) -> (r: Option<NodeName>)
    ensures
        r == field_of(fields@, (start, end)),
{
    let mut place: usize = 0;
    while place < fields.len()
        invariant
            place <= fields.len(),
            first_reported(fields@, (start, end), 0) == first_reported(
                fields@,
                (start, end),
                place as int,
            ),
        decreases fields.len() - place,
    {
        match fields[place] {
            Some(range) => {
                if range.0 == start && range.1 == end {
                    return NodeName::in_order(place);
                }
            },
            None => {},
        }
        place += 1;
    }
    None
}

/// What the tree keeps of a reported node that starts and ends at `span` and
/// that its parent holds in `field`.
fn describe(node: &RawNode, span: &(Point, Point), field: Option<NodeName>) -> (info: NodeInfo)
    ensures
        info == info_for(node@, *span, field),
{
    NodeInfo {
        kind: NodeKind::classify(node.kind),
        field,
        named: node.named,
        start: span.0,
        end: span.1,
        start_byte: node.start_byte,
        end_byte: node.end_byte,
    }
}

/// The names of the fields that are asked for, in their order.
fn field_names() -> (names: Vec<&'static str>)
    ensures
        name_views(names@) == field_list(),
{
    let mut names: Vec<&'static str> = Vec::new();
    let mut place: usize = 0;
    while place < 10
        invariant
            place <= 10,
            names@.len() == place,
            forall|k: int| 0 <= k < place ==> (#[trigger] names@[k])@ == NodeName::at(k)->0.grammar_name(),
        decreases 10 - place,
    {
        match NodeName::in_order(place) {
            Some(field) => {
                names.push(field.as_str());
            },
            None => {},
        }
        place += 1;
    }
    assert(name_views(names@) =~= field_list());
    names
}

/// How many levels of the tree are asked for.
fn depth_of(length: usize) -> (depth: usize)
    ensures
        depth == depth_for(length as nat),
{
    if length <= (usize::MAX - 64) / 2 {
        2 * length + 64
    } else {
        usize::MAX
    }
}

/// The tree that the list tells, where it tells one: the nodes stand in the
/// tree in the order of the list.
pub fn assemble(
    source: &[u8],
    nodes: &Vec<RawNode>,
    spans: &Vec<(Point, Point)>,
    fields: &Vec<Vec<Option<(usize, usize)>>>,
) -> (r: Option<SyntaxTree>)
    ensures
        r is Some <==> tells_a_tree(raw_views(nodes@), spans@, range_views(fields@)),
        r matches Some(tree) ==> {
            &&& tree.wf()
            &&& tree.source@ == source@
            &&& describes(raw_views(nodes@), spans@, range_views(fields@), tree)
        },
{
    let ghost listed = raw_views(nodes@);
    let ghost reported = range_views(fields@);
    let count = nodes.len();
    if count == 0 || fields.len() != count || spans.len() != count {
        return None;
    }
    let mut tree = SyntaxTree::new(slice_to_vec(source), describe(&nodes[0], &spans[0], None));
    let mut index: usize = 0;
    while index < count
        invariant
            listed == raw_views(nodes@),
            reported == range_views(fields@),
            count == nodes.len(),
            count == fields.len(),
            count == spans.len(),
            count >= 1,
            index <= count,
            tree.wf(),
            tree.source@ == source@,
            tree.nodes.len() == children_start(listed, index as int),
            tree.nodes.len() <= count,
            forall|at: int| 0 <= at < index ==> #[trigger] children_start(listed, at) > at,
            forall|at: int|
                0 <= at < index ==> #[trigger] describes_node(listed, spans@, reported, tree, at),
            forall|at: int|
                index <= at < tree.nodes.len() ==> {
                    &&& (#[trigger] tree.nodes[at]).children@.len() == 0
                    &&& tree.nodes[at].info == info_for(
                        listed[at],
                        spans@[at],
                        match tree.nodes[at].parent {
                            Some(parent) => field_of(
                                reported[parent as int],
                                (listed[at].start_byte, listed[at].end_byte),
                            ),
                            None => None,
                        },
                    )
                },
        decreases count - index,
    {
        if tree.len() <= index {
            assert(children_start(listed, index as int) <= index);
            return None;
        }
        let wanted = nodes[index].children;
        assert(listed[index as int].children == wanted);
        let mut k: usize = 0;
        while k < wanted
            invariant
                listed == raw_views(nodes@),
                reported == range_views(fields@),
                count == nodes.len(),
                count == fields.len(),
            count == spans.len(),
                index < count,
                k <= wanted,
                wanted == listed[index as int].children,
                tree.wf(),
                tree.source@ == source@,
                index < tree.nodes.len(),
                tree.nodes.len() == children_start(listed, index as int) + k,
                tree.nodes.len() <= count,
                forall|at: int|
                    0 <= at < index ==> #[trigger] describes_node(listed, spans@, reported, tree, at),
                tree.nodes[index as int].children@.len() == k,
                forall|j: int|
                    0 <= j < k ==> #[trigger] tree.nodes[index as int].children@[j]
                        == children_start(listed, index as int) + j,
                forall|at: int|
                    index <= at < tree.nodes.len() ==> {
                        &&& at > index ==> (#[trigger] tree.nodes[at]).children@.len() == 0
                        &&& tree.nodes[at].info == info_for(
                            listed[at],
                            spans@[at],
                            match tree.nodes[at].parent {
                                Some(parent) => field_of(
                                    reported[parent as int],
                                    (listed[at].start_byte, listed[at].end_byte),
                                ),
                                None => None,
                            },
                        )
                    },
            decreases wanted - k,
        {
            let next = tree.len();
            if next >= count {
                proof {
                    lemma_children_start_grows(listed, index + 1, count as int);
                }
                return None;
            }
            let child = &nodes[next];
            assert(listed[next as int] == child@);
            assert(reported[index as int] == fields@[index as int]@);
            let field = field_for(&fields[index], child.start_byte, child.end_byte);
            let ghost before = tree;
            let added = tree.add_child(index, describe(child, &spans[next], field));
            proof {
                assert(added == Some(next));
                assert forall|at: int| 0 <= at < index implies #[trigger] describes_node(
                    listed,
                    spans@,
                    reported,
                    tree,
                    at,
                ) by {
                    assert(describes_node(listed, spans@, reported, before, at));
                    assert(tree.nodes[at] == before.nodes[at]);
                }
                assert forall|at: int| index <= at < tree.nodes.len() implies {
                    &&& at > index ==> (#[trigger] tree.nodes[at]).children@.len() == 0
                    &&& tree.nodes[at].info == info_for(
                        listed[at],
                        spans@[at],
                        match tree.nodes[at].parent {
                            Some(parent) => field_of(
                                reported[parent as int],
                                (listed[at].start_byte, listed[at].end_byte),
                            ),
                            None => None,
                        },
                    )
                } by {
                    if index < at < next {
                        assert(tree.nodes[at] == before.nodes[at]);
                    }
                }
            }
            k += 1;
        }
        proof {
            assert(describes_node(listed, spans@, reported, tree, index as int));
        }
        index += 1;
    }
    if tree.len() != count {
        return None;
    }
    proof {
        assert forall|at: int| 0 <= at < listed.len() implies #[trigger] children_start(
            listed,
            at,
        ) > at by {}
    }
    Some(tree)
}

/// Why a source could not be parsed.
#[derive(Clone, Copy, Debug, PartialEq, Eq, Structural)]
pub enum ParseError {
    /// The parser could not be set up or gave no tree.
    NoTree,
    /// What the parser lists is no tree, or the tree is deeper than was
    /// asked for.
    Unreadable,
}

/// A parsed source: the syntax tree that the parser gives for it.
pub struct ParsedSource {
    syntax: SyntaxTree,
}

impl ParsedSource {
    /// The syntax tree.
    pub closed spec fn copy(&self) -> SyntaxTree {
        self.syntax
    }

    /// The tree is well-formed.
    pub closed spec fn wf(&self) -> bool {
        self.syntax.wf()
    }

    /// The syntax tree in plain values.
    pub fn syntax(&self) -> (tree: &SyntaxTree)
        requires
            self.wf(),
        ensures
            *tree == self.copy(),
            tree.wf(),
    {
        &self.syntax
    }

    /// The smallest node at `position`: the first node of the tree that
    /// covers the bytes of the node that the parser finds there, that spans
    /// the position, and in none of whose children the position lies. `None`
    /// for a position outside the text.
    pub fn node_at(&self, position: Point) -> (node: Option<usize>)
        requires
            self.wf(),
        ensures
            node == located(
                &self.copy(),
                ruby_range_at(self.copy().source@, position),
                position,
            ),
            node is Some ==> self.copy().innermost_at(node->0 as int, position),
    {
        let range = range_at(self.syntax.source.as_slice(), position);
        locate(&self.syntax, range, position)
    }
}

/// The first node from `from` on that covers the bytes `range` and is the
/// smallest at `position`.
pub open spec fn first_located(
    tree: &SyntaxTree,
    range: (usize, usize),
    position: Point,
    from: int,
) -> Option<usize>
    decreases tree.nodes.len() - from,
{
    if from < 0 || from >= tree.nodes.len() {
        None
    } else if tree.nodes[from].info.start_byte == range.0 && tree.nodes[from].info.end_byte
        == range.1 && tree.innermost_at(from, position) {
        Some(from as usize)
    } else {
        first_located(tree, range, position, from + 1)
    }
}

/// The node of `tree` that stands for the node that the parser found at
/// `position` and that covers the bytes `range`: the first node with those
/// bytes that is the smallest at the position.
pub open spec fn located(
    tree: &SyntaxTree,
    range: Option<(usize, usize)>,
    position: Point,
) -> Option<usize> {
    match range {
        Some(range) => first_located(tree, range, position, 0),
        None => None,
    }
}

/// The node of `tree` that stands for the node that the parser found at
/// `position` and that covers the bytes `range`.
pub fn locate(tree: &SyntaxTree, range: Option<(usize, usize)>, position: Point) -> (node: Option<
    usize,
>)
    requires
        tree.wf(),
    ensures
        node == located(tree, range, position),
        node is Some ==> tree.innermost_at(node->0 as int, position),
{
    let (start, end) = match range {
        Some(range) => range,
        None => {
            return None;
        },
    };
    let mut index: usize = 0;
    while index < tree.len()
        invariant
            tree.wf(),
            index <= tree.nodes.len(),
            range == Some((start, end)),
            first_located(tree, (start, end), position, 0) == first_located(
                tree,
                (start, end),
                position,
                index as int,
            ),
        decreases tree.nodes.len() - index,
    {
        let info = &tree.nodes[index].info;
        if info.start_byte == start && info.end_byte == end && tree.is_innermost_at(
            index,
            &position,
        ) {
            assert(first_located(tree, (start, end), position, index as int) == Some(index));
            return Some(index);
        }
        index += 1;
    }
    None
}

/// Parses Ruby source. Text that is not Ruby still gives a tree; only a parser
/// that cannot be set up, or that lists what is no tree, fails.
pub fn parse(source: &[u8]) -> (r: Result<ParsedSource, ParseError>)
    ensures
        r is Ok <==> ruby_parses(source@),
        r matches Ok(parsed) ==> parsed.wf() && is_ruby_syntax(source@, parsed.copy()),
        r matches Err(e) ==> (e == ParseError::NoTree <==> (ruby_nodes(
            source@,
            depth_for(source@.len()),
        ) is None || ruby_spans(source@, depth_for(source@.len())) is None || ruby_fields(
            source@,
            depth_for(source@.len()),
            field_list(),
        ) is None)),
{
    let depth = depth_of(source.len());
    let nodes = match list_nodes(source, depth) {
        Some(nodes) => nodes,
        None => {
            return Err(ParseError::NoTree);
        },
    };
    let spans = match list_spans(source, depth) {
        Some(spans) => spans,
        None => {
            return Err(ParseError::NoTree);
        },
    };
    let names = field_names();
    let fields = match list_fields(source, depth, &names) {
        Some(fields) => fields,
        None => {
            return Err(ParseError::NoTree);
        },
    };
    match assemble(source, &nodes, &spans, &fields) {
        Some(syntax) => Ok(ParsedSource { syntax }),
        None => Err(ParseError::Unreadable),
    }
}

} // verus!
