//! Local variables and parameters: what a bare name inside a method refers to.

use vstd::prelude::*;
use crate::kinds::{NodeKind, NodeName};
use crate::point::Point;
use crate::syntax::SyntaxTree;
use crate::text::str_eq;
use crate::types::{param_views, KindView, ParamView, RMethodParamV2, RSymbolKind, RSymbolV2, SymbolView};

verus! {

/// The left-hand side of the assignment at `node`, if it assigns to the
/// local variable `name` inside `low..high` and before `before`.
pub open spec fn assigned_before(
    tree: &SyntaxTree,
    node: int,
    name: Seq<char>,
    low: Point,
    high: Point,
    before: Point,
) -> Option<int> {
    if tree.kind_of(node) == NodeKind::Assignment && low.at_or_before(tree.nodes[node].info.start)
        && tree.nodes[node].info.end.at_or_before(high) {
        match (tree.field_child(node, NodeName::Left), tree.field_child(node, NodeName::Right)) {
            (Some(lhs), Some(_)) => if tree.has(lhs) && tree.kind_of(lhs) == NodeKind::Identifier
                && tree.text_of(lhs) == Some(name) && tree.nodes[lhs].info.start.before(before) {
                Some(lhs)
            } else {
                None
            },
            _ => None,
        }
    } else {
        None
    }
}

/// Among the first `n` nodes, the left-hand side of the assignment to `name`
/// that stands last before `before`.
pub open spec fn nearest_upto(
    tree: &SyntaxTree,
    name: Seq<char>,
    low: Point,
    high: Point,
    before: Point,
    n: int,
) -> Option<int>
    decreases n,
{
    if n <= 0 {
        None
    } else {
        let earlier = nearest_upto(tree, name, low, high, before, n - 1);
        match assigned_before(tree, n - 1, name, low, high, before) {
            Some(lhs) => if earlier is None || !tree.nodes[lhs].info.start.before(
                tree.nodes[earlier->0].info.start,
            ) {
                Some(lhs)
            } else {
                earlier
            },
            None => earlier,
        }
    }
}

/// What `nearest_upto` finds is the left-hand side of an assignment to the
/// name before the reference, and none of these starts later.
pub proof fn lemma_nearest(
    tree: &SyntaxTree,
    name: Seq<char>,
    low: Point,
    high: Point,
    before: Point,
    n: int,
)
    requires
        0 <= n <= tree.nodes.len(),
    ensures
        match nearest_upto(tree, name, low, high, before, n) {
            Some(lhs) => {
                &&& tree.has(lhs)
                &&& exists|a: int| 0 <= a < n && assigned_before(tree, a, name, low, high, before) == Some(lhs)
                &&& tree.nodes[lhs].info.start.before(before)
                &&& forall|a: int|
                    0 <= a < n && (#[trigger] assigned_before(tree, a, name, low, high, before)) is Some
                        ==> !tree.nodes[lhs].info.start.before(
                        tree.nodes[assigned_before(tree, a, name, low, high, before)->0].info.start,
                    )
            },
            None => forall|a: int|
                0 <= a < n ==> (#[trigger] assigned_before(tree, a, name, low, high, before)) is None,
        },
    decreases n,
{
    if n > 0 {
        lemma_nearest(tree, name, low, high, before, n - 1);
        let earlier = nearest_upto(tree, name, low, high, before, n - 1);
        match assigned_before(tree, n - 1, name, low, high, before) {
            Some(lhs) => {
                if earlier is None || !tree.nodes[lhs].info.start.before(
                    tree.nodes[earlier->0].info.start,
                ) {
                    assert(assigned_before(tree, n - 1, name, low, high, before) == Some(lhs));
                } else {
                    let a = choose|a: int|
                        0 <= a < n - 1 && assigned_before(tree, a, name, low, high, before) == Some(
                            earlier->0,
                        );
                    assert(assigned_before(tree, a, name, low, high, before) == Some(earlier->0));
                }
            },
            None => {
                if earlier is Some {
                    let a = choose|a: int|
                        0 <= a < n - 1 && assigned_before(tree, a, name, low, high, before) == Some(
                            earlier->0,
                        );
                    assert(assigned_before(tree, a, name, low, high, before) == Some(earlier->0));
                }
            },
        }
    }
}

/// The first of `parameters[from..]` that is called `name`.
pub open spec fn first_parameter(
    parameters: Seq<ParamView>,
    name: Seq<char>,
    from: int,
) -> Option<ParamView>
    decreases parameters.len() - from,
{
    if from < 0 || from >= parameters.len() {
        None
    } else if parameters[from].name == name {
        Some(parameters[from])
    } else {
        first_parameter(parameters, name, from + 1)
    }
}

/// The parameters of a method; none for any other symbol.
pub open spec fn parameters_in(kind: KindView) -> Option<Seq<ParamView>> {
    match kind {
        KindView::InstanceMethod { parameters } => Some(parameters),
        KindView::SingletonMethod { parameters } => Some(parameters),
        _ => None,
    }
}

fn assignment_target(
    tree: &SyntaxTree,
    node: usize,
    name: &str,
    low: &Point,
    high: &Point,
    before: &Point,
) -> (r: Option<usize>)
    requires
        tree.wf(),
        tree.has(node as int),
    ensures
        match assigned_before(tree, node as int, name@, *low, *high, *before) {
            Some(lhs) => r == Some(lhs as usize) && tree.has(lhs),
            None => r is None,
        },
{
    if tree.kind(node) != NodeKind::Assignment {
        return None;
    }
    if !low.is_at_or_before(&tree.start(node)) || !tree.end(node).is_at_or_before(high) {
        return None;
    }
    let lhs = match tree.child_by_field(node, NodeName::Left) {
        Some(lhs) => lhs,
        None => {
            return None;
        },
    };
    if tree.child_by_field(node, NodeName::Right).is_none() {
        return None;
    }
    if tree.kind(lhs) != NodeKind::Identifier || !tree.start(lhs).is_before(before) {
        return None;
    }
    match tree.text(lhs) {
        Some(text) => if str_eq(text.as_str(), name) {
            Some(lhs)
        } else {
            None
        },
        None => None,
    }
}

fn nearest_assignment_in(
    tree: &SyntaxTree,
    name: &str,
    low: &Point,
    high: &Point,
    before: &Point,
) -> (r: Option<usize>)
    requires
        tree.wf(),
    ensures
        match nearest_upto(tree, name@, *low, *high, *before, tree.nodes.len() as int) {
            Some(lhs) => r == Some(lhs as usize) && tree.has(lhs),
            None => r is None,
        },
{
    let mut best: Option<usize> = None;
    let mut i: usize = 0;
    while i < tree.len()
        invariant
            tree.wf(),
            i <= tree.nodes.len(),
            match nearest_upto(tree, name@, *low, *high, *before, i as int) {
                Some(lhs) => best == Some(lhs as usize) && tree.has(lhs),
                None => best is None,
            },
        decreases tree.nodes.len() - i,
    {
        match assignment_target(tree, i, name, low, high, before) {
            Some(lhs) => {
                let later = match best {
                    Some(earlier) => !tree.start(lhs).is_before(&tree.start(earlier)),
                    None => true,
                };
                if later {
                    best = Some(lhs);
                }
            },
            None => {},
        }
        i += 1;
    }
    best
}

fn parameter_named<'a>(
    parameters: &'a Vec<RMethodParamV2>,
    name: &str,
) -> (r: Option<&'a RMethodParamV2>)
    ensures
        match first_parameter(param_views(parameters@), name@, 0) {
            Some(p) => r is Some && r->0@ == p,
            None => r is None,
        },
{
    let ghost all = param_views(parameters@);
    let mut i: usize = 0;
    while i < parameters.len()
        invariant
            i <= parameters.len(),
            all == param_views(parameters@),
            first_parameter(all, name@, 0) == first_parameter(all, name@, i as int),
        decreases parameters.len() - i,
    {
        assert(all[i as int] == parameters@[i as int]@);
        if str_eq(parameters[i].name.as_str(), name) {
            return Some(&parameters[i]);
        }
        i += 1;
    }
    None
}

fn parameters_of_method(kind: &RSymbolKind) -> (r: Option<&Vec<RMethodParamV2>>)
    ensures
        match parameters_in(kind@) {
            Some(parameters) => r is Some && param_views(r->0@) == parameters,
            None => r is None,
        },
{
    match kind {
        RSymbolKind::InstanceMethod { parameters } => Some(parameters),
        RSymbolKind::SingletonMethod { parameters } => Some(parameters),
        _ => None,
    }
}

/// Where the local name `name`, used at `before`, is defined in the method
/// `method`: the left-hand side of the assignment to it that stands last
/// before the use, or else the parameter of that name. `None` where the
/// method has neither, and for a symbol that is no method.
pub open spec fn variable_definition(
    tree: &SyntaxTree,
    name: Seq<char>,
    method: SymbolView,
    before: Point,
) -> Option<(Point, Point)> {
    match parameters_in(method.kind) {
        None => None,
        Some(parameters) => match nearest_upto(
            tree,
            name,
            method.start,
            method.end,
            before,
            tree.nodes.len() as int,
        ) {
            Some(lhs) => Some((tree.nodes[lhs].info.start, tree.nodes[lhs].info.end)),
            None => match first_parameter(parameters, name, 0) {
                Some(parameter) => Some((parameter.start, parameter.end)),
                None => None,
            },
        },
    }
}

/// The left-hand side of the assignment to the name at `identifier_node` that
/// stands last before it inside the range of `context`.
pub fn find_first_assignment_with_lhs_text_with_query(
    tree: &SyntaxTree,
    identifier_node: usize,
    context: &RSymbolV2,
) -> (r: Option<usize>)
    requires
        tree.wf(),
        tree.has(identifier_node as int),
    ensures
        match tree.text_of(identifier_node as int) {
            Some(name) => match nearest_upto(
                tree,
                name,
                context.start,
                context.end,
                tree.nodes[identifier_node as int].info.start,
                tree.nodes.len() as int,
            ) {
                Some(lhs) => r == Some(lhs as usize) && tree.has(lhs),
                None => r is None,
            },
            None => r is None,
        },
{
    match tree.text(identifier_node) {
        Some(name) => nearest_assignment_in(
            tree,
            name.as_str(),
            &context.start,
            &context.end,
            &tree.start(identifier_node),
        ),
        None => None,
    }
}

/// Where the name at `node` is defined as a local variable or parameter of
/// the method `context`: the range of the left-hand side of the assignment
/// that stands last before `node`, or else that of the parameter's name.
pub fn get_method_variable_definition(
    tree: &SyntaxTree,
    node: usize,
    context: &RSymbolV2,
) -> (r: Option<(Point, Point)>)
    requires
        tree.wf(),
        tree.has(node as int),
    ensures
        match tree.text_of(node as int) {
            Some(name) => r == variable_definition(
                tree,
                name,
                context@,
                tree.nodes[node as int].info.start,
            ),
            None => r is None,
        },
{
    let name = match tree.text(node) {
        Some(name) => name,
        None => {
            return None;
        },
    };
    let parameters = match parameters_of_method(&context.kind) {
        Some(parameters) => parameters,
        None => {
            return None;
        },
    };
    match nearest_assignment_in(
        tree,
        name.as_str(),
        &context.start,
        &context.end,
        &tree.start(node),
    ) {
        Some(lhs) => {
            return Some((tree.start(lhs), tree.end(lhs)));
        },
        None => {},
    }
    match parameter_named(parameters, name.as_str()) {
        Some(parameter) => Some((parameter.start, parameter.end)),
        None => None,
    }
}

/// Whether a node of this kind gives an identifier its meaning: a call, a
/// method, a class or a module.
pub open spec fn gives_context(kind: NodeKind) -> bool {
    ||| kind == NodeKind::Call
    ||| kind == NodeKind::Method
    ||| kind == NodeKind::SingletonMethod
    ||| kind == NodeKind::Class
    ||| kind == NodeKind::Module
}

/// The nearest node above `node` that gives an identifier its meaning.
pub open spec fn context_above(tree: &SyntaxTree, node: int) -> Option<int>
    decreases node,
{
    match tree.parent_of(node) {
        Some(parent) if 0 <= parent < node => if gives_context(tree.kind_of(parent)) {
            Some(parent)
        } else {
            context_above(tree, parent)
        },
        _ => None,
    }
}

/// The call, method, class or module that stands nearest around `node`.
pub fn get_identifier_context(tree: &SyntaxTree, node: usize) -> (r: Option<usize>)
    requires
        tree.wf(),
        tree.has(node as int),
    ensures
        match context_above(tree, node as int) {
            Some(context) => r == Some(context as usize) && tree.has(context),
            None => r is None,
        },
{
    let mut current = node;
    loop
        invariant
            tree.wf(),
            tree.has(current as int),
            context_above(tree, node as int) == context_above(tree, current as int),
        decreases current,
    {
        let parent = match tree.parent(current) {
            Some(parent) => parent,
            None => {
                return None;
            },
        };
        match tree.kind(parent) {
            NodeKind::Call
            | NodeKind::Method
            | NodeKind::SingletonMethod
            | NodeKind::Class
            | NodeKind::Module => {
                return Some(parent);
            },
            _ => {},
        }
        current = parent;
    }
}

/// The left-hand side of the assignment at `node`, if the assignment starts
/// before `before` and assigns to something that reads `name`.
pub open spec fn assigned_beside(
    tree: &SyntaxTree,
    node: int,
    name: Seq<char>,
    before: Point,
) -> Option<int> {
    if tree.has(node) && tree.kind_of(node) == NodeKind::Assignment
        && tree.nodes[node].info.start.before(before) {
        match tree.field_child(node, NodeName::Left) {
            Some(lhs) if tree.has(lhs) && tree.text_of(lhs) == Some(name) => Some(lhs),
            _ => None,
        }
    } else {
        None
    }
}

/// Among the first `n` of `children`, the left-hand side of an assignment to
/// `name` on the latest row, and of several on that row the first.
pub open spec fn latest_row_upto(
    tree: &SyntaxTree,
    children: Seq<usize>,
    name: Seq<char>,
    before: Point,
    n: int,
) -> Option<int>
    decreases n,
{
    if n <= 0 {
        None
    } else {
        let earlier = latest_row_upto(tree, children, name, before, n - 1);
        match assigned_beside(tree, children[n - 1] as int, name, before) {
            Some(lhs) => if earlier is None || tree.nodes[earlier->0].info.start.row
                < tree.nodes[lhs].info.start.row {
                Some(lhs)
            } else {
                earlier
            },
            None => earlier,
        }
    }
}

/// The assignment to `name` that is found by walking up from `node`: at each
/// node above, one of its children that start before `before`, the one on
/// the latest row. The walk ends without a find at a node that starts before
/// `scope_start`.
pub open spec fn assigned_above(
    tree: &SyntaxTree,
    node: int,
    name: Seq<char>,
    before: Point,
    scope_start: Point,
) -> Option<int>
    decreases node,
{
    match tree.parent_of(node) {
        Some(parent) if 0 <= parent < node => if tree.nodes[parent].info.start.before(scope_start) {
            None
        } else {
            match latest_row_upto(
                tree,
                tree.children_of(parent),
                name,
                before,
                tree.children_of(parent).len() as int,
            ) {
                Some(lhs) => Some(lhs),
                None => assigned_above(tree, parent, name, before, scope_start),
            }
        },
        _ => None,
    }
}

fn target_beside(tree: &SyntaxTree, node: usize, name: &str, before: &Point) -> (r: Option<usize>)
    requires
        tree.wf(),
        tree.has(node as int),
    ensures
        match assigned_beside(tree, node as int, name@, *before) {
            Some(lhs) => r == Some(lhs as usize) && tree.has(lhs),
            None => r is None,
        },
{
    if tree.kind(node) != NodeKind::Assignment || !tree.start(node).is_before(before) {
        return None;
    }
    let lhs = match tree.child_by_field(node, NodeName::Left) {
        Some(lhs) => lhs,
        None => {
            return None;
        },
    };
    match tree.text(lhs) {
        Some(text) => if str_eq(text.as_str(), name) {
            Some(lhs)
        } else {
            None
        },
        None => None,
    }
}

/// The left-hand side of the assignment to the name at `identifier_node`
/// that is found nearest above it: among the siblings before the identifier,
/// then among those of the node above, and so on, but not above
/// `scope_start`.
pub fn find_first_assingment_with_lhs_text(
    tree: &SyntaxTree,
    identifier_node: usize,
    scope_start: &Point,
) -> (r: Option<usize>)
    requires
        tree.wf(),
        tree.has(identifier_node as int),
    ensures
        match tree.text_of(identifier_node as int) {
            Some(name) => match assigned_above(
                tree,
                identifier_node as int,
                name,
                tree.nodes[identifier_node as int].info.start,
                *scope_start,
            ) {
                Some(lhs) => r == Some(lhs as usize) && tree.has(lhs),
                None => r is None,
            },
            None => r is None,
        },
{
    let name = match tree.text(identifier_node) {
        Some(name) => name,
        None => {
            return None;
        },
    };
    let before = tree.start(identifier_node);
    let mut current = identifier_node;
    loop
        invariant
            tree.wf(),
            tree.has(current as int),
            tree.text_of(identifier_node as int) == Some(name@),
            before == tree.nodes[identifier_node as int].info.start,
            assigned_above(tree, identifier_node as int, name@, before, *scope_start)
                == assigned_above(tree, current as int, name@, before, *scope_start),
        decreases current,
    {
        let parent = match tree.parent(current) {
            Some(parent) => parent,
            None => {
                return None;
            },
        };
        if tree.start(parent).is_before(scope_start) {
            return None;
        }
        let children = tree.children(parent);
        let mut best: Option<usize> = None;
        let mut k: usize = 0;
        while k < children.len()
            invariant
                tree.wf(),
                k <= children.len(),
                children@ == tree.children_of(parent as int),
                forall|i: int|
                    0 <= i < children@.len() ==> #[trigger] children@[i] < tree.nodes.len(),
                match latest_row_upto(tree, children@, name@, before, k as int) {
                    Some(lhs) => best == Some(lhs as usize) && tree.has(lhs),
                    None => best is None,
                },
            decreases children.len() - k,
        {
            match target_beside(tree, children[k], name.as_str(), &before) {
                Some(lhs) => {
                    let later = match best {
                        Some(earlier) => tree.start(earlier).row < tree.start(lhs).row,
                        None => true,
                    };
                    if later {
                        best = Some(lhs);
                    }
                },
                None => {},
            }
            k += 1;
        }
        if best.is_some() {
            return best;
        }
        current = parent;
    }
}

} // verus!
