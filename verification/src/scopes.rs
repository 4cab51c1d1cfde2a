//! The namespace paths that a syntax tree spells: the qualified path around a
//! constant, and the classes and modules that enclose a node.

use vstd::prelude::*;
use crate::kinds::{NodeKind, NodeName};
use crate::scope::{is_absolute, joined, Scope, GLOBAL_SCOPE_VALUE};
use crate::syntax::SyntaxTree;

verus! {

/// The place of a constant in the qualified path that holds it.
pub enum Role {
    /// No `::` stands directly around the constant.
    Alone,
    /// The constant is the left-hand side of the scope resolution at the index.
    Qualifier(int),
    /// The constant is the right-hand side of the scope resolution at the index.
    Name(int),
}

/// The path that a qualifier spells, left to right: a constant spells itself,
/// and `scope::name` spells the path of `scope`, then `name`. A scope
/// resolution without a left-hand side is absolute. `None` where a part is
/// neither of the two or has no text.
pub open spec fn spelled_path(tree: &SyntaxTree, node: int) -> Option<Seq<Seq<char>>>
    decreases tree.nodes.len() - node,
{
    if !tree.has(node) {
        None
    } else if tree.kind_of(node) == NodeKind::Constant {
        match tree.text_of(node) {
            Some(text) => Some(seq![text]),
            None => None,
        }
    } else if tree.kind_of(node) == NodeKind::ScopeResolution {
        match tree.field_child(node, NodeName::Name) {
            Some(name) if tree.has(name) => match tree.text_of(name) {
                Some(text) => match tree.field_child(node, NodeName::Scope) {
                    None => Some(seq![GLOBAL_SCOPE_VALUE@, text]),
                    Some(scope) => if node < scope < tree.nodes.len() {
                        match spelled_path(tree, scope) {
                            Some(path) => Some(path.push(text)),
                            None => None,
                        }
                    } else {
                        None
                    },
                },
                None => None,
            },
            _ => None,
        }
    } else {
        None
    }
}

/// The constant that `node` stands for: itself, or the right-hand side of a
/// scope resolution.
pub open spec fn named_constant(tree: &SyntaxTree, node: int) -> Option<int> {
    if !tree.has(node) {
        None
    } else if tree.kind_of(node) == NodeKind::ScopeResolution {
        match tree.field_child(node, NodeName::Name) {
            Some(name) if tree.has(name) && tree.kind_of(name) == NodeKind::Constant => Some(name),
            _ => None,
        }
    } else if tree.kind_of(node) == NodeKind::Constant {
        Some(node)
    } else {
        None
    }
}

/// The place of the constant `node` in the path around it. `None` where the
/// scope resolution around it is malformed.
pub open spec fn role_of(tree: &SyntaxTree, node: int) -> Option<Role> {
    match tree.parent_of(node) {
        None => Some(Role::Alone),
        Some(parent) => if !tree.has(parent) || tree.kind_of(parent) != NodeKind::ScopeResolution {
            Some(Role::Alone)
        } else {
            match tree.field_child(parent, NodeName::Name) {
                Some(name) if tree.has(name) => match tree.field_child(parent, NodeName::Scope) {
                    Some(scope) if tree.has(scope) && tree.same_range(scope, node) => Some(
                        Role::Qualifier(parent),
                    ),
                    _ => if tree.same_range(name, node) {
                        Some(Role::Name(parent))
                    } else {
                        None
                    },
                },
                _ => None,
            }
        },
    }
}

/// The one-segment path of the text of `node`; empty where it has no text.
pub open spec fn own_text(tree: &SyntaxTree, node: int) -> Seq<Seq<char>> {
    match tree.text_of(node) {
        Some(text) => seq![text],
        None => Seq::empty(),
    }
}

/// The path up to and with the constant that `node` stands for: for `B` in
/// `A::B::C` it is `A::B`. Empty where the path cannot be read off the tree.
pub open spec fn parent_scope_resolution(tree: &SyntaxTree, node: int) -> Seq<Seq<char>> {
    match named_constant(tree, node) {
        None => Seq::empty(),
        Some(constant) => match role_of(tree, constant) {
            None => Seq::empty(),
            Some(Role::Alone) => own_text(tree, constant),
            Some(Role::Qualifier(_)) => own_text(tree, constant),
            Some(Role::Name(resolution)) => match spelled_path(tree, resolution) {
                Some(path) => path,
                None => Seq::empty(),
            },
        },
    }
}

/// The right-hand sides of the scope resolutions from `node` upwards, as long
/// as one holds the other.
pub open spec fn names_above(tree: &SyntaxTree, node: int) -> Option<Seq<Seq<char>>>
    decreases node,
{
    if !tree.has(node) || tree.kind_of(node) != NodeKind::ScopeResolution {
        Some(Seq::empty())
    } else {
        match tree.field_child(node, NodeName::Name) {
            Some(name) if tree.has(name) => match tree.text_of(name) {
                Some(text) => match tree.parent_of(node) {
                    Some(parent) if 0 <= parent < node => match names_above(tree, parent) {
                        Some(rest) => Some(seq![text] + rest),
                        None => None,
                    },
                    _ => Some(seq![text]),
                },
                None => None,
            },
            _ => None,
        }
    }
}

/// The path from the constant that `node` stands for to the end: for `B` in
/// `A::B::C` it is `B::C`. Empty where the path cannot be read off the tree.
pub open spec fn child_scope_resolution(tree: &SyntaxTree, node: int) -> Seq<Seq<char>> {
    match named_constant(tree, node) {
        None => Seq::empty(),
        Some(constant) => match role_of(tree, constant) {
            None => Seq::empty(),
            Some(Role::Alone) => own_text(tree, constant),
            Some(Role::Qualifier(resolution)) => match (
                tree.text_of(constant),
                names_above(tree, resolution),
            ) {
                (Some(text), Some(rest)) => seq![text] + rest,
                _ => Seq::empty(),
            },
            Some(Role::Name(resolution)) => match names_above(tree, resolution) {
                Some(rest) => rest,
                None => Seq::empty(),
            },
        },
    }
}

/// `path` without its first segment.
pub open spec fn rest_of(path: Seq<Seq<char>>) -> Seq<Seq<char>> {
    if path.len() > 0 {
        path.skip(1)
    } else {
        path
    }
}

/// The whole qualified path around the constant that `node` stands for: for
/// any of the three constants in `A::B::C` it is `A::B::C`.
pub open spec fn full_scope_resolution(tree: &SyntaxTree, node: int) -> Seq<Seq<char>> {
    parent_scope_resolution(tree, node) + rest_of(child_scope_resolution(tree, node))
}

/// Where the walk through the enclosing classes starts: above the scope
/// resolutions around `node` and, where `node` is part of the name of a class
/// or module, above that one too.
pub open spec fn climb_out(tree: &SyntaxTree, node: int) -> Option<int>
    decreases node,
{
    if !tree.has(node) {
        None
    } else if tree.kind_of(node) == NodeKind::ScopeResolution {
        match tree.parent_of(node) {
            Some(parent) if 0 <= parent < node => climb_out(tree, parent),
            _ => None,
        }
    } else if tree.kind_of(node).classlike() {
        tree.parent_of(node)
    } else {
        Some(node)
    }
}

/// The qualified name that the class or module at `node` is declared with.
pub open spec fn declared_path(tree: &SyntaxTree, node: int) -> Seq<Seq<char>> {
    match tree.field_child(node, NodeName::Name) {
        Some(name) => full_scope_resolution(tree, name),
        None => Seq::empty(),
    }
}

/// The declared names of `node` and of the nodes above it that are classes or
/// modules, outermost first.
pub open spec fn enclosing_path(tree: &SyntaxTree, node: int) -> Seq<Seq<char>>
    decreases node,
{
    if !tree.has(node) {
        Seq::empty()
    } else {
        let above = match tree.parent_of(node) {
            Some(parent) if 0 <= parent < node => enclosing_path(tree, parent),
            _ => Seq::empty(),
        };
        if tree.kind_of(node).classlike() {
            joined(above, declared_path(tree, node))
        } else {
            above
        }
    }
}

/// The lexical nesting of `node`: the declared names of the classes and
/// modules that enclose it, outermost first. The class or module whose name
/// `node` is part of does not count.
pub open spec fn context_scope(tree: &SyntaxTree, node: int) -> Seq<Seq<char>> {
    match tree.parent_of(node) {
        None => Seq::empty(),
        Some(parent) => match climb_out(tree, parent) {
            None => Seq::empty(),
            Some(start) => enclosing_path(tree, start),
        },
    }
}

/// The lexical nesting followed by the qualified path; an absolute path stands
/// alone.
pub open spec fn full_and_context_scope(tree: &SyntaxTree, node: int) -> Seq<Seq<char>> {
    let full = full_scope_resolution(tree, node);
    if is_absolute(full) {
        full
    } else {
        joined(context_scope(tree, node), full)
    }
}

fn spell(tree: &SyntaxTree, node: usize) -> (r: Option<Scope>)
    requires
        tree.wf(),
        tree.has(node as int),
    ensures
        r is Some <==> spelled_path(tree, node as int) is Some,
        r is Some ==> r->0@ == spelled_path(tree, node as int)->0,
    decreases tree.nodes.len() - node,
{
    match tree.kind(node) {
        NodeKind::Constant => match tree.text(node) {
            Some(text) => Some(Scope::from_name(text.as_str())),
            None => None,
        },
        NodeKind::ScopeResolution => {
            let name = match tree.child_by_field(node, NodeName::Name) {
                Some(name) => name,
                None => {
                    return None;
                },
            };
            let text = match tree.text(name) {
                Some(text) => text,
                None => {
                    return None;
                },
            };
            match tree.child_by_field(node, NodeName::Scope) {
                None => {
                    let mut path = Scope::from_name(GLOBAL_SCOPE_VALUE);
                    path.push(text);
                    assert(path@ =~= seq![GLOBAL_SCOPE_VALUE@, text@]);
                    Some(path)
                },
                Some(scope) => match spell(tree, scope) {
                    Some(mut path) => {
                        path.push(text);
                        Some(path)
                    },
                    None => None,
                },
            }
        },
        _ => None,
    }
}

/// The place of a constant in the path around it, with indices that fit the
/// machine.
enum Place {
    Alone,
    Qualifier(usize),
    Name(usize),
}

fn constant_of(tree: &SyntaxTree, node: usize) -> (r: Option<usize>)
    requires
        tree.wf(),
        tree.has(node as int),
    ensures
        r is Some <==> named_constant(tree, node as int) is Some,
        r is Some ==> r->0 as int == named_constant(tree, node as int)->0 && tree.has(r->0 as int),
{
    match tree.kind(node) {
        NodeKind::ScopeResolution => match tree.child_by_field(node, NodeName::Name) {
            Some(name) => if tree.kind(name) == NodeKind::Constant {
                Some(name)
            } else {
                None
            },
            None => None,
        },
        NodeKind::Constant => Some(node),
        _ => None,
    }
}

fn place_of(tree: &SyntaxTree, node: usize) -> (r: Option<Place>)
    requires
        tree.wf(),
        tree.has(node as int),
    ensures
        r is None <==> role_of(tree, node as int) is None,
        r matches Some(Place::Alone) ==> role_of(tree, node as int) == Some(Role::Alone),
        r matches Some(Place::Qualifier(p)) ==> role_of(tree, node as int) == Some(
            Role::Qualifier(p as int),
        ) && p < node,
        r matches Some(Place::Name(p)) ==> role_of(tree, node as int) == Some(Role::Name(p as int))
            && p < node,
{
    let parent = match tree.parent(node) {
        None => {
            return Some(Place::Alone);
        },
        Some(parent) => parent,
    };
    if tree.kind(parent) != NodeKind::ScopeResolution {
        return Some(Place::Alone);
    }
    let name = match tree.child_by_field(parent, NodeName::Name) {
        Some(name) => name,
        None => {
            return None;
        },
    };
    match tree.child_by_field(parent, NodeName::Scope) {
        Some(scope) => {
            if tree.covers_same(scope, node) {
                return Some(Place::Qualifier(parent));
            }
        },
        None => {},
    }
    if tree.covers_same(name, node) {
        Some(Place::Name(parent))
    } else {
        None
    }
}

fn names_from(tree: &SyntaxTree, node: usize) -> (r: Option<Scope>)
    requires
        tree.wf(),
        tree.has(node as int),
    ensures
        r is Some <==> names_above(tree, node as int) is Some,
        r is Some ==> r->0@ == names_above(tree, node as int)->0,
    decreases node,
{
    if tree.kind(node) != NodeKind::ScopeResolution {
        return Some(Scope::empty());
    }
    let name = match tree.child_by_field(node, NodeName::Name) {
        Some(name) => name,
        None => {
            return None;
        },
    };
    let text = match tree.text(name) {
        Some(text) => text,
        None => {
            return None;
        },
    };
    let first = Scope::from_name(text.as_str());
    match tree.parent(node) {
        Some(parent) => match names_from(tree, parent) {
            Some(rest) => Some(first.followed_by(&rest)),
            None => None,
        },
        None => Some(first),
    }
}

fn own_name(tree: &SyntaxTree, node: usize) -> (r: Scope)
    requires
        tree.has(node as int),
    ensures
        r@ == own_text(tree, node as int),
{
    match tree.text(node) {
        Some(text) => Scope::from_name(text.as_str()),
        None => Scope::empty(),
    }
}

/// The path up to and with the constant that `node` stands for: for `B` in
/// `A::B::C` it is `A::B`, and for `B` in `::A::B` it starts with the reserved
/// segment. The path is empty where `node` is no constant, or where a
/// qualifier to its left is not a constant.
pub fn get_parent_scope_resolution(tree: &SyntaxTree, node: usize) -> (r: Scope)
    requires
        tree.wf(),
        tree.has(node as int),
    ensures
        r@ == parent_scope_resolution(tree, node as int),
{
    let constant = match constant_of(tree, node) {
        Some(constant) => constant,
        None => {
            return Scope::empty();
        },
    };
    match place_of(tree, constant) {
        None => Scope::empty(),
        Some(Place::Alone) => own_name(tree, constant),
        Some(Place::Qualifier(_)) => own_name(tree, constant),
        Some(Place::Name(resolution)) => match spell(tree, resolution) {
            Some(path) => path,
            None => Scope::empty(),
        },
    }
}

/// The path from the constant that `node` stands for to the end: for `B` in
/// `A::B::C` it is `B::C`.
pub fn get_child_scope_resolution(tree: &SyntaxTree, node: usize) -> (r: Scope)
    requires
        tree.wf(),
        tree.has(node as int),
    ensures
        r@ == child_scope_resolution(tree, node as int),
{
    let constant = match constant_of(tree, node) {
        Some(constant) => constant,
        None => {
            return Scope::empty();
        },
    };
    match place_of(tree, constant) {
        None => Scope::empty(),
        Some(Place::Alone) => own_name(tree, constant),
        Some(Place::Qualifier(resolution)) => {
            let text = match tree.text(constant) {
                Some(text) => text,
                None => {
                    return Scope::empty();
                },
            };
            match names_from(tree, resolution) {
                Some(rest) => Scope::from_name(text.as_str()).followed_by(&rest),
                None => Scope::empty(),
            }
        },
        Some(Place::Name(resolution)) => match names_from(tree, resolution) {
            Some(rest) => rest,
            None => Scope::empty(),
        },
    }
}

/// The whole qualified path around the constant that `node` stands for.
pub fn get_full_scope_resolution(tree: &SyntaxTree, node: usize) -> (r: Scope)
    requires
        tree.wf(),
        tree.has(node as int),
    ensures
        r@ == full_scope_resolution(tree, node as int),
{
    let parent = get_parent_scope_resolution(tree, node);
    let child = get_child_scope_resolution(tree, node);
    if child.len() > 0 {
        parent.followed_from(&child, 1)
    } else {
        parent.followed_by(&child)
    }
}

fn climb(tree: &SyntaxTree, node: usize) -> (r: Option<usize>)
    requires
        tree.wf(),
        tree.has(node as int),
    ensures
        r is Some <==> climb_out(tree, node as int) is Some,
        r is Some ==> r->0 as int == climb_out(tree, node as int)->0 && tree.has(r->0 as int),
{
    let mut current = node;
    loop
        invariant
            tree.wf(),
            tree.has(current as int),
            climb_out(tree, node as int) == climb_out(tree, current as int),
        decreases current,
    {
        let kind = tree.kind(current);
        if kind == NodeKind::ScopeResolution {
            match tree.parent(current) {
                Some(parent) => {
                    current = parent;
                },
                None => {
                    return None;
                },
            }
        } else if kind.is_classlike() {
            return tree.parent(current);
        } else {
            return Some(current);
        }
    }
}

/// The declared names of `node` and of what encloses it, from no node at
/// all on.
spec fn enclosing_from(tree: &SyntaxTree, node: Option<usize>) -> Seq<Seq<char>> {
    match node {
        Some(node) => enclosing_path(tree, node as int),
        None => Seq::empty(),
    }
}

/// `base` with the declared names of `classes[from..]` joined onto it, the
/// last of them first: the classes stand innermost first.
spec fn nested_in(
    tree: &SyntaxTree,
    base: Seq<Seq<char>>,
    classes: Seq<usize>,
    from: int,
) -> Seq<Seq<char>>
    decreases classes.len() - from,
{
    if from < 0 || from >= classes.len() {
        base
    } else {
        joined(nested_in(tree, base, classes, from + 1), declared_path(tree, classes[from] as int))
    }
}

/// One more class around the others is one more name around the base.
proof fn lemma_nested_in_push(
    tree: &SyntaxTree,
    base: Seq<Seq<char>>,
    classes: Seq<usize>,
    outer: usize,
    from: int,
)
    requires
        0 <= from <= classes.len(),
    ensures
        nested_in(tree, base, classes.push(outer), from) == nested_in(
            tree,
            joined(base, declared_path(tree, outer as int)),
            classes,
            from,
        ),
    decreases classes.len() - from,
{
    let longer = classes.push(outer);
    let wider = joined(base, declared_path(tree, outer as int));
    if from < classes.len() {
        lemma_nested_in_push(tree, base, classes, outer, from + 1);
        assert(longer[from] == classes[from]);
        assert(nested_in(tree, base, longer, from) == joined(
            nested_in(tree, base, longer, from + 1),
            declared_path(tree, classes[from] as int),
        ));
    } else {
        assert(longer[from] == outer);
        assert(nested_in(tree, base, longer, from + 1) == base);
        assert(nested_in(tree, base, longer, from) == wider);
        assert(nested_in(tree, wider, classes, from) == wider);
    }
}

fn enclosing(tree: &SyntaxTree, node: usize) -> (r: Scope)
    requires
        tree.wf(),
        tree.has(node as int),
    ensures
        r@ == enclosing_path(tree, node as int),
{
    // The classes and modules from `node` upwards, innermost first.
    let mut classes: Vec<usize> = Vec::new();
    let mut current: Option<usize> = Some(node);
    loop
        invariant
            tree.wf(),
            current is Some ==> tree.has(current->0 as int),
            forall|k: int| 0 <= k < classes@.len() ==> tree.has(#[trigger] classes@[k] as int),
            enclosing_path(tree, node as int) == nested_in(
                tree,
                enclosing_from(tree, current),
                classes@,
                0,
            ),
        ensures
            current is None,
        decreases
                match current {
                    Some(at) => at + 1,
                    None => 0,
                },
    {
        let at = match current {
            Some(at) => at,
            None => {
                break;
            },
        };
        let above = tree.parent(at);
        if tree.kind(at).is_classlike() {
            proof {
                lemma_nested_in_push(tree, enclosing_from(tree, above), classes@, at, 0);
            }
            classes.push(at);
        }
        current = above;
    }
    let mut path = Scope::empty();
    let mut k: usize = classes.len();
    assert(nested_in(tree, Seq::empty(), classes@, k as int) == Seq::<Seq<char>>::empty());
    while k > 0
        invariant
            tree.wf(),
            k <= classes@.len(),
            forall|i: int| 0 <= i < classes@.len() ==> tree.has(#[trigger] classes@[i] as int),
            path@ == nested_in(tree, Seq::empty(), classes@, k as int),
        decreases k,
    {
        k -= 1;
        let class = classes[k];
        path = match tree.child_by_field(class, NodeName::Name) {
            Some(name) => path.join(&get_full_scope_resolution(tree, name)),
            None => {
                assert(joined(path@, Seq::empty()) =~= path@);
                path
            },
        };
    }
    path
}

/// The lexical nesting of `node`: the declared names of the classes and
/// modules that enclose it, outermost first. The class or module whose name
/// `node` is part of does not count.
pub fn get_context_scope(tree: &SyntaxTree, node: usize) -> (r: Scope)
    requires
        tree.wf(),
        tree.has(node as int),
    ensures
        r@ == context_scope(tree, node as int),
{
    match tree.parent(node) {
        None => Scope::empty(),
        Some(parent) => match climb(tree, parent) {
            None => Scope::empty(),
            Some(start) => enclosing(tree, start),
        },
    }
}

/// The lexical nesting followed by the qualified path around `node`. An
/// absolute path takes no nesting.
pub fn get_full_and_context_scope(tree: &SyntaxTree, node: usize) -> (r: Scope)
    requires
        tree.wf(),
        tree.has(node as int),
    ensures
        r@ == full_and_context_scope(tree, node as int),
{
    let full = get_full_scope_resolution(tree, node);
    if full.is_global() {
        full
    } else {
        get_context_scope(tree, node).join(&full)
    }
}

} // verus!
