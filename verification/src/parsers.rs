//! From a syntax tree to the symbols that it defines.

use vstd::prelude::*;
use std::sync::Arc;
use crate::kinds::{NodeKind, NodeName};
use crate::scope::{is_absolute, joined, Scope, GLOBAL_SCOPE_VALUE};
use crate::scopes::{
    context_scope, enclosing_path, full_scope_resolution, get_context_scope,
    get_full_scope_resolution,
};
use crate::syntax::{lemma_field_child, SyntaxTree};
use crate::text::{share, str_eq, without_char};
use crate::types::{
    symbol_views, views, KindView, ParamView, RMethodParamKind, RMethodParamV2, RSymbolKind,
    RSymbolV2, SymbolView,
};

verus! {

/// Why a file gives no symbols.
#[derive(Clone, Copy, Debug, PartialEq, Eq, Structural)]
pub enum BuildError {
    /// The node lacks a child that its kind requires.
    MissingChild(usize),
}

/// The enclosing symbol as a mathematical value.
pub open spec fn view_of(parent: Option<Arc<RSymbolV2>>) -> Option<SymbolView> {
    match parent {
        Some(p) => Some((*p)@),
        None => None,
    }
}

pub open spec fn boxed(parent: Option<SymbolView>) -> Option<Box<SymbolView>> {
    match parent {
        Some(p) => Some(Box::new(p)),
        None => None,
    }
}

/// The namespace that a symbol opens for what stands in it.
pub open spec fn namespace(parent: Option<SymbolView>) -> Seq<Seq<char>> {
    match parent {
        Some(p) => p.qualified(),
        None => Seq::empty(),
    }
}

/// The namespace of a method: that of the class or module around it. A method
/// in a method is in no namespace.
pub open spec fn method_namespace(parent: Option<SymbolView>) -> Seq<Seq<char>> {
    match parent {
        Some(p) if p.kind.classlike() => p.qualified(),
        _ => Seq::empty(),
    }
}

/// The parameter that a child of a parameter list declares, if it is of a kind
/// that the index keeps and its name can be read.
pub open spec fn parameter_of(
    file: Seq<char>,
    tree: &SyntaxTree,
    node: int,
) -> Result<Option<ParamView>, BuildError> {
    let kind = tree.kind_of(node);
    if kind == NodeKind::Identifier {
        match tree.text_of(node) {
            Some(name) => Ok(
                Some(
                    ParamView {
                        kind: RMethodParamKind::Regular,
                        file,
                        name,
                        start: tree.nodes[node].info.start,
                        end: tree.nodes[node].info.end,
                    },
                ),
            ),
            None => Ok(None),
        }
    } else if kind == NodeKind::OptionalParameter || kind == NodeKind::KeywordParameter {
        match tree.field_child(node, NodeName::Name) {
            Some(name_node) if tree.has(name_node) => match tree.text_of(name_node) {
                Some(name) => Ok(
                    Some(
                        ParamView {
                            kind: if kind == NodeKind::OptionalParameter {
                                RMethodParamKind::Optional
                            } else {
                                RMethodParamKind::Keyword
                            },
                            file,
                            name,
                            start: tree.nodes[name_node].info.start,
                            end: tree.nodes[name_node].info.end,
                        },
                    ),
                ),
                None => Ok(None),
            },
            _ => Err(BuildError::MissingChild(node as usize)),
        }
    } else {
        Ok(None)
    }
}

/// The parameters that the first `n` of `children` declare, in order.
pub open spec fn parameters_upto(
    file: Seq<char>,
    tree: &SyntaxTree,
    children: Seq<usize>,
    n: int,
) -> Result<Seq<ParamView>, BuildError>
    decreases n,
{
    if n <= 0 {
        Ok(Seq::empty())
    } else {
        match parameters_upto(file, tree, children, n - 1) {
            Err(e) => Err(e),
            Ok(before) => match parameter_of(file, tree, children[n - 1] as int) {
                Err(e) => Err(e),
                Ok(Some(p)) => Ok(before.push(p)),
                Ok(None) => Ok(before),
            },
        }
    }
}

/// The parameters of the method at `node`.
pub open spec fn parameters_of(
    file: Seq<char>,
    tree: &SyntaxTree,
    node: int,
) -> Result<Seq<ParamView>, BuildError> {
    match tree.field_child(node, NodeName::Parameters) {
        Some(list) if tree.has(list) => parameters_upto(
            file,
            tree,
            tree.children_of(list),
            tree.children_of(list).len() as int,
        ),
        _ => Ok(Seq::empty()),
    }
}

/// The symbol of the method at `node`: named by its name token, spanning from
/// there to the end of the method. A method whose name cannot be read has no
/// symbol; one without a name fails the walk.
pub open spec fn method_symbol(
    file: Seq<char>,
    tree: &SyntaxTree,
    node: int,
    parent: Option<SymbolView>,
    singleton: bool,
) -> Result<Option<SymbolView>, BuildError> {
    match tree.field_child(node, NodeName::Name) {
        Some(name_node) if tree.has(name_node) => match tree.text_of(name_node) {
            None => Ok(None),
            Some(name) => match parameters_of(file, tree, node) {
                Err(e) => Err(e),
                Ok(parameters) => Ok(
                    Some(
                        SymbolView {
                            kind: if singleton {
                                KindView::SingletonMethod { parameters }
                            } else {
                                KindView::InstanceMethod { parameters }
                            },
                            name,
                            scope: method_namespace(parent),
                            file,
                            start: tree.nodes[name_node].info.start,
                            end: tree.nodes[node].info.end,
                            parent: boxed(parent),
                        },
                    ),
                ),
            },
        },
        _ => Err(BuildError::MissingChild(node as usize)),
    }
}

/// The constant token that an assignment target holds: the target itself, or
/// the first constant under a splat.
pub open spec fn constant_target(tree: &SyntaxTree, node: int) -> Option<int> {
    if tree.kind_of(node) == NodeKind::Constant {
        Some(node)
    } else if tree.kind_of(node) == NodeKind::RestAssignment {
        tree.first_of_kind(tree.children_of(node), NodeKind::Constant, 0)
    } else {
        None
    }
}

/// The symbol of the constant that the assignment target at `node` defines,
/// if it holds a constant whose name can be read.
pub open spec fn constant_symbol(
    file: Seq<char>,
    tree: &SyntaxTree,
    node: int,
    parent: Option<SymbolView>,
) -> Option<SymbolView> {
    match constant_target(tree, node) {
        Some(target) if tree.has(target) => match tree.text_of(target) {
            Some(name) => Some(
                SymbolView {
                    kind: KindView::Constant,
                    name,
                    scope: namespace(parent),
                    file,
                    start: tree.nodes[target].info.start,
                    end: tree.nodes[target].info.end,
                    parent: boxed(parent),
                },
            ),
            None => None,
        },
        _ => None,
    }
}

/// The constants that the first `n` targets of a multiple assignment define.
pub open spec fn constants_upto(
    file: Seq<char>,
    tree: &SyntaxTree,
    children: Seq<usize>,
    n: int,
    parent: Option<SymbolView>,
) -> Seq<SymbolView>
    decreases n,
{
    if n <= 0 {
        Seq::empty()
    } else {
        let before = constants_upto(file, tree, children, n - 1, parent);
        let child = children[n - 1] as int;
        if tree.nodes[child].info.named {
            match constant_symbol(file, tree, child, parent) {
                Some(c) => before.push(c),
                None => before,
            }
        } else {
            before
        }
    }
}

/// The symbols that the assignment at `node` defines: one for a constant on
/// the left, one for each constant of a list on the left, one for a global
/// variable on the left, none for anything else. An assignment without a
/// left-hand side fails the walk.
pub open spec fn assignment_symbols(
    file: Seq<char>,
    tree: &SyntaxTree,
    node: int,
    parent: Option<SymbolView>,
) -> Result<Seq<SymbolView>, BuildError> {
    match tree.field_child(node, NodeName::Left) {
        Some(lhs) if tree.has(lhs) => {
            let kind = tree.kind_of(lhs);
            if kind == NodeKind::Constant {
                match constant_symbol(file, tree, lhs, parent) {
                    Some(c) => Ok(seq![c]),
                    None => Ok(Seq::empty()),
                }
            } else if kind == NodeKind::LeftAssignmentList {
                Ok(
                    constants_upto(
                        file,
                        tree,
                        tree.children_of(lhs),
                        tree.children_of(lhs).len() as int,
                        parent,
                    ),
                )
            } else if kind == NodeKind::GlobalVariable {
                match tree.text_of(lhs) {
                    Some(name) => Ok(
                        seq![
                            SymbolView {
                                kind: KindView::GlobalVariable,
                                name,
                                scope: Seq::empty(),
                                file,
                                start: tree.nodes[lhs].info.start,
                                end: tree.nodes[lhs].info.end,
                                parent: boxed(parent),
                            },
                        ],
                    ),
                    None => Ok(Seq::empty()),
                }
            } else {
                Ok(Seq::empty())
            }
        },
        _ => Err(BuildError::MissingChild(node as usize)),
    }
}

/// The calls that declare an attribute, an association or a delegation.
pub open spec fn declares_attribute(method: Seq<char>) -> bool {
    ||| method == "attr_accessor"@
    ||| method == "attr_reader"@
    ||| method == "attr_writer"@
    ||| method == "delegate"@
    ||| method == "belongs_to"@
    ||| method == "has_one"@
    ||| method == "has_many"@
}

/// `s` without its colons.
pub open spec fn without_colons(s: Seq<char>) -> Seq<char> {
    s.filter(|c: char| c != ':')
}

/// The symbols that the call at `node` defines: an instance variable named
/// after the first argument of a declaring call, and nothing for any other.
pub open spec fn call_symbols(
    file: Seq<char>,
    tree: &SyntaxTree,
    node: int,
    parent: Option<SymbolView>,
) -> Seq<SymbolView> {
    match (tree.field_child(node, NodeName::Method), tree.field_child(node, NodeName::Arguments)) {
        (Some(method), Some(arguments)) if tree.has(method) && tree.has(arguments) => match (
            tree.text_of(method),
            tree.first_named(tree.children_of(arguments), 0),
        ) {
            (Some(method_name), Some(first)) if declares_attribute(method_name) && tree.has(
                first,
            ) => match tree.text_of(first) {
                Some(text) => seq![
                    SymbolView {
                        kind: KindView::InstanceVariable,
                        name: without_colons(text),
                        scope: namespace(parent),
                        file,
                        start: tree.nodes[first].info.start,
                        end: tree.nodes[first].info.end,
                        parent: boxed(parent),
                    },
                ],
                None => Seq::empty(),
            },
            _ => Seq::empty(),
        },
        _ => Seq::empty(),
    }
}

/// The name and the scope of the class or module whose name is `name_node`.
/// The name is the last segment of what the declaration spells, the scope is
/// the lexical nesting and the segments before the last. Where the
/// declaration spells no path, the name is its text as it stands, if that can
/// be read.
pub open spec fn class_naming(
    tree: &SyntaxTree,
    name_node: int,
) -> Option<(Seq<char>, Seq<Seq<char>>)> {
    let path = full_scope_resolution(tree, name_node);
    if path.len() == 0 {
        match tree.text_of(name_node) {
            Some(name) => Some((name, context_scope(tree, name_node))),
            None => None,
        }
    } else {
        let full = if is_absolute(path) {
            path
        } else {
            joined(context_scope(tree, name_node), path)
        };
        Some((full.last(), full.drop_last()))
    }
}

/// The path of the superclass of the class at `node`, as a reference from
/// inside the class; empty where there is none or it is no constant.
pub open spec fn superclass_of(tree: &SyntaxTree, node: int) -> Seq<Seq<char>> {
    match tree.field_child(node, NodeName::Superclass) {
        Some(clause) if tree.has(clause) => match tree.first_named(tree.children_of(clause), 0) {
            Some(expression) if tree.has(expression) => {
                let path = full_scope_resolution(tree, expression);
                if path.len() == 0 || is_absolute(path) {
                    path
                } else {
                    joined(context_scope(tree, expression), path)
                }
            },
            _ => Seq::empty(),
        },
        _ => Seq::empty(),
    }
}

/// The symbol of the class or module at `node`: it starts at its name and
/// ends where the declaration ends. A class whose name cannot be read has no
/// symbol; one without a name fails the walk.
pub open spec fn class_symbol(
    file: Seq<char>,
    tree: &SyntaxTree,
    node: int,
    parent: Option<SymbolView>,
) -> Result<Option<SymbolView>, BuildError> {
    match tree.field_child(node, NodeName::Name) {
        Some(name_node) if tree.has(name_node) => match class_naming(tree, name_node) {
            None => Ok(None),
            Some((name, scope)) => Ok(
                Some(
                    SymbolView {
                        kind: if tree.kind_of(node) == NodeKind::Class {
                            KindView::Class { superclass_scope: superclass_of(tree, node) }
                        } else {
                            KindView::Module { superclass_scope: superclass_of(tree, node) }
                        },
                        name,
                        scope,
                        file,
                        start: tree.nodes[name_node].info.start,
                        end: tree.nodes[node].info.end,
                        parent: boxed(parent),
                    },
                ),
            ),
        },
        _ => Err(BuildError::MissingChild(node as usize)),
    }
}

/// The symbols that the class or module at `node` defines inside `parent`:
/// those of its body, then itself, so that a symbol stands after all that it
/// encloses. A class without a symbol defines nothing.
pub open spec fn class_symbols(
    file: Seq<char>,
    tree: &SyntaxTree,
    node: int,
    parent: Option<SymbolView>,
) -> Result<Seq<SymbolView>, BuildError>
    decreases tree.nodes.len() - node, 0int,
{
    match class_symbol(file, tree, node, parent) {
        Err(e) => Err(e),
        Ok(None) => Ok(Seq::empty()),
        Ok(Some(symbol)) => match tree.field_child(node, NodeName::Body) {
            Some(body) if node < body < tree.nodes.len() => match symbols_upto(
                file,
                tree,
                body,
                tree.children_of(body).len() as int,
                Some(symbol),
            ) {
                Err(e) => Err(e),
                Ok(inner) => Ok(inner.push(symbol)),
            },
            _ => Ok(seq![symbol]),
        },
    }
}

/// The symbols that `node` defines inside `parent`. A node that lacks a child
/// that its kind requires fails the whole walk. A node of a kind that the
/// index does not know, or with a name that cannot be read, defines nothing.
pub open spec fn symbols_of(
    file: Seq<char>,
    tree: &SyntaxTree,
    node: int,
    parent: Option<SymbolView>,
) -> Result<Seq<SymbolView>, BuildError>
    decreases tree.nodes.len() - node, 1int,
{
    if !tree.has(node) {
        Ok(Seq::empty())
    } else {
        match tree.kind_of(node) {
            NodeKind::Class | NodeKind::Module => class_symbols(file, tree, node, parent),
            NodeKind::Method => match method_symbol(file, tree, node, parent, false) {
                Err(e) => Err(e),
                Ok(Some(symbol)) => Ok(seq![symbol]),
                Ok(None) => Ok(Seq::empty()),
            },
            NodeKind::SingletonMethod => match method_symbol(file, tree, node, parent, true) {
                Err(e) => Err(e),
                Ok(Some(symbol)) => Ok(seq![symbol]),
                Ok(None) => Ok(Seq::empty()),
            },
            NodeKind::Assignment => assignment_symbols(file, tree, node, parent),
            NodeKind::Call => Ok(call_symbols(file, tree, node, parent)),
            _ => Ok(Seq::empty()),
        }
    }
}

/// The symbols that the first `n` children of `holder` define inside
/// `parent`, in source order.
pub open spec fn symbols_upto(
    file: Seq<char>,
    tree: &SyntaxTree,
    holder: int,
    n: int,
    parent: Option<SymbolView>,
) -> Result<Seq<SymbolView>, BuildError>
    decreases tree.nodes.len() - holder, n,
{
    if n <= 0 || !tree.has(holder) {
        Ok(Seq::empty())
    } else {
        match symbols_upto(file, tree, holder, n - 1, parent) {
            Err(e) => Err(e),
            Ok(before) => {
                let child = tree.children_of(holder)[n - 1] as int;
                if holder < child < tree.nodes.len() {
                    match symbols_of(file, tree, child, parent) {
                        Err(e) => Err(e),
                        Ok(more) => Ok(before + more),
                    }
                } else {
                    Ok(before)
                }
            },
        }
    }
}

/// The symbols that a file defines: those of the statements at its top level.
pub open spec fn file_symbols(
    file: Seq<char>,
    tree: &SyntaxTree,
) -> Result<Seq<SymbolView>, BuildError> {
    if tree.kind_of(0) == NodeKind::Program {
        symbols_upto(file, tree, 0, tree.children_of(0).len() as int, None)
    } else {
        symbols_of(file, tree, 0, None)
    }
}

/// `got` is the one symbol that `wanted` describes, if it describes one, or
/// fails as it does.
pub open spec fn gives_symbol(
    got: Result<Option<RSymbolV2>, BuildError>,
    wanted: Result<Option<SymbolView>, BuildError>,
) -> bool {
    match wanted {
        Ok(Some(symbol)) => got is Ok && got->Ok_0 is Some && got->Ok_0->0@ == symbol,
        Ok(None) => got is Ok && got->Ok_0 is None,
        Err(e) => got is Err && got->Err_0 == e,
    }
}

/// `got` holds the symbols that `wanted` describes, or fails as it does.
pub open spec fn gives_symbols(
    got: Result<Vec<Arc<RSymbolV2>>, BuildError>,
    wanted: Result<Seq<SymbolView>, BuildError>,
) -> bool {
    match wanted {
        Ok(symbols) => got is Ok && views(got->Ok_0@) == symbols,
        Err(e) => got is Err && got->Err_0 == e,
    }
}

fn namespace_in(parent: &Option<Arc<RSymbolV2>>) -> (r: Scope)
    ensures
        r@ == namespace(view_of(*parent)),
{
    match parent {
        Some(p) => p.qualified_name(),
        None => Scope::empty(),
    }
}

fn method_namespace_in(parent: &Option<Arc<RSymbolV2>>) -> (r: Scope)
    ensures
        r@ == method_namespace(view_of(*parent)),
{
    match parent {
        Some(p) => if p.kind.is_classlike() {
            p.qualified_name()
        } else {
            Scope::empty()
        },
        None => Scope::empty(),
    }
}

fn parse_parameter(
    file: &str,
    tree: &SyntaxTree,
    node: usize,
) -> (r: Result<Option<RMethodParamV2>, BuildError>)
    requires
        tree.wf(),
        tree.has(node as int),
    ensures
        match parameter_of(file@, tree, node as int) {
            Ok(Some(p)) => r is Ok && r->Ok_0 is Some && r->Ok_0->0@ == p,
            Ok(None) => r is Ok && r->Ok_0 is None,
            Err(e) => r is Err && r->Err_0 == e,
        },
{
    let kind = tree.kind(node);
    let (name_node, kind) = match kind {
        NodeKind::Identifier => (node, RMethodParamKind::Regular),
        NodeKind::OptionalParameter | NodeKind::KeywordParameter => {
            let name_node = match tree.child_by_field(node, NodeName::Name) {
                Some(name_node) => name_node,
                None => {
                    return Err(BuildError::MissingChild(node));
                },
            };
            if kind == NodeKind::OptionalParameter {
                (name_node, RMethodParamKind::Optional)
            } else {
                (name_node, RMethodParamKind::Keyword)
            }
        },
        _ => {
            return Ok(None);
        },
    };
    match tree.text(name_node) {
        Some(name) => Ok(
            Some(
                RMethodParamV2 {
                    kind,
                    file: file.to_owned(),
                    name,
                    start: tree.start(name_node),
                    end: tree.end(name_node),
                },
            ),
        ),
        None => Ok(None),
    }
}

fn parse_parameters(
    file: &str,
    tree: &SyntaxTree,
    node: usize,
) -> (r: Result<Vec<RMethodParamV2>, BuildError>)
    requires
        tree.wf(),
        tree.has(node as int),
    ensures
        match parameters_of(file@, tree, node as int) {
            Ok(parameters) => r is Ok && crate::types::param_views(r->Ok_0@) == parameters,
            Err(e) => r is Err && r->Err_0 == e,
        },
{
    let mut parameters: Vec<RMethodParamV2> = Vec::new();
    let list = match tree.child_by_field(node, NodeName::Parameters) {
        Some(list) => list,
        None => {
            assert(crate::types::param_views(parameters@) =~= Seq::empty());
            return Ok(parameters);
        },
    };
    let children = tree.children(list);
    let mut k: usize = 0;
    assert(crate::types::param_views(parameters@) =~= Seq::empty());
    while k < children.len()
        invariant
            tree.wf(),
            k <= children.len(),
            tree.has(list as int),
            tree.field_child(node as int, NodeName::Parameters) == Some(list as int),
            children@ == tree.children_of(list as int),
            forall|i: int| 0 <= i < children@.len() ==> #[trigger] children@[i] < tree.nodes.len(),
            parameters_upto(file@, tree, children@, k as int) == Ok::<Seq<ParamView>, BuildError>(
                crate::types::param_views(parameters@),
            ),
        decreases children.len() - k,
    {
        let child = children[k];
        let ghost before = parameters@;
        match parse_parameter(file, tree, child) {
            Err(e) => {
                assert(parameters_upto(file@, tree, children@, k + 1) == Err::<
                    Seq<ParamView>,
                    BuildError,
                >(e));
                proof {
                    lemma_parameters_fail_on(file@, tree, children@, k + 1, children@.len() as int);
                }
                return Err(e);
            },
            Ok(Some(p)) => {
                parameters.push(p);
                assert(crate::types::param_views(parameters@) =~= crate::types::param_views(
                    before,
                ).push(p@));
            },
            Ok(None) => {},
        }
        k += 1;
    }
    Ok(parameters)
}

/// Once a prefix of the parameter list fails, the whole list fails the same way.
proof fn lemma_parameters_fail_on(
    file: Seq<char>,
    tree: &SyntaxTree,
    children: Seq<usize>,
    k: int,
    n: int,
)
    requires
        0 <= k <= n,
        parameters_upto(file, tree, children, k) is Err,
    ensures
        parameters_upto(file, tree, children, n) == parameters_upto(file, tree, children, k),
    decreases n - k,
{
    if k < n {
        lemma_parameters_fail_on(file, tree, children, k, n - 1);
    }
}

fn method_at(
    file: &str,
    tree: &SyntaxTree,
    node: usize,
    parent: Option<Arc<RSymbolV2>>,
    singleton: bool,
) -> (r: Result<Option<RSymbolV2>, BuildError>)
    requires
        tree.wf(),
        tree.has(node as int),
    ensures
        gives_symbol(r, method_symbol(file@, tree, node as int, view_of(parent), singleton)),
{
    let name_node = match tree.child_by_field(node, NodeName::Name) {
        Some(name_node) => name_node,
        None => {
            return Err(BuildError::MissingChild(node));
        },
    };
    let name = match tree.text(name_node) {
        Some(name) => name,
        None => {
            return Ok(None);
        },
    };
    let parameters = parse_parameters(file, tree, node)?;
    let scope = method_namespace_in(&parent);
    let kind = if singleton {
        RSymbolKind::SingletonMethod { parameters }
    } else {
        RSymbolKind::InstanceMethod { parameters }
    };
    Ok(
        Some(
            RSymbolV2 {
                kind,
                name,
                scope,
                file: file.to_owned(),
                start: tree.start(name_node),
                end: tree.end(node),
                parent,
            },
        ),
    )
}

/// The symbol of the method at `node`, defined inside `parent`. Its scope is
/// the qualified name of `parent` where that is a class or module. A method
/// whose name cannot be read has no symbol.
pub fn parse_method(
    file: &str,
    tree: &SyntaxTree,
    node: usize,
    parent: Option<Arc<RSymbolV2>>,
) -> (r: Result<Option<RSymbolV2>, BuildError>)
    requires
        tree.wf(),
        tree.has(node as int),
    ensures
        gives_symbol(r, method_symbol(file@, tree, node as int, view_of(parent), false)),
{
    method_at(file, tree, node, parent, false)
}

/// The symbol of the singleton method at `node`, defined inside `parent`.
pub fn parse_singleton_method(
    file: &str,
    tree: &SyntaxTree,
    node: usize,
    parent: Option<Arc<RSymbolV2>>,
) -> (r: Result<Option<RSymbolV2>, BuildError>)
    requires
        tree.wf(),
        tree.has(node as int),
    ensures
        gives_symbol(r, method_symbol(file@, tree, node as int, view_of(parent), true)),
{
    method_at(file, tree, node, parent, true)
}

/// `got` holds the symbols that `wanted` describes, or fails as it does.
pub open spec fn gives_plain_symbols(
    got: Result<Vec<RSymbolV2>, BuildError>,
    wanted: Result<Seq<SymbolView>, BuildError>,
) -> bool {
    match wanted {
        Ok(symbols) => got is Ok && symbol_views(got->Ok_0@) == symbols,
        Err(e) => got is Err && got->Err_0 == e,
    }
}

fn share_parent(parent: &Option<Arc<RSymbolV2>>) -> (r: Option<Arc<RSymbolV2>>)
    ensures
        r == *parent,
{
    match parent {
        Some(p) => Some(share(p)),
        None => None,
    }
}

/// The symbol of the constant that the assignment target at `node` defines, if
/// it defines one: the target is a constant, or a splat over one.
pub fn parse_constant(
    file: &str,
    tree: &SyntaxTree,
    node: usize,
    parent: Option<Arc<RSymbolV2>>,
) -> (r: Option<RSymbolV2>)
    requires
        tree.wf(),
        tree.has(node as int),
    ensures
        match constant_symbol(file@, tree, node as int, view_of(parent)) {
            Some(symbol) => r is Some && r->0@ == symbol,
            None => r is None,
        },
{
    let target = match tree.kind(node) {
        NodeKind::Constant => node,
        NodeKind::RestAssignment => match tree.first_child_of_kind(node, NodeKind::Constant) {
            Some(target) => target,
            None => {
                return None;
            },
        },
        _ => {
            return None;
        },
    };
    let name = match tree.text(target) {
        Some(name) => name,
        None => {
            return None;
        },
    };
    let scope = namespace_in(&parent);
    Some(
        RSymbolV2 {
            kind: RSymbolKind::Constant,
            name,
            scope,
            file: file.to_owned(),
            start: tree.start(target),
            end: tree.end(target),
            parent,
        },
    )
}

/// The symbols that the assignment at `node` defines: one for a constant on
/// the left, one for each constant of a list on the left, one for a global
/// variable on the left. Any other left-hand side defines nothing.
pub fn parse_assignment(
    file: &str,
    tree: &SyntaxTree,
    node: usize,
    parent: Option<Arc<RSymbolV2>>,
) -> (r: Result<Vec<RSymbolV2>, BuildError>)
    requires
        tree.wf(),
        tree.has(node as int),
    ensures
        gives_plain_symbols(r, assignment_symbols(file@, tree, node as int, view_of(parent))),
{
    let lhs = match tree.child_by_field(node, NodeName::Left) {
        Some(lhs) => lhs,
        None => {
            return Err(BuildError::MissingChild(node));
        },
    };
    let mut symbols: Vec<RSymbolV2> = Vec::new();
    assert(symbol_views(symbols@) =~= Seq::empty());
    match tree.kind(lhs) {
        NodeKind::Constant => {
            match parse_constant(file, tree, lhs, parent) {
                Some(constant) => {
                    symbols.push(constant);
                    assert(symbol_views(symbols@) =~= seq![constant@]);
                },
                None => {},
            }
        },
        NodeKind::LeftAssignmentList => {
            let children = tree.children(lhs);
            let mut k: usize = 0;
            while k < children.len()
                invariant
                    tree.wf(),
                    k <= children.len(),
                    children@ == tree.children_of(lhs as int),
                    forall|i: int|
                        0 <= i < children@.len() ==> #[trigger] children@[i] < tree.nodes.len(),
                    constants_upto(file@, tree, children@, k as int, view_of(parent))
                        == symbol_views(symbols@),
                decreases children.len() - k,
            {
                let child = children[k];
                let ghost before = symbols@;
                if tree.is_named(child) {
                    match parse_constant(file, tree, child, share_parent(&parent)) {
                        Some(constant) => {
                            symbols.push(constant);
                            assert(symbol_views(symbols@) =~= symbol_views(before).push(
                                constant@,
                            ));
                        },
                        None => {},
                    }
                }
                k += 1;
            }
        },
        NodeKind::GlobalVariable => {
            match tree.text(lhs) {
                Some(name) => {
                    let variable = RSymbolV2 {
                        kind: RSymbolKind::GlobalVariable,
                        name,
                        scope: Scope::empty(),
                        file: file.to_owned(),
                        start: tree.start(lhs),
                        end: tree.end(lhs),
                        parent,
                    };
                    symbols.push(variable);
                    assert(symbol_views(symbols@) =~= seq![variable@]);
                },
                None => {},
            }
        },
        _ => {},
    }
    Ok(symbols)
}

fn is_declaring_call(method: &str) -> (r: bool)
    ensures
        r == declares_attribute(method@),
{
    str_eq(method, "attr_accessor") || str_eq(method, "attr_reader") || str_eq(
        method,
        "attr_writer",
    ) || str_eq(method, "delegate") || str_eq(method, "belongs_to") || str_eq(method, "has_one")
        || str_eq(method, "has_many")
}

/// The symbols that the call at `node` defines. A call of `attr_accessor`,
/// `attr_reader`, `attr_writer`, `delegate`, `belongs_to`, `has_one` or
/// `has_many` defines an instance variable named after its first argument,
/// without colons, in the namespace of `parent`. Any other call defines
/// nothing.
pub fn parse_call(
    tree: &SyntaxTree,
    node: usize,
    file: &str,
    parent: Option<Arc<RSymbolV2>>,
) -> (r: Vec<Arc<RSymbolV2>>)
    requires
        tree.wf(),
        tree.has(node as int),
    ensures
        views(r@) == call_symbols(file@, tree, node as int, view_of(parent)),
{
    let mut symbols: Vec<Arc<RSymbolV2>> = Vec::new();
    assert(views(symbols@) =~= Seq::empty());
    let method = match tree.child_by_field(node, NodeName::Method) {
        Some(method) => method,
        None => {
            return symbols;
        },
    };
    let arguments = match tree.child_by_field(node, NodeName::Arguments) {
        Some(arguments) => arguments,
        None => {
            return symbols;
        },
    };
    let declaring = match tree.text(method) {
        Some(method_name) => is_declaring_call(method_name.as_str()),
        None => false,
    };
    if !declaring {
        return symbols;
    }
    let first = match tree.first_named_child(arguments) {
        Some(first) => first,
        None => {
            return symbols;
        },
    };
    let text = match tree.text(first) {
        Some(text) => text,
        None => {
            return symbols;
        },
    };
    let scope = namespace_in(&parent);
    let symbol = RSymbolV2 {
        kind: RSymbolKind::InstanceVariable,
        name: without_char(text.as_str(), ':'),
        scope,
        file: file.to_owned(),
        start: tree.start(first),
        end: tree.end(first),
        parent,
    };
    symbols.push(Arc::new(symbol));
    assert(views(symbols@) =~= seq![symbol@]);
    symbols
}

fn class_name_and_scope(tree: &SyntaxTree, name_node: usize) -> (r: Option<(String, Scope)>)
    requires
        tree.wf(),
        tree.has(name_node as int),
    ensures
        match class_naming(tree, name_node as int) {
            Some((name, scope)) => r is Some && (r->0).0@ == name && (r->0).1@ == scope,
            None => r is None,
        },
{
    let path = get_full_scope_resolution(tree, name_node);
    if path.len() == 0 {
        return match tree.text(name_node) {
            Some(name) => Some((name, get_context_scope(tree, name_node))),
            None => None,
        };
    }
    let full = if path.is_global() {
        path
    } else {
        get_context_scope(tree, name_node).join(&path)
    };
    let name = match full.last() {
        Some(name) => name.to_owned(),
        None => String::new(),
    };
    Some((name, full.without_last()))
}

fn superclass_in(tree: &SyntaxTree, node: usize) -> (r: Scope)
    requires
        tree.wf(),
        tree.has(node as int),
    ensures
        r@ == superclass_of(tree, node as int),
{
    let clause = match tree.child_by_field(node, NodeName::Superclass) {
        Some(clause) => clause,
        None => {
            return Scope::empty();
        },
    };
    let expression = match tree.first_named_child(clause) {
        Some(expression) => expression,
        None => {
            return Scope::empty();
        },
    };
    let path = get_full_scope_resolution(tree, expression);
    if path.len() == 0 || path.is_global() {
        path
    } else {
        get_context_scope(tree, expression).join(&path)
    }
}

fn class_at(
    file: &str,
    tree: &SyntaxTree,
    node: usize,
    parent: Option<Arc<RSymbolV2>>,
) -> (r: Result<Option<RSymbolV2>, BuildError>)
    requires
        tree.wf(),
        tree.has(node as int),
    ensures
        gives_symbol(r, class_symbol(file@, tree, node as int, view_of(parent))),
{
    let name_node = match tree.child_by_field(node, NodeName::Name) {
        Some(name_node) => name_node,
        None => {
            return Err(BuildError::MissingChild(node));
        },
    };
    let (name, scope) = match class_name_and_scope(tree, name_node) {
        Some(naming) => naming,
        None => {
            return Ok(None);
        },
    };
    let superclass_scope = superclass_in(tree, node);
    let kind = if tree.kind(node) == NodeKind::Class {
        RSymbolKind::Class { superclass_scope }
    } else {
        RSymbolKind::Module { superclass_scope }
    };
    Ok(
        Some(
            RSymbolV2 {
                kind,
                name,
                scope,
                file: file.to_owned(),
                start: tree.start(name_node),
                end: tree.end(node),
                parent,
            },
        ),
    )
}

/// Once the first children of a node fail, all of them fail the same way.
proof fn lemma_symbols_fail_on(
    file: Seq<char>,
    tree: &SyntaxTree,
    holder: int,
    k: int,
    n: int,
    parent: Option<SymbolView>,
)
    requires
        0 <= k <= n,
        symbols_upto(file, tree, holder, k, parent) is Err,
    ensures
        symbols_upto(file, tree, holder, n, parent) == symbols_upto(file, tree, holder, k, parent),
    decreases n - k,
{
    if k < n {
        lemma_symbols_fail_on(file, tree, holder, k, n - 1, parent);
    }
}

/// The symbols that the children of `holder` define inside `parent`, in
/// source order.
fn parse_children(
    file: &str,
    tree: &SyntaxTree,
    holder: usize,
    parent: Option<Arc<RSymbolV2>>,
) -> (r: Result<Vec<Arc<RSymbolV2>>, BuildError>)
    requires
        tree.wf(),
        tree.has(holder as int),
    ensures
        gives_symbols(
            r,
            symbols_upto(
                file@,
                tree,
                holder as int,
                tree.children_of(holder as int).len() as int,
                view_of(parent),
            ),
        ),
    decreases tree.nodes.len() - holder, 2int,
{
    let mut symbols: Vec<Arc<RSymbolV2>> = Vec::new();
    let children = tree.children(holder);
    let mut k: usize = 0;
    assert(views(symbols@) =~= Seq::empty());
    while k < children.len()
        invariant
            tree.wf(),
            tree.has(holder as int),
            k <= children.len(),
            children@ == tree.children_of(holder as int),
            forall|i: int|
                0 <= i < children@.len() ==> holder < #[trigger] children@[i] < tree.nodes.len(),
            symbols_upto(file@, tree, holder as int, k as int, view_of(parent)) == Ok::<
                Seq<SymbolView>,
                BuildError,
            >(views(symbols@)),
        decreases children.len() - k,
    {
        let child = children[k];
        let ghost before = symbols@;
        match parse(file, tree, child, share_parent(&parent)) {
            Err(e) => {
                assert(symbols_upto(file@, tree, holder as int, k + 1, view_of(parent)) == Err::<
                    Seq<SymbolView>,
                    BuildError,
                >(e));
                proof {
                    lemma_symbols_fail_on(
                        file@,
                        tree,
                        holder as int,
                        k + 1,
                        children@.len() as int,
                        view_of(parent),
                    );
                }
                return Err(e);
            },
            Ok(mut more) => {
                let ghost added = more@;
                symbols.append(&mut more);
                assert(views(symbols@) =~= views(before) + views(added));
            },
        }
        k += 1;
    }
    Ok(symbols)
}

/// The symbols that the class or module at `node` defines inside `parent`:
/// those of the statements of its body, with the class as their parent, and
/// then the class itself.
pub fn parse_class(
    file: &str,
    tree: &SyntaxTree,
    node: usize,
    parent: Option<Arc<RSymbolV2>>,
) -> (r: Result<Vec<Arc<RSymbolV2>>, BuildError>)
    requires
        tree.wf(),
        tree.has(node as int),
    ensures
        gives_symbols(r, class_symbols(file@, tree, node as int, view_of(parent))),
    decreases tree.nodes.len() - node, 0int,
{
    let symbol = match class_at(file, tree, node, parent)? {
        Some(symbol) => Arc::new(symbol),
        None => {
            let none: Vec<Arc<RSymbolV2>> = Vec::new();
            assert(views(none@) =~= Seq::empty());
            return Ok(none);
        },
    };
    let mut symbols: Vec<Arc<RSymbolV2>> = match tree.child_by_field(node, NodeName::Body) {
        Some(body) => {
            assert(view_of(Some(symbol)) == Some((*symbol)@));
            parse_children(file, tree, body, Some(share(&symbol)))?
        },
        None => {
            let none: Vec<Arc<RSymbolV2>> = Vec::new();
            assert(views(none@) =~= Seq::empty());
            none
        },
    };
    let ghost inner = symbols@;
    symbols.push(symbol);
    assert(views(symbols@) =~= views(inner).push((*symbol)@));
    assert(views(inner).len() == 0 ==> views(inner).push((*symbol)@) =~= seq![(*symbol)@]);
    Ok(symbols)
}

/// The list of the one symbol, or of none.
fn one_or_none(symbol: Option<RSymbolV2>) -> (r: Vec<Arc<RSymbolV2>>)
    ensures
        match symbol {
            Some(symbol) => views(r@) == seq![symbol@],
            None => views(r@) == Seq::<SymbolView>::empty(),
        },
{
    let mut symbols: Vec<Arc<RSymbolV2>> = Vec::new();
    assert(views(symbols@) =~= Seq::<SymbolView>::empty());
    match symbol {
        Some(symbol) => {
            symbols.push(Arc::new(symbol));
            assert(views(symbols@) =~= seq![symbol@]);
        },
        None => {},
    }
    symbols
}

/// The symbols of `plain`, in their order, each behind a shared handle.
fn shared(plain: Vec<RSymbolV2>) -> (r: Vec<Arc<RSymbolV2>>)
    ensures
        views(r@) == symbol_views(plain@),
{
    let ghost wanted = symbol_views(plain@);
    let mut plain = plain;
    // Taken from the end, then put back in order.
    let mut reversed: Vec<Arc<RSymbolV2>> = Vec::new();
    while plain.len() > 0
        invariant
            symbol_views(plain@) + views(reversed@).reverse() =~= wanted,
        decreases plain.len(),
    {
        let ghost before = plain@;
        let ghost done = reversed@;
        match plain.pop() {
            Some(symbol) => {
                reversed.push(Arc::new(symbol));
                assert(views(reversed@).reverse() =~= seq![symbol@] + views(done).reverse());
                assert(symbol_views(before) =~= symbol_views(plain@).push(symbol@));
            },
            None => {},
        }
    }
    let mut symbols: Vec<Arc<RSymbolV2>> = Vec::new();
    assert(views(symbols@) =~= Seq::empty());
    while reversed.len() > 0
        invariant
            views(symbols@) + views(reversed@).reverse() =~= wanted,
        decreases reversed.len(),
    {
        let ghost before = reversed@;
        let ghost done = symbols@;
        match reversed.pop() {
            Some(symbol) => {
                symbols.push(symbol);
                assert(views(before).reverse() =~= seq![(*symbol)@] + views(reversed@).reverse());
                assert(views(symbols@) =~= views(done).push((*symbol)@));
            },
            None => {},
        }
    }
    assert(views(symbols@) =~= wanted);
    symbols
}

/// The symbols that `node` defines inside `parent`.
pub fn parse(
    file: &str,
    tree: &SyntaxTree,
    node: usize,
    parent: Option<Arc<RSymbolV2>>,
) -> (r: Result<Vec<Arc<RSymbolV2>>, BuildError>)
    requires
        tree.wf(),
        tree.has(node as int),
    ensures
        gives_symbols(r, symbols_of(file@, tree, node as int, view_of(parent))),
    decreases tree.nodes.len() - node, 1int,
{
    match tree.kind(node) {
        NodeKind::Class | NodeKind::Module => parse_class(file, tree, node, parent),
        NodeKind::Method => Ok(one_or_none(parse_method(file, tree, node, parent)?)),
        NodeKind::SingletonMethod => Ok(
            one_or_none(parse_singleton_method(file, tree, node, parent)?),
        ),
        NodeKind::Assignment => {
            let plain = parse_assignment(file, tree, node, parent)?;
            Ok(shared(plain))
        },
        NodeKind::Call => Ok(parse_call(tree, node, file, parent)),
        _ => Ok(one_or_none(None)),
    }
}

/// The symbols that a file defines: those of the statements at its top level,
/// in source order, each class or module after what it encloses.
pub fn index_file(file: &str, tree: &SyntaxTree) -> (r: Result<Vec<Arc<RSymbolV2>>, BuildError>)
    requires
        tree.wf(),
    ensures
        gives_symbols(r, file_symbols(file@, tree)),
{
    if tree.kind(0) == NodeKind::Program {
        parse_children(file, tree, 0, None)
    } else {
        parse(file, tree, 0, None)
    }
}

/// Every symbol of `symbols` is defined in `file`.
pub open spec fn all_in_file(
    symbols: Result<Seq<SymbolView>, BuildError>,
    file: Seq<char>,
) -> bool {
    symbols matches Ok(s) ==> forall|i: int| 0 <= i < s.len() ==> (#[trigger] s[i]).file == file
}

proof fn lemma_constants_in_file(
    file: Seq<char>,
    tree: &SyntaxTree,
    children: Seq<usize>,
    n: int,
    parent: Option<SymbolView>,
)
    ensures
        all_in_file(
            Ok::<Seq<SymbolView>, BuildError>(constants_upto(file, tree, children, n, parent)),
            file,
        ),
    decreases n,
{
    if n > 0 {
        lemma_constants_in_file(file, tree, children, n - 1, parent);
    }
}

/// The symbols that a node defines all carry the name of the file that is
/// being indexed.
pub proof fn lemma_symbols_in_file(
    file: Seq<char>,
    tree: &SyntaxTree,
    node: int,
    parent: Option<SymbolView>,
)
    ensures
        all_in_file(symbols_of(file, tree, node, parent), file),
    decreases tree.nodes.len() - node, 1int,
{
    if tree.has(node) {
        match tree.kind_of(node) {
            NodeKind::Class | NodeKind::Module => {
                lemma_class_in_file(file, tree, node, parent);
            },
            NodeKind::Assignment => {
                match tree.field_child(node, NodeName::Left) {
                    Some(lhs) => {
                        lemma_constants_in_file(
                            file,
                            tree,
                            tree.children_of(lhs),
                            tree.children_of(lhs).len() as int,
                            parent,
                        );
                    },
                    None => {},
                }
            },
            _ => {},
        }
    }
}

proof fn lemma_class_in_file(
    file: Seq<char>,
    tree: &SyntaxTree,
    node: int,
    parent: Option<SymbolView>,
)
    ensures
        all_in_file(class_symbols(file, tree, node, parent), file),
    decreases tree.nodes.len() - node, 0int,
{
    match class_symbol(file, tree, node, parent) {
        Ok(Some(symbol)) => match tree.field_child(node, NodeName::Body) {
            Some(body) if node < body < tree.nodes.len() => {
                lemma_children_in_file(
                    file,
                    tree,
                    body,
                    tree.children_of(body).len() as int,
                    Some(symbol),
                );
            },
            _ => {},
        },
        _ => {},
    }
}

/// The symbols that the children of a node define all carry the name of the
/// file that is being indexed.
pub proof fn lemma_children_in_file(
    file: Seq<char>,
    tree: &SyntaxTree,
    holder: int,
    n: int,
    parent: Option<SymbolView>,
)
    ensures
        all_in_file(symbols_upto(file, tree, holder, n, parent), file),
    decreases tree.nodes.len() - holder, n,
{
    if n > 0 && tree.has(holder) {
        lemma_children_in_file(file, tree, holder, n - 1, parent);
        let child = tree.children_of(holder)[n - 1] as int;
        if holder < child < tree.nodes.len() {
            lemma_symbols_in_file(file, tree, child, parent);
        }
    }
}

/// The symbols of a file all carry its name.
pub proof fn lemma_file_symbols_in_file(file: Seq<char>, tree: &SyntaxTree)
    ensures
        all_in_file(file_symbols(file, tree), file),
{
    lemma_children_in_file(file, tree, 0, tree.children_of(0).len() as int, None);
    lemma_symbols_in_file(file, tree, 0, None);
}

/// The class or module at `node` is declared with a plain name, a constant
/// without `::`, and its body is no class or module itself.
pub open spec fn plainly_named(tree: &SyntaxTree, node: int) -> bool {
    &&& match tree.field_child(node, NodeName::Name) {
        Some(name) => {
            &&& tree.kind_of(name) == NodeKind::Constant
            &&& tree.text_of(name) != Some(GLOBAL_SCOPE_VALUE@)
        },
        None => true,
    }
    &&& match tree.field_child(node, NodeName::Body) {
        Some(body) => !tree.kind_of(body).classlike(),
        None => true,
    }
}

/// Every class and module of the tree is declared with a plain name.
pub open spec fn plainly_declared(tree: &SyntaxTree) -> bool {
    forall|node: int|
        tree.has(node) && tree.kind_of(node).classlike() ==> #[trigger] plainly_named(tree, node)
}

/// The names of the classes and modules around what stands in `parent`.
pub open spec fn lineage_of(parent: Option<SymbolView>) -> Seq<Seq<char>> {
    match parent {
        Some(p) => p.lineage(),
        None => Seq::empty(),
    }
}

/// The declared names of the classes and modules around `node`.
pub open spec fn nesting_of(tree: &SyntaxTree, node: int) -> Seq<Seq<char>> {
    match tree.parent_of(node) {
        Some(parent) => enclosing_path(tree, parent),
        None => Seq::empty(),
    }
}

/// The qualified name of each class and module among `symbols` is its
/// lineage.
pub open spec fn named_by_lineage(symbols: Result<Seq<SymbolView>, BuildError>) -> bool {
    symbols matches Ok(s) ==> forall|i: int|
        0 <= i < s.len() && (#[trigger] s[i]).kind.classlike() ==> s[i].qualified() == s[i].lineage()
}

proof fn lemma_constants_are_no_classes(
    file: Seq<char>,
    tree: &SyntaxTree,
    children: Seq<usize>,
    n: int,
    parent: Option<SymbolView>,
)
    ensures
        named_by_lineage(
            Ok::<Seq<SymbolView>, BuildError>(constants_upto(file, tree, children, n, parent)),
        ),
    decreases n,
{
    if n > 0 {
        lemma_constants_are_no_classes(file, tree, children, n - 1, parent);
    }
}

proof fn lemma_class_named_by_lineage(
    file: Seq<char>,
    tree: &SyntaxTree,
    node: int,
    parent: Option<SymbolView>,
)
    requires
        tree.wf(),
        plainly_declared(tree),
        tree.has(node),
        tree.kind_of(node).classlike(),
        nesting_of(tree, node) == lineage_of(parent),
    ensures
        named_by_lineage(class_symbols(file, tree, node, parent)),
    decreases tree.nodes.len() - node, 0int,
{
    lemma_field_child(tree, node, NodeName::Name);
    lemma_field_child(tree, node, NodeName::Body);
    assert(plainly_named(tree, node));
    match class_symbol(file, tree, node, parent) {
        Err(_) => {},
        Ok(None) => {},
        Ok(Some(symbol)) => {
            let name = tree.field_child(node, NodeName::Name)->0;
            let text = tree.text_of(name)->0;
            let nesting = nesting_of(tree, node);
            assert(full_scope_resolution(tree, name) =~= seq![text]);
            assert(context_scope(tree, name) == nesting);
            assert(joined(nesting, seq![text]) =~= nesting.push(text));
            assert(symbol.name == text);
            assert(symbol.scope =~= nesting);
            assert(symbol.qualified() == symbol.lineage());
            match tree.field_child(node, NodeName::Body) {
                Some(body) if node < body < tree.nodes.len() => {
                    assert(enclosing_path(tree, node) == joined(nesting, seq![text]));
                    assert(enclosing_path(tree, body) == symbol.lineage());
                    lemma_children_named_by_lineage(
                        file,
                        tree,
                        body,
                        tree.children_of(body).len() as int,
                        Some(symbol),
                    );
                },
                _ => {},
            }
        },
    }
}

proof fn lemma_symbols_named_by_lineage(
    file: Seq<char>,
    tree: &SyntaxTree,
    node: int,
    parent: Option<SymbolView>,
)
    requires
        tree.wf(),
        plainly_declared(tree),
        nesting_of(tree, node) == lineage_of(parent),
    ensures
        named_by_lineage(symbols_of(file, tree, node, parent)),
    decreases tree.nodes.len() - node, 1int,
{
    if tree.has(node) {
        match tree.kind_of(node) {
            NodeKind::Class | NodeKind::Module => {
                lemma_class_named_by_lineage(file, tree, node, parent);
            },
            NodeKind::Assignment => {
                match tree.field_child(node, NodeName::Left) {
                    Some(lhs) => {
                        lemma_constants_are_no_classes(
                            file,
                            tree,
                            tree.children_of(lhs),
                            tree.children_of(lhs).len() as int,
                            parent,
                        );
                    },
                    None => {},
                }
            },
            _ => {},
        }
    }
}

proof fn lemma_children_named_by_lineage(
    file: Seq<char>,
    tree: &SyntaxTree,
    holder: int,
    n: int,
    parent: Option<SymbolView>,
)
    requires
        tree.wf(),
        plainly_declared(tree),
        tree.has(holder),
        n <= tree.children_of(holder).len(),
        enclosing_path(tree, holder) == lineage_of(parent),
    ensures
        named_by_lineage(symbols_upto(file, tree, holder, n, parent)),
    decreases tree.nodes.len() - holder, n,
{
    if n > 0 {
        lemma_children_named_by_lineage(file, tree, holder, n - 1, parent);
        let child = tree.children_of(holder)[n - 1] as int;
        assert(child == tree.nodes[holder].children[n - 1]);
        if holder < child < tree.nodes.len() {
            assert(tree.parent_of(child) == Some(holder));
            lemma_symbols_named_by_lineage(file, tree, child, parent);
        }
    }
}

/// In a file whose classes and modules are all declared with plain names, the
/// scope of each class or module, followed by its name, is the names of the
/// classes and modules around it as its parents give them, outermost first,
/// and then its own.
pub proof fn lemma_scope_is_lineage(file: Seq<char>, tree: &SyntaxTree)
    requires
        tree.wf(),
        plainly_declared(tree),
    ensures
        named_by_lineage(file_symbols(file, tree)),
{
    if tree.kind_of(0) == NodeKind::Program {
        assert(enclosing_path(tree, 0) =~= Seq::<Seq<char>>::empty());
        lemma_children_named_by_lineage(
            file,
            tree,
            0,
            tree.children_of(0).len() as int,
            None,
        );
    } else {
        lemma_symbols_named_by_lineage(file, tree, 0, None);
    }
}

/// Two walks over one tree for one file give the same symbols in the same
/// order, or fail alike.
pub proof fn lemma_index_is_repeatable(
    file: Seq<char>,
    tree: &SyntaxTree,
    first: Result<Vec<Arc<RSymbolV2>>, BuildError>,
    second: Result<Vec<Arc<RSymbolV2>>, BuildError>,
)
    requires
        gives_symbols(first, file_symbols(file, tree)),
        gives_symbols(second, file_symbols(file, tree)),
    ensures
        first is Ok <==> second is Ok,
        first is Ok ==> views(first->Ok_0@) == views(second->Ok_0@),
        first is Err ==> first->Err_0 == second->Err_0,
{
}

} // verus!
