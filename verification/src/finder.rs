//! Definitions for what stands under the cursor.

use vstd::prelude::*;
use std::sync::Arc;
use crate::identifiers::{
    assigned_before, get_method_variable_definition, lemma_nearest, nearest_upto, parameters_in,
    variable_definition,
};
use crate::indexer::{in_file, SymbolTable};
use crate::kinds::{NodeKind, NodeName};
use crate::parser::{is_ruby_syntax, located, parse, ruby_parses, ruby_range_at, ParseError};
use crate::point::Point;
use crate::ruby_filename_converter::{scope_of_path, RubyFilenameConverter};
use crate::scope::{is_absolute, joined, relative, same_path, Scope, GLOBAL_SCOPE_VALUE};
use crate::scopes::{
    context_scope, full_scope_resolution, get_context_scope, get_full_scope_resolution,
    get_parent_scope_resolution, parent_scope_resolution,
};
use crate::symbols_matcher::{matches_of, SymbolsMatcher};
use crate::syntax::SyntaxTree;
use crate::text::{path_starts_with, path_within, share, str_eq};
use crate::types::{views, KindView, RSymbolKind, RSymbolV2, SymbolView};

verus! {

/// Classes, modules and constants: what a constant reference can mean.
pub open spec fn is_definition(v: SymbolView) -> bool {
    v.kind.classlike() || v.kind is Constant
}

/// Methods of the one or the other kind.
pub open spec fn is_method(v: SymbolView, singleton: bool) -> bool {
    if singleton {
        v.kind is SingletonMethod
    } else {
        v.kind is InstanceMethod
    }
}

/// What a bare name can mean in a method: in an instance method an instance
/// variable or an instance method, in a singleton method a class variable or
/// a singleton method.
pub open spec fn is_member(v: SymbolView, singleton: bool) -> bool {
    if singleton {
        v.kind is ClassVariable || v.kind is SingletonMethod
    } else {
        v.kind is InstanceVariable || v.kind is InstanceMethod
    }
}

/// The definitions whose qualified name is `path`.
pub open spec fn named(path: Seq<Seq<char>>) -> spec_fn(SymbolView) -> bool {
    |v: SymbolView| is_definition(v) && same_path(v.qualified(), path)
}

/// How `v` answers a reference: 1 where its qualified name is `nested`, the
/// reference inside the lexical nesting; else 2 where it is `by_file`, the
/// reference inside the namespace of the file; else 3 where it is `literal`,
/// the reference as it stands, and `v` is of the file `file`; else 0.
pub open spec fn tier_of(
    v: SymbolView,
    nested: Seq<Seq<char>>,
    by_file: Option<Seq<Seq<char>>>,
    literal: Seq<Seq<char>>,
    file: Seq<char>,
) -> int {
    if same_path(v.qualified(), nested) {
        1
    } else if by_file is Some && same_path(v.qualified(), by_file->0) {
        2
    } else if same_path(v.qualified(), literal) && v.file == file {
        3
    } else {
        0
    }
}

/// The definitions that answer a reference at the tier `tier`.
pub open spec fn resolved(
    nested: Seq<Seq<char>>,
    by_file: Option<Seq<Seq<char>>>,
    literal: Seq<Seq<char>>,
    file: Seq<char>,
    tier: int,
) -> spec_fn(SymbolView) -> bool {
    |v: SymbolView| is_definition(v) && tier_of(v, nested, by_file, literal, file) == tier
}

/// The methods called `name` in the namespace `scope`.
pub open spec fn method_in(name: Seq<char>, scope: Seq<Seq<char>>, singleton: bool) -> spec_fn(
    SymbolView,
) -> bool {
    |v: SymbolView| is_method(v, singleton) && same_path(v.scope, scope) && v.name == name
}

/// The methods called `name` in files under `root`, or in files outside it.
pub open spec fn method_anywhere(
    name: Seq<char>,
    singleton: bool,
    root: Seq<char>,
    inside: bool,
) -> spec_fn(SymbolView) -> bool {
    |v: SymbolView| is_method(v, singleton) && v.name == name && path_within(v.file, root) == inside
}

/// The variables and methods called `name` in the namespace `scope`.
pub open spec fn member_in(name: Seq<char>, scope: Seq<Seq<char>>, singleton: bool) -> spec_fn(
    SymbolView,
) -> bool {
    |v: SymbolView| is_member(v, singleton) && same_path(v.scope, scope) && v.name == name
}

/// The global variables called `name`.
pub open spec fn global_named(name: Seq<char>) -> spec_fn(SymbolView) -> bool {
    |v: SymbolView| v.kind is GlobalVariable && v.name == name
}

/// A question that a symbol answers with yes or no.
pub enum Selector<'a> {
    Named { path: &'a Scope },
    Resolved {
        nested: &'a Scope,
        by_file: Option<&'a Scope>,
        literal: &'a Scope,
        file: &'a str,
        tier: u8,
    },
    MethodIn { name: &'a str, scope: &'a Scope, singleton: bool },
    MethodAnywhere { name: &'a str, singleton: bool, root: &'a str, inside: bool },
    MemberIn { name: &'a str, scope: &'a Scope, singleton: bool },
    GlobalNamed { name: &'a str },
}

fn kind_is_definition(kind: &RSymbolKind) -> (r: bool)
    ensures
        r == (kind@.classlike() || kind@ is Constant),
{
    match kind {
        RSymbolKind::Class { .. } => true,
        RSymbolKind::Module { .. } => true,
        RSymbolKind::Constant => true,
        _ => false,
    }
}

fn kind_is_method(kind: &RSymbolKind, singleton: bool) -> (r: bool)
    ensures
        r == if singleton {
            kind@ is SingletonMethod
        } else {
            kind@ is InstanceMethod
        },
{
    match kind {
        RSymbolKind::SingletonMethod { .. } => singleton,
        RSymbolKind::InstanceMethod { .. } => !singleton,
        _ => false,
    }
}

fn kind_is_member(kind: &RSymbolKind, singleton: bool) -> (r: bool)
    ensures
        r == if singleton {
            kind@ is ClassVariable || kind@ is SingletonMethod
        } else {
            kind@ is InstanceVariable || kind@ is InstanceMethod
        },
{
    match kind {
        RSymbolKind::SingletonMethod { .. } => singleton,
        RSymbolKind::ClassVariable => singleton,
        RSymbolKind::InstanceMethod { .. } => !singleton,
        RSymbolKind::InstanceVariable => !singleton,
        _ => false,
    }
}

impl<'a> Selector<'a> {
    /// The symbols that answer yes.
    pub open spec fn chooser(&self) -> spec_fn(SymbolView) -> bool {
        match *self {
            Selector::Named { path } => named(path@),
            Selector::Resolved { nested, by_file, literal, file, tier } => resolved(
                nested@,
                match by_file {
                    Some(scope) => Some(scope@),
                    None => None,
                },
                literal@,
                file@,
                tier as int,
            ),
            Selector::MethodIn { name, scope, singleton } => method_in(name@, scope@, singleton),
            Selector::MethodAnywhere { name, singleton, root, inside } => method_anywhere(
                name@,
                singleton,
                root@,
                inside,
            ),
            Selector::MemberIn { name, scope, singleton } => member_in(name@, scope@, singleton),
            Selector::GlobalNamed { name } => global_named(name@),
        }
    }

    /// Whether `symbol` answers yes.
    pub fn accepts(&self, symbol: &RSymbolV2) -> (r: bool)
        ensures
            r == (self.chooser())(symbol@),
    {
        match self {
            Selector::Named { path } => kind_is_definition(&symbol.kind) && symbol.is_named(path),
            Selector::Resolved { nested, by_file, literal, file, tier } => {
                if !kind_is_definition(&symbol.kind) {
                    return false;
                }
                if symbol.is_named(nested) {
                    return *tier == 1;
                }
                match by_file {
                    Some(scope) => {
                        if symbol.is_named(scope) {
                            return *tier == 2;
                        }
                    },
                    None => {},
                }
                if symbol.is_named(literal) && str_eq(symbol.file.as_str(), file) {
                    *tier == 3
                } else {
                    *tier == 0
                }
            },
            Selector::MethodIn { name, scope, singleton } => kind_is_method(
                &symbol.kind,
                *singleton,
            ) && str_eq(symbol.name.as_str(), name) && symbol.scope.matches(scope),
            Selector::MethodAnywhere { name, singleton, root, inside } => kind_is_method(
                &symbol.kind,
                *singleton,
            ) && str_eq(symbol.name.as_str(), name) && path_starts_with(
                symbol.file.as_str(),
                root,
            ) == *inside,
            Selector::MemberIn { name, scope, singleton } => kind_is_member(
                &symbol.kind,
                *singleton,
            ) && str_eq(symbol.name.as_str(), name) && symbol.scope.matches(scope),
            Selector::GlobalNamed { name } => matches!(symbol.kind, RSymbolKind::GlobalVariable)
                && str_eq(symbol.name.as_str(), name),
        }
    }
}

/// The symbols of `symbols` that answer yes to `selector`, in their order.
pub fn select(symbols: &Vec<Arc<RSymbolV2>>, selector: &Selector) -> (r: Vec<Arc<RSymbolV2>>)
    ensures
        views(r@) == views(symbols@).filter(selector.chooser()),
{
    let mut out: Vec<Arc<RSymbolV2>> = Vec::new();
    let mut i: usize = 0;
    let ghost all = views(symbols@);
    assert(all.take(0) =~= Seq::<SymbolView>::empty());
    assert(Seq::<SymbolView>::empty().filter(selector.chooser()) =~= Seq::<SymbolView>::empty())
        by {
        reveal(Seq::filter);
    }
    assert(views(out@) =~= Seq::<SymbolView>::empty());
    while i < symbols.len()
        invariant
            i <= symbols.len(),
            all == views(symbols@),
            views(out@) == all.take(i as int).filter(selector.chooser()),
        decreases symbols.len() - i,
    {
        let ghost before = out@;
        proof {
            assert(all.take(i + 1) =~= all.take(i as int).push(all[i as int]));
            all.take(i as int).lemma_filter_push(all[i as int], selector.chooser());
        }
        if selector.accepts(&symbols[i]) {
            out.push(share(&symbols[i]));
            assert(views(out@) =~= views(before).push(all[i as int]));
        }
        i += 1;
    }
    assert(all.take(symbols.len() as int) =~= all);
    out
}

/// Why the cursor leads to no answer at all.
#[derive(Clone, Copy, Debug, PartialEq, Eq, Structural)]
pub enum ResolutionError {
    /// The file could not be parsed.
    Parse(ParseError),
    /// No node of the file spans the position.
    PositionOutOfRange,
    /// The node under the cursor is of a kind that is not resolved.
    UnsupportedNodeKind(NodeKind),
}

/// `path` without its last segment.
pub open spec fn namespace_part(path: Seq<Seq<char>>) -> Seq<Seq<char>> {
    if path.len() > 0 {
        path.drop_last()
    } else {
        path
    }
}

/// The definitions that answer a reference at one of the three tiers, those
/// of the first tier first, then those of the second, then those of the third.
pub open spec fn resolved_in_order(
    table: Seq<SymbolView>,
    nested: Seq<Seq<char>>,
    by_file: Option<Seq<Seq<char>>>,
    literal: Seq<Seq<char>>,
    file: Seq<char>,
) -> Seq<SymbolView> {
    table.filter(resolved(nested, by_file, literal, file, 1)) + table.filter(
        resolved(nested, by_file, literal, file, 2),
    ) + table.filter(resolved(nested, by_file, literal, file, 3))
}

/// The definitions that the constant at `node` of the file `file` may refer
/// to. `file_scope` is the constant path that the file's name stands for. An
/// absolute reference means the definitions of exactly that name. Any other
/// means, in this order, those whose name is the reference inside the lexical
/// nesting, those whose name is the reference inside the namespace of the
/// file, and those whose name is the reference as it stands in the same file;
/// and if there are none of these, the definitions of that name anywhere.
pub open spec fn constant_definitions(
    table: Seq<SymbolView>,
    tree: &SyntaxTree,
    node: int,
    file: Seq<char>,
    file_scope: Option<Seq<Seq<char>>>,
) -> Seq<SymbolView> {
    let referenced = parent_scope_resolution(tree, node);
    if referenced.len() == 0 {
        Seq::empty()
    } else if is_absolute(referenced) {
        table.filter(named(referenced))
    } else {
        let found = resolved_in_order(
            table,
            joined(context_scope(tree, node), referenced),
            match file_scope {
                Some(scope) => Some(joined(namespace_part(scope), referenced)),
                None => None,
            },
            referenced,
            file,
        );
        if found.len() > 0 {
            found
        } else {
            table.filter(named(referenced))
        }
    }
}

/// Among the definitions that answer a reference, those whose name is the
/// reference inside the lexical nesting come before all others, and none of
/// them is left out.
pub proof fn lemma_nesting_is_preferred(
    table: Seq<SymbolView>,
    nested: Seq<Seq<char>>,
    by_file: Option<Seq<Seq<char>>>,
    literal: Seq<Seq<char>>,
    file: Seq<char>,
)
    ensures
        ({
            let found = resolved_in_order(table, nested, by_file, literal, file);
            &&& forall|i: int, j: int|
                0 <= i < j < found.len() && same_path((#[trigger] found[j]).qualified(), nested)
                    ==> same_path((#[trigger] found[i]).qualified(), nested)
            &&& forall|k: int|
                0 <= k < table.len() && is_definition(#[trigger] table[k]) && same_path(
                    table[k].qualified(),
                    nested,
                ) ==> found.contains(table[k])
        }),
{
    let first = table.filter(resolved(nested, by_file, literal, file, 1));
    let second = table.filter(resolved(nested, by_file, literal, file, 2));
    let third = table.filter(resolved(nested, by_file, literal, file, 3));
    let found = resolved_in_order(table, nested, by_file, literal, file);
    assert forall|i: int| 0 <= i < found.len() implies (same_path(
        (#[trigger] found[i]).qualified(),
        nested,
    ) <==> i < first.len()) by {
        if i < first.len() {
            table.lemma_filter_pred(resolved(nested, by_file, literal, file, 1), i);
        } else if i < first.len() + second.len() {
            table.lemma_filter_pred(resolved(nested, by_file, literal, file, 2), i - first.len());
        } else {
            table.lemma_filter_pred(
                resolved(nested, by_file, literal, file, 3),
                i - first.len() - second.len(),
            );
        }
    }
    assert forall|k: int|
        0 <= k < table.len() && is_definition(#[trigger] table[k]) && same_path(
            table[k].qualified(),
            nested,
        ) implies found.contains(table[k]) by {
        table.lemma_filter_contains(resolved(nested, by_file, literal, file, 1), k);
        let at = choose|at: int| 0 <= at < first.len() && first[at] == table[k];
        assert(found[at] == table[k]);
    }
}

/// What answers the absolute reference `::name` has that name and no
/// namespace: a symbol of that name inside a class or module never answers
/// it.
pub proof fn lemma_absolute_matches_top_level(v: SymbolView, name: Seq<char>)
    requires
        (named(seq![GLOBAL_SCOPE_VALUE@, name]))(v),
    ensures
        v.name == name,
        relative(v.scope).len() == 0,
{
    let wanted = seq![GLOBAL_SCOPE_VALUE@, name];
    assert(relative(wanted) =~= seq![name]);
    let qualified = v.qualified();
    assert(relative(qualified) == seq![name]);
    if is_absolute(qualified) {
        assert(relative(qualified).len() == qualified.len() - 1);
        assert(v.scope.len() == 1);
        assert(qualified[0] == v.scope[0]);
        assert(relative(qualified)[0] == qualified[1]);
        assert(relative(v.scope) =~= v.scope.skip(1));
    } else {
        assert(qualified.len() == 1);
        assert(v.scope.len() == 0);
        assert(qualified[0] == v.name);
    }
}

/// The global variables that the token at `node` names.
pub open spec fn global_definitions(
    table: Seq<SymbolView>,
    tree: &SyntaxTree,
    node: int,
) -> Seq<SymbolView> {
    match tree.text_of(node) {
        Some(name) => table.filter(global_named(name)),
        None => Seq::empty(),
    }
}

/// Whether `v` is a class, module or method of `file` whose range holds
/// `start..end` strictly inside.
pub open spec fn encloses(v: SymbolView, file: Seq<char>, start: Point, end: Point) -> bool {
    &&& v.file == file
    &&& (v.kind.classlike() || v.kind is InstanceMethod || v.kind is SingletonMethod)
    &&& v.start.before(start)
    &&& end.before(v.end)
}

/// Whether the range of `a` is smaller than that of `b`: fewer rows, or as
/// many rows and fewer columns.
pub open spec fn smaller(a: SymbolView, b: SymbolView) -> bool {
    let a_rows = a.end.row - a.start.row;
    let b_rows = b.end.row - b.start.row;
    a_rows < b_rows || (a_rows == b_rows && a.end.column - a.start.column < b.end.column
        - b.start.column)
}

/// Among the first `n` symbols, the smallest that encloses `start..end`, and
/// of several that small the first.
pub open spec fn innermost_upto(
    table: Seq<SymbolView>,
    file: Seq<char>,
    start: Point,
    end: Point,
    n: int,
) -> Option<int>
    decreases n,
{
    if n <= 0 {
        None
    } else {
        let before = innermost_upto(table, file, start, end, n - 1);
        if encloses(table[n - 1], file, start, end) && (before is None || smaller(
            table[n - 1],
            table[before->0],
        )) {
            Some(n - 1)
        } else {
            before
        }
    }
}

/// What `innermost_upto` finds encloses the range, and no symbol that
/// encloses it is smaller.
pub proof fn lemma_innermost(
    table: Seq<SymbolView>,
    file: Seq<char>,
    start: Point,
    end: Point,
    n: int,
)
    requires
        0 <= n <= table.len(),
    ensures
        match innermost_upto(table, file, start, end, n) {
            Some(i) => {
                &&& 0 <= i < n
                &&& encloses(table[i], file, start, end)
                &&& forall|j: int|
                    0 <= j < n && encloses(#[trigger] table[j], file, start, end) ==> !smaller(
                        table[j],
                        table[i],
                    )
            },
            None => forall|j: int| 0 <= j < n ==> !encloses(#[trigger] table[j], file, start, end),
        },
    decreases n,
{
    if n > 0 {
        lemma_innermost(table, file, start, end, n - 1);
    }
}

/// The definition of a local variable or parameter of the method `method`.
pub open spec fn local_variable(
    name: Seq<char>,
    method: SymbolView,
    file: Seq<char>,
    start: Point,
    end: Point,
) -> SymbolView {
    SymbolView {
        kind: KindView::Variable,
        name,
        scope: method.scope,
        file,
        start,
        end,
        parent: Some(Box::new(method)),
    }
}

/// Whether `node` is the method name of a call.
pub open spec fn is_called(tree: &SyntaxTree, node: int) -> bool {
    match tree.parent_of(node) {
        Some(call) => tree.has(call) && tree.kind_of(call) == NodeKind::Call && tree.field_child(
            call,
            NodeName::Method,
        ) == Some(node),
        None => false,
    }
}

/// The methods that the call named by `node` may reach, made from inside the
/// namespace `scope`. Without a receiver, or on `self`, they are the methods
/// of that namespace. On a constant they are the methods of the namespace
/// that the constant names. On anything else they are the methods of that
/// name anywhere, those of the project first.
pub open spec fn called_definitions(
    table: Seq<SymbolView>,
    root: Seq<char>,
    tree: &SyntaxTree,
    node: int,
    name: Seq<char>,
    scope: Seq<Seq<char>>,
    singleton: bool,
) -> Seq<SymbolView> {
    let call = tree.parent_of(node)->0;
    match tree.field_child(call, NodeName::Receiver) {
        None => table.filter(method_in(name, scope, singleton)),
        Some(receiver) => {
            let kind = tree.kind_of(receiver);
            if kind == NodeKind::Zelf {
                table.filter(method_in(name, scope, singleton))
            } else if kind == NodeKind::Constant || kind == NodeKind::ScopeResolution {
                table.filter(method_in(name, full_scope_resolution(tree, receiver), singleton))
            } else {
                table.filter(method_anywhere(name, singleton, root, true)) + table.filter(
                    method_anywhere(name, singleton, root, false),
                )
            }
        },
    }
}

/// The definitions that the identifier at `node` of the file `file` may refer
/// to. Outside a method there are none. Inside one it is, in this order: the
/// assignment to a local variable of that name that stands last before the
/// identifier; the parameter of that name; for the name of a call, the
/// methods it may reach; else the variables and methods of that name in the
/// namespace of the method.
pub open spec fn identifier_definitions(
    table: Seq<SymbolView>,
    root: Seq<char>,
    file: Seq<char>,
    tree: &SyntaxTree,
    node: int,
) -> Seq<SymbolView> {
    let start = tree.nodes[node].info.start;
    let end = tree.nodes[node].info.end;
    match (tree.text_of(node), innermost_upto(table, file, start, end, table.len() as int)) {
        (Some(name), Some(i)) => if parameters_in(table[i].kind) is Some {
            let method = table[i];
            let singleton = method.kind is SingletonMethod;
            match variable_definition(tree, name, method, start) {
                Some((from, to)) => seq![local_variable(name, method, file, from, to)],
                None => if is_called(tree, node) {
                    called_definitions(table, root, tree, node, name, method.scope, singleton)
                } else {
                    table.filter(member_in(name, method.scope, singleton))
                },
            }
        } else {
            Seq::empty()
        },
        _ => Seq::empty(),
    }
}

/// In a method that holds an assignment to a local variable before a use
/// of its name, the use refers to an assignment and to nothing else, whether
/// or not a parameter has the same name: the one definition found starts
/// where the left-hand side of such an assignment starts.
pub proof fn lemma_assignment_wins(
    table: Seq<SymbolView>,
    root: Seq<char>,
    file: Seq<char>,
    tree: &SyntaxTree,
    node: int,
    assignment: int,
)
    requires
        tree.text_of(node) is Some,
        innermost_upto(
            table,
            file,
            tree.nodes[node].info.start,
            tree.nodes[node].info.end,
            table.len() as int,
        ) is Some,
        0 <= assignment < tree.nodes.len(),
        ({
            let method = table[innermost_upto(
                table,
                file,
                tree.nodes[node].info.start,
                tree.nodes[node].info.end,
                table.len() as int,
            )->0];
            &&& parameters_in(method.kind) is Some
            &&& assigned_before(
                tree,
                assignment,
                tree.text_of(node)->0,
                method.start,
                method.end,
                tree.nodes[node].info.start,
            ) is Some
        }),
    ensures
        ({
            let found = identifier_definitions(table, root, file, tree, node);
            let method = table[innermost_upto(
                table,
                file,
                tree.nodes[node].info.start,
                tree.nodes[node].info.end,
                table.len() as int,
            )->0];
            &&& found.len() == 1
            &&& found[0].kind is Variable
            &&& found[0].start.before(tree.nodes[node].info.start)
            &&& exists|a: int|
                0 <= a < tree.nodes.len() && (#[trigger] assigned_before(
                    tree,
                    a,
                    tree.text_of(node)->0,
                    method.start,
                    method.end,
                    tree.nodes[node].info.start,
                )) is Some && found[0].start == tree.nodes[assigned_before(
                    tree,
                    a,
                    tree.text_of(node)->0,
                    method.start,
                    method.end,
                    tree.nodes[node].info.start,
                )->0].info.start
        }),
{
    let start = tree.nodes[node].info.start;
    let name = tree.text_of(node)->0;
    let method = table[innermost_upto(table, file, start, tree.nodes[node].info.end, table.len() as int)->0];
    lemma_nearest(tree, name, method.start, method.end, start, tree.nodes.len() as int);
    let nearest = nearest_upto(tree, name, method.start, method.end, start, tree.nodes.len() as int);
    assert(nearest is Some);
    let a = choose|a: int|
        0 <= a < tree.nodes.len() && assigned_before(tree, a, name, method.start, method.end, start)
            == Some(nearest->0);
    assert(assigned_before(tree, a, name, method.start, method.end, start) is Some);
}

/// The definitions that `node` may refer to: a constant, a global variable
/// and an identifier are resolved, each in its way. A node of any other kind
/// is refused with its kind.
pub open spec fn definitions_at(
    table: Seq<SymbolView>,
    root: Seq<char>,
    file_scope: Option<Seq<Seq<char>>>,
    file: Seq<char>,
    tree: &SyntaxTree,
    node: int,
) -> Result<Seq<SymbolView>, ResolutionError> {
    match tree.kind_of(node) {
        NodeKind::Constant => Ok(constant_definitions(table, tree, node, file, file_scope)),
        NodeKind::GlobalVariable => Ok(global_definitions(table, tree, node)),
        NodeKind::Identifier => Ok(identifier_definitions(table, root, file, tree, node)),
        kind => Err(ResolutionError::UnsupportedNodeKind(kind)),
    }
}

/// `got` holds the symbols that `wanted` describes, or fails as it does.
pub open spec fn finds(
    got: Result<Vec<Arc<RSymbolV2>>, ResolutionError>,
    wanted: Result<Seq<SymbolView>, ResolutionError>,
) -> bool {
    match wanted {
        Ok(symbols) => got is Ok && views(got->Ok_0@) == symbols,
        Err(e) => got is Err && got->Err_0 == e,
    }
}

/// Answers queries against the symbol table of a project.
pub struct Finder {
    root_dir: String,
    symbols: SymbolTable,
    ruby_filename_converter: RubyFilenameConverter,
}

fn encloses_range(symbol: &RSymbolV2, file: &str, start: &Point, end: &Point) -> (r: bool)
    ensures
        r == encloses(symbol@, file@, *start, *end),
{
    let of_kind = match symbol.kind {
        RSymbolKind::Class { .. } => true,
        RSymbolKind::Module { .. } => true,
        RSymbolKind::InstanceMethod { .. } => true,
        RSymbolKind::SingletonMethod { .. } => true,
        _ => false,
    };
    of_kind && str_eq(symbol.file.as_str(), file) && symbol.start.is_before(start) && end.is_before(
        &symbol.end,
    )
}

fn is_smaller(a: &RSymbolV2, b: &RSymbolV2) -> (r: bool)
    ensures
        r == smaller(a@, b@),
{
    let a_rows: i128 = a.end.row as i128 - a.start.row as i128;
    let b_rows: i128 = b.end.row as i128 - b.start.row as i128;
    let a_columns: i128 = a.end.column as i128 - a.start.column as i128;
    let b_columns: i128 = b.end.column as i128 - b.start.column as i128;
    a_rows < b_rows || (a_rows == b_rows && a_columns < b_columns)
}

fn variable_in(
    name: &str,
    method: &Arc<RSymbolV2>,
    file: &str,
    start: Point,
    end: Point,
) -> (r: Vec<Arc<RSymbolV2>>)
    ensures
        views(r@) == seq![local_variable(name@, (**method)@, file@, start, end)],
{
    let symbol = RSymbolV2 {
        kind: RSymbolKind::Variable,
        name: name.to_owned(),
        scope: method.scope.duplicate(),
        file: file.to_owned(),
        start,
        end,
        parent: Some(share(method)),
    };
    let mut out: Vec<Arc<RSymbolV2>> = Vec::new();
    out.push(Arc::new(symbol));
    assert(views(out@) =~= seq![symbol@]);
    out
}

impl Finder {
    /// The table that the finder answers from is well-formed.
    pub closed spec fn wf(&self) -> bool {
        self.symbols.wf()
    }

    /// The symbols of the table, in its order.
    pub closed spec fn table(&self) -> Seq<SymbolView> {
        self.symbols@
    }

    /// The root of the project.
    pub closed spec fn root(&self) -> Seq<char> {
        self.root_dir@
    }

    /// The constant path that the name of `file` stands for, if it lies under
    /// the root.
    pub closed spec fn file_scope(&self, file: Seq<char>) -> Option<Seq<Seq<char>>> {
        scope_of_path(
            self.ruby_filename_converter.root(),
            self.ruby_filename_converter.autoload(),
            file,
        )
    }

    pub fn new(
        root_dir: &str,
        symbols: SymbolTable,
        ruby_filename_converter: RubyFilenameConverter,
    ) -> (finder: Finder)
        requires
            symbols.wf(),
        ensures
            finder.wf(),
            finder.table() == symbols@,
            finder.root() == root_dir@,
            forall|file: Seq<char>| #[trigger]
                finder.file_scope(file) == scope_of_path(
                    ruby_filename_converter.root(),
                    ruby_filename_converter.autoload(),
                    file,
                ),
    {
        Finder { root_dir: root_dir.to_owned(), symbols, ruby_filename_converter }
    }

    /// The symbols that the file at `path` defines, in the order of the
    /// table. A file that was not indexed has none.
    pub fn find_by_path(&self, path: &str) -> (r: Vec<Arc<RSymbolV2>>)
        requires
            self.wf(),
        ensures
            views(r@) == self.table().filter(in_file(path@)),
    {
        self.symbols.file_symbols(path)
    }

    /// The symbols whose name the query matches, best first. The empty query
    /// matches nothing.
    pub fn fuzzy_find_symbol(&self, query: &str) -> (r: Vec<Arc<RSymbolV2>>)
        ensures
            query@.len() == 0 ==> r@.len() == 0,
            views(r@) == matches_of(self.table(), query@, self.root()),
    {
        let r = SymbolsMatcher::new(self.root_dir.as_str()).match_rsymbols(
            query,
            self.symbols.symbols(),
        );
        assert(views(r@).len() == r@.len());
        r
    }

    /// The methods called `method_name` in the namespace `scope`: singleton
    /// methods if `singleton`, instance methods if not.
    pub fn find_method_in_scope(
        &self,
        method_name: &str,
        scope: &Scope,
        singleton: bool,
    ) -> (r: Vec<Arc<RSymbolV2>>)
        ensures
            views(r@) == self.table().filter(method_in(method_name@, scope@, singleton)),
    {
        select(self.symbols.symbols(), &Selector::MethodIn { name: method_name, scope, singleton })
    }

    /// The global variables that the token at `node` names.
    pub fn find_global_variable(&self, tree: &SyntaxTree, node: usize) -> (r: Vec<Arc<RSymbolV2>>)
        requires
            tree.has(node as int),
        ensures
            views(r@) == global_definitions(self.table(), tree, node as int),
    {
        match tree.text(node) {
            Some(name) => select(
                self.symbols.symbols(),
                &Selector::GlobalNamed { name: name.as_str() },
            ),
            None => Vec::new(),
        }
    }

    /// The definitions that the constant at `node` of the file `file` may
    /// refer to: all that fit. Those inside the lexical nesting come first,
    /// then those inside the namespace of the file, then those of the same
    /// file, each group in the order of the table.
    pub fn find_constant(
        &self,
        tree: &SyntaxTree,
        node: usize,
        file: &str,
    ) -> (r: Vec<Arc<RSymbolV2>>)
        requires
            tree.wf(),
            tree.has(node as int),
        ensures
            views(r@) == constant_definitions(
                self.table(),
                tree,
                node as int,
                file@,
                self.file_scope(file@),
            ),
    {
        let referenced = get_parent_scope_resolution(tree, node);
        if referenced.len() == 0 {
            return Vec::new();
        }
        let symbols = self.symbols.symbols();
        if referenced.is_global() {
            return select(symbols, &Selector::Named { path: &referenced });
        }
        let nested = get_context_scope(tree, node).join(&referenced);
        let by_file = match self.ruby_filename_converter.path_to_scope(file) {
            Ok(mut scope) => {
                scope.remove_last();
                Some(scope.join(&referenced))
            },
            Err(_) => None,
        };
        let mut found = select(
            symbols,
            &Selector::Resolved {
                nested: &nested,
                by_file: by_file.as_ref(),
                literal: &referenced,
                file,
                tier: 1,
            },
        );
        let mut second = select(
            symbols,
            &Selector::Resolved {
                nested: &nested,
                by_file: by_file.as_ref(),
                literal: &referenced,
                file,
                tier: 2,
            },
        );
        let mut third = select(
            symbols,
            &Selector::Resolved {
                nested: &nested,
                by_file: by_file.as_ref(),
                literal: &referenced,
                file,
                tier: 3,
            },
        );
        let ghost one = found@;
        let ghost two = second@;
        let ghost three = third@;
        found.append(&mut second);
        found.append(&mut third);
        assert(views(found@) =~= views(one) + views(two) + views(three));
        if found.len() > 0 {
            found
        } else {
            select(symbols, &Selector::Named { path: &referenced })
        }
    }

    /// The class, module or method around the node at `node` of the file
    /// `file`: the smallest whose range holds the node strictly inside, and of
    /// several that small the first of the table.
    pub fn determine_context(
        &self,
        tree: &SyntaxTree,
        node: usize,
        file: &str,
    ) -> (r: Option<Arc<RSymbolV2>>)
        requires
            tree.has(node as int),
        ensures
            match innermost_upto(
                self.table(),
                file@,
                tree.nodes[node as int].info.start,
                tree.nodes[node as int].info.end,
                self.table().len() as int,
            ) {
                Some(i) => r is Some && (*r->0)@ == self.table()[i],
                None => r is None,
            },
    {
        let symbols = self.symbols.symbols();
        let start = tree.start(node);
        let end = tree.end(node);
        let ghost all = views(symbols@);
        let mut best: Option<usize> = None;
        let mut i: usize = 0;
        while i < symbols.len()
            invariant
                i <= symbols.len(),
                all == views(symbols@),
                match innermost_upto(all, file@, start, end, i as int) {
                    Some(b) => best == Some(b as usize) && 0 <= b < i,
                    None => best is None,
                },
            decreases symbols.len() - i,
        {
            assert(all[i as int] == (*symbols@[i as int])@);
            if encloses_range(&symbols[i], file, &start, &end) {
                let take = match best {
                    Some(b) => {
                        assert(all[b as int] == (*symbols@[b as int])@);
                        is_smaller(&symbols[i], &symbols[b])
                    },
                    None => true,
                };
                if take {
                    best = Some(i);
                }
            }
            i += 1;
        }
        match best {
            Some(b) => {
                assert(all[b as int] == (*symbols@[b as int])@);
                Some(share(&symbols[b]))
            },
            None => None,
        }
    }

    /// The methods that the call named by `node` may reach.
    fn find_called(
        &self,
        tree: &SyntaxTree,
        node: usize,
        name: &str,
        scope: &Scope,
        singleton: bool,
    ) -> (r: Vec<Arc<RSymbolV2>>)
        requires
            tree.wf(),
            tree.has(node as int),
            is_called(tree, node as int),
        ensures
            views(r@) == called_definitions(
                self.table(),
                self.root(),
                tree,
                node as int,
                name@,
                scope@,
                singleton,
            ),
    {
        let call = match tree.parent(node) {
            Some(call) => call,
            None => {
                return Vec::new();
            },
        };
        let receiver = match tree.child_by_field(call, NodeName::Receiver) {
            Some(receiver) => receiver,
            None => {
                return self.find_method_in_scope(name, scope, singleton);
            },
        };
        match tree.kind(receiver) {
            NodeKind::Zelf => self.find_method_in_scope(name, scope, singleton),
            NodeKind::Constant | NodeKind::ScopeResolution => {
                let target = get_full_scope_resolution(tree, receiver);
                self.find_method_in_scope(name, &target, singleton)
            },
            _ => {
                let symbols = self.symbols.symbols();
                let root = self.root_dir.as_str();
                let mut inside = select(
                    symbols,
                    &Selector::MethodAnywhere { name, singleton, root, inside: true },
                );
                let mut outside = select(
                    symbols,
                    &Selector::MethodAnywhere { name, singleton, root, inside: false },
                );
                let ghost first = inside@;
                let ghost second = outside@;
                inside.append(&mut outside);
                assert(views(inside@) =~= views(first) + views(second));
                inside
            },
        }
    }

    /// The definitions that the identifier at `node` of the file `file` may
    /// refer to.
    pub fn find_identifier(
        &self,
        tree: &SyntaxTree,
        node: usize,
        file: &str,
    ) -> (r: Vec<Arc<RSymbolV2>>)
        requires
            tree.wf(),
            tree.has(node as int),
        ensures
            views(r@) == identifier_definitions(self.table(), self.root(), file@, tree, node as int),
    {
        let name = match tree.text(node) {
            Some(name) => name,
            None => {
                return Vec::new();
            },
        };
        let method = match self.determine_context(tree, node, file) {
            Some(method) => method,
            None => {
                return Vec::new();
            },
        };
        let singleton = match method.kind {
            RSymbolKind::InstanceMethod { .. } => false,
            RSymbolKind::SingletonMethod { .. } => true,
            _ => {
                return Vec::new();
            },
        };
        match get_method_variable_definition(tree, node, &method) {
            Some((from, to)) => {
                return variable_in(name.as_str(), &method, file, from, to);
            },
            None => {},
        }
        let called = match tree.parent(node) {
            Some(call) => tree.kind(call) == NodeKind::Call && tree.child_by_field(
                call,
                NodeName::Method,
            ) == Some(node),
            None => false,
        };
        if called {
            self.find_called(tree, node, name.as_str(), &method.scope, singleton)
        } else {
            select(
                self.symbols.symbols(),
                &Selector::MemberIn { name: name.as_str(), scope: &method.scope, singleton },
            )
        }
    }

    /// The definitions that the node at `node` of the file `file` may refer
    /// to. All that fit are returned; that there are none is no failure.
    pub fn find_definition_at(
        &self,
        file: &str,
        tree: &SyntaxTree,
        node: usize,
    ) -> (r: Result<Vec<Arc<RSymbolV2>>, ResolutionError>)
        requires
            tree.wf(),
            tree.has(node as int),
        ensures
            finds(
                r,
                definitions_at(
                    self.table(),
                    self.root(),
                    self.file_scope(file@),
                    file@,
                    tree,
                    node as int,
                ),
            ),
    {
        match tree.kind(node) {
            NodeKind::Constant => Ok(self.find_constant(tree, node, file)),
            NodeKind::GlobalVariable => Ok(self.find_global_variable(tree, node)),
            NodeKind::Identifier => Ok(self.find_identifier(tree, node, file)),
            kind => Err(ResolutionError::UnsupportedNodeKind(kind)),
        }
    }

    /// The definitions that what stands at `position` in the file `file` with
    /// the text `source` may refer to: those of `find_definition_at` for the
    /// syntax tree that the parser gives for the source and the node that it
    /// finds at the position. A source without a tree and a position without
    /// a node are failures of their own.
    pub fn find_definition(&self, file: &str, source: &[u8], position: Point) -> (r: Result<
        Vec<Arc<RSymbolV2>>,
        ResolutionError,
    >)
        ensures
            !ruby_parses(source@) ==> r is Err && r->Err_0 is Parse,
            ruby_parses(source@) ==> exists|tree: SyntaxTree|
                #[trigger] is_ruby_syntax(source@, tree) && match located(
                    &tree,
                    ruby_range_at(source@, position),
                    position,
                ) {
                    Some(node) => finds(
                        r,
                        definitions_at(
                            self.table(),
                            self.root(),
                            self.file_scope(file@),
                            file@,
                            &tree,
                            node as int,
                        ),
                    ),
                    None => r is Err && r->Err_0 == ResolutionError::PositionOutOfRange,
                },
    {
        let parsed = match parse(source) {
            Ok(parsed) => parsed,
            Err(e) => {
                return Err(ResolutionError::Parse(e));
            },
        };
        let tree = parsed.syntax();
        assert(is_ruby_syntax(source@, *tree));
        match parsed.node_at(position) {
            Some(node) => self.find_definition_at(file, tree, node),
            None => Err(ResolutionError::PositionOutOfRange),
        }
    }
}

} // verus!
