//! The symbols of the index.

use vstd::prelude::*;
use std::sync::Arc;
use crate::point::Point;
use crate::scope::{joined, same_path, Scope};

verus! {

/// How a method takes a parameter.
#[derive(Clone, Copy, Debug, PartialEq, Eq, Structural, Hash)]
pub enum RMethodParamKind {
    Regular,
    Optional,
    Keyword,
}

/// A parameter of a method, with the range of its name.
#[derive(Clone, Debug, PartialEq, Eq)]
pub struct RMethodParamV2 {
    pub kind: RMethodParamKind,
    pub file: String,
    pub name: String,
    pub start: Point,
    pub end: Point,
}

/// What a symbol is, with what only that kind carries.
#[derive(Clone, Debug, PartialEq, Eq)]
pub enum RSymbolKind {
    Class { superclass_scope: Scope },
    Module { superclass_scope: Scope },
    InstanceMethod { parameters: Vec<RMethodParamV2> },
    SingletonMethod { parameters: Vec<RMethodParamV2> },
    Constant,
    Variable,
    InstanceVariable,
    ClassVariable,
    GlobalVariable,
}

/// A definition in a source file. `scope` is the namespace around it and does
/// not hold `name`. A class, module or method reaches from its name to its
/// end, so that its range holds what stands in it; any other symbol covers
/// the token of its name. `parent` is the class, module or method around it.
#[derive(Clone, Debug, PartialEq, Eq)]
pub struct RSymbolV2 {
    pub kind: RSymbolKind,
    pub name: String,
    pub scope: Scope,
    pub file: String,
    pub start: Point,
    pub end: Point,
    pub parent: Option<Arc<RSymbolV2>>,
}

/// A parameter as a mathematical value.
pub struct ParamView {
    pub kind: RMethodParamKind,
    pub file: Seq<char>,
    pub name: Seq<char>,
    pub start: Point,
    pub end: Point,
}

/// A symbol's kind as a mathematical value.
pub enum KindView {
    Class { superclass_scope: Seq<Seq<char>> },
    Module { superclass_scope: Seq<Seq<char>> },
    InstanceMethod { parameters: Seq<ParamView> },
    SingletonMethod { parameters: Seq<ParamView> },
    Constant,
    Variable,
    InstanceVariable,
    ClassVariable,
    GlobalVariable,
}

/// A symbol as a mathematical value.
pub struct SymbolView {
    pub kind: KindView,
    pub name: Seq<char>,
    pub scope: Seq<Seq<char>>,
    pub file: Seq<char>,
    pub start: Point,
    pub end: Point,
    pub parent: Option<Box<SymbolView>>,
}

impl View for RMethodParamV2 {
    type V = ParamView;

    open spec fn view(&self) -> ParamView {
        ParamView {
            kind: self.kind,
            file: self.file@,
            name: self.name@,
            start: self.start,
            end: self.end,
        }
    }
}

/// The parameters that a vector holds, as mathematical values.
pub open spec fn param_views(parameters: Seq<RMethodParamV2>) -> Seq<ParamView> {
    parameters.map_values(|p: RMethodParamV2| p@)
}

impl View for RSymbolKind {
    type V = KindView;

    open spec fn view(&self) -> KindView {
        match *self {
            RSymbolKind::Class { superclass_scope } => KindView::Class {
                superclass_scope: superclass_scope@,
            },
            RSymbolKind::Module { superclass_scope } => KindView::Module {
                superclass_scope: superclass_scope@,
            },
            RSymbolKind::InstanceMethod { parameters } => KindView::InstanceMethod {
                parameters: param_views(parameters@),
            },
            RSymbolKind::SingletonMethod { parameters } => KindView::SingletonMethod {
                parameters: param_views(parameters@),
            },
            RSymbolKind::Constant => KindView::Constant,
            RSymbolKind::Variable => KindView::Variable,
            RSymbolKind::InstanceVariable => KindView::InstanceVariable,
            RSymbolKind::ClassVariable => KindView::ClassVariable,
            RSymbolKind::GlobalVariable => KindView::GlobalVariable,
        }
    }
}

impl View for RSymbolV2 {
    type V = SymbolView;

    open spec fn view(&self) -> SymbolView
        decreases self,
    {
        SymbolView {
            kind: self.kind@,
            name: self.name@,
            scope: self.scope@,
            file: self.file@,
            start: self.start,
            end: self.end,
            parent: match self.parent {
                Some(parent) => Some(Box::new((*parent).view())),
                None => None,
            },
        }
    }
}

/// The symbols that a vector holds, as mathematical values.
pub open spec fn views(symbols: Seq<Arc<RSymbolV2>>) -> Seq<SymbolView> {
    symbols.map_values(|s: Arc<RSymbolV2>| (*s)@)
}

/// The symbols that a vector holds directly, as mathematical values.
pub open spec fn symbol_views(symbols: Seq<RSymbolV2>) -> Seq<SymbolView> {
    symbols.map_values(|s: RSymbolV2| s@)
}

impl KindView {
    pub open spec fn classlike(self) -> bool {
        self is Class || self is Module
    }
}

impl SymbolView {
    /// The qualified name: the scope, then the name.
    pub open spec fn qualified(self) -> Seq<Seq<char>> {
        self.scope.push(self.name)
    }

    /// The names of the classes and modules around the symbol and of the
    /// symbol itself, if it is one, as the parent links give them: outermost
    /// first.
    pub open spec fn lineage(self) -> Seq<Seq<char>>
        decreases self,
    {
        let above = match self.parent {
            Some(parent) => (*parent).lineage(),
            None => Seq::empty(),
        };
        if self.kind.classlike() {
            above.push(self.name)
        } else {
            above
        }
    }
}

impl RSymbolKind {
    pub fn is_classlike(&self) -> (r: bool)
        ensures
            r == self@.classlike(),
    {
        match self {
            RSymbolKind::Class { .. } => true,
            RSymbolKind::Module { .. } => true,
            _ => false,
        }
    }
}

impl RSymbolV2 {
    /// Whether the qualified name is `path`; an absolute path and a relative
    /// one of the same segments count as the same.
    pub fn is_named(&self, path: &Scope) -> (r: bool)
        ensures
            r == same_path(self@.qualified(), path@),
    {
        self.scope.matches_with(self.name.as_str(), path)
    }

    /// The qualified name: the scope, then the name.
    pub fn qualified_name(&self) -> (r: Scope)
        ensures
            r@ == self@.qualified(),
    {
        let mut path = self.scope.duplicate();
        path.push(self.name.clone());
        path
    }
}

} // verus!
