//! What a symbol looks like to a client: a coarse kind, and the range of its
//! name.

use vstd::prelude::*;
use vstd::string::StringSliceAdditionalSpecFns;
use vstd::utf8::encode_utf8;
use crate::types::{KindView, RSymbolKind, RSymbolV2, SymbolView};

verus! {

/// The kinds that a client tells apart.
#[derive(Clone, Copy, Debug, PartialEq, Eq, Structural, Hash)]
pub enum SymbolTag {
    Class,
    Module,
    Method,
    Constant,
    Field,
    /// A symbol of a kind that clients have no word for.
    Null,
}

/// The range of a symbol's name on its line, in numbers that fit the protocol.
#[derive(Clone, Copy, Debug, PartialEq, Eq, Structural)]
pub struct NameRange {
    pub line: u32,
    pub character: u32,
    pub end_character: u32,
}

/// The tag of each kind: methods of both kinds are methods, constants and
/// global variables are constants, instance and class variables are fields.
pub open spec fn tag_of(kind: KindView) -> SymbolTag {
    match kind {
        KindView::Class { .. } => SymbolTag::Class,
        KindView::Module { .. } => SymbolTag::Module,
        KindView::InstanceMethod { .. } => SymbolTag::Method,
        KindView::SingletonMethod { .. } => SymbolTag::Method,
        KindView::Constant => SymbolTag::Constant,
        KindView::GlobalVariable => SymbolTag::Constant,
        KindView::InstanceVariable => SymbolTag::Field,
        KindView::ClassVariable => SymbolTag::Field,
        KindView::Variable => SymbolTag::Null,
    }
}

/// The length of a symbol's name in bytes.
pub open spec fn name_length(symbol: SymbolView) -> usize {
    encode_utf8(symbol.name).len() as usize
}

/// Whether the range of the name of `symbol` fits the protocol's numbers.
pub open spec fn presentable(symbol: SymbolView) -> bool {
    &&& symbol.start.row <= u32::MAX
    &&& symbol.start.column + name_length(symbol) <= u32::MAX
}

/// The tag of a symbol's kind.
pub fn symbol_tag(kind: &RSymbolKind) -> (tag: SymbolTag)
    ensures
        tag == tag_of(kind@),
{
    match kind {
        RSymbolKind::Class { .. } => SymbolTag::Class,
        RSymbolKind::Module { .. } => SymbolTag::Module,
        RSymbolKind::InstanceMethod { .. } => SymbolTag::Method,
        RSymbolKind::SingletonMethod { .. } => SymbolTag::Method,
        RSymbolKind::Constant => SymbolTag::Constant,
        RSymbolKind::GlobalVariable => SymbolTag::Constant,
        RSymbolKind::InstanceVariable => SymbolTag::Field,
        RSymbolKind::ClassVariable => SymbolTag::Field,
        RSymbolKind::Variable => SymbolTag::Null,
    }
}

/// The range of the name of `symbol`: from where the symbol starts, as far as
/// the name is long. `None` where the numbers do not fit.
pub fn name_range(symbol: &RSymbolV2) -> (r: Option<NameRange>)
    ensures
        r is Some <==> presentable(symbol@),
        r is Some ==> {
            &&& r->0.line == symbol.start.row
            &&& r->0.character == symbol.start.column
            &&& r->0.end_character == symbol.start.column + name_length(symbol@)
        },
{
    let limit: usize = 0xffff_ffff;
    let length = symbol.name.as_str().len();
    if symbol.start.row > limit || symbol.start.column > limit || length > limit
        - symbol.start.column {
        return None;
    }
    Some(
        NameRange {
            line: symbol.start.row as u32,
            character: symbol.start.column as u32,
            end_character: (symbol.start.column + length) as u32,
        },
    )
}

} // verus!
