//! The symbol table of a project, and how the symbols of its files get there.

use vstd::prelude::*;
use std::sync::Arc;
use crate::parser::{is_ruby_syntax, parse, ruby_parses, ParseError};
use crate::parsers::{file_symbols, index_file, lemma_file_symbols_in_file, BuildError};
use crate::syntax::SyntaxTree;
use crate::text::{share, str_eq};
use crate::types::{views, RSymbolV2, SymbolView};

verus! {

/// The symbols that are defined in `file`.
pub open spec fn in_file(file: Seq<char>) -> spec_fn(SymbolView) -> bool {
    |v: SymbolView| v.file == file
}

/// The symbols of one file, in the order of the table.
pub struct FileEntry {
    pub file: String,
    pub symbols: Vec<Arc<RSymbolV2>>,
}

/// All symbols of a project in the order in which they were added, and for
/// each file the symbols that it defines.
pub struct SymbolTable {
    symbols: Vec<Arc<RSymbolV2>>,
    file_index: Vec<FileEntry>,
}

/// Whether one of `entries` is for `file`.
pub open spec fn listed(entries: Seq<FileEntry>, file: Seq<char>) -> bool {
    exists|k: int| 0 <= k < entries.len() && (#[trigger] entries[k]).file@ == file
}

impl View for SymbolTable {
    type V = Seq<SymbolView>;

    closed spec fn view(&self) -> Seq<SymbolView> {
        views(self.symbols@)
    }
}

/// No symbol of `symbols` has a file for which there is no entry.
proof fn lemma_unlisted_file_is_empty(
    symbols: Seq<SymbolView>,
    entries: Seq<FileEntry>,
    file: Seq<char>,
)
    requires
        forall|i: int| 0 <= i < symbols.len() ==> listed(entries, (#[trigger] symbols[i]).file),
        !listed(entries, file),
    ensures
        symbols.filter(in_file(file)) == Seq::<SymbolView>::empty(),
{
    let kept = symbols.filter(in_file(file));
    if kept.len() > 0 {
        symbols.lemma_filter_pred(in_file(file), 0);
        symbols.lemma_filter_contains_rev(in_file(file), kept[0]);
        let i = choose|i: int| 0 <= i < symbols.len() && symbols[i] == kept[0];
        assert(listed(entries, symbols[i].file));
    }
    assert(kept =~= Seq::<SymbolView>::empty());
}

impl SymbolTable {
    /// Each entry holds the symbols of its file, no file has two entries, and
    /// each symbol's file has one.
    pub closed spec fn wf(&self) -> bool {
        &&& forall|k: int|
            0 <= k < self.file_index@.len() ==> views((#[trigger] self.file_index@[k]).symbols@)
                == self@.filter(in_file(self.file_index@[k].file@))
        &&& forall|j: int, k: int|
            0 <= j < k < self.file_index@.len() ==> (#[trigger] self.file_index@[j]).file@ != (
            #[trigger] self.file_index@[k]).file@
        &&& forall|i: int|
            0 <= i < self@.len() ==> listed(self.file_index@, (#[trigger] self@[i]).file)
    }

    /// The table without symbols.
    pub fn new() -> (table: SymbolTable)
        ensures
            table.wf(),
            table@ == Seq::<SymbolView>::empty(),
    {
        let table = SymbolTable { symbols: Vec::new(), file_index: Vec::new() };
        assert(table@ =~= Seq::<SymbolView>::empty());
        table
    }

    /// All symbols, in the order in which they were added.
    pub fn symbols(&self) -> (symbols: &Vec<Arc<RSymbolV2>>)
        ensures
            views(symbols@) == self@,
    {
        &self.symbols
    }

    pub fn len(&self) -> (n: usize)
        ensures
            n == self@.len(),
    {
        self.symbols.len()
    }

    /// Where the entry for `file` stands.
    fn entry_of(&self, file: &str) -> (r: Option<usize>)
        ensures
            r is Some ==> r->0 < self.file_index@.len() && self.file_index@[r->0 as int].file@
                == file@,
            r is None ==> !listed(self.file_index@, file@),
    {
        let n = self.file_index.len();
        if n > 0 && str_eq(self.file_index[n - 1].file.as_str(), file) {
            return Some(n - 1);
        }
        let mut k: usize = 0;
        while k < n
            invariant
                k <= n,
                n == self.file_index@.len(),
                forall|j: int| 0 <= j < k ==> (#[trigger] self.file_index@[j]).file@ != file@,
            decreases n - k,
        {
            if str_eq(self.file_index[k].file.as_str(), file) {
                return Some(k);
            }
            k += 1;
        }
        None
    }

    /// Adds `symbol` behind all others.
    pub fn insert(&mut self, symbol: Arc<RSymbolV2>)
        requires
            old(self).wf(),
        ensures
            final(self).wf(),
            final(self)@ == old(self)@.push((*symbol)@),
    {
        let ghost before = self@;
        let ghost entries = self.file_index@;
        let ghost v = (*symbol)@;
        match self.entry_of(symbol.file.as_str()) {
            Some(k) => {
                self.file_index[k].symbols.push(share(&symbol));
                self.symbols.push(symbol);
                proof {
                    assert(self@ =~= before.push(v));
                    assert forall|j: int| 0 <= j < self.file_index@.len() implies views(
                        (#[trigger] self.file_index@[j]).symbols@,
                    ) == self@.filter(in_file(self.file_index@[j].file@)) by {
                        before.lemma_filter_push(v, in_file(entries[j].file@));
                        if j == k as int {
                            assert(views(self.file_index@[j].symbols@) =~= views(
                                entries[j].symbols@,
                            ).push(v));
                        } else {
                            assert(self.file_index@[j] == entries[j]);
                            if j < k {
                                assert(entries[j].file@ != entries[k as int].file@);
                            } else {
                                assert(entries[k as int].file@ != entries[j].file@);
                            }
                        }
                    }
                    assert forall|i: int| 0 <= i < self@.len() implies listed(
                        self.file_index@,
                        (#[trigger] self@[i]).file,
                    ) by {
                        if i < before.len() {
                            assert(listed(entries, before[i].file));
                            let e = choose|e: int|
                                0 <= e < entries.len() && (#[trigger] entries[e]).file@
                                    == before[i].file;
                            assert(self.file_index@[e].file@ == before[i].file);
                        } else {
                            assert(self.file_index@[k as int].file@ == v.file);
                        }
                    }
                }
            },
            None => {
                let mut symbols: Vec<Arc<RSymbolV2>> = Vec::new();
                symbols.push(share(&symbol));
                self.file_index.push(FileEntry { file: symbol.file.clone(), symbols });
                self.symbols.push(symbol);
                proof {
                    assert(self@ =~= before.push(v));
                    lemma_unlisted_file_is_empty(before, entries, v.file);
                    assert forall|j: int| 0 <= j < self.file_index@.len() implies views(
                        (#[trigger] self.file_index@[j]).symbols@,
                    ) == self@.filter(in_file(self.file_index@[j].file@)) by {
                        before.lemma_filter_push(v, in_file(self.file_index@[j].file@));
                        if j == entries.len() {
                            assert(views(self.file_index@[j].symbols@) =~= Seq::<
                                SymbolView,
                            >::empty().push(v));
                        } else {
                            assert(self.file_index@[j] == entries[j]);
                            assert(listed(entries, entries[j].file@));
                        }
                    }
                    assert forall|j: int, k: int|
                        0 <= j < k < self.file_index@.len() implies (
                    #[trigger] self.file_index@[j]).file@ != (#[trigger] self.file_index@[k]).file@ by {
                        if k == entries.len() {
                            assert(self.file_index@[j] == entries[j]);
                            assert(listed(entries, entries[j].file@));
                        }
                    }
                    assert forall|i: int| 0 <= i < self@.len() implies listed(
                        self.file_index@,
                        (#[trigger] self@[i]).file,
                    ) by {
                        if i < before.len() {
                            assert(listed(entries, before[i].file));
                            let e = choose|e: int|
                                0 <= e < entries.len() && (#[trigger] entries[e]).file@
                                    == before[i].file;
                            assert(self.file_index@[e].file@ == before[i].file);
                        } else {
                            assert(self.file_index@[entries.len() as int].file@ == v.file);
                        }
                    }
                }
            },
        }
    }

    /// Adds `symbols` behind all others, in their order.
    pub fn extend(&mut self, symbols: &Vec<Arc<RSymbolV2>>)
        requires
            old(self).wf(),
        ensures
            final(self).wf(),
            final(self)@ == old(self)@ + views(symbols@),
    {
        let mut i: usize = 0;
        assert(self@ =~= old(self)@ + views(symbols@).take(0));
        while i < symbols.len()
            invariant
                i <= symbols.len(),
                self.wf(),
                self@ == old(self)@ + views(symbols@).take(i as int),
            decreases symbols.len() - i,
        {
            self.insert(share(&symbols[i]));
            assert(views(symbols@).take(i + 1) =~= views(symbols@).take(i as int).push(
                (*symbols@[i as int])@,
            ));
            assert(self@ =~= old(self)@ + views(symbols@).take(i + 1));
            i += 1;
        }
        assert(views(symbols@).take(symbols.len() as int) =~= views(symbols@));
    }

    /// The symbols that `file` defines, in the order of the table. A file that
    /// was not indexed has none.
    pub fn file_symbols(&self, file: &str) -> (r: Vec<Arc<RSymbolV2>>)
        requires
            self.wf(),
        ensures
            views(r@) == self@.filter(in_file(file@)),
    {
        let mut out: Vec<Arc<RSymbolV2>> = Vec::new();
        match self.entry_of(file) {
            None => {
                proof {
                    lemma_unlisted_file_is_empty(self@, self.file_index@, file@);
                }
                assert(views(out@) =~= Seq::<SymbolView>::empty());
            },
            Some(k) => {
                let entry = &self.file_index[k].symbols;
                let mut i: usize = 0;
                while i < entry.len()
                    invariant
                        i <= entry.len(),
                        out@.len() == i,
                        forall|j: int| 0 <= j < i ==> out@[j] == entry@[j],
                    decreases entry.len() - i,
                {
                    out.push(share(&entry[i]));
                    i += 1;
                }
                assert(views(out@) =~= views(entry@));
            },
        }
        out
    }
}

/// Every symbol of the table stands among the symbols of its own file, and
/// what a file holds are symbols of the table with that file: the files
/// partition the table.
pub proof fn lemma_files_partition_table(table: Seq<SymbolView>, i: int, file: Seq<char>)
    requires
        0 <= i < table.len(),
    ensures
        table.filter(in_file(table[i].file)).contains(table[i]),
        forall|k: int|
            0 <= k < table.filter(in_file(file)).len() ==> {
                &&& table.contains(#[trigger] table.filter(in_file(file))[k])
                &&& table.filter(in_file(file))[k].file == file
            },
{
    table.lemma_filter_contains(in_file(table[i].file), i);
    assert forall|k: int| 0 <= k < table.filter(in_file(file)).len() implies {
        &&& table.contains(#[trigger] table.filter(in_file(file))[k])
        &&& table.filter(in_file(file))[k].file == file
    } by {
        table.lemma_filter_pred(in_file(file), k);
        table.lemma_filter_contains_rev(in_file(file), table.filter(in_file(file))[k]);
    }
}

/// Why a file was left out of the index.
#[derive(Clone, Copy, Debug, PartialEq, Eq, Structural)]
pub enum IndexError {
    /// The parser could not be set up or gave no tree.
    Parse(ParseError),
    /// The syntax tree is broken where a symbol needs it whole.
    Build(BuildError),
}

/// A source file as it was read: its path and its bytes.
pub struct SourceFile {
    pub path: String,
    pub source: Vec<u8>,
}

/// `outcome` is what indexing the file `path` with the text `source` gives:
/// the symbols of the walk over the syntax tree that the parser gives for the
/// source, or the failure of that walk, or the failure to parse where the
/// parser gives no tree.
pub open spec fn indexes(
    path: Seq<char>,
    source: Seq<u8>,
    outcome: Result<Vec<Arc<RSymbolV2>>, IndexError>,
) -> bool {
    if ruby_parses(source) {
        exists|tree: SyntaxTree|
            #[trigger] is_ruby_syntax(source, tree) && match file_symbols(path, &tree) {
                Ok(symbols) => outcome is Ok && views(outcome->Ok_0@) == symbols,
                Err(e) => outcome is Err && outcome->Err_0 == IndexError::Build(e),
            }
    } else {
        outcome is Err && outcome->Err_0 is Parse
    }
}

/// The symbols of the first `n` of `outcomes` that are no failures, one
/// file after the other.
pub open spec fn gathered(
    outcomes: Seq<Result<Vec<Arc<RSymbolV2>>, IndexError>>,
    n: int,
) -> Seq<SymbolView>
    decreases n,
{
    if n <= 0 {
        Seq::empty()
    } else {
        match outcomes[n - 1] {
            Ok(symbols) => gathered(outcomes, n - 1) + views(symbols@),
            Err(_) => gathered(outcomes, n - 1),
        }
    }
}

/// `table` holds what indexing each of `sources` gave, file after file in
/// their order and without the files that failed.
pub open spec fn gathers(sources: Seq<SourceFile>, table: Seq<SymbolView>) -> bool {
    exists|outcomes: Seq<Result<Vec<Arc<RSymbolV2>>, IndexError>>|
        {
            &&& outcomes.len() == sources.len()
            &&& forall|k: int|
                0 <= k < sources.len() ==> indexes(
                    (#[trigger] sources[k]).path@,
                    sources[k].source@,
                    outcomes[k],
                )
            &&& #[trigger] gathered(outcomes, outcomes.len() as int) == table
        }
}

/// Indexes the files of the project at `root_dir`.
pub struct Indexer {
    root_dir: String,
}

impl Indexer {
    pub closed spec fn root(&self) -> Seq<char> {
        self.root_dir@
    }

    pub fn new(root_dir: &str) -> (indexer: Indexer)
        ensures
            indexer.root() == root_dir@,
    {
        Indexer { root_dir: root_dir.to_owned() }
    }

    pub fn root_dir(&self) -> (root: &str)
        ensures
            root@ == self.root(),
    {
        self.root_dir.as_str()
    }

    /// The symbols that the file at `path` with the text `source` defines.
    /// The parser decides on the syntax tree; the symbols are those of the
    /// walk over it, and each carries `path` as its file.
    pub fn index_file(
        &self,
        path: &str,
        source: &[u8],
    ) -> (r: Result<Vec<Arc<RSymbolV2>>, IndexError>)
        ensures
            indexes(path@, source@, r),
            r matches Ok(symbols) ==> forall|i: int|
                0 <= i < symbols@.len() ==> (#[trigger] views(symbols@)[i]).file == path@,
    {
        let parsed = match parse(source) {
            Ok(parsed) => parsed,
            Err(e) => {
                return Err(IndexError::Parse(e));
            },
        };
        let tree = parsed.syntax();
        proof {
            lemma_file_symbols_in_file(path@, tree);
            assert(is_ruby_syntax(source@, *tree));
        }
        match index_file(path, tree) {
            Ok(symbols) => Ok(symbols),
            Err(e) => Err(IndexError::Build(e)),
        }
    }

    /// The table of the symbols of `sources`, file after file in the order
    /// given. A file that cannot be indexed is left out; the others are not
    /// touched by that.
    pub fn index(&self, sources: &Vec<SourceFile>) -> (table: SymbolTable)
        ensures
            table.wf(),
            gathers(sources@, table@),
    {
        let mut table = SymbolTable::new();
        let ghost mut outcomes: Seq<Result<Vec<Arc<RSymbolV2>>, IndexError>> = Seq::empty();
        let mut k: usize = 0;
        while k < sources.len()
            invariant
                k <= sources.len(),
                table.wf(),
                outcomes.len() == k,
                forall|j: int|
                    0 <= j < k ==> indexes(
                        (#[trigger] sources@[j]).path@,
                        sources@[j].source@,
                        outcomes[j],
                    ),
                gathered(outcomes, k as int) == table@,
            decreases sources.len() - k,
        {
            let outcome = self.index_file(sources[k].path.as_str(), sources[k].source.as_slice());
            let ghost before = outcomes;
            proof {
                outcomes = outcomes.push(outcome);
                lemma_gathered_prefix(before, outcomes, k as int);
            }
            match &outcome {
                Ok(symbols) => {
                    table.extend(symbols);
                },
                Err(_) => {},
            }
            k += 1;
        }
        table
    }
}

/// What is gathered from the first outcomes does not depend on the later
/// ones.
proof fn lemma_gathered_prefix(
    shorter: Seq<Result<Vec<Arc<RSymbolV2>>, IndexError>>,
    longer: Seq<Result<Vec<Arc<RSymbolV2>>, IndexError>>,
    n: int,
)
    requires
        0 <= n <= shorter.len() <= longer.len(),
        forall|k: int| 0 <= k < shorter.len() ==> shorter[k] == longer[k],
    ensures
        gathered(shorter, n) == gathered(longer, n),
    decreases n,
{
    if n > 0 {
        lemma_gathered_prefix(shorter, longer, n - 1);
    }
}

/// The files of every symbol that was gathered from `sources` are among them.
pub proof fn lemma_gathered_files(sources: Seq<SourceFile>, table: Seq<SymbolView>, i: int)
    requires
        gathers(sources, table),
        0 <= i < table.len(),
    ensures
        exists|k: int| 0 <= k < sources.len() && (#[trigger] sources[k]).path@ == table[i].file,
{
    let outcomes = choose|outcomes: Seq<Result<Vec<Arc<RSymbolV2>>, IndexError>>|
        {
            &&& outcomes.len() == sources.len()
            &&& forall|k: int|
                0 <= k < sources.len() ==> indexes(
                    (#[trigger] sources[k]).path@,
                    sources[k].source@,
                    outcomes[k],
                )
            &&& #[trigger] gathered(outcomes, outcomes.len() as int) == table
        };
    lemma_gathered_from(sources, outcomes, outcomes.len() as int, i);
}

proof fn lemma_gathered_from(
    sources: Seq<SourceFile>,
    outcomes: Seq<Result<Vec<Arc<RSymbolV2>>, IndexError>>,
    n: int,
    i: int,
)
    requires
        0 <= n <= outcomes.len(),
        outcomes.len() == sources.len(),
        forall|k: int|
            0 <= k < sources.len() ==> indexes(
                (#[trigger] sources[k]).path@,
                sources[k].source@,
                outcomes[k],
            ),
        0 <= i < gathered(outcomes, n).len(),
    ensures
        exists|k: int|
            0 <= k < sources.len() && (#[trigger] sources[k]).path@ == gathered(outcomes, n)[i].file,
    decreases n,
{
    if n > 0 {
        let before = gathered(outcomes, n - 1);
        if i < before.len() {
            lemma_gathered_from(sources, outcomes, n - 1, i);
            match outcomes[n - 1] {
                Ok(symbols) => {
                    assert(gathered(outcomes, n)[i] == before[i]);
                },
                Err(_) => {},
            }
        } else {
            match outcomes[n - 1] {
                Ok(symbols) => {
                    assert(indexes(sources[n - 1].path@, sources[n - 1].source@, outcomes[n - 1]));
                    let tree = choose|tree: SyntaxTree|
                        #[trigger] is_ruby_syntax(sources[n - 1].source@, tree) && match file_symbols(
                            sources[n - 1].path@,
                            &tree,
                        ) {
                            Ok(found) => outcomes[n - 1] is Ok && views(outcomes[n - 1]->Ok_0@)
                                == found,
                            Err(e) => outcomes[n - 1] is Err && outcomes[n - 1]->Err_0
                                == IndexError::Build(e),
                        };
                    lemma_file_symbols_in_file(sources[n - 1].path@, &tree);
                    assert(gathered(outcomes, n)[i] == views(symbols@)[i - before.len()]);
                    assert(sources[n - 1].path@ == gathered(outcomes, n)[i].file);
                },
                Err(_) => {},
            }
        }
    }
}

} // verus!
