//! Ranking of symbols against a free-text query.

use vstd::prelude::*;
use vstd::relations::{
    antisymmetric, reflexive, sorted_by, strongly_connected, total_ordering, transitive,
};
use vstd::string::StringSliceAdditionalSpecFns;
use std::sync::Arc;
use fuzzy_matcher::FuzzyMatcher;
use crate::text::{path_starts_with, path_within, share};
use crate::types::{views, RSymbolV2, SymbolView};

verus! {

/// What the fuzzy matcher makes of `pattern` in `choice`, with smart case: the
/// score and the positions of the matched characters, or `None` where
/// `pattern` does not match.
pub uninterp spec fn skim_match(choice: Seq<char>, pattern: Seq<char>) -> Option<(i64, Seq<usize>)>;

/// `SkimMatcherV2::fuzzy_indices` of a matcher made by `default` and
/// `smart_case`. The result depends on the two strings alone.
#[verifier::external_body]
fn fuzzy_indices(choice: &str, pattern: &str) -> (r: Option<(i64, Vec<usize>)>)
    ensures
        r is Some <==> skim_match(choice@, pattern@) is Some,
        r matches Some((score, positions)) ==> skim_match(choice@, pattern@) == Some(
            (score, positions@),
        ),
{
    fuzzy_matcher::skim::SkimMatcherV2::default().smart_case().fuzzy_indices(choice, pattern)
}

/// What decides the place of a match among the others.
#[derive(Clone, Copy, Debug, PartialEq, Eq, Structural)]
pub struct Rank {
    /// The score of the match.
    pub score: i64,
    /// Whether the symbol's file lies under the project root.
    pub in_root: bool,
    /// The position of the first matched character.
    pub first: usize,
    /// The position of the last matched character.
    pub last: usize,
    /// The length of the symbol's name in bytes.
    pub length: usize,
}

/// A symbol that matched, by its index in the table, with its rank.
#[derive(Clone, Copy, Debug, PartialEq, Eq, Structural)]
pub struct Candidate {
    pub rank: Rank,
    pub index: usize,
}

impl Rank {
    /// `self` ranks strictly before `other`: by the higher score, then by
    /// lying under the root, then by the earlier first match, then by the
    /// earlier last match, then by the shorter name.
    pub open spec fn precedes(self, other: Rank) -> bool {
        if self.score != other.score {
            self.score > other.score
        } else if self.in_root != other.in_root {
            self.in_root
        } else if self.first != other.first {
            self.first < other.first
        } else if self.last != other.last {
            self.last < other.last
        } else {
            self.length < other.length
        }
    }

    pub fn is_before(&self, other: &Rank) -> (r: bool)
        ensures
            r == self.precedes(*other),
    {
        if self.score != other.score {
            self.score > other.score
        } else if self.in_root != other.in_root {
            self.in_root
        } else if self.first != other.first {
            self.first < other.first
        } else if self.last != other.last {
            self.last < other.last
        } else {
            self.length < other.length
        }
    }
}

impl Candidate {
    /// `self` comes no later than `other`: by the better rank, and of two
    /// with the same rank by the lower index.
    pub open spec fn no_later(self, other: Candidate) -> bool {
        self.rank.precedes(other.rank) || (!other.rank.precedes(self.rank) && self.index
            <= other.index)
    }

    pub fn is_no_later(&self, other: &Candidate) -> (r: bool)
        ensures
            r == self.no_later(*other),
    {
        self.rank.is_before(&other.rank) || (!other.rank.is_before(&self.rank) && self.index
            <= other.index)
    }
}

/// The order of the ranking.
pub open spec fn ranking() -> spec_fn(Candidate, Candidate) -> bool {
    |a: Candidate, b: Candidate| a.no_later(b)
}

/// The candidates in the order of the ranking, best first.
pub open spec fn ranked(candidates: Seq<Candidate>) -> Seq<Candidate> {
    candidates.sort_by(ranking())
}

/// The ranking is a total order: any two candidates compare, and only a
/// candidate itself is as early as it.
pub proof fn lemma_ranking_is_total()
    ensures
        total_ordering(ranking()),
{
    let leq = ranking();
    assert(reflexive(leq));
    assert(antisymmetric(leq)) by {
        assert forall|a: Candidate, b: Candidate| #[trigger] leq(a, b) && #[trigger] leq(b, a) implies a
            == b by {
            assert(a.rank == b.rank);
        }
    }
    assert(transitive(leq)) by {
        assert forall|a: Candidate, b: Candidate, c: Candidate| #[trigger]
            leq(a, b) && #[trigger] leq(b, c) implies leq(a, c) by {
            lemma_precedes_chain(a.rank, b.rank, c.rank);
        }
    }
    assert(strongly_connected(leq));
}

/// Strict precedence of ranks passes along a chain, also where one link of
/// the chain is a tie.
proof fn lemma_precedes_chain(a: Rank, b: Rank, c: Rank)
    ensures
        a.precedes(b) && b.precedes(c) ==> a.precedes(c),
        a.precedes(b) && !c.precedes(b) ==> a.precedes(c),
        !b.precedes(a) && b.precedes(c) ==> a.precedes(c),
        !b.precedes(a) && !c.precedes(b) ==> !c.precedes(a),
{
}

/// Ranking keeps every candidate, as often as it occurs, and puts them in
/// order.
pub proof fn lemma_ranked(candidates: Seq<Candidate>)
    ensures
        sorted_by(ranked(candidates), ranking()),
        ranked(candidates).to_multiset() == candidates.to_multiset(),
        ranked(candidates).len() == candidates.len(),
{
    broadcast use vstd::seq_lib::group_to_multiset_ensures;

    lemma_ranking_is_total();
    candidates.lemma_sort_by_ensures(ranking());
    candidates.to_multiset_ensures();
    ranked(candidates).to_multiset_ensures();
}

/// Of two matches with the same score, one under the project root and one
/// outside it, the one under the root comes first in the ranking.
pub proof fn lemma_root_ranks_first(candidates: Seq<Candidate>, inside: int, outside: int)
    requires
        0 <= inside < candidates.len(),
        0 <= outside < candidates.len(),
        candidates[inside].rank.score == candidates[outside].rank.score,
        candidates[inside].rank.in_root,
        !candidates[outside].rank.in_root,
    ensures
        exists|p: int, q: int|
            0 <= p < q < ranked(candidates).len() && ranked(candidates)[p] == candidates[inside]
                && ranked(candidates)[q] == candidates[outside],
{
    broadcast use vstd::seq_lib::group_to_multiset_ensures;

    lemma_ranked(candidates);
    let r = ranked(candidates);
    candidates.to_multiset_ensures();
    r.to_multiset_ensures();
    assert(candidates.contains(candidates[inside]));
    assert(candidates.contains(candidates[outside]));
    assert(r.to_multiset().count(candidates[inside]) > 0);
    assert(r.to_multiset().count(candidates[outside]) > 0);
    assert(r.contains(candidates[inside]));
    assert(r.contains(candidates[outside]));
    let p = choose|p: int| 0 <= p < r.len() && r[p] == candidates[inside];
    let q = choose|q: int| 0 <= q < r.len() && r[q] == candidates[outside];
    assert(candidates[inside].rank.precedes(candidates[outside].rank));
    if q < p {
        assert((ranking())(r[q], r[p]));
    }
    assert(p < q);
}

/// Of two matches, the one with the higher score comes first in the
/// ranking, whatever else holds of them: where the matcher scores an exact
/// name above a scattered match, the exact name comes first.
pub proof fn lemma_higher_score_ranks_first(candidates: Seq<Candidate>, higher: int, lower: int)
    requires
        0 <= higher < candidates.len(),
        0 <= lower < candidates.len(),
        candidates[higher].rank.score > candidates[lower].rank.score,
    ensures
        exists|p: int, q: int|
            0 <= p < q < ranked(candidates).len() && ranked(candidates)[p] == candidates[higher]
                && ranked(candidates)[q] == candidates[lower],
{
    broadcast use vstd::seq_lib::group_to_multiset_ensures;

    lemma_ranked(candidates);
    let r = ranked(candidates);
    candidates.to_multiset_ensures();
    r.to_multiset_ensures();
    assert(candidates.contains(candidates[higher]));
    assert(candidates.contains(candidates[lower]));
    assert(r.to_multiset().count(candidates[higher]) > 0);
    assert(r.to_multiset().count(candidates[lower]) > 0);
    assert(r.contains(candidates[higher]));
    assert(r.contains(candidates[lower]));
    let p = choose|p: int| 0 <= p < r.len() && r[p] == candidates[higher];
    let q = choose|q: int| 0 <= q < r.len() && r[q] == candidates[lower];
    assert(candidates[higher].rank.precedes(candidates[lower].rank));
    if q < p {
        assert((ranking())(r[q], r[p]));
    }
    assert(p < q);
}

/// One list in order out of two that are in order.
fn merge(left: &Vec<Candidate>, right: &Vec<Candidate>) -> (r: Vec<Candidate>)
    requires
        sorted_by(left@, ranking()),
        sorted_by(right@, ranking()),
    ensures
        sorted_by(r@, ranking()),
        r@.to_multiset() == left@.to_multiset().add(right@.to_multiset()),
{
    broadcast use vstd::seq_lib::group_to_multiset_ensures;
    broadcast use vstd::multiset::group_multiset_axioms;

    let mut out: Vec<Candidate> = Vec::new();
    let mut i: usize = 0;
    let mut j: usize = 0;
    proof {
        lemma_ranking_is_total();
        assert(left@.take(0) =~= Seq::<Candidate>::empty());
        assert(right@.take(0) =~= Seq::<Candidate>::empty());
        assert(out@.to_multiset() =~= left@.take(0).to_multiset().add(right@.take(0).to_multiset()));
    }
    while i < left.len() || j < right.len()
        invariant
            i <= left.len(),
            j <= right.len(),
            total_ordering(ranking()),
            sorted_by(left@, ranking()),
            sorted_by(right@, ranking()),
            sorted_by(out@, ranking()),
            out@.to_multiset() == left@.take(i as int).to_multiset().add(
                right@.take(j as int).to_multiset(),
            ),
            forall|k: int|
                0 <= k < out@.len() && i < left.len() ==> #[trigger] out@[k].no_later(
                    left@[i as int],
                ),
            forall|k: int|
                0 <= k < out@.len() && j < right.len() ==> #[trigger] out@[k].no_later(
                    right@[j as int],
                ),
        decreases left.len() - i + right.len() - j,
    {
        let from_left = j >= right.len() || (i < left.len() && left[i].is_no_later(&right[j]));
        let ghost before = out@;
        if from_left {
            let x = left[i];
            out.push(x);
            proof {
                assert(left@.take(i + 1) =~= left@.take(i as int).push(x));
                assert(out@ =~= before.push(x));
                vstd::seq_lib::to_multiset_build(before, x);
                vstd::seq_lib::to_multiset_build(left@.take(i as int), x);
                assert(out@.to_multiset() =~= left@.take(i + 1).to_multiset().add(
                    right@.take(j as int).to_multiset(),
                ));
                assert forall|a: int, b: int| 0 <= a < b < out@.len() implies #[trigger] (ranking())(
                    out@[a],
                    out@[b],
                ) by {
                    if b < before.len() {
                        assert((ranking())(before[a], before[b]));
                    } else {
                        assert(before[a].no_later(x));
                    }
                }
                assert forall|k: int| 0 <= k < out@.len() && i + 1 < left.len() implies #[trigger] 
                    out@[k].no_later(left@[i + 1]) by {
                    assert((ranking())(left@[i as int], left@[i + 1]));
                    if k < before.len() {
                        assert(before[k].no_later(x));
                        lemma_precedes_chain(out@[k].rank, x.rank, left@[i + 1].rank);
                    }
                }
                assert forall|k: int| 0 <= k < out@.len() && j < right.len() implies #[trigger] 
                    out@[k].no_later(right@[j as int]) by {
                    if k < before.len() {
                        assert(before[k].no_later(right@[j as int]));
                    }
                }
            }
            i += 1;
        } else {
            let x = right[j];
            out.push(x);
            proof {
                assert(right@.take(j + 1) =~= right@.take(j as int).push(x));
                assert(out@ =~= before.push(x));
                vstd::seq_lib::to_multiset_build(before, x);
                vstd::seq_lib::to_multiset_build(right@.take(j as int), x);
                assert(out@.to_multiset() =~= left@.take(i as int).to_multiset().add(
                    right@.take(j + 1).to_multiset(),
                ));
                assert forall|a: int, b: int| 0 <= a < b < out@.len() implies #[trigger] (ranking())(
                    out@[a],
                    out@[b],
                ) by {
                    if b < before.len() {
                        assert((ranking())(before[a], before[b]));
                    } else {
                        assert(before[a].no_later(x));
                    }
                }
                assert forall|k: int| 0 <= k < out@.len() && j + 1 < right.len() implies #[trigger] 
                    out@[k].no_later(right@[j + 1]) by {
                    assert((ranking())(right@[j as int], right@[j + 1]));
                    if k < before.len() {
                        assert(before[k].no_later(x));
                        lemma_precedes_chain(out@[k].rank, x.rank, right@[j + 1].rank);
                    }
                }
                assert forall|k: int| 0 <= k < out@.len() && i < left.len() implies #[trigger] 
                    out@[k].no_later(left@[i as int]) by {
                    if k < before.len() {
                        assert(before[k].no_later(left@[i as int]));
                    } else {
                        assert(!left@[i as int].no_later(x));
                    }
                }
            }
            j += 1;
        }
    }
    assert(left@.take(left.len() as int) =~= left@);
    assert(right@.take(right.len() as int) =~= right@);
    out
}

/// The candidates `low..high` of `candidates` in the order of the ranking.
fn sort_range(candidates: &Vec<Candidate>, low: usize, high: usize) -> (r: Vec<Candidate>)
    requires
        low <= high <= candidates.len(),
    ensures
        sorted_by(r@, ranking()),
        r@.to_multiset() == candidates@.subrange(low as int, high as int).to_multiset(),
    decreases high - low,
{
    if high - low <= 1 {
        let mut out: Vec<Candidate> = Vec::new();
        if high > low {
            out.push(candidates[low]);
        }
        assert(out@ =~= candidates@.subrange(low as int, high as int));
        return out;
    }
    let middle = low + (high - low) / 2;
    let left = sort_range(candidates, low, middle);
    let right = sort_range(candidates, middle, high);
    let r = merge(&left, &right);
    proof {
        let first = candidates@.subrange(low as int, middle as int);
        let second = candidates@.subrange(middle as int, high as int);
        assert(candidates@.subrange(low as int, high as int) =~= first + second);
        vstd::seq_lib::lemma_multiset_commutative(first, second);
    }
    r
}

/// Puts `candidates` in the order of the ranking, best first. Of two
/// candidates with the same rank the one with the lower index comes first.
pub fn rank(candidates: &Vec<Candidate>) -> (r: Vec<Candidate>)
    ensures
        r@ == ranked(candidates@),
{
    let r = sort_range(candidates, 0, candidates.len());
    proof {
        assert(candidates@.subrange(0, candidates.len() as int) =~= candidates@);
        lemma_ranked(candidates@);
        lemma_ranking_is_total();
        vstd::seq_lib::lemma_sorted_unique(r@, ranked(candidates@), ranking());
    }
    r
}

/// The rank of a match: `positions` are those of the matched characters.
/// Without any, the first and the last count as 0.
pub open spec fn rank_for(
    symbol: SymbolView,
    root: Seq<char>,
    score: i64,
    positions: Seq<usize>,
) -> Rank {
    Rank {
        score,
        in_root: path_within(symbol.file, root),
        first: if positions.len() > 0 {
            positions.first()
        } else {
            0
        },
        last: if positions.len() > 0 {
            positions.last()
        } else {
            0
        },
        length: vstd::utf8::encode_utf8(symbol.name).len() as usize,
    }
}

/// The rank of `symbol` for a match with `score` at `positions`.
pub fn rank_of(symbol: &RSymbolV2, root: &str, score: i64, positions: &Vec<usize>) -> (r: Rank)
    ensures
        r == rank_for(symbol@, root@, score, positions@),
{
    let n = positions.len();
    Rank {
        score,
        in_root: path_starts_with(symbol.file.as_str(), root),
        first: if n > 0 {
            positions[0]
        } else {
            0
        },
        last: if n > 0 {
            positions[n - 1]
        } else {
            0
        },
        length: symbol.name.as_str().len(),
    }
}

/// The candidates among the first `n` of `symbols`: those whose name the
/// query matches, each with its rank, in the order of the table.
pub open spec fn candidates_upto(
    symbols: Seq<SymbolView>,
    query: Seq<char>,
    root: Seq<char>,
    n: int,
) -> Seq<Candidate>
    decreases n,
{
    if n <= 0 {
        Seq::empty()
    } else {
        let before = candidates_upto(symbols, query, root, n - 1);
        match skim_match(symbols[n - 1].name, query) {
            Some((score, positions)) => before.push(
                Candidate {
                    rank: rank_for(symbols[n - 1], root, score, positions),
                    index: (n - 1) as usize,
                },
            ),
            None => before,
        }
    }
}

/// The symbols that the query matches, best first. The empty query matches
/// nothing.
pub open spec fn matches_of(
    symbols: Seq<SymbolView>,
    query: Seq<char>,
    root: Seq<char>,
) -> Seq<SymbolView> {
    if query.len() == 0 {
        Seq::empty()
    } else {
        ranked(candidates_upto(symbols, query, root, symbols.len() as int)).map_values(
            |c: Candidate| symbols[c.index as int],
        )
    }
}

proof fn lemma_candidates_index(symbols: Seq<SymbolView>, query: Seq<char>, root: Seq<char>, n: int)
    requires
        n <= symbols.len(),
    ensures
        forall|k: int|
            0 <= k < candidates_upto(symbols, query, root, n).len() ==> (
            #[trigger] candidates_upto(symbols, query, root, n)[k]).index < symbols.len(),
    decreases n,
{
    if n > 0 {
        lemma_candidates_index(symbols, query, root, n - 1);
        let before = candidates_upto(symbols, query, root, n - 1);
        let all = candidates_upto(symbols, query, root, n);
        assert forall|k: int| 0 <= k < all.len() implies (#[trigger] all[k]).index
            < symbols.len() by {
            if k < before.len() {
                assert(all[k] == before[k]);
            } else {
                assert(all[k].index == (n - 1) as usize);
            }
        }
    }
}

/// Matches symbol names against a query and ranks the matches.
pub struct SymbolsMatcher {
    root_path: String,
}

impl SymbolsMatcher {
    pub closed spec fn root(&self) -> Seq<char> {
        self.root_path@
    }

    /// A matcher that prefers symbols under `root_path`.
    pub fn new(root_path: &str) -> (matcher: SymbolsMatcher)
        ensures
            matcher.root() == root_path@,
    {
        SymbolsMatcher { root_path: root_path.to_owned() }
    }

    /// The symbols whose name the query matches, best first: by the score of
    /// the match, then symbols of the project before others, then the earlier
    /// and the tighter match, then the shorter name. The empty query matches
    /// nothing.
    pub fn match_rsymbols(
        &self,
        query: &str,
        symbols: &Vec<Arc<RSymbolV2>>,
    ) -> (r: Vec<Arc<RSymbolV2>>)
        ensures
            views(r@) == matches_of(views(symbols@), query@, self.root()),
    {
        if query.is_empty() {
            return Vec::new();
        }
        let mut candidates: Vec<Candidate> = Vec::new();
        let mut i: usize = 0;
        while i < symbols.len()
            invariant
                i <= symbols.len(),
                candidates@ == candidates_upto(views(symbols@), query@, self.root(), i as int),
            decreases symbols.len() - i,
        {
            let symbol = &symbols[i];
            assert(views(symbols@)[i as int] == (**symbol)@);
            match fuzzy_indices(symbol.name.as_str(), query) {
                Some((score, positions)) => {
                    let rank = rank_of(symbol, self.root_path.as_str(), score, &positions);
                    candidates.push(Candidate { rank, index: i });
                },
                None => {},
            }
            i += 1;
        }
        let sorted = rank(&candidates);
        proof {
            lemma_candidates_index(views(symbols@), query@, self.root(), symbols.len() as int);
            lemma_ranked(candidates@);
            assert forall|k: int| 0 <= k < sorted@.len() implies (#[trigger] sorted@[k]).index
                < symbols.len() by {
                broadcast use vstd::seq_lib::group_to_multiset_ensures;

                sorted@.to_multiset_ensures();
                candidates@.to_multiset_ensures();
                assert(sorted@.contains(sorted@[k]));
                assert(candidates@.to_multiset().count(sorted@[k]) > 0);
                assert(candidates@.contains(sorted@[k]));
            }
        }
        let mut out: Vec<Arc<RSymbolV2>> = Vec::new();
        let mut k: usize = 0;
        while k < sorted.len()
            invariant
                k <= sorted.len(),
                out@.len() == k,
                forall|j: int| 0 <= j < sorted@.len() ==> (#[trigger] sorted@[j]).index < symbols.len(),
                forall|j: int| 0 <= j < k ==> out@[j] == symbols@[sorted@[j].index as int],
            decreases sorted.len() - k,
        {
            out.push(share(&symbols[sorted[k].index]));
            k += 1;
        }
        assert(views(out@) =~= matches_of(views(symbols@), query@, self.root()));
        out
    }
}

} // verus!
