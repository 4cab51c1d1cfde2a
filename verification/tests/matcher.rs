use ruby_ls::finder::Finder;
use ruby_ls::indexer::{Indexer, SourceFile};
use ruby_ls::ruby_filename_converter::RubyFilenameConverter;
use ruby_ls::symbols_matcher::{rank, Candidate, Rank, SymbolsMatcher};

fn finder_over(root: &str, files: &[(&str, &str)]) -> Finder {
    let sources: Vec<SourceFile> = files
        .iter()
        .map(|(path, source)| SourceFile {
            path: path.to_string(),
            source: source.as_bytes().to_vec(),
        })
        .collect();
    let table = Indexer::new(root).index(&sources);
    let converter = RubyFilenameConverter::new(root.to_string(), b"").unwrap();
    Finder::new(root, table, converter)
}

fn candidate(score: i64, in_root: bool, first: usize, last: usize, length: usize, index: usize) -> Candidate {
    Candidate { rank: Rank { score, in_root, first, last, length }, index }
}

#[test]
fn empty_query_finds_nothing() {
    let finder = finder_over("/p", &[("/p/a.rb", "class Account\nend\n")]);
    assert!(finder.fuzzy_find_symbol("").is_empty());
    assert_eq!(finder.fuzzy_find_symbol("Account").len(), 1);
}

#[test]
fn exact_name_ranks_above_a_scattered_match() {
    let source = "class Account\nend\nclass AbstractCountingUnit\nend\nclass Other\nend\n";
    let finder = finder_over("/p", &[("/p/a.rb", source)]);
    let found: Vec<_> = finder.fuzzy_find_symbol("Account").iter().map(|s| s.name.clone()).collect();
    assert_eq!(found.first().map(|s| s.as_str()), Some("Account"));
    assert!(!found.contains(&"Other".to_string()));
}

#[test]
fn project_symbol_ranks_before_an_external_one_of_the_same_score() {
    let finder =
        finder_over("/p", &[("/gems/g.rb", "class Widget\nend\n"), ("/p/a.rb", "class Widget\nend\n")]);
    let found: Vec<_> = finder.fuzzy_find_symbol("Widget").iter().map(|s| s.file.clone()).collect();
    assert_eq!(found, vec!["/p/a.rb", "/gems/g.rb"]);
}

#[test]
fn matcher_is_the_ranking_behind_the_finder() {
    let sources = vec![SourceFile { path: "/p/a.rb".to_string(), source: b"def alpha\nend\ndef beta\nend\n".to_vec() }];
    let table = Indexer::new("/p").index(&sources);
    let matcher = SymbolsMatcher::new("/p");
    let found: Vec<_> =
        matcher.match_rsymbols("bet", table.symbols()).iter().map(|s| s.name.clone()).collect();
    assert_eq!(found, vec!["beta"]);
    assert!(matcher.match_rsymbols("zzz", table.symbols()).is_empty());
}

#[test]
fn rank_orders_by_each_key_in_turn() {
    let candidates = vec![
        candidate(10, true, 0, 3, 9, 0),
        candidate(10, true, 0, 3, 4, 1),
        candidate(10, true, 0, 2, 9, 2),
        candidate(10, true, 1, 2, 1, 3),
        candidate(10, false, 0, 0, 1, 4),
        candidate(20, false, 9, 9, 9, 5),
        candidate(-5, true, 0, 0, 0, 6),
    ];
    let order: Vec<usize> = rank(&candidates).iter().map(|c| c.index).collect();
    assert_eq!(order, vec![5, 2, 1, 0, 3, 4, 6]);
}

#[test]
fn rank_keeps_the_order_of_equal_candidates() {
    let candidates = vec![
        candidate(1, true, 0, 0, 1, 0),
        candidate(2, true, 0, 0, 1, 1),
        candidate(1, true, 0, 0, 1, 2),
        candidate(2, true, 0, 0, 1, 3),
    ];
    let order: Vec<usize> = rank(&candidates).iter().map(|c| c.index).collect();
    assert_eq!(order, vec![1, 3, 0, 2]);
    assert!(rank(&Vec::new()).is_empty());
}

#[test]
fn matcher_returns_nothing_for_the_empty_query() {
    let sources = vec![SourceFile { path: "/p/a.rb".to_string(), source: b"def alpha\nend\n".to_vec() }];
    let table = Indexer::new("/p").index(&sources);
    assert!(SymbolsMatcher::new("/p").match_rsymbols("", table.symbols()).is_empty());
}

#[test]
fn rank_sorts_many_candidates() {
    let mut candidates = Vec::new();
    for index in 0..1000usize {
        let score = ((index * 7919) % 101) as i64;
        candidates.push(candidate(score, index % 3 == 0, index % 5, index % 7, index % 11, index));
    }
    let sorted = rank(&candidates);
    assert_eq!(sorted.len(), candidates.len());
    for pair in sorted.windows(2) {
        let (a, b) = (pair[0].rank, pair[1].rank);
        let key = |r: Rank| (-r.score, !r.in_root, r.first, r.last, r.length);
        assert!(key(a) <= key(b));
        if key(a) == key(b) {
            assert!(pair[0].index < pair[1].index);
        }
    }
    let mut indices: Vec<usize> = sorted.iter().map(|c| c.index).collect();
    indices.sort();
    assert_eq!(indices, (0..1000).collect::<Vec<_>>());
}
