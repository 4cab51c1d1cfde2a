use ruby_ls::finder::{Finder, ResolutionError};
use ruby_ls::indexer::{Indexer, SourceFile, SymbolTable};
use ruby_ls::kinds::NodeKind;
use ruby_ls::point::Point;
use ruby_ls::ruby_filename_converter::RubyFilenameConverter;
use ruby_ls::scope::Scope;
use ruby_ls::types::{RSymbolKind, RSymbolV2};
use std::sync::Arc;

fn finder_over(root: &str, files: &[(&str, &str)]) -> Finder {
    let sources: Vec<SourceFile> = files
        .iter()
        .map(|(path, source)| SourceFile {
            path: path.to_string(),
            source: source.as_bytes().to_vec(),
        })
        .collect();
    let table = Indexer::new(root).index(&sources);
    let converter = RubyFilenameConverter::new(root.to_string(), b"app/models\nlib\n").unwrap();
    Finder::new(root, table, converter)
}

fn at(source: &str, needle: &str, occurrence: usize) -> Point {
    let offset = source.match_indices(needle).nth(occurrence).unwrap().0;
    let before = &source[..offset];
    let row = before.matches('\n').count();
    let column = offset - before.rfind('\n').map(|i| i + 1).unwrap_or(0);
    Point::new(row, column)
}

fn describe(symbols: &[Arc<RSymbolV2>]) -> Vec<(String, String, String)> {
    symbols.iter().map(|s| (s.file.clone(), s.scope.to_string(), s.name.clone())).collect()
}

fn triple(file: &str, scope: &str, name: &str) -> (String, String, String) {
    (file.to_string(), scope.to_string(), name.to_string())
}

#[test]
fn local_assignment_wins_over_parameter_end_to_end() {
    let source = "module A; class B; def foo(x); y = x; y; end; end; end";
    let finder = finder_over("/p", &[("/p/a.rb", source)]);
    let position = at(source, "y", 1);
    let found = finder.find_definition("/p/a.rb", source.as_bytes(), position).unwrap();
    assert_eq!(found.len(), 1);
    assert_eq!(found[0].start, at(source, "y = x", 0));
    assert_eq!(found[0].end, Point::new(0, found[0].start.column + 1));
    assert_eq!(found[0].name, "y");
    assert!(matches!(found[0].kind, RSymbolKind::Variable));
    assert_eq!(found[0].scope.to_string(), "A::B");
    assert_eq!(found[0].parent.as_ref().unwrap().name, "foo");
    assert_ne!(found[0].start, at(source, "x)", 0));
}

#[test]
fn qualified_class_is_found_by_its_qualified_name() {
    let definition = "class Outer::Inner; end";
    let reference = "x = Outer::Inner\n";
    let finder = finder_over("/p", &[("/p/a.rb", definition), ("/p/b.rb", reference)]);
    let found =
        finder.find_definition("/p/b.rb", reference.as_bytes(), at(reference, "Inner", 0)).unwrap();
    assert_eq!(describe(&found), vec![triple("/p/a.rb", "Outer", "Inner")]);
    assert!(matches!(found[0].kind, RSymbolKind::Class { .. }));
}

#[test]
fn nested_constant_is_preferred_over_an_unrelated_one() {
    let nested = "module A\n  module B\n    class C\n      D = 1\n      def use\n        D\n      end\n    end\n  end\nend\n";
    let other = "D = 2\n";
    let file = "/p/app/models/a/b/c.rb";
    let finder = finder_over("/p", &[("/p/other.rb", other), (file, nested)]);
    let found = finder.find_definition(file, nested.as_bytes(), at(nested, "D", 1)).unwrap();
    assert_eq!(describe(&found), vec![triple(file, "A::B::C", "D")]);
}

#[test]
fn nested_constant_comes_first_where_the_file_names_no_namespace() {
    let nested = "module A\n  module B\n    class C\n      D = 1\n      def use\n        D\n      end\n    end\n  end\nend\n";
    let other = "D = 2\n";
    let finder = finder_over("/p", &[("/p/other.rb", other), ("/p/nested.rb", nested)]);
    let found =
        finder.find_definition("/p/nested.rb", nested.as_bytes(), at(nested, "D", 1)).unwrap();
    assert_eq!(
        describe(&found),
        vec![triple("/p/nested.rb", "A::B::C", "D"), triple("/p/other.rb", "", "D")]
    );
}

#[test]
fn constant_falls_back_to_the_name_anywhere() {
    let user = "module A\n  def use\n    Thing\n  end\nend\n";
    let other = "class Thing\nend\n";
    let finder = finder_over("/p", &[("/p/other.rb", other), ("/p/user.rb", user)]);
    let found = finder.find_definition("/p/user.rb", user.as_bytes(), at(user, "Thing", 0)).unwrap();
    assert_eq!(describe(&found), vec![triple("/p/other.rb", "", "Thing")]);
}

#[test]
fn constant_in_the_same_file_is_found_as_it_stands() {
    let source = "class Thing\nend\nmodule A\n  Thing\nend\n";
    let other = "class Thing\nend\n";
    let finder = finder_over("/q", &[("/p/other.rb", other), ("/p/user.rb", source)]);
    let found =
        finder.find_definition("/p/user.rb", source.as_bytes(), at(source, "Thing", 1)).unwrap();
    assert_eq!(describe(&found), vec![triple("/p/user.rb", "", "Thing")]);
}

#[test]
fn file_name_gives_a_namespace_to_look_in() {
    let definition = "module Billing\n  class Invoice\n  end\nend\n";
    let user = "Invoice\n";
    let finder = finder_over(
        "/p",
        &[("/p/app/models/billing/invoice.rb", definition), ("/p/app/models/billing/user.rb", user)],
    );
    let found = finder
        .find_definition("/p/app/models/billing/user.rb", user.as_bytes(), Point::new(0, 0))
        .unwrap();
    assert_eq!(describe(&found), vec![triple("/p/app/models/billing/invoice.rb", "Billing", "Invoice")]);
}

#[test]
fn absolute_reference_matches_only_the_top_level() {
    let source = "class Foo\nend\nmodule A\n  class Foo\n  end\n  def use\n    ::Foo\n  end\n  def other\n    Foo\n  end\nend\n";
    let finder = finder_over("/p", &[("/p/a.rb", source)]);
    let absolute =
        finder.find_definition("/p/a.rb", source.as_bytes(), at(source, "::Foo", 0)).unwrap_err();
    assert_eq!(absolute, ResolutionError::UnsupportedNodeKind(NodeKind::Unknown));
    let found = finder.find_definition("/p/a.rb", source.as_bytes(), at(source, "Foo", 2)).unwrap();
    assert_eq!(describe(&found), vec![triple("/p/a.rb", "", "Foo")]);
    let relative =
        finder.find_definition("/p/a.rb", source.as_bytes(), at(source, "Foo", 3)).unwrap();
    assert_eq!(describe(&relative), vec![triple("/p/a.rb", "A", "Foo"), triple("/p/a.rb", "", "Foo")]);
}

#[test]
fn parameter_is_found_without_an_assignment() {
    let source = "class A\n  def foo(x, y = 1)\n    x + y\n  end\nend\n";
    let finder = finder_over("/p", &[("/p/a.rb", source)]);
    let found = finder.find_definition("/p/a.rb", source.as_bytes(), at(source, "x", 1)).unwrap();
    assert_eq!(found.len(), 1);
    assert_eq!(found[0].start, at(source, "x", 0));
    let found = finder.find_definition("/p/a.rb", source.as_bytes(), at(source, "y", 1)).unwrap();
    assert_eq!(found[0].start, at(source, "y", 0));
}

#[test]
fn assignment_wins_over_parameter_of_the_same_name() {
    let source = "def foo(x)\n  x = 1\n  x = 2\n  x\n  x = 3\nend\n";
    let finder = finder_over("/p", &[("/p/a.rb", source)]);
    let found = finder.find_definition("/p/a.rb", source.as_bytes(), at(source, "x", 3)).unwrap();
    assert_eq!(found.len(), 1);
    assert_eq!(found[0].start, at(source, "x = 2", 0));
}

#[test]
fn identifier_outside_a_method_has_no_definition() {
    let source = "class A\n  x = 1\n  x\nend\ny = 1\ny\n";
    let finder = finder_over("/p", &[("/p/a.rb", source)]);
    let in_class = finder.find_definition("/p/a.rb", source.as_bytes(), at(source, "x", 1)).unwrap();
    assert!(in_class.is_empty());
    let at_top = finder.find_definition("/p/a.rb", source.as_bytes(), at(source, "y", 1)).unwrap();
    assert!(at_top.is_empty());
}

#[test]
fn calls_resolve_by_receiver() {
    let source = "class A\n  def one\n  end\n  def self.make\n  end\n  def two\n    one()\n    self.one\n    B.one\n    thing.one\n  end\n  def self.three\n    make()\n    B.build\n    ::B.build\n  end\nend\nclass B\n  def self.build\n  end\n  def one\n  end\nend\n";
    let external = "class Z\n  def one\n  end\nend\n";
    let finder = finder_over("/p", &[("/gems/z.rb", external), ("/p/a.rb", source)]);
    let find = |needle: &str, occurrence: usize| {
        describe(
            &finder.find_definition("/p/a.rb", source.as_bytes(), at(source, needle, occurrence)).unwrap(),
        )
    };
    assert_eq!(find("one()", 0), vec![triple("/p/a.rb", "A", "one")]);
    assert_eq!(find("one\n    B", 0), vec![triple("/p/a.rb", "A", "one")]);
    assert_eq!(find("one\n    thing", 0), vec![triple("/p/a.rb", "B", "one")]);
    assert_eq!(find("build\n", 0), vec![triple("/p/a.rb", "B", "build")]);
    assert_eq!(find("build\n", 1), vec![triple("/p/a.rb", "B", "build")]);
    assert_eq!(
        find("one\n  end\n  def self.three", 0),
        vec![triple("/p/a.rb", "A", "one"), triple("/p/a.rb", "B", "one"), triple("/gems/z.rb", "Z", "one")]
    );
    assert_eq!(find("make()", 0), vec![triple("/p/a.rb", "A", "make")]);
}

#[test]
fn bare_name_finds_members_of_the_namespace() {
    let source = "class A\n  attr_reader :size\n  def grow\n    size\n  end\nend\nclass B\n  attr_reader :size\nend\n";
    let finder = finder_over("/p", &[("/p/a.rb", source)]);
    let found = finder.find_definition("/p/a.rb", source.as_bytes(), at(source, "size", 1)).unwrap();
    assert_eq!(describe(&found), vec![triple("/p/a.rb", "A", "size")]);
    assert!(matches!(found[0].kind, RSymbolKind::InstanceVariable));
}

#[test]
fn global_variables_are_found_by_name_alone() {
    let a = "module A\n  $counter = 0\nend\n";
    let b = "def bump\n  $counter\nend\n$other = 1\n";
    let finder = finder_over("/p", &[("/p/a.rb", a), ("/p/b.rb", b)]);
    let found = finder.find_definition("/p/b.rb", b.as_bytes(), at(b, "$counter", 0)).unwrap();
    assert_eq!(describe(&found), vec![triple("/p/a.rb", "", "$counter")]);
}

#[test]
fn unsupported_node_is_told_apart_from_no_result() {
    let source = "class A\n  def foo\n    @x\n    unknown_name\n  end\nend\n";
    let finder = finder_over("/p", &[("/p/a.rb", source)]);
    assert_eq!(
        finder.find_definition("/p/a.rb", source.as_bytes(), at(source, "@x", 0)),
        Err(ResolutionError::UnsupportedNodeKind(NodeKind::InstanceVariable))
    );
    assert_eq!(
        finder.find_definition("/p/a.rb", source.as_bytes(), at(source, "unknown_name", 0)),
        Ok(Vec::new())
    );
}

#[test]
fn symbols_of_a_file_are_exactly_those_with_that_file() {
    let a = "class A\n  def one\n  end\nend\n";
    let b = "class B\nend\n";
    let finder = finder_over("/p", &[("/p/a.rb", a), ("/p/b.rb", b), ("/p/c.rb", "")]);
    assert_eq!(
        describe(&finder.find_by_path("/p/a.rb")),
        vec![triple("/p/a.rb", "A", "one"), triple("/p/a.rb", "", "A")]
    );
    assert_eq!(describe(&finder.find_by_path("/p/b.rb")), vec![triple("/p/b.rb", "", "B")]);
    assert!(finder.find_by_path("/p/c.rb").is_empty());
    assert!(finder.find_by_path("/p/missing.rb").is_empty());
}

#[test]
fn table_keeps_insertion_order_and_groups_by_file() {
    let indexer = Indexer::new("/p");
    let a = indexer.index_file("/p/a.rb", b"class A\nend\n").unwrap();
    let b = indexer.index_file("/p/b.rb", b"class B\nend\n").unwrap();
    let more = indexer.index_file("/p/a.rb", b"class C\nend\n").unwrap();
    let mut table = SymbolTable::new();
    table.extend(&a);
    table.extend(&b);
    table.extend(&more);
    let names: Vec<_> = table.symbols().iter().map(|s| s.name.clone()).collect();
    assert_eq!(names, vec!["A", "B", "C"]);
    let in_a: Vec<_> = table.file_symbols("/p/a.rb").iter().map(|s| s.name.clone()).collect();
    assert_eq!(in_a, vec!["A", "C"]);
    assert_eq!(table.file_symbols("/p/b.rb").len() + in_a.len(), table.len());
}

#[test]
fn method_in_scope_distinguishes_kind_and_namespace() {
    let source = "class A\n  def run\n  end\n  def self.run\n  end\nend\nclass B\n  def run\n  end\nend\n";
    let finder = finder_over("/p", &[("/p/a.rb", source)]);
    let a = Scope::from_name("A");
    let instance = finder.find_method_in_scope("run", &a, false);
    assert_eq!(instance.len(), 1);
    assert!(matches!(instance[0].kind, RSymbolKind::InstanceMethod { .. }));
    let singleton = finder.find_method_in_scope("run", &a, true);
    assert_eq!(singleton.len(), 1);
    assert!(matches!(singleton[0].kind, RSymbolKind::SingletonMethod { .. }));
    assert!(finder.find_method_in_scope("run", &Scope::from_name("C"), false).is_empty());
    let absolute = Scope::from_names(&vec!["$GLOBAL", "B"]);
    assert_eq!(finder.find_method_in_scope("run", &absolute, false).len(), 1);
}

#[test]
fn position_behind_the_text_is_no_panic() {
    let source = "class A\nend\n";
    let finder = finder_over("/p", &[("/p/a.rb", source)]);
    let answer = finder.find_definition("/p/a.rb", source.as_bytes(), Point::new(100, 100));
    assert!(matches!(
        answer,
        Err(ResolutionError::PositionOutOfRange) | Err(ResolutionError::UnsupportedNodeKind(_))
    ));
    let empty = finder.find_definition("/p/b.rb", b"", Point::new(0, 0));
    assert!(matches!(
        empty,
        Err(ResolutionError::PositionOutOfRange) | Err(ResolutionError::UnsupportedNodeKind(_))
    ));
}

#[test]
fn deep_and_long_sources_are_handled() {
    let mut source = String::from("module Big\n  class Holder\n    def total\n      x = 0");
    for _ in 0..3000 {
        source.push_str(" + 1");
    }
    source.push_str("\n      Big\n    end\n");
    for index in 0..2000 {
        source.push_str(&format!("    def m{index}(a)\n      a\n    end\n"));
    }
    source.push_str("  end\nend\n");
    let finder = finder_over("/p", &[("/p/big.rb", &source)]);
    assert_eq!(finder.find_by_path("/p/big.rb").len(), 2003);
    let found = finder.find_definition("/p/big.rb", source.as_bytes(), Point::new(4, 6)).unwrap();
    assert_eq!(describe(&found), vec![triple("/p/big.rb", "", "Big")]);
    let last = at(&source, "a\n", 1999);
    let found = finder.find_definition("/p/big.rb", source.as_bytes(), last).unwrap();
    assert_eq!(found.len(), 1);
    assert_eq!(found[0].parent.as_ref().unwrap().name, "m1999");
    assert_eq!(finder.fuzzy_find_symbol("m1").len() > 1000, true);
}
