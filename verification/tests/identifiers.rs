use ruby_ls::identifiers::{
    find_first_assignment_with_lhs_text_with_query, find_first_assingment_with_lhs_text,
    get_identifier_context, get_method_variable_definition,
};
use ruby_ls::kinds::NodeKind;
use ruby_ls::parser::{parse, ParsedSource};
use ruby_ls::parsers::index_file;
use ruby_ls::point::Point;
use ruby_ls::types::RSymbolV2;
use std::sync::Arc;

const SOURCE: &str = "class A\n  def run(count, limit = 2)\n    total = 0\n    total = count\n    total + limit\n    other\n  end\n  def idle\n    total\n  end\nend\n";

fn parsed() -> (ParsedSource, Vec<Arc<RSymbolV2>>) {
    let parsed = parse(SOURCE.as_bytes()).unwrap();
    let symbols = index_file("a.rb", parsed.syntax()).unwrap();
    (parsed, symbols)
}

#[test]
fn nearest_assignment_before_the_use_is_found() {
    let (parsed, symbols) = parsed();
    let run = symbols.iter().find(|s| s.name == "run").unwrap();
    let node = parsed.node_at(Point::new(4, 4)).unwrap();
    let lhs =
        find_first_assignment_with_lhs_text_with_query(parsed.syntax(), node, run).unwrap();
    assert_eq!(parsed.syntax().start(lhs), Point::new(3, 4));
    assert_eq!(parsed.syntax().end(lhs), Point::new(3, 9));
    assert_eq!(parsed.syntax().text(lhs).unwrap(), "total");
}

#[test]
fn an_assignment_in_another_method_does_not_count() {
    let (parsed, symbols) = parsed();
    let idle = symbols.iter().find(|s| s.name == "idle").unwrap();
    let node = parsed.node_at(Point::new(8, 4)).unwrap();
    assert_eq!(find_first_assignment_with_lhs_text_with_query(parsed.syntax(), node, idle), None);
    assert_eq!(get_method_variable_definition(parsed.syntax(), node, idle), None);
}

#[test]
fn variable_definition_is_the_assignment_or_else_the_parameter() {
    let (parsed, symbols) = parsed();
    let run = symbols.iter().find(|s| s.name == "run").unwrap();
    let tree = parsed.syntax();
    let total = parsed.node_at(Point::new(4, 4)).unwrap();
    assert_eq!(
        get_method_variable_definition(tree, total, run),
        Some((Point::new(3, 4), Point::new(3, 9)))
    );
    let first_total = parsed.node_at(Point::new(3, 4)).unwrap();
    assert_eq!(
        get_method_variable_definition(tree, first_total, run),
        Some((Point::new(2, 4), Point::new(2, 9)))
    );
    let limit = parsed.node_at(Point::new(4, 12)).unwrap();
    assert_eq!(
        get_method_variable_definition(tree, limit, run),
        Some((Point::new(1, 17), Point::new(1, 22)))
    );
    let count = parsed.node_at(Point::new(3, 12)).unwrap();
    assert_eq!(
        get_method_variable_definition(tree, count, run),
        Some((Point::new(1, 10), Point::new(1, 15)))
    );
    let other = parsed.node_at(Point::new(5, 4)).unwrap();
    assert_eq!(get_method_variable_definition(tree, other, run), None);
    let class = symbols.iter().find(|s| s.name == "A").unwrap();
    assert_eq!(get_method_variable_definition(tree, total, class), None);
}

#[test]
fn context_of_an_identifier_is_the_nearest_call_method_or_class() {
    let source = "class A\n  x\n  def run\n    y\n    go(z)\n  end\nend\nw\n";
    let parsed = parse(source.as_bytes()).unwrap();
    let tree = parsed.syntax();
    let kind_around = |row: usize, column: usize| {
        let node = parsed.node_at(Point::new(row, column)).unwrap();
        get_identifier_context(tree, node).map(|context| tree.kind(context))
    };
    assert_eq!(kind_around(1, 2), Some(NodeKind::Class));
    assert_eq!(kind_around(3, 4), Some(NodeKind::Method));
    assert_eq!(kind_around(4, 7), Some(NodeKind::Call));
    assert_eq!(kind_around(7, 0), None);
}

#[test]
fn assignment_is_searched_from_the_siblings_upwards() {
    let source = "def run\n  a = 1\n  if a\n    a = 2\n    puts(a)\n  end\n  a\n  b\nend\n";
    let parsed = parse(source.as_bytes()).unwrap();
    let tree = parsed.syntax();
    let scope_start = Point::new(0, 4);
    let found = |row: usize, column: usize| {
        let node = parsed.node_at(Point::new(row, column)).unwrap();
        find_first_assingment_with_lhs_text(tree, node, &scope_start).map(|lhs| tree.start(lhs))
    };
    assert_eq!(found(4, 9), Some(Point::new(3, 4)));
    assert_eq!(found(6, 2), Some(Point::new(1, 2)));
    assert_eq!(found(2, 5), Some(Point::new(1, 2)));
    assert_eq!(found(7, 2), None);
}
