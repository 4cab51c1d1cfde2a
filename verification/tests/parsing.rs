use ruby_ls::kinds::NodeKind;
use ruby_ls::parser::parse;
use ruby_ls::point::Point;

#[test]
fn parse_finds_the_constant_under_a_point() {
    let source = "\nclass A::B < X::Y::Z\nend\n";
    let parsed = parse(source.as_bytes()).unwrap();
    let tree = parsed.syntax();
    assert_eq!(tree.kind(0), NodeKind::Program);
    let node = parsed.node_at(Point::new(1, 9)).unwrap();
    assert_eq!(tree.kind(node), NodeKind::Constant);
    assert_eq!(tree.text(node).unwrap(), "B");
    let parent = tree.parent(node).unwrap();
    assert_eq!(tree.kind(parent), NodeKind::ScopeResolution);
}

fn resolution_at(source: &str, row: usize, column: usize) -> Vec<String> {
    let parsed = parse(source.as_bytes()).unwrap();
    let node = parsed.node_at(Point::new(row, column)).unwrap();
    ruby_ls::scopes::get_parent_scope_resolution(parsed.syntax(), node).segments()
}

#[test]
fn absolute_reference_starts_with_the_sentinel() {
    assert_eq!(resolution_at("::Foo\n", 0, 2), vec!["$GLOBAL", "Foo"]);
    assert_eq!(resolution_at("x = ::Foo::Bar\n", 0, 11), vec!["$GLOBAL", "Foo", "Bar"]);
    assert_eq!(resolution_at("x = ::Foo::Bar\n", 0, 6), vec!["$GLOBAL", "Foo"]);
    assert_eq!(resolution_at("Foo\n", 0, 0), vec!["Foo"]);
}

#[test]
fn dynamic_qualifier_gives_the_empty_scope() {
    assert!(resolution_at("@holder::Bar\n", 0, 9).is_empty());
    assert!(resolution_at("@@holder::Bar\n", 0, 10).is_empty());
    assert!(resolution_at("holder::Bar\n", 0, 8).is_empty());
    assert!(resolution_at("A::b::Bar\n", 0, 6).is_empty());
    assert!(resolution_at("x = 1\n", 0, 0).is_empty());
}

#[test]
fn tree_accessors_agree_with_the_source() {
    let source = "class A\n  def run\n  end\nend\n";
    let parsed = parse(source.as_bytes()).unwrap();
    let tree = parsed.syntax();
    let class = tree.children(0)[0];
    assert_eq!(tree.kind(class), NodeKind::Class);
    assert_eq!(tree.start(class), Point::new(0, 0));
    assert_eq!(tree.end(class), Point::new(3, 3));
    let name = tree.child_by_field(class, ruby_ls::kinds::NodeName::Name).unwrap();
    assert_eq!(tree.text(name).unwrap(), "A");
    assert!(tree.is_named(name));
    assert_eq!(tree.first_named_child(class), Some(name));
    assert_eq!(tree.first_child_of_kind(class, NodeKind::Constant), Some(name));
    assert_eq!(tree.first_child_of_kind(class, NodeKind::Method), None);
    assert_eq!(tree.child_by_field(class, ruby_ls::kinds::NodeName::Superclass), None);
    assert!(!tree.is_named(tree.children(class)[0]));
    assert!(tree.covers_same(name, name));
    assert!(!tree.covers_same(name, class));
    assert_eq!(tree.text(class).unwrap(), "class A\n  def run\n  end\nend");
}

#[test]
fn node_at_gives_the_smallest_node_that_spans_the_position() {
    let source = "class A\n  def run(x)\n    x + 1\n  end\nend\n";
    let parsed = parse(source.as_bytes()).unwrap();
    let tree = parsed.syntax();
    for row in 0..5 {
        for column in 0..12 {
            let position = Point::new(row, column);
            if let Some(node) = parsed.node_at(position) {
                assert!(tree.is_innermost_at(node, &position));
                assert!(tree.start(node) <= position && position <= tree.end(node));
                for child in tree.children(node) {
                    assert!(!(tree.start(*child) <= position && position < tree.end(*child)));
                }
            }
        }
    }
    let x = parsed.node_at(Point::new(2, 4)).unwrap();
    assert_eq!(tree.kind(x), NodeKind::Identifier);
    assert_eq!(tree.text(x).unwrap(), "x");
    let class = parsed.node_at(Point::new(0, 2)).unwrap();
    assert_eq!(tree.text(class).unwrap(), "class");
    assert!(!tree.is_innermost_at(0, &Point::new(2, 4)));
    assert!(!tree.is_innermost_at(x, &Point::new(2, 6)));
}

#[test]
fn node_at_finds_nothing_outside_the_text() {
    let source = "class A\nend\n";
    let parsed = parse(source.as_bytes()).unwrap();
    assert_eq!(parsed.node_at(Point::new(100, 100)), None);
    assert_eq!(parsed.node_at(Point::new(2, 1)), None);
    assert!(parsed.node_at(Point::new(1, 3)).is_some());
    assert!(parsed.node_at(Point::new(0, 0)).is_some());
    let empty = parse(b"").unwrap();
    assert_eq!(empty.node_at(Point::new(0, 0)), Some(0));
    assert_eq!(empty.node_at(Point::new(0, 1)), None);
}

#[test]
fn every_position_in_the_text_has_a_smallest_node() {
    let sources = [
        "\nclass A::B < X::Y::Z\n    module C::D\n        CONSTANT = \"\"\n        V::C = 10\n        include ::G::S\n    end\nend\n",
        "module A; class B; def foo(x); y = x; y; end; end; end",
        "def f(a, b = 1, *c, d:, e: 2, **f, &g)\n  a.b(c)[d] += e ? f : g\n  \"s#{a}t\" + :sym.to_s\nend\n",
        "class class def ((( end\n  x = = 1\n  foo(\n",
        "# comment\n\n\n  x\t= 1 # trailing\n=begin\nblock\n=end\ny\n",
        "h = { a: 1, 'b' => [1, 2, 3] }\nh.each do |k, v|\n  puts \"#{k}: #{v}\"\nend\n",
    ];
    for source in sources {
        let parsed = parse(source.as_bytes()).unwrap();
        let tree = parsed.syntax();
        let (start, end) = (tree.start(0), tree.end(0));
        for (row, line) in source.split('\n').enumerate() {
            for column in 0..=line.len() {
                let position = Point::new(row, column);
                let found = parsed.node_at(position);
                if start <= position && position <= end {
                    assert!(found.is_some(), "{source:?} at {position:?}");
                } else {
                    assert_eq!(found, None, "{source:?} at {position:?}");
                }
            }
        }
    }
}

fn raw(kind: &'static str, start_byte: usize, end_byte: usize, children: usize) -> ruby_ls::parser::RawNode {
    ruby_ls::parser::RawNode::new(kind, true, children, start_byte, end_byte)
}

#[test]
fn a_tree_is_put_together_from_its_levels() {
    let source = b"class A\nend";
    let token = |kind, start, end| ruby_ls::parser::RawNode::new(kind, false, 0, start, end);
    let nodes = vec![
        raw("program", 0, 11, 1),
        raw("class", 0, 11, 3),
        token("class", 0, 5),
        raw("constant", 6, 7, 0),
        token("end", 8, 11),
    ];
    let spans: Vec<_> = [(0, 0, 1, 3), (0, 0, 1, 3), (0, 0, 0, 5), (0, 6, 0, 7), (1, 0, 1, 3)]
        .iter()
        .map(|(a, b, c, d)| (Point::new(*a, *b), Point::new(*c, *d)))
        .collect();
    let mut fields = vec![vec![None; 10]; 5];
    fields[1][0] = Some((6, 7));
    let tree = ruby_ls::parser::assemble(source, &nodes, &spans, &fields).unwrap();
    assert_eq!(tree.len(), 5);
    assert_eq!(tree.children(0), &vec![1]);
    assert_eq!(tree.children(1), &vec![2, 3, 4]);
    assert_eq!(tree.parent(3), Some(1));
    assert_eq!(tree.kind(1), NodeKind::Class);
    assert_eq!(tree.kind(4), NodeKind::Unknown);
    assert_eq!(tree.child_by_field(1, ruby_ls::kinds::NodeName::Name), Some(3));
    assert_eq!(tree.child_by_field(1, ruby_ls::kinds::NodeName::Body), None);
    assert_eq!(tree.text(3).unwrap(), "A");
    assert_eq!(tree.start(4), Point::new(1, 0));
    let parsed = parse(source).unwrap();
    assert_eq!(parsed.syntax(), &tree);
    assert_eq!(ruby_ls::parser::locate(&tree, Some((6, 7)), Point::new(0, 6)), Some(3));
    assert_eq!(ruby_ls::parser::locate(&tree, Some((0, 11)), Point::new(0, 5)), Some(1));
    assert_eq!(ruby_ls::parser::locate(&tree, Some((0, 11)), Point::new(0, 6)), None);
    assert_eq!(ruby_ls::parser::locate(&tree, Some((6, 8)), Point::new(0, 6)), None);
    assert_eq!(ruby_ls::parser::locate(&tree, None, Point::new(0, 6)), None);
}

#[test]
fn a_list_that_tells_no_tree_is_refused() {
    let spans = |n: usize| vec![(Point::new(0, 0), Point::new(0, 0)); n];
    let fields = |n: usize| vec![vec![None; 10]; n];
    let assembles = |nodes: Vec<ruby_ls::parser::RawNode>| {
        ruby_ls::parser::assemble(b"", &nodes, &spans(nodes.len()), &fields(nodes.len())).is_some()
    };
    assert!(assembles(vec![raw("program", 0, 0, 0)]));
    assert!(assembles(vec![raw("program", 0, 0, 2), raw("a", 0, 0, 1), raw("b", 0, 0, 0), raw("c", 0, 0, 0)]));
    assert!(!assembles(vec![]));
    assert!(!assembles(vec![raw("program", 0, 0, 1)]));
    assert!(!assembles(vec![raw("program", 0, 0, 0), raw("a", 0, 0, 0)]));
    assert!(!assembles(vec![raw("program", 0, 0, 1), raw("a", 0, 0, 1)]));
    assert!(!assembles(vec![raw("program", 0, 0, 0), raw("a", 0, 0, 1), raw("b", 0, 0, 0)]));
    let nodes = vec![raw("program", 0, 0, 0)];
    assert!(ruby_ls::parser::assemble(b"", &nodes, &spans(2), &fields(1)).is_none());
    assert!(ruby_ls::parser::assemble(b"", &nodes, &spans(1), &fields(0)).is_none());
}
