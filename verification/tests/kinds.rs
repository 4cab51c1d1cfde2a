use ruby_ls::kinds::{NodeKind, NodeName};
use ruby_ls::point::Point;

#[test]
fn every_kind_of_the_vocabulary_is_classified() {
    let kinds = [
        ("class", NodeKind::Class),
        ("module", NodeKind::Module),
        ("method", NodeKind::Method),
        ("singleton_method", NodeKind::SingletonMethod),
        ("assignment", NodeKind::Assignment),
        ("program", NodeKind::Program),
        ("comment", NodeKind::Comment),
        ("call", NodeKind::Call),
        ("constant", NodeKind::Constant),
        ("left_assignment_list", NodeKind::LeftAssignmentList),
        ("global_variable", NodeKind::GlobalVariable),
        ("scope_resolution", NodeKind::ScopeResolution),
        ("class_variable", NodeKind::ClassVariable),
        ("instance_variable", NodeKind::InstanceVariable),
        ("identifier", NodeKind::Identifier),
        ("rest_assignment", NodeKind::RestAssignment),
        ("optional_parameter", NodeKind::OptionalParameter),
        ("keyword_parameter", NodeKind::KeywordParameter),
        ("self", NodeKind::Zelf),
    ];
    for (name, kind) in kinds {
        assert_eq!(NodeKind::classify(name), kind);
        assert_eq!(kind.as_str(), name);
    }
}

#[test]
fn a_kind_outside_the_vocabulary_is_unknown() {
    assert_eq!(NodeKind::classify("if"), NodeKind::Unknown);
    assert_eq!(NodeKind::classify(""), NodeKind::Unknown);
    assert_eq!(NodeKind::classify("Class"), NodeKind::Unknown);
    assert_eq!(NodeKind::classify("zelf"), NodeKind::Unknown);
}

#[test]
fn classes_and_modules_are_classlike() {
    assert!(NodeKind::Class.is_classlike());
    assert!(NodeKind::Module.is_classlike());
    assert!(!NodeKind::Method.is_classlike());
    assert!(!NodeKind::Unknown.is_classlike());
}

#[test]
fn field_names_are_classified() {
    let names = [
        ("name", NodeName::Name),
        ("superclass", NodeName::Superclass),
        ("body", NodeName::Body),
        ("scope", NodeName::Scope),
        ("left", NodeName::Left),
        ("right", NodeName::Right),
        ("parameters", NodeName::Parameters),
        ("receiver", NodeName::Receiver),
        ("method", NodeName::Method),
        ("arguments", NodeName::Arguments),
    ];
    for (name, field) in names {
        assert_eq!(NodeName::classify(name), Some(field));
        assert_eq!(field.as_str(), name);
    }
    assert_eq!(NodeName::classify("object"), None);
}

#[test]
fn points_order_by_row_then_column() {
    let a = Point::new(1, 5);
    let b = Point::new(2, 0);
    let c = Point::new(2, 3);
    assert!(a.is_before(&b));
    assert!(b.is_before(&c));
    assert!(!c.is_before(&b));
    assert!(!a.is_before(&a));
    assert!(a.is_at_or_before(&a));
    assert!(a.is_at_or_before(&c));
    assert!(!c.is_at_or_before(&a));
    assert_eq!(a.row, 1);
    assert_eq!(a.column, 5);
}
