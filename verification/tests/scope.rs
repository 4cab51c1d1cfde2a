use ruby_ls::scope::{Scope, ScopeJoin, GLOBAL_SCOPE_VALUE, SCOPE_DELIMITER};

fn scope(names: &[&str]) -> Scope {
    Scope::from_names(&names.to_vec())
}

#[test]
fn new_keeps_the_segments_in_order() {
    let s = Scope::new(vec!["A".to_string(), "B".to_string()]);
    assert_eq!(s.segments(), vec!["A", "B"]);
    assert_eq!(s.len(), 2);
    assert_eq!(s.segment(1), "B");
    assert_eq!(s, scope(&["A", "B"]));
    assert_eq!(Scope::from_name("A").segments(), vec!["A"]);
    assert_eq!(Scope::empty().len(), 0);
    assert_eq!(Scope::default(), Scope::empty());
}

#[test]
fn only_a_leading_sentinel_makes_a_scope_global() {
    assert_eq!(GLOBAL_SCOPE_VALUE, "$GLOBAL");
    assert!(scope(&["$GLOBAL", "A"]).is_global());
    assert!(scope(&["$GLOBAL"]).is_global());
    assert!(!scope(&["A", "$GLOBAL"]).is_global());
    assert!(!scope(&["A"]).is_global());
    assert!(!Scope::empty().is_global());
}

#[test]
fn join_concatenates_and_drops_the_sentinel_of_the_right_side() {
    let left = scope(&["A", "B"]);
    assert_eq!(left.join(&scope(&["C", "D"])), scope(&["A", "B", "C", "D"]));
    assert_eq!(left.join(&scope(&["$GLOBAL", "C"])), scope(&["A", "B", "C"]));
    assert_eq!(left.join(&Scope::empty()), left);
    assert_eq!(Scope::empty().join(&left), left);
    assert_eq!(scope(&["$GLOBAL", "A"]).join(&scope(&["B"])), scope(&["$GLOBAL", "A", "B"]));
    assert_eq!(left.join_name("C"), scope(&["A", "B", "C"]));
    assert_eq!(left.followed_by(&scope(&["$GLOBAL", "C"])), scope(&["A", "B", "$GLOBAL", "C"]));
    assert_eq!(left.followed_from(&scope(&["X", "Y", "Z"]), 2), scope(&["A", "B", "Z"]));
}

#[test]
fn join_through_the_trait_agrees_with_join() {
    let left = scope(&["A"]);
    let right = scope(&["$GLOBAL", "B"]);
    assert_eq!(ScopeJoin::join(&left, &right), scope(&["A", "B"]));
    assert_eq!(ScopeJoin::join(&left, "B"), scope(&["A", "B"]));
}

#[test]
fn last_and_its_removal() {
    let mut s = scope(&["A", "B"]);
    assert_eq!(s.last(), Some("B"));
    assert_eq!(s.without_last(), scope(&["A"]));
    s.remove_last();
    assert_eq!(s, scope(&["A"]));
    s.remove_last();
    assert_eq!(s.last(), None);
    s.remove_last();
    assert_eq!(s, Scope::empty());
    assert_eq!(Scope::empty().without_last(), Scope::empty());
    let mut t = Scope::empty();
    t.push("A".to_string());
    assert_eq!(t, scope(&["A"]));
    assert_eq!(t.duplicate(), t);
}

#[test]
fn rendering_strips_the_sentinel_and_joins_with_colons() {
    assert_eq!(SCOPE_DELIMITER, "::");
    assert_eq!(scope(&["A", "B", "C"]).to_string(), "A::B::C");
    assert_eq!(scope(&["$GLOBAL", "A", "B"]).to_string(), "A::B");
    assert_eq!(scope(&["A"]).to_string(), "A");
    assert_eq!(scope(&["$GLOBAL"]).to_string(), "");
    assert_eq!(Scope::empty().to_string(), "");
}

#[test]
fn equality_is_segment_wise_and_matching_ignores_the_sentinel() {
    let plain = scope(&["A", "B"]);
    let global = scope(&["$GLOBAL", "A", "B"]);
    assert!(plain.equals(&scope(&["A", "B"])));
    assert!(!plain.equals(&global));
    assert!(!plain.equals(&scope(&["A"])));
    assert!(!plain.equals(&scope(&["A", "C"])));
    assert!(plain.matches(&global));
    assert!(global.matches(&plain));
    assert!(!plain.matches(&scope(&["A"])));
    assert!(!plain.matches(&scope(&["$GLOBAL", "A", "C"])));
    assert!(Scope::empty().matches(&scope(&["$GLOBAL"])));
}

#[test]
fn scopes_come_from_names_and_lists_of_names() {
    let name = "A".to_string();
    assert_eq!(Scope::from(&name), scope(&["A"]));
    assert_eq!(Scope::from(name), scope(&["A"]));
    assert_eq!(Scope::from("A"), scope(&["A"]));
    assert_eq!(Scope::from(vec!["A".to_string(), "B".to_string()]), scope(&["A", "B"]));
    assert_eq!(Scope::from(vec!["A", "B"]), scope(&["A", "B"]));
}

#[test]
fn a_scope_with_a_name_matches_the_qualified_path() {
    let ab = scope(&["A", "B"]);
    assert!(ab.matches_with("C", &scope(&["A", "B", "C"])));
    assert!(ab.matches_with("C", &scope(&["$GLOBAL", "A", "B", "C"])));
    assert!(scope(&["$GLOBAL", "A", "B"]).matches_with("C", &scope(&["A", "B", "C"])));
    assert!(!ab.matches_with("C", &scope(&["A", "B"])));
    assert!(!ab.matches_with("C", &scope(&["A", "B", "D"])));
    assert!(!ab.matches_with("C", &scope(&["A", "X", "C"])));
    assert!(!ab.matches_with("C", &scope(&["A", "B", "C", "D"])));
    assert!(Scope::empty().matches_with("C", &scope(&["C"])));
    assert!(!Scope::empty().matches_with("C", &Scope::empty()));
    assert!(!ab.matches_with("$GLOBAL", &ab));
    assert!(ab.matches_with("$GLOBAL", &scope(&["A", "B", "$GLOBAL"])));
    assert!(Scope::empty().matches_with("$GLOBAL", &Scope::empty()));
}
