use ruby_ls::parser::parse;
use ruby_ls::point::Point;
use ruby_ls::scope::{Scope, GLOBAL_SCOPE_VALUE};
use ruby_ls::scopes::{
    get_child_scope_resolution, get_context_scope, get_full_and_context_scope,
    get_full_scope_resolution, get_parent_scope_resolution,
};
use ruby_ls::syntax::SyntaxTree;

const SOURCE: &str = r#"
class A::B < X::Y::Z
    module C::D
        module E::F::G
            class H::I::J
                CONSTANT = ""
                V::C = 10
                include ::G::S
            end
        end
    end
end
"#;

fn test<F>(source: &str, point: &Point, expected_values: &[&str], f: F)
where
    F: FnOnce(&SyntaxTree, usize) -> Scope,
{
    let parsed = parse(source.as_bytes()).unwrap();
    let node = parsed.node_at(*point).unwrap();

    let actual = f(parsed.syntax(), node).segments();

    assert_eq!(expected_values, actual);
}

#[test]
fn parsers_get_child_scope_resolution_test() {
    let point = Point { row: 3, column: 18 };
    let expected_scopes = vec!["F", "G"];

    test(SOURCE, &point, &expected_scopes, |t, n| get_child_scope_resolution(t, n))
}

#[test]
fn parsers_get_child_scope_resolution_test_2() {
    let point = Point { row: 6, column: 16 };
    let expected_scopes = vec!["V", "C"];

    test(SOURCE, &point, &expected_scopes, |t, n| get_child_scope_resolution(t, n))
}

#[test]
fn parsers_get_child_scope_resolution_test_3() {
    let point = Point { row: 1, column: 13 };
    let expected_scopes = vec!["X", "Y", "Z"];

    test(SOURCE, &point, &expected_scopes, |t, n| get_child_scope_resolution(t, n))
}

#[test]
fn parsers_get_parent_scope_resolution_test() {
    let point = Point { row: 3, column: 18 };
    let expected_scopes = vec!["E", "F"];

    test(SOURCE, &point, &expected_scopes, |t, n| get_parent_scope_resolution(t, n))
}

#[test]
fn parsers_get_parent_scope_resolution_test_2() {
    let point = Point { row: 6, column: 19 };
    let expected_scopes = vec!["V", "C"];

    test(SOURCE, &point, &expected_scopes, |t, n| get_parent_scope_resolution(t, n))
}

#[test]
fn parsers_get_parent_scope_resolution_test_3() {
    let point = Point { row: 1, column: 19 };
    let expected_scopes = vec!["X", "Y", "Z"];

    test(SOURCE, &point, &expected_scopes, |t, n| get_parent_scope_resolution(t, n))
}

#[test]
fn parsers_get_parent_scope_resolution_test_4() {
    let point = Point { row: 7, column: 29 };
    let expected_scopes = vec!["$GLOBAL", "G", "S"];

    test(SOURCE, &point, &expected_scopes, |t, n| get_parent_scope_resolution(t, n))
}

#[test]
fn parsers_get_full_scope_resolution_test() {
    let points = [Point { row: 1, column: 6 }, Point { row: 1, column: 9 }];
    let expected_scopes = vec!["A", "B"];

    for point in points {
        test(SOURCE, &point, &expected_scopes, |t, n| get_full_scope_resolution(t, n))
    }
}

#[test]
fn parsers_get_full_scope_resolution_test_2() {
    let points = [Point { row: 2, column: 11 }, Point { row: 2, column: 14 }];
    let expected_scopes = vec!["C", "D"];

    for point in points {
        test(SOURCE, &point, &expected_scopes, |t, n| get_full_scope_resolution(t, n))
    }
}

#[test]
fn parsers_get_full_scope_resolution_test_3() {
    let points = [Point { row: 3, column: 15 }, Point { row: 3, column: 18 }, Point { row: 3, column: 21 }];
    let expected_scopes = vec!["E", "F", "G"];

    for point in points {
        test(SOURCE, &point, &expected_scopes, |t, n| get_full_scope_resolution(t, n))
    }
}

#[test]
fn parsers_get_full_scope_resolution_test_4() {
    let points = [Point { row: 4, column: 18 }, Point { row: 4, column: 21 }, Point { row: 4, column: 24 }];
    let expected_scopes = vec!["H", "I", "J"];

    for point in points {
        test(SOURCE, &point, &expected_scopes, |t, n| get_full_scope_resolution(t, n))
    }
}

#[test]
fn parsers_get_context_scope_test() {
    let points = [Point { row: 2, column: 11 }, Point { row: 2, column: 14 }];
    let expected_scopes = vec!["A", "B"];

    for point in points {
        test(SOURCE, &point, &expected_scopes, |t, n| get_context_scope(t, n))
    }
}

#[test]
fn parsers_get_context_scope_test_2() {
    let points = [Point { row: 3, column: 15 }, Point { row: 3, column: 18 }, Point { row: 3, column: 21 }];
    let expected_scopes = vec!["A", "B", "C", "D"];

    for point in points {
        test(SOURCE, &point, &expected_scopes, |t, n| get_context_scope(t, n))
    }
}

#[test]
fn parsers_get_context_scope_test_3() {
    let points = [Point { row: 4, column: 18 }, Point { row: 4, column: 21 }, Point { row: 4, column: 24 }];
    let expected_scopes = vec!["A", "B", "C", "D", "E", "F", "G"];

    for point in points {
        test(SOURCE, &point, &expected_scopes, |t, n| get_context_scope(t, n))
    }
}

#[test]
fn parsers_get_context_scope_test_4() {
    let points = [Point { row: 5, column: 18 }, Point { row: 5, column: 21 }];
    let expected_scopes = vec!["A", "B", "C", "D", "E", "F", "G", "H", "I", "J"];

    for point in points {
        test(SOURCE, &point, &expected_scopes, |t, n| get_context_scope(t, n))
    }
}

#[test]
fn parsers_get_full_and_context_scope_test() {
    let point = Point { row: 6, column: 16 };
    let expected_scopes = vec!["A", "B", "C", "D", "E", "F", "G", "H", "I", "J", "V", "C"];

    test(SOURCE, &point, &expected_scopes, |t, n| get_full_and_context_scope(t, n))
}

#[test]
fn parsers_get_full_and_context_scope_test_2() {
    let point = Point { row: 2, column: 11 };
    let expected_scopes = vec!["A", "B", "C", "D"];

    test(SOURCE, &point, &expected_scopes, |t, n| get_full_and_context_scope(t, n))
}

#[test]
fn parsers_get_full_and_context_scope_test_3() {
    let point = Point { row: 7, column: 29 };
    let expected_scopes = vec![GLOBAL_SCOPE_VALUE, "G", "S"];

    test(SOURCE, &point, &expected_scopes, |t, n| get_full_and_context_scope(t, n))
}

#[test]
fn scopes_get_child_scope_resolution_test() {
    let point = Point { row: 3, column: 18 };
    let expected_scopes = vec!["F", "G"];

    test(SOURCE, &point, &expected_scopes, |t, n| get_child_scope_resolution(t, n))
}

#[test]
fn scopes_get_child_scope_resolution_test_2() {
    let point = Point { row: 6, column: 16 };
    let expected_scopes = vec!["V", "C"];

    test(SOURCE, &point, &expected_scopes, |t, n| get_child_scope_resolution(t, n))
}

#[test]
fn scopes_get_child_scope_resolution_test_3() {
    let point = Point { row: 1, column: 13 };
    let expected_scopes = vec!["X", "Y", "Z"];

    test(SOURCE, &point, &expected_scopes, |t, n| get_child_scope_resolution(t, n))
}

#[test]
fn scopes_get_parent_scope_resolution_test() {
    let point = Point { row: 3, column: 18 };
    let expected_scopes = vec!["E", "F"];

    test(SOURCE, &point, &expected_scopes, |t, n| get_parent_scope_resolution(t, n))
}

#[test]
fn scopes_get_parent_scope_resolution_test_2() {
    let point = Point { row: 6, column: 19 };
    let expected_scopes = vec!["V", "C"];

    test(SOURCE, &point, &expected_scopes, |t, n| get_parent_scope_resolution(t, n))
}

#[test]
fn scopes_get_parent_scope_resolution_test_3() {
    let point = Point { row: 1, column: 19 };
    let expected_scopes = vec!["X", "Y", "Z"];

    test(SOURCE, &point, &expected_scopes, |t, n| get_parent_scope_resolution(t, n))
}

#[test]
fn scopes_get_parent_scope_resolution_test_4() {
    let point = Point { row: 7, column: 29 };
    let expected_scopes = vec!["$GLOBAL", "G", "S"];

    test(SOURCE, &point, &expected_scopes, |t, n| get_parent_scope_resolution(t, n))
}

#[test]
fn scopes_get_full_scope_resolution_test() {
    let points = [Point { row: 1, column: 6 }, Point { row: 1, column: 9 }];
    let expected_scopes = vec!["A", "B"];

    for point in points {
        test(SOURCE, &point, &expected_scopes, |t, n| get_full_scope_resolution(t, n))
    }
}

#[test]
fn scopes_get_full_scope_resolution_test_2() {
    let points = [Point { row: 2, column: 11 }, Point { row: 2, column: 14 }];
    let expected_scopes = vec!["C", "D"];

    for point in points {
        test(SOURCE, &point, &expected_scopes, |t, n| get_full_scope_resolution(t, n))
    }
}

#[test]
fn scopes_get_full_scope_resolution_test_3() {
    let points = [Point { row: 3, column: 15 }, Point { row: 3, column: 18 }, Point { row: 3, column: 21 }];
    let expected_scopes = vec!["E", "F", "G"];

    for point in points {
        test(SOURCE, &point, &expected_scopes, |t, n| get_full_scope_resolution(t, n))
    }
}

#[test]
fn scopes_get_full_scope_resolution_test_4() {
    let points = [Point { row: 4, column: 18 }, Point { row: 4, column: 21 }, Point { row: 4, column: 24 }];
    let expected_scopes = vec!["H", "I", "J"];

    for point in points {
        test(SOURCE, &point, &expected_scopes, |t, n| get_full_scope_resolution(t, n))
    }
}

#[test]
fn scopes_get_context_scope_test() {
    let points = [Point { row: 2, column: 11 }, Point { row: 2, column: 14 }];
    let expected_scopes = vec!["A", "B"];

    for point in points {
        test(SOURCE, &point, &expected_scopes, |t, n| get_context_scope(t, n))
    }
}

#[test]
fn scopes_get_context_scope_test_2() {
    let points = [Point { row: 3, column: 15 }, Point { row: 3, column: 18 }, Point { row: 3, column: 21 }];
    let expected_scopes = vec!["A", "B", "C", "D"];

    for point in points {
        test(SOURCE, &point, &expected_scopes, |t, n| get_context_scope(t, n))
    }
}

#[test]
fn scopes_get_context_scope_test_3() {
    let points = [Point { row: 4, column: 18 }, Point { row: 4, column: 21 }, Point { row: 4, column: 24 }];
    let expected_scopes = vec!["A", "B", "C", "D", "E", "F", "G"];

    for point in points {
        test(SOURCE, &point, &expected_scopes, |t, n| get_context_scope(t, n))
    }
}

#[test]
fn scopes_get_context_scope_test_4() {
    let points = [Point { row: 5, column: 18 }, Point { row: 5, column: 21 }];
    let expected_scopes = vec!["A", "B", "C", "D", "E", "F", "G", "H", "I", "J"];

    for point in points {
        test(SOURCE, &point, &expected_scopes, |t, n| get_context_scope(t, n))
    }
}

#[test]
fn scopes_get_full_and_context_scope_test() {
    let point = Point { row: 6, column: 16 };
    let expected_scopes = vec!["A", "B", "C", "D", "E", "F", "G", "H", "I", "J", "V", "C"];

    test(SOURCE, &point, &expected_scopes, |t, n| get_full_and_context_scope(t, n))
}

#[test]
fn scopes_get_full_and_context_scope_test_2() {
    let point = Point { row: 2, column: 11 };
    let expected_scopes = vec!["A", "B", "C", "D"];

    test(SOURCE, &point, &expected_scopes, |t, n| get_full_and_context_scope(t, n))
}

#[test]
fn scopes_get_full_and_context_scope_test_3() {
    let point = Point { row: 7, column: 29 };
    let expected_scopes = vec![GLOBAL_SCOPE_VALUE, "G", "S"];

    test(SOURCE, &point, &expected_scopes, |t, n| get_full_and_context_scope(t, n))
}
