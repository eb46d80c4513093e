use rugen::expand::{describe, parse_expr, Expansion, ScriptExpr};

fn is_described_piece(e: &Expansion, handle: u64) -> bool {
    match e {
        Expansion::Describe(inner) => matches!(**inner, Expansion::Keep(h) if h == handle),
        _ => false,
    }
}

#[test]
fn products_are_described() {
    let e = parse_expr(&ScriptExpr::Product(3));
    assert!(is_described_piece(&e, 3));
}

#[test]
fn ranges_are_described() {
    let e = parse_expr(&ScriptExpr::Range(7));
    assert!(is_described_piece(&e, 7));
}

#[test]
fn other_expressions_stay_as_written() {
    let e = parse_expr(&ScriptExpr::Other(5));
    assert!(matches!(e, Expansion::Keep(5)));
}

#[test]
fn vector_items_are_rewritten_in_order() {
    let e = parse_expr(&ScriptExpr::Vec(vec![
        ScriptExpr::Other(1),
        ScriptExpr::Range(2),
        ScriptExpr::Product(3),
    ]));
    match e {
        Expansion::Vec(items) => {
            assert_eq!(items.len(), 3);
            assert!(matches!(items[0], Expansion::Keep(1)));
            assert!(is_described_piece(&items[1], 2));
            assert!(is_described_piece(&items[2], 3));
        }
        other => panic!("expected a vector, got {:?}", other),
    }
}

#[test]
fn object_fields_without_a_value_are_left_out() {
    let e = parse_expr(&ScriptExpr::Object(vec![
        (10, Some(ScriptExpr::Range(1))),
        (11, None),
        (12, Some(ScriptExpr::Other(2))),
    ]));
    match e {
        Expansion::Object(fields) => {
            assert_eq!(fields.len(), 2);
            assert_eq!(fields[0].0, 10);
            assert!(is_described_piece(&fields[0].1, 1));
            assert_eq!(fields[1].0, 12);
            assert!(matches!(fields[1].1, Expansion::Keep(2)));
        }
        other => panic!("expected an object, got {:?}", other),
    }
}

#[test]
fn nested_literals_are_rewritten_inside() {
    let e = parse_expr(&ScriptExpr::Object(vec![(
        1,
        Some(ScriptExpr::Vec(vec![ScriptExpr::Range(9)])),
    )]));
    match e {
        Expansion::Object(fields) => match &fields[0].1 {
            Expansion::Vec(items) => assert!(is_described_piece(&items[0], 9)),
            other => panic!("expected a vector, got {:?}", other),
        },
        other => panic!("expected an object, got {:?}", other),
    }
}

#[test]
fn describe_wraps_the_whole_object() {
    let e = describe(&vec![(20, ScriptExpr::Range(1)), (21, ScriptExpr::Other(2))]);
    match e {
        Expansion::Describe(inner) => match *inner {
            Expansion::Object(fields) => {
                assert_eq!(fields.len(), 2);
                assert_eq!(fields[0].0, 20);
                assert!(is_described_piece(&fields[0].1, 1));
                assert_eq!(fields[1].0, 21);
                assert!(matches!(fields[1].1, Expansion::Keep(2)));
            }
            other => panic!("expected an object, got {:?}", other),
        },
        other => panic!("expected a description, got {:?}", other),
    }
}

#[test]
fn describe_of_no_fields_is_an_empty_object() {
    let e = describe(&Vec::new());
    match e {
        Expansion::Describe(inner) => {
            assert!(matches!(*inner, Expansion::Object(ref f) if f.is_empty()))
        }
        other => panic!("expected a description, got {:?}", other),
    }
}
