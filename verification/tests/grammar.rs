use shape_layout::num::SCALE;
use shape_layout::poly::{Polygon, Vertex, Vertices};
use shape_layout::text::{parse_vertices, ParseError};

fn units(u: i64) -> i64 {
    u * SCALE
}

#[test]
fn parses_integer_pairs() {
    let vs = parse_vertices("1,2;3,4").unwrap();
    assert_eq!(
        vs.vals,
        vec![
            Vertex { x: units(1), y: units(2) },
            Vertex { x: units(3), y: units(4) },
        ]
    );
}

#[test]
fn parses_decimals_and_signs() {
    let vs = parse_vertices("1.5,-2.25; +3 , 0.000001").unwrap();
    assert_eq!(
        vs.vals,
        vec![
            Vertex { x: 1_500_000, y: -2_250_000 },
            Vertex { x: units(3), y: 1 },
        ]
    );
}

#[test]
fn trims_blank_space_around_numbers() {
    let vs = parse_vertices(" 1 , 2 ; \t3,4 ").unwrap();
    assert_eq!(
        vs.vals,
        vec![
            Vertex { x: units(1), y: units(2) },
            Vertex { x: units(3), y: units(4) },
        ]
    );
}

#[test]
fn three_numbers_in_a_group_is_an_arity_error() {
    match parse_vertices("1,2,3") {
        Err(ParseError::Arity(g)) => assert_eq!(g, "1,2,3"),
        other => panic!("expected an arity error, got {:?}", other),
    }
}

#[test]
fn one_number_in_a_group_is_an_arity_error() {
    match parse_vertices("1,2;7") {
        Err(ParseError::Arity(g)) => assert_eq!(g, "7"),
        other => panic!("expected an arity error, got {:?}", other),
    }
}

#[test]
fn non_numeric_token_is_a_number_format_error() {
    match parse_vertices("1,x") {
        Err(ParseError::NumberFormat(t)) => assert_eq!(t, "x"),
        other => panic!("expected a number-format error, got {:?}", other),
    }
}

#[test]
fn bad_token_wins_over_bad_arity() {
    match parse_vertices("1,x,3") {
        Err(ParseError::NumberFormat(t)) => assert_eq!(t, "x"),
        other => panic!("expected a number-format error, got {:?}", other),
    }
}

#[test]
fn empty_input_is_a_number_format_error() {
    match parse_vertices("") {
        Err(ParseError::NumberFormat(t)) => assert_eq!(t, ""),
        other => panic!("expected a number-format error, got {:?}", other),
    }
}

#[test]
fn double_point_is_a_number_format_error() {
    match parse_vertices("1.2.3,4") {
        Err(ParseError::NumberFormat(t)) => assert_eq!(t, "1.2.3"),
        other => panic!("expected a number-format error, got {:?}", other),
    }
}

#[test]
fn out_of_domain_number_is_rejected() {
    match parse_vertices("1000001,0") {
        Err(ParseError::NumberFormat(t)) => assert_eq!(t, "1000001"),
        other => panic!("expected a number-format error, got {:?}", other),
    }
    assert!(parse_vertices("1000000,0").is_ok());
}

#[test]
fn repr_of_empty_polygon() {
    let p = Polygon::new();
    assert_eq!(p.repr().as_str(), "()");
}

#[test]
fn repr_writes_minimal_decimals() {
    let p = Polygon::from_vertices(Vertices::new(vec![
        Vertex { x: 1_500_000, y: -2_250_000 },
        Vertex { x: units(3), y: units(4) },
    ]));
    assert_eq!(p.repr().as_str(), "1.5, -2.25; 3, 4");
}

#[test]
fn parse_then_reserialize_preserves_order_and_values() {
    let text = "0,0;10,0;10,10;0,10";
    let first = parse_vertices(text).unwrap();
    let p = Polygon::from_vertices(first);
    let again = parse_vertices(p.repr().as_str()).unwrap();
    assert_eq!(Polygon::from_vertices(again), p);
}

#[test]
fn roundtrip_through_text_keeps_fractional_vertices() {
    let p = Polygon::from_vertices(Vertices::new(vec![
        Vertex { x: -1, y: 999_999 },
        Vertex { x: 0, y: units(-1000) },
        Vertex { x: 123_456, y: 7 },
    ]));
    let again = parse_vertices(p.repr().as_str()).unwrap();
    assert_eq!(again.vals, p.vertices);
}
