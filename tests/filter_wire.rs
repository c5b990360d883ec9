use puff_rs::error::{DecodeError, ValidationError};
use puff_rs::filter::{CmpOp, Filter, ListOp};
use puff_rs::json::Json;

fn text(s: &str) -> Json {
    Json::Str(s.to_string())
}

fn arr(items: Vec<Json>) -> Json {
    Json::Array(items)
}

fn name(s: &str) -> String {
    s.to_string()
}

#[test]
fn nested_and_or_in_not_eq_encodes_exactly() {
    let f = Filter::and(vec![
        Filter::or(vec![Filter::in_(name("numbers"), vec![Json::Int(2), Json::Int(4)])]),
        Filter::not_eq(name("foo"), Json::Null),
    ]);
    let expected = arr(vec![
        text("And"),
        arr(vec![
            arr(vec![
                text("Or"),
                arr(vec![arr(vec![
                    text("In"),
                    arr(vec![text("numbers"), arr(vec![Json::Int(2), Json::Int(4)])]),
                ])]),
            ]),
            arr(vec![text("NotEq"), arr(vec![text("foo"), Json::Null])]),
        ]),
    ]);
    assert_eq!(f.encode(), expected);
}

#[test]
fn every_operator_token_is_verbatim() {
    let cases = vec![
        (Filter::eq(name("a"), Json::Int(1)), "Eq"),
        (Filter::not_eq(name("a"), Json::Int(1)), "NotEq"),
        (Filter::lt(name("a"), Json::Int(1)), "Lt"),
        (Filter::lte(name("a"), Json::Int(1)), "Lte"),
        (Filter::gt(name("a"), Json::Int(1)), "Gt"),
        (Filter::gte(name("a"), Json::Int(1)), "Gte"),
        (Filter::contains(name("a"), Json::Int(1)), "Contains"),
    ];
    for (f, token) in cases {
        assert_eq!(f.encode(), arr(vec![text(token), arr(vec![text("a"), Json::Int(1)])]));
    }
    let any = Filter::contains_any(name("tags"), vec![text("rust"), text("typescript")]);
    assert_eq!(
        any.encode(),
        arr(vec![
            text("ContainsAny"),
            arr(vec![text("tags"), arr(vec![text("rust"), text("typescript")])]),
        ])
    );
}

#[test]
fn not_takes_exactly_one_child() {
    assert_eq!(Filter::not_from(vec![]), Err(ValidationError::Arity));
    let two = vec![Filter::eq(name("a"), Json::Int(1)), Filter::eq(name("b"), Json::Int(2))];
    assert_eq!(Filter::not_from(two), Err(ValidationError::Arity));
    let one = Filter::not_from(vec![Filter::eq(name("a"), Json::Int(1))]).unwrap();
    assert_eq!(one, Filter::not(Filter::eq(name("a"), Json::Int(1))));
}

#[test]
fn empty_and_or_encode_to_empty_operands() {
    assert_eq!(Filter::and(vec![]).encode(), arr(vec![text("And"), arr(vec![])]));
    assert_eq!(Filter::or(vec![]).encode(), arr(vec![text("Or"), arr(vec![])]));
    let back = Filter::decode(&Filter::and(vec![]).encode()).unwrap();
    assert_eq!(back, Filter::And(vec![]));
    let back = Filter::decode(&Filter::or(vec![]).encode()).unwrap();
    assert_eq!(back, Filter::Or(vec![]));
}

#[test]
fn encoding_twice_gives_identical_values() {
    let f = Filter::and(vec![
        Filter::contains(name("tags"), text("python")),
        Filter::eq(name("category"), text("backend")),
        Filter::gte(name("score"), Json::Float(0.5f64.to_bits())),
    ]);
    assert_eq!(f.encode(), f.encode());
}

#[test]
fn double_negation_keeps_both_wrappers() {
    let inner = Filter::eq(name("x"), Json::Int(1));
    let nn = Filter::not(Filter::not(Filter::eq(name("x"), Json::Int(1))));
    let encoded = nn.encode();
    assert_ne!(encoded, inner.encode());
    assert_eq!(
        encoded,
        arr(vec![text("Not"), arr(vec![text("Not"), inner.encode()])])
    );
    assert_eq!(Filter::decode(&encoded).unwrap(), nn);
}

#[test]
fn null_equality_is_a_standalone_filter() {
    let f = Filter::eq(name("attr"), Json::Null);
    let encoded = f.encode();
    assert_eq!(encoded, arr(vec![text("Eq"), arr(vec![text("attr"), Json::Null])]));
    assert_eq!(Filter::decode(&encoded).unwrap(), f);
}

#[test]
fn filter_round_trips_through_decode() {
    let f = Filter::and(vec![
        Filter::or(vec![
            Filter::in_(name("numbers"), vec![Json::Int(2), Json::Int(3)]),
            Filter::in_(name("numbers"), vec![Json::Int(1), Json::Int(7)]),
        ]),
        Filter::or(vec![
            Filter::eq(name("foo"), text("bar")),
            Filter::in_(name("numbers"), vec![Json::Int(4)]),
        ]),
        Filter::not_eq(name("foo"), Json::Null),
        Filter::eq(name("maybeNull"), Json::Null),
        Filter::eq(name("bool"), Json::Bool(true)),
        Filter::not(Filter::lt(name("n"), Json::Float(1.25f64.to_bits()))),
    ]);
    assert_eq!(Filter::decode(&f.encode()).unwrap(), f);
}

#[test]
fn decode_rejects_unknown_operators() {
    let j = arr(vec![text("Xor"), arr(vec![])]);
    assert_eq!(Filter::decode(&j), Err(DecodeError::UnknownOperator));
    let j = arr(vec![Json::Int(3), arr(vec![])]);
    assert_eq!(Filter::decode(&j), Err(DecodeError::UnknownOperator));
    let nested = arr(vec![text("And"), arr(vec![arr(vec![text("eq"), arr(vec![text("a"), Json::Int(1)])])])]);
    assert_eq!(Filter::decode(&nested), Err(DecodeError::UnknownOperator));
}

#[test]
fn decode_rejects_wrong_arity() {
    assert_eq!(Filter::decode(&Json::Null), Err(DecodeError::ArityMismatch));
    let three = arr(vec![text("Eq"), text("a"), Json::Int(1)]);
    assert_eq!(Filter::decode(&three), Err(DecodeError::ArityMismatch));
    let short = arr(vec![text("Eq"), arr(vec![text("a")])]);
    assert_eq!(Filter::decode(&short), Err(DecodeError::ArityMismatch));
    let scalar_in = arr(vec![text("In"), arr(vec![text("a"), Json::Int(1)])]);
    assert_eq!(Filter::decode(&scalar_in), Err(DecodeError::ArityMismatch));
    let and_scalar = arr(vec![text("And"), Json::Int(1)]);
    assert_eq!(Filter::decode(&and_scalar), Err(DecodeError::ArityMismatch));
}

#[test]
fn decode_builds_each_variant() {
    let j = arr(vec![text("Contains"), arr(vec![text("tags"), text("javascript")])]);
    assert_eq!(
        Filter::decode(&j).unwrap(),
        Filter::Cmp(CmpOp::Contains, name("tags"), text("javascript"))
    );
    let j = arr(vec![text("In"), arr(vec![text("n"), arr(vec![Json::Int(2)])])]);
    assert_eq!(Filter::decode(&j).unwrap(), Filter::List(ListOp::In, name("n"), vec![Json::Int(2)]));
}
