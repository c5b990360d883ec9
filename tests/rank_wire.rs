use puff_rs::error::{DecodeError, ValidationError};
use puff_rs::json::Json;
use puff_rs::rank::{weight_is_finite, Direction, RankBy};

fn text(s: &str) -> Json {
    Json::Str(s.to_string())
}

fn arr(items: Vec<Json>) -> Json {
    Json::Array(items)
}

fn name(s: &str) -> String {
    s.to_string()
}

fn bm25(attr: &str, q: &str) -> RankBy {
    RankBy::bm25(name(attr), name(q))
}

#[test]
fn sum_of_bm25_encodes_per_grammar() {
    let r = RankBy::sum(vec![bm25("text", "large tusk"), bm25("text", "mollusk diet")]).unwrap();
    let expected = arr(vec![
        text("Sum"),
        arr(vec![
            arr(vec![text("text"), text("BM25"), text("large tusk")]),
            arr(vec![text("text"), text("BM25"), text("mollusk diet")]),
        ]),
    ]);
    assert_eq!(r.encode(), expected);
}

#[test]
fn nested_product_max_round_trips() {
    let inner = RankBy::product(2.0f64.to_bits(), bm25("title", "one")).unwrap();
    let max = RankBy::max(vec![inner, bm25("content", "foo")]).unwrap();
    let r = RankBy::product(2.0f64.to_bits(), max).unwrap();
    let encoded = r.encode();
    let back = RankBy::decode(&encoded).unwrap();
    assert_eq!(back, r);
    assert_eq!(back.encode(), encoded);
}

#[test]
fn product_weight_must_be_finite() {
    assert_eq!(
        RankBy::product(f64::NAN.to_bits(), bm25("t", "x")),
        Err(ValidationError::NonFiniteWeight)
    );
    assert_eq!(
        RankBy::product(f64::INFINITY.to_bits(), bm25("t", "x")),
        Err(ValidationError::NonFiniteWeight)
    );
    assert_eq!(
        RankBy::product(f64::NEG_INFINITY.to_bits(), bm25("t", "x")),
        Err(ValidationError::NonFiniteWeight)
    );
    let r = RankBy::product(2.0f64.to_bits(), bm25("title", "one")).unwrap();
    let encoded = r.encode();
    assert_eq!(
        encoded,
        arr(vec![
            text("Product"),
            arr(vec![
                Json::Float(2.0f64.to_bits()),
                arr(vec![text("title"), text("BM25"), text("one")]),
            ]),
        ])
    );
    if let Json::Array(outer) = &encoded {
        if let Json::Array(operands) = &outer[1] {
            assert_eq!(operands[0], Json::Float(2.0f64.to_bits()));
            if let Json::Float(bits) = operands[0] {
                assert_eq!(f64::from_bits(bits), 2.0);
            }
        }
    }
}

#[test]
fn finiteness_of_weights() {
    assert!(weight_is_finite(0.0f64.to_bits()));
    assert!(weight_is_finite((-3.5f64).to_bits()));
    assert!(weight_is_finite(f64::MAX.to_bits()));
    assert!(weight_is_finite(f64::MIN_POSITIVE.to_bits()));
    assert!(!weight_is_finite(f64::NAN.to_bits()));
    assert!(!weight_is_finite(f64::INFINITY.to_bits()));
}

#[test]
fn sum_and_max_need_a_child() {
    assert_eq!(RankBy::sum(vec![]), Err(ValidationError::Arity));
    assert_eq!(RankBy::max(vec![]), Err(ValidationError::Arity));
}

#[test]
fn leaves_encode_per_grammar() {
    let v = RankBy::vector(name("vector"), vec![1.0f64.to_bits(), 1.5f64.to_bits()]);
    assert_eq!(
        v.encode(),
        arr(vec![
            text("vector"),
            text("ANN"),
            arr(vec![Json::Float(1.0f64.to_bits()), Json::Float(1.5f64.to_bits())]),
        ])
    );
    assert_eq!(RankBy::asc(name("a")).encode(), arr(vec![text("a"), text("asc")]));
    assert_eq!(RankBy::desc(name("a")).encode(), arr(vec![text("a"), text("desc")]));
    assert_eq!(
        RankBy::decode(&arr(vec![text("id"), text("asc")])).unwrap(),
        RankBy::AttributeOrder(name("id"), Direction::Asc)
    );
}

#[test]
fn rank_round_trips_every_kind() {
    let r = RankBy::sum(vec![
        RankBy::vector(name("vector"), vec![0.1f64.to_bits(), 0.2f64.to_bits()]),
        RankBy::product(0.5f64.to_bits(), RankBy::desc(name("a"))).unwrap(),
        RankBy::max(vec![bm25("title", "one"), RankBy::asc(name("b"))]).unwrap(),
    ])
    .unwrap();
    let encoded = r.encode();
    assert_eq!(encoded, r.encode());
    assert_eq!(RankBy::decode(&encoded).unwrap(), r);
}

#[test]
fn rank_decode_errors() {
    let unknown = arr(vec![text("a"), text("sideways")]);
    assert_eq!(RankBy::decode(&unknown), Err(DecodeError::UnknownOperator));
    let unknown = arr(vec![text("a"), text("KNN"), arr(vec![])]);
    assert_eq!(RankBy::decode(&unknown), Err(DecodeError::UnknownOperator));
    let unknown = arr(vec![text("Min"), arr(vec![])]);
    assert_eq!(RankBy::decode(&unknown), Err(DecodeError::UnknownOperator));
    let empty_sum = arr(vec![text("Sum"), arr(vec![])]);
    assert_eq!(RankBy::decode(&empty_sum), Err(DecodeError::ArityMismatch));
    let bad_weight = arr(vec![
        text("Product"),
        arr(vec![Json::Float(f64::NAN.to_bits()), arr(vec![text("a"), text("asc")])]),
    ]);
    assert_eq!(RankBy::decode(&bad_weight), Err(DecodeError::ArityMismatch));
    let int_vector = arr(vec![text("v"), text("ANN"), arr(vec![Json::Int(1)])]);
    assert_eq!(RankBy::decode(&int_vector), Err(DecodeError::ArityMismatch));
    assert_eq!(RankBy::decode(&arr(vec![text("a")])), Err(DecodeError::ArityMismatch));
}
