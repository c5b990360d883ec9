use puff_rs::endpoint::{bearer, default_base_url, region_base_url, request_url};
use puff_rs::filter::Filter;
use puff_rs::json::Json;
use puff_rs::listing::NamespacesParams;
use puff_rs::rank::RankBy;
use puff_rs::request::{DistanceMetric, IncludeAttributes, QueryParams, WriteParams};

fn text(s: &str) -> Json {
    Json::Str(s.to_string())
}

fn arr(items: Vec<Json>) -> Json {
    Json::Array(items)
}

fn name(s: &str) -> String {
    s.to_string()
}

fn keys(j: &Json) -> Vec<String> {
    match j {
        Json::Object(members) => members.iter().map(|(k, _)| k.clone()).collect(),
        _ => panic!("not an object"),
    }
}

#[test]
fn query_body_holds_each_set_parameter() {
    let q = QueryParams {
        rank_by: Some(RankBy::vector(name("vector"), vec![1.0f64.to_bits(), 1.0f64.to_bits()])),
        filters: Some(Filter::in_(name("numbers"), vec![Json::Int(2), Json::Int(4)])),
        top_k: Some(10),
        ..QueryParams::default()
    };
    let body = q.to_json();
    assert_eq!(keys(&body), vec!["rank_by", "filters", "top_k"]);
    if let Json::Object(members) = &body {
        assert_eq!(members[2].1, Json::Int(10));
        assert_eq!(
            members[1].1,
            arr(vec![text("In"), arr(vec![text("numbers"), arr(vec![Json::Int(2), Json::Int(4)])])])
        );
    }
}

#[test]
fn null_filter_is_sent_and_absent_filter_is_not() {
    let with = QueryParams {
        filters: Some(Filter::eq(name("attr"), Json::Null)),
        ..QueryParams::default()
    };
    let without = QueryParams::default();
    let with_body = with.to_json();
    assert_eq!(
        with_body,
        Json::Object(vec![(
            name("filters"),
            arr(vec![text("Eq"), arr(vec![text("attr"), Json::Null])])
        )])
    );
    assert_eq!(without.to_json(), Json::Object(vec![]));
    assert_ne!(with_body, without.to_json());
}

#[test]
fn include_attributes_all_or_list() {
    let all = QueryParams {
        include_attributes: Some(IncludeAttributes::All),
        ..QueryParams::default()
    };
    assert_eq!(all.to_json(), Json::Object(vec![(name("include_attributes"), Json::Bool(true))]));
    let list = QueryParams {
        rank_by: Some(RankBy::asc(name("id"))),
        include_attributes: Some(IncludeAttributes::List(vec![name("id"), name("a"), name("b")])),
        top_k: Some(10),
        ..QueryParams::default()
    };
    assert_eq!(
        list.to_json(),
        Json::Object(vec![
            (name("rank_by"), arr(vec![text("id"), text("asc")])),
            (name("top_k"), Json::Int(10)),
            (name("include_attributes"), arr(vec![text("id"), text("a"), text("b")])),
        ])
    );
}

#[test]
fn write_body_passes_combinations_through() {
    let row = vec![(name("id"), Json::Int(1)), (name("foo"), text("bar"))];
    let w = WriteParams {
        upsert_rows: Some(vec![row]),
        deletes: Some(vec![Json::Int(7)]),
        delete_by_filter: Some(Filter::eq(name("foo"), text("baz"))),
        distance_metric: Some(DistanceMetric::CosineDistance),
        ..WriteParams::default()
    };
    let body = w.to_json();
    assert_eq!(keys(&body), vec!["upsert_rows", "deletes", "delete_by_filter", "distance_metric"]);
    if let Json::Object(members) = &body {
        assert_eq!(
            members[0].1,
            arr(vec![Json::Object(vec![(name("id"), Json::Int(1)), (name("foo"), text("bar"))])])
        );
        assert_eq!(members[1].1, arr(vec![Json::Int(7)]));
        assert_eq!(members[3].1, text("cosine_distance"));
    }
}

#[test]
fn write_body_with_patches_and_schema() {
    let w = WriteParams {
        patch_rows: Some(vec![vec![(name("id"), Json::Int(2)), (name("b"), Json::Int(2))]]),
        distance_metric: Some(DistanceMetric::EuclideanSquared),
        schema: Some(vec![(
            name("title"),
            Json::Object(vec![(name("type"), text("string"))]),
        )]),
        ..WriteParams::default()
    };
    let body = w.to_json();
    assert_eq!(keys(&body), vec!["patch_rows", "distance_metric", "schema"]);
    assert_eq!(WriteParams::default().to_json(), Json::Object(vec![]));
}

#[test]
fn distance_metric_wire_names() {
    assert_eq!(DistanceMetric::CosineDistance.wire_name(), "cosine_distance");
    assert_eq!(DistanceMetric::EuclideanSquared.wire_name(), "euclidean_squared");
}

#[test]
fn listing_paths() {
    assert_eq!(NamespacesParams::default().path(), "/v1/namespaces");
    let p = NamespacesParams { page_size: Some(5), ..NamespacesParams::default() };
    assert_eq!(p.path(), "/v1/namespaces?page_size=5");
    let p = NamespacesParams {
        prefix: Some(name("rust_sdk_")),
        cursor: Some(name("abc")),
        page_size: Some(4294967295),
    };
    assert_eq!(p.path(), "/v1/namespaces?prefix=rust_sdk_&cursor=abc&page_size=4294967295");
    let p = NamespacesParams { cursor: Some(name("c1")), page_size: Some(0), ..NamespacesParams::default() };
    assert_eq!(p.path(), "/v1/namespaces?cursor=c1&page_size=0");
}

#[test]
fn endpoint_addresses() {
    assert_eq!(default_base_url(), "https://api.turbopuffer.com");
    assert_eq!(region_base_url("gcp-us-central1"), "https://gcp-us-central1.turbopuffer.com");
    assert_eq!(
        request_url("https://api.turbopuffer.com", "/v1/namespaces"),
        "https://api.turbopuffer.com/v1/namespaces"
    );
    assert_eq!(bearer("SECRET-REDACTED"), "Bearer SECRET-REDACTED");
}
