use vstd::prelude::*;

use crate::error::DecodeError;
use crate::filter::{filter_json, filter_of, lemma_filter_round_trip, CmpOp, Filter, FilterModel};
use crate::json::{
    copy_items, json_text, lemma_view_items_push, lemma_view_members_push, pair,
    view_items, view_members, Json, JsonModel,
};
use crate::rank::{rank_json, RankBy, RankModel};

verus! {

/// The distance function of a namespace's vectors.
#[derive(Clone, Copy, Debug, PartialEq, Eq, Structural)]
pub enum DistanceMetric {
    CosineDistance,
    EuclideanSquared,
}

/// The wire name of a distance metric.
pub open spec fn metric_token(m: DistanceMetric) -> Seq<char> {
    match m {
        DistanceMetric::CosineDistance => "cosine_distance"@,
        DistanceMetric::EuclideanSquared => "euclidean_squared"@,
    }
}

impl DistanceMetric {
    /// The wire name of this metric.
    pub fn wire_name(&self) -> (r: &'static str)
        ensures
            r@ == metric_token(*self),
    {
        match self {
            DistanceMetric::CosineDistance => "cosine_distance",
            DistanceMetric::EuclideanSquared => "euclidean_squared",
        }
    }
}

/// Which attributes a query returns with each row.
#[derive(Debug, PartialEq)]
pub enum IncludeAttributes {
    /// Every attribute; encoded as `true`.
    All,
    /// The named attributes, in this order.
    List(Vec<String>),
}

/// The mathematical model of an [`IncludeAttributes`].
pub ghost enum IncludeModel {
    All,
    List(Seq<Seq<char>>),
}

impl View for IncludeAttributes {
    type V = IncludeModel;

    open spec fn view(&self) -> IncludeModel {
        match self {
            IncludeAttributes::All => IncludeModel::All,
            IncludeAttributes::List(names) => IncludeModel::List(
                names@.map_values(|s: String| s@),
            ),
        }
    }
}

/// The wire form of an attribute selection.
pub open spec fn include_json(i: IncludeModel) -> JsonModel {
    match i {
        IncludeModel::All => JsonModel::Bool(true),
        IncludeModel::List(names) => JsonModel::Array(
            Seq::new(names.len(), |k: int| JsonModel::Str(names[k])),
        ),
    }
}

/// The one-member sequence `[(key, v)]` when `v` is present, else nothing.
pub open spec fn opt_member(key: Seq<char>, v: Option<JsonModel>) -> Seq<(Seq<char>, JsonModel)> {
    match v {
        Some(x) => seq![(key, x)],
        None => Seq::empty(),
    }
}

fn push_member(members: &mut Vec<(String, Json)>, key: &str, value: Json)
    ensures
        view_members(final(members)@) == view_members(old(members)@).push((key@, value@)),
{
    let item = (key.to_owned(), value);
    proof {
        lemma_view_members_push(members@, item);
    }
    members.push(item);
}

fn copy_names(names: &Vec<String>) -> (r: Vec<Json>)
    ensures
        view_items(r@) == Seq::new(names@.len(), |k: int| JsonModel::Str(names@[k]@)),
{
    let mut out: Vec<Json> = Vec::new();
    let mut i: usize = 0;
    while i < names.len()
        invariant
            i <= names@.len(),
            view_items(out@) == Seq::new(i as nat, |k: int| JsonModel::Str(names@[k]@)),
        decreases names@.len() - i,
    {
        let item = Json::Str(names[i].clone());
        proof {
            lemma_view_items_push(out@, item);
        }
        out.push(item);
        i = i + 1;
        proof {
            assert(view_items(out@) =~= Seq::new(i as nat, |k: int| JsonModel::Str(names@[k]@)));
        }
    }
    out
}

impl IncludeAttributes {
    /// The wire form of this selection.
    pub fn encode(&self) -> (r: Json)
        ensures
            r@ == include_json(self@),
    {
        match self {
            IncludeAttributes::All => Json::Bool(true),
            IncludeAttributes::List(names) => {
                let items = copy_names(names);
                assert(Seq::new(names@.len(), |k: int| JsonModel::Str(names@[k]@)) =~= Seq::new(
                    names@.map_values(|s: String| s@).len(),
                    |k: int| JsonModel::Str(names@.map_values(|s: String| s@)[k]),
                ));
                Json::Array(items)
            },
        }
    }
}

/// The parameters of a query: how to rank, what to keep, how many rows,
/// and which attributes to return.
pub struct QueryParams {
    pub rank_by: Option<RankBy>,
    pub filters: Option<Filter>,
    pub top_k: Option<u32>,
    pub include_attributes: Option<IncludeAttributes>,
}

impl Default for QueryParams {
    fn default() -> (r: QueryParams)
        ensures
            r.rank_by is None,
            r.filters is None,
            r.top_k is None,
            r.include_attributes is None,
    {
        QueryParams { rank_by: None, filters: None, top_k: None, include_attributes: None }
    }
}

/// The body of a query request: one member for each parameter that is set,
/// in the order `rank_by`, `filters`, `top_k`, `include_attributes`.
pub open spec fn query_members(
    rank_by: Option<RankModel>,
    filters: Option<FilterModel>,
    top_k: Option<u32>,
    include_attributes: Option<IncludeModel>,
) -> Seq<(Seq<char>, JsonModel)> {
    opt_member(
        "rank_by"@,
        match rank_by {
            Some(r) => Some(rank_json(r)),
            None => None,
        },
    ) + opt_member(
        "filters"@,
        match filters {
            Some(f) => Some(filter_json(f)),
            None => None,
        },
    ) + opt_member(
        "top_k"@,
        match top_k {
            Some(k) => Some(JsonModel::Int(k as int)),
            None => None,
        },
    ) + opt_member(
        "include_attributes"@,
        match include_attributes {
            Some(i) => Some(include_json(i)),
            None => None,
        },
    )
}

/// The model of an optional rank tree.
pub open spec fn opt_rank(r: Option<RankBy>) -> Option<RankModel> {
    match r {
        Some(x) => Some(x@),
        None => None,
    }
}

/// The model of an optional filter.
pub open spec fn opt_filter(f: Option<Filter>) -> Option<FilterModel> {
    match f {
        Some(x) => Some(x@),
        None => None,
    }
}

/// The model of an optional attribute selection.
pub open spec fn opt_include(i: Option<IncludeAttributes>) -> Option<IncludeModel> {
    match i {
        Some(x) => Some(x@),
        None => None,
    }
}

impl QueryParams {
    /// The JSON body of the query request.
    pub fn to_json(&self) -> (r: Json)
        ensures
            r@ == JsonModel::Object(
                query_members(
                    opt_rank(self.rank_by),
                    opt_filter(self.filters),
                    self.top_k,
                    opt_include(self.include_attributes),
                ),
            ),
    {
        let rank = match &self.rank_by {
            Some(r) => Some(r.encode()),
            None => None,
        };
        let filters = match &self.filters {
            Some(f) => Some(f.encode()),
            None => None,
        };
        let top_k = match self.top_k {
            Some(k) => Some(Json::Int(k as i64)),
            None => None,
        };
        let selection = match &self.include_attributes {
            Some(i) => Some(i.encode()),
            None => None,
        };
        let mut members: Vec<(String, Json)> = Vec::new();
        assert(view_members(members@) =~= Seq::empty());
        push_opt_member(&mut members, "rank_by", rank);
        assert(view_members(members@) =~= opt_member("rank_by"@, opt_json(rank)));
        push_opt_member(&mut members, "filters", filters);
        push_opt_member(&mut members, "top_k", top_k);
        push_opt_member(&mut members, "include_attributes", selection);
        Json::Object(members)
    }
}

} // verus!

verus! {

/// A row: its attributes by name, `id` and `vector` among them.
pub type Row = Vec<(String, Json)>;

/// The wire form of a list of rows: an array of objects.
pub open spec fn rows_json(rows: Seq<Row>) -> JsonModel {
    JsonModel::Array(Seq::new(rows.len(), |i: int| JsonModel::Object(view_members(rows[i]@))))
}

fn encode_rows(rows: &Vec<Row>) -> (r: Json)
    ensures
        r@ == rows_json(rows@),
{
    let mut out: Vec<Json> = Vec::new();
    let mut i: usize = 0;
    while i < rows.len()
        invariant
            i <= rows@.len(),
            view_items(out@) == Seq::new(
                i as nat,
                |k: int| JsonModel::Object(view_members(rows@[k]@)),
            ),
        decreases rows@.len() - i,
    {
        let item = Json::Object(crate::json::copy_members(&rows[i]));
        proof {
            lemma_view_items_push(out@, item);
        }
        out.push(item);
        i = i + 1;
        proof {
            assert(view_items(out@) =~= Seq::new(
                i as nat,
                |k: int| JsonModel::Object(view_members(rows@[k]@)),
            ));
        }
    }
    Json::Array(out)
}

/// The parameters of a write. Upserts, patches and deletes may be combined
/// in one request; each part that is set is passed on as it is.
pub struct WriteParams {
    pub upsert_rows: Option<Vec<Row>>,
    pub patch_rows: Option<Vec<Row>>,
    pub deletes: Option<Vec<Json>>,
    pub delete_by_filter: Option<Filter>,
    pub distance_metric: Option<DistanceMetric>,
    pub schema: Option<Row>,
}

impl Default for WriteParams {
    fn default() -> (r: WriteParams)
        ensures
            r.upsert_rows is None,
            r.patch_rows is None,
            r.deletes is None,
            r.delete_by_filter is None,
            r.distance_metric is None,
            r.schema is None,
    {
        WriteParams {
            upsert_rows: None,
            patch_rows: None,
            deletes: None,
            delete_by_filter: None,
            distance_metric: None,
            schema: None,
        }
    }
}

/// The wire form of optional rows.
pub open spec fn opt_rows_json(rows: Option<Vec<Row>>) -> Option<JsonModel> {
    match rows {
        Some(rows) => Some(rows_json(rows@)),
        None => None,
    }
}

/// The wire form of an optional list of ids.
pub open spec fn opt_ids_json(ids: Option<Vec<Json>>) -> Option<JsonModel> {
    match ids {
        Some(ids) => Some(JsonModel::Array(view_items(ids@))),
        None => None,
    }
}

/// The wire form of an optional filter.
pub open spec fn opt_filter_json(f: Option<Filter>) -> Option<JsonModel> {
    match f {
        Some(f) => Some(filter_json(f@)),
        None => None,
    }
}

/// The wire form of an optional distance metric.
pub open spec fn opt_metric_json(m: Option<DistanceMetric>) -> Option<JsonModel> {
    match m {
        Some(m) => Some(JsonModel::Str(metric_token(m))),
        None => None,
    }
}

/// The wire form of an optional schema.
pub open spec fn opt_schema_json(s: Option<Row>) -> Option<JsonModel> {
    match s {
        Some(s) => Some(JsonModel::Object(view_members(s@))),
        None => None,
    }
}

/// The model of an optional JSON value.
pub open spec fn opt_json(v: Option<Json>) -> Option<JsonModel> {
    match v {
        Some(x) => Some(x@),
        None => None,
    }
}

fn push_opt_member(members: &mut Vec<(String, Json)>, key: &str, value: Option<Json>)
    ensures
        view_members(final(members)@) == view_members(old(members)@) + opt_member(
            key@,
            opt_json(value),
        ),
{
    match value {
        Some(v) => {
            push_member(members, key, v);
        },
        None => {},
    }
    assert(view_members(members@) =~= view_members(old(members)@) + opt_member(
        key@,
        opt_json(value),
    ));
}

/// The body of a write request: one member for each part that is set, in
/// the order `upsert_rows`, `patch_rows`, `deletes`, `delete_by_filter`,
/// `distance_metric`, `schema`.
pub open spec fn write_members(w: WriteParams) -> Seq<(Seq<char>, JsonModel)> {
    opt_member("upsert_rows"@, opt_rows_json(w.upsert_rows)) + opt_member(
        "patch_rows"@,
        opt_rows_json(w.patch_rows),
    ) + opt_member("deletes"@, opt_ids_json(w.deletes)) + opt_member(
        "delete_by_filter"@,
        opt_filter_json(w.delete_by_filter),
    ) + opt_member("distance_metric"@, opt_metric_json(w.distance_metric)) + opt_member(
        "schema"@,
        opt_schema_json(w.schema),
    )
}

impl WriteParams {
    /// The JSON body of the write request.
    pub fn to_json(&self) -> (r: Json)
        ensures
            r@ == JsonModel::Object(write_members(*self)),
    {
        let upserts = match &self.upsert_rows {
            Some(rows) => Some(encode_rows(rows)),
            None => None,
        };
        let patches = match &self.patch_rows {
            Some(rows) => Some(encode_rows(rows)),
            None => None,
        };
        let deletes = match &self.deletes {
            Some(ids) => Some(Json::Array(copy_items(ids))),
            None => None,
        };
        let by_filter = match &self.delete_by_filter {
            Some(f) => Some(f.encode()),
            None => None,
        };
        let metric = match &self.distance_metric {
            Some(m) => Some(json_text(m.wire_name())),
            None => None,
        };
        let schema = match &self.schema {
            Some(s) => Some(Json::Object(crate::json::copy_members(s))),
            None => None,
        };
        let mut members: Vec<(String, Json)> = Vec::new();
        assert(view_members(members@) =~= Seq::empty());
        push_opt_member(&mut members, "upsert_rows", upserts);
        assert(view_members(members@) =~= opt_member("upsert_rows"@, opt_rows_json(self.upsert_rows)));
        push_opt_member(&mut members, "patch_rows", patches);
        push_opt_member(&mut members, "deletes", deletes);
        push_opt_member(&mut members, "delete_by_filter", by_filter);
        push_opt_member(&mut members, "distance_metric", metric);
        push_opt_member(&mut members, "schema", schema);
        Json::Object(members)
    }
}

} // verus!

verus! {

/// A filter on a null value is sent like any other: a query that carries
/// `["Eq", [attr, null]]` has a `filters` member holding exactly that, and it
/// decodes back to the same filter; a query without a filter has no
/// `filters` member at all.
pub proof fn lemma_null_filter_sent(
    rank_by: Option<RankModel>,
    attr: Seq<char>,
    top_k: Option<u32>,
    include_attributes: Option<IncludeModel>,
)
    ensures
        ({
            let f = FilterModel::Cmp(CmpOp::Eq, attr, JsonModel::Null);
            &&& query_members(rank_by, Some(f), top_k, include_attributes).contains(
                ("filters"@, pair(JsonModel::Str("Eq"@), pair(JsonModel::Str(attr), JsonModel::Null))),
            )
            &&& filter_of(filter_json(f)) == Ok::<FilterModel, DecodeError>(f)
        }),
        forall|i: int|
            0 <= i < query_members(rank_by, None, top_k, include_attributes).len()
                ==> #[trigger] query_members(rank_by, None, top_k, include_attributes)[i].0
                != "filters"@,
{
    let f = FilterModel::Cmp(CmpOp::Eq, attr, JsonModel::Null);
    lemma_filter_round_trip(f);
    let with = query_members(rank_by, Some(f), top_k, include_attributes);
    let m0 = opt_member(
        "rank_by"@,
        match rank_by {
            Some(r) => Some(rank_json(r)),
            None => None,
        },
    );
    assert(with[m0.len() as int] == ("filters"@, filter_json(f)));
    reveal_strlit("rank_by");
    reveal_strlit("filters");
    reveal_strlit("top_k");
    reveal_strlit("include_attributes");
    assert("rank_by"@.len() == 7);
    assert("filters"@.len() == 7);
    assert("top_k"@.len() == 5);
    assert("include_attributes"@.len() == 18);
    assert("rank_by"@[0] != "filters"@[0]);
}

} // verus!
