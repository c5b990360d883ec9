use vstd::prelude::*;

use crate::error::{DecodeError, ValidationError};
use crate::json::{
    copy_items, json_pair, json_text, lemma_view_items, pair, same_text, view_items, Json,
    JsonModel,
};

verus! {

/// Operators that compare an attribute with one value: `[op, [attr, value]]`.
#[derive(Clone, Copy, Debug, PartialEq, Eq, Structural)]
pub enum CmpOp {
    Eq,
    NotEq,
    Lt,
    Lte,
    Gt,
    Gte,
    Contains,
}

/// Operators that compare an attribute with a list of values:
/// `[op, [attr, [value, ...]]]`.
#[derive(Clone, Copy, Debug, PartialEq, Eq, Structural)]
pub enum ListOp {
    In,
    ContainsAny,
}

/// A boolean predicate over the attributes of a row.
#[derive(Debug, PartialEq)]
pub enum Filter {
    Cmp(CmpOp, String, Json),
    List(ListOp, String, Vec<Json>),
    And(Vec<Filter>),
    Or(Vec<Filter>),
    Not(Box<Filter>),
}

/// The mathematical model of a [`Filter`].
pub ghost enum FilterModel {
    Cmp(CmpOp, Seq<char>, JsonModel),
    List(ListOp, Seq<char>, Seq<JsonModel>),
    And(Seq<FilterModel>),
    Or(Seq<FilterModel>),
    Not(Box<FilterModel>),
}

/// The models of a sequence of filters, in order.
pub open spec fn view_filters(s: Seq<Filter>) -> Seq<FilterModel>
    decreases s,
{
    if s.len() == 0 {
        Seq::empty()
    } else {
        view_filters(s.drop_last()).push(s.last().view())
    }
}

impl View for Filter {
    type V = FilterModel;

    open spec fn view(&self) -> FilterModel
        decreases self,
    {
        match self {
            Filter::Cmp(op, attr, value) => FilterModel::Cmp(*op, attr@, value@),
            Filter::List(op, attr, values) => FilterModel::List(*op, attr@, view_items(values@)),
            Filter::And(fs) => FilterModel::And(view_filters(fs@)),
            Filter::Or(fs) => FilterModel::Or(view_filters(fs@)),
            Filter::Not(child) => FilterModel::Not(Box::new((**child).view())),
        }
    }
}

/// The models of a sequence of filters match it item by item.
pub proof fn lemma_view_filters(s: Seq<Filter>)
    ensures
        view_filters(s).len() == s.len(),
        forall|i: int| 0 <= i < s.len() ==> #[trigger] view_filters(s)[i] == s[i]@,
    decreases s.len(),
{
    if s.len() > 0 {
        lemma_view_filters(s.drop_last());
        assert(view_filters(s) == view_filters(s.drop_last()).push(s.last()@));
        assert forall|i: int| 0 <= i < s.len() implies #[trigger] view_filters(s)[i] == s[i]@ by {
            if i < s.len() - 1 {
                assert(s.drop_last()[i] == s[i]);
            }
        }
    }
}

/// The wire token of a single-value comparison.
pub open spec fn cmp_token(op: CmpOp) -> Seq<char> {
    match op {
        CmpOp::Eq => "Eq"@,
        CmpOp::NotEq => "NotEq"@,
        CmpOp::Lt => "Lt"@,
        CmpOp::Lte => "Lte"@,
        CmpOp::Gt => "Gt"@,
        CmpOp::Gte => "Gte"@,
        CmpOp::Contains => "Contains"@,
    }
}

/// The wire token of a list comparison.
pub open spec fn list_token(op: ListOp) -> Seq<char> {
    match op {
        ListOp::In => "In"@,
        ListOp::ContainsAny => "ContainsAny"@,
    }
}

/// The single-value comparison whose token is `t`, if any.
pub open spec fn cmp_op_of(t: Seq<char>) -> Option<CmpOp> {
    if t == "Eq"@ {
        Some(CmpOp::Eq)
    } else if t == "NotEq"@ {
        Some(CmpOp::NotEq)
    } else if t == "Lt"@ {
        Some(CmpOp::Lt)
    } else if t == "Lte"@ {
        Some(CmpOp::Lte)
    } else if t == "Gt"@ {
        Some(CmpOp::Gt)
    } else if t == "Gte"@ {
        Some(CmpOp::Gte)
    } else if t == "Contains"@ {
        Some(CmpOp::Contains)
    } else {
        None
    }
}

/// The list comparison whose token is `t`, if any.
pub open spec fn list_op_of(t: Seq<char>) -> Option<ListOp> {
    if t == "In"@ {
        Some(ListOp::In)
    } else if t == "ContainsAny"@ {
        Some(ListOp::ContainsAny)
    } else {
        None
    }
}

/// The wire form of a filter: `[op, operands]`.
pub open spec fn filter_json(f: FilterModel) -> JsonModel
    decreases f,
{
    match f {
        FilterModel::Cmp(op, attr, value) => pair(
            JsonModel::Str(cmp_token(op)),
            pair(JsonModel::Str(attr), value),
        ),
        FilterModel::List(op, attr, values) => pair(
            JsonModel::Str(list_token(op)),
            pair(JsonModel::Str(attr), JsonModel::Array(values)),
        ),
        FilterModel::And(fs) => pair(JsonModel::Str("And"@), JsonModel::Array(filters_json(fs))),
        FilterModel::Or(fs) => pair(JsonModel::Str("Or"@), JsonModel::Array(filters_json(fs))),
        FilterModel::Not(child) => pair(JsonModel::Str("Not"@), filter_json(*child)),
    }
}

/// The wire forms of a sequence of filters, in order.
pub open spec fn filters_json(fs: Seq<FilterModel>) -> Seq<JsonModel>
    decreases fs,
{
    if fs.len() == 0 {
        Seq::empty()
    } else {
        filters_json(fs.drop_last()).push(filter_json(fs.last()))
    }
}

/// The filter whose wire form is `j`, or the first fault found in it.
pub open spec fn filter_of(j: JsonModel) -> Result<FilterModel, DecodeError>
    decreases j,
{
    match j {
        JsonModel::Array(s) => {
            if s.len() != 2 {
                Err(DecodeError::ArityMismatch)
            } else {
                match s[0] {
                    JsonModel::Str(t) => {
                        if cmp_op_of(t) is Some {
                            match s[1] {
                                JsonModel::Array(p) => {
                                    if p.len() == 2 && p[0] is Str {
                                        Ok(FilterModel::Cmp(cmp_op_of(t)->0, p[0]->Str_0, p[1]))
                                    } else {
                                        Err(DecodeError::ArityMismatch)
                                    }
                                },
                                _ => Err(DecodeError::ArityMismatch),
                            }
                        } else if list_op_of(t) is Some {
                            match s[1] {
                                JsonModel::Array(p) => {
                                    if p.len() == 2 && p[0] is Str && p[1] is Array {
                                        Ok(
                                            FilterModel::List(
                                                list_op_of(t)->0,
                                                p[0]->Str_0,
                                                p[1]->Array_0,
                                            ),
                                        )
                                    } else {
                                        Err(DecodeError::ArityMismatch)
                                    }
                                },
                                _ => Err(DecodeError::ArityMismatch),
                            }
                        } else if t == "And"@ || t == "Or"@ {
                            match s[1] {
                                JsonModel::Array(items) => match filters_of(items) {
                                    Ok(fs) => {
                                        if t == "And"@ {
                                            Ok(FilterModel::And(fs))
                                        } else {
                                            Ok(FilterModel::Or(fs))
                                        }
                                    },
                                    Err(e) => Err(e),
                                },
                                _ => Err(DecodeError::ArityMismatch),
                            }
                        } else if t == "Not"@ {
                            match filter_of(s[1]) {
                                Ok(child) => Ok(FilterModel::Not(Box::new(child))),
                                Err(e) => Err(e),
                            }
                        } else {
                            Err(DecodeError::UnknownOperator)
                        }
                    },
                    _ => Err(DecodeError::UnknownOperator),
                }
            }
        },
        _ => Err(DecodeError::ArityMismatch),
    }
}

/// The filters whose wire forms are `s`, in order, or the first fault found.
pub open spec fn filters_of(s: Seq<JsonModel>) -> Result<Seq<FilterModel>, DecodeError>
    decreases s,
{
    if s.len() == 0 {
        Ok(Seq::empty())
    } else {
        match filters_of(s.drop_last()) {
            Ok(fs) => match filter_of(s.last()) {
                Ok(f) => Ok(fs.push(f)),
                Err(e) => Err(e),
            },
            Err(e) => Err(e),
        }
    }
}

/// Once a prefix of `s` holds a fault, that fault is the one reported for `s`.
proof fn lemma_filters_of_fault(s: Seq<JsonModel>, k: int)
    requires
        0 <= k <= s.len(),
        filters_of(s.take(k)) is Err,
    ensures
        filters_of(s) == filters_of(s.take(k)),
    decreases s.len(),
{
    if k == s.len() {
        assert(s.take(k) =~= s);
    } else {
        assert(s.drop_last().take(k) =~= s.take(k));
        lemma_filters_of_fault(s.drop_last(), k);
    }
}

fn cmp_op_from(t: &String) -> (r: Option<CmpOp>)
    ensures
        r == cmp_op_of(t@),
{
    if same_text(t, "Eq") {
        Some(CmpOp::Eq)
    } else if same_text(t, "NotEq") {
        Some(CmpOp::NotEq)
    } else if same_text(t, "Lt") {
        Some(CmpOp::Lt)
    } else if same_text(t, "Lte") {
        Some(CmpOp::Lte)
    } else if same_text(t, "Gt") {
        Some(CmpOp::Gt)
    } else if same_text(t, "Gte") {
        Some(CmpOp::Gte)
    } else if same_text(t, "Contains") {
        Some(CmpOp::Contains)
    } else {
        None
    }
}

fn list_op_from(t: &String) -> (r: Option<ListOp>)
    ensures
        r == list_op_of(t@),
{
    if same_text(t, "In") {
        Some(ListOp::In)
    } else if same_text(t, "ContainsAny") {
        Some(ListOp::ContainsAny)
    } else {
        None
    }
}

fn cmp_token_text(op: CmpOp) -> (r: &'static str)
    ensures
        r@ == cmp_token(op),
{
    match op {
        CmpOp::Eq => "Eq",
        CmpOp::NotEq => "NotEq",
        CmpOp::Lt => "Lt",
        CmpOp::Lte => "Lte",
        CmpOp::Gt => "Gt",
        CmpOp::Gte => "Gte",
        CmpOp::Contains => "Contains",
    }
}

fn list_token_text(op: ListOp) -> (r: &'static str)
    ensures
        r@ == list_token(op),
{
    match op {
        ListOp::In => "In",
        ListOp::ContainsAny => "ContainsAny",
    }
}

impl Filter {
    /// The wire form of this filter.
    pub fn encode(&self) -> (r: Json)
        ensures
            r@ == filter_json(self@),
        decreases self,
    {
        match self {
            Filter::Cmp(op, attr, value) => json_pair(
                json_text(cmp_token_text(*op)),
                json_pair(Json::Str(attr.clone()), value.deep_copy()),
            ),
            Filter::List(op, attr, values) => json_pair(
                json_text(list_token_text(*op)),
                json_pair(Json::Str(attr.clone()), Json::Array(copy_items(values))),
            ),
            Filter::And(fs) => json_pair(json_text("And"), Json::Array(encode_filters(fs))),
            Filter::Or(fs) => json_pair(json_text("Or"), Json::Array(encode_filters(fs))),
            Filter::Not(child) => json_pair(json_text("Not"), child.encode()),
        }
    }
}

impl Filter {
    /// The filter whose wire form is `j`.
    pub fn decode(j: &Json) -> (r: Result<Filter, DecodeError>)
        ensures
            match r {
                Ok(f) => filter_of(j@) == Ok::<FilterModel, DecodeError>(f@),
                Err(e) => filter_of(j@) == Err::<FilterModel, DecodeError>(e),
            },
        decreases j,
    {
        match j {
            Json::Array(s) => {
                proof {
                    lemma_view_items(s@);
                }
                if s.len() != 2 {
                    return Err(DecodeError::ArityMismatch);
                }
                match &s[0] {
                    Json::Str(t) => {
                        if let Some(op) = cmp_op_from(t) {
                            match &s[1] {
                                Json::Array(p) => {
                                    proof {
                                        lemma_view_items(p@);
                                    }
                                    if p.len() == 2 {
                                        if let Json::Str(attr) = &p[0] {
                                            return Ok(
                                                Filter::Cmp(op, attr.clone(), p[1].deep_copy()),
                                            );
                                        }
                                    }
                                    Err(DecodeError::ArityMismatch)
                                },
                                _ => Err(DecodeError::ArityMismatch),
                            }
                        } else if let Some(op) = list_op_from(t) {
                            match &s[1] {
                                Json::Array(p) => {
                                    proof {
                                        lemma_view_items(p@);
                                    }
                                    if p.len() == 2 {
                                        if let Json::Str(attr) = &p[0] {
                                            if let Json::Array(values) = &p[1] {
                                                return Ok(
                                                    Filter::List(
                                                        op,
                                                        attr.clone(),
                                                        copy_items(values),
                                                    ),
                                                );
                                            }
                                        }
                                    }
                                    Err(DecodeError::ArityMismatch)
                                },
                                _ => Err(DecodeError::ArityMismatch),
                            }
                        } else if same_text(t, "And") || same_text(t, "Or") {
                            match &s[1] {
                                Json::Array(items) => {
                                    proof {
                                        assert(decreases_to!(s => s[1]));
                                        assert(decreases_to!(s[1] => *items));
                                    }
                                    match decode_filters(items) {
                                        Ok(fs) => {
                                            if same_text(t, "And") {
                                                Ok(Filter::And(fs))
                                            } else {
                                                Ok(Filter::Or(fs))
                                            }
                                        },
                                        Err(e) => Err(e),
                                    }
                                },
                                _ => Err(DecodeError::ArityMismatch),
                            }
                        } else if same_text(t, "Not") {
                            proof {
                                assert(decreases_to!(s => s[1]));
                            }
                            match Filter::decode(&s[1]) {
                                Ok(child) => Ok(Filter::Not(Box::new(child))),
                                Err(e) => Err(e),
                            }
                        } else {
                            Err(DecodeError::UnknownOperator)
                        }
                    },
                    _ => Err(DecodeError::UnknownOperator),
                }
            },
            _ => Err(DecodeError::ArityMismatch),
        }
    }
}

fn decode_filters(items: &Vec<Json>) -> (r: Result<Vec<Filter>, DecodeError>)
    ensures
        match r {
            Ok(fs) => filters_of(view_items(items@)) == Ok::<Seq<FilterModel>, DecodeError>(
                view_filters(fs@),
            ),
            Err(e) => filters_of(view_items(items@)) == Err::<Seq<FilterModel>, DecodeError>(e),
        },
    decreases items,
{
    proof {
        lemma_view_items(items@);
    }
    let ghost whole = view_items(items@);
    let mut out: Vec<Filter> = Vec::new();
    let mut i: usize = 0;
    while i < items.len()
        invariant
            i <= items@.len(),
            whole == view_items(items@),
            whole.len() == items@.len(),
            forall|k: int| 0 <= k < items@.len() ==> #[trigger] whole[k] == items@[k]@,
            filters_of(whole.take(i as int)) == Ok::<Seq<FilterModel>, DecodeError>(
                view_filters(out@),
            ),
        decreases items@.len() - i,
    {
        proof {
            assert(decreases_to!(items => items[i as int]));
            assert(whole.take(i + 1).drop_last() =~= whole.take(i as int));
            assert(whole.take(i + 1).last() == items@[i as int]@);
        }
        match Filter::decode(&items[i]) {
            Ok(f) => {
                proof {
                    assert(out@.push(f).drop_last() =~= out@);
                }
                out.push(f);
            },
            Err(e) => {
                proof {
                    lemma_filters_of_fault(whole, i + 1);
                }
                return Err(e);
            },
        }
        i = i + 1;
    }
    assert(whole.take(items@.len() as int) =~= whole);
    Ok(out)
}

fn encode_filters(fs: &Vec<Filter>) -> (r: Vec<Json>)
    ensures
        view_items(r@) == filters_json(view_filters(fs@)),
    decreases fs,
{
    proof {
        lemma_view_filters(fs@);
    }
    let mut out: Vec<Json> = Vec::new();
    let mut i: usize = 0;
    while i < fs.len()
        invariant
            i <= fs@.len(),
            view_filters(fs@).len() == fs@.len(),
            forall|k: int| 0 <= k < fs@.len() ==> #[trigger] view_filters(fs@)[k] == fs@[k]@,
            view_items(out@) == filters_json(view_filters(fs@).take(i as int)),
        decreases fs@.len() - i,
    {
        proof {
            assert(decreases_to!(fs => fs[i as int]));
        }
        let item = fs[i].encode();
        proof {
            crate::json::lemma_view_items_push(out@, item);
            let pre = view_filters(fs@).take(i as int);
            let next = view_filters(fs@).take(i + 1);
            assert(next.drop_last() =~= pre);
            assert(next.last() == fs@[i as int]@);
        }
        out.push(item);
        i = i + 1;
    }
    assert(view_filters(fs@).take(fs@.len() as int) =~= view_filters(fs@));
    out
}

} // verus!

verus! {

impl Filter {
    /// `[ "Eq", [attr, value] ]`: the attribute equals `value` (which may be null).
    pub fn eq(attr: String, value: Json) -> (r: Filter)
        ensures
            r@ == FilterModel::Cmp(CmpOp::Eq, attr@, value@),
    {
        Filter::Cmp(CmpOp::Eq, attr, value)
    }

    /// `[ "NotEq", [attr, value] ]`.
    pub fn not_eq(attr: String, value: Json) -> (r: Filter)
        ensures
            r@ == FilterModel::Cmp(CmpOp::NotEq, attr@, value@),
    {
        Filter::Cmp(CmpOp::NotEq, attr, value)
    }

    /// `[ "Lt", [attr, value] ]`.
    pub fn lt(attr: String, value: Json) -> (r: Filter)
        ensures
            r@ == FilterModel::Cmp(CmpOp::Lt, attr@, value@),
    {
        Filter::Cmp(CmpOp::Lt, attr, value)
    }

    /// `[ "Lte", [attr, value] ]`.
    pub fn lte(attr: String, value: Json) -> (r: Filter)
        ensures
            r@ == FilterModel::Cmp(CmpOp::Lte, attr@, value@),
    {
        Filter::Cmp(CmpOp::Lte, attr, value)
    }

    /// `[ "Gt", [attr, value] ]`.
    pub fn gt(attr: String, value: Json) -> (r: Filter)
        ensures
            r@ == FilterModel::Cmp(CmpOp::Gt, attr@, value@),
    {
        Filter::Cmp(CmpOp::Gt, attr, value)
    }

    /// `[ "Gte", [attr, value] ]`.
    pub fn gte(attr: String, value: Json) -> (r: Filter)
        ensures
            r@ == FilterModel::Cmp(CmpOp::Gte, attr@, value@),
    {
        Filter::Cmp(CmpOp::Gte, attr, value)
    }

    /// `[ "Contains", [attr, value] ]`: the array attribute holds `value`.
    pub fn contains(attr: String, value: Json) -> (r: Filter)
        ensures
            r@ == FilterModel::Cmp(CmpOp::Contains, attr@, value@),
    {
        Filter::Cmp(CmpOp::Contains, attr, value)
    }

    /// `[ "In", [attr, [values...]] ]`: the attribute is one of `values`.
    pub fn in_(attr: String, values: Vec<Json>) -> (r: Filter)
        ensures
            r@ == FilterModel::List(ListOp::In, attr@, view_items(values@)),
    {
        Filter::List(ListOp::In, attr, values)
    }

    /// `[ "ContainsAny", [attr, [values...]] ]`: the array attribute holds one of `values`.
    pub fn contains_any(attr: String, values: Vec<Json>) -> (r: Filter)
        ensures
            r@ == FilterModel::List(ListOp::ContainsAny, attr@, view_items(values@)),
    {
        Filter::List(ListOp::ContainsAny, attr, values)
    }

    /// The conjunction of `filters`, kept in order; no filters at all is allowed.
    pub fn and(filters: Vec<Filter>) -> (r: Filter)
        ensures
            r@ == FilterModel::And(view_filters(filters@)),
    {
        Filter::And(filters)
    }

    /// The disjunction of `filters`, kept in order; no filters at all is allowed.
    pub fn or(filters: Vec<Filter>) -> (r: Filter)
        ensures
            r@ == FilterModel::Or(view_filters(filters@)),
    {
        Filter::Or(filters)
    }

    /// The negation of `child`. A negation of a negation stays as it is.
    pub fn not(child: Filter) -> (r: Filter)
        ensures
            r@ == FilterModel::Not(Box::new(child@)),
    {
        Filter::Not(Box::new(child))
    }

    /// The negation of the one filter in `children`; any other count is refused.
    pub fn not_from(children: Vec<Filter>) -> (r: Result<Filter, ValidationError>)
        ensures
            children@.len() == 1 <==> r is Ok,
            r is Ok ==> r->Ok_0@ == FilterModel::Not(Box::new(children@[0]@)),
            r is Err ==> r->Err_0 == ValidationError::Arity,
    {
        let mut children = children;
        if children.len() != 1 {
            return Err(ValidationError::Arity);
        }
        match children.pop() {
            Some(child) => Ok(Filter::Not(Box::new(child))),
            None => Err(ValidationError::Arity),
        }
    }
}

/// Facts on the filter operator tokens: each names one operator only.
proof fn lemma_filter_tokens()
    ensures
        forall|op: CmpOp|
            #![trigger cmp_token(op)]
            cmp_op_of(cmp_token(op)) == Some(op) && list_op_of(cmp_token(op)) is None,
        forall|op: ListOp|
            #![trigger list_token(op)]
            cmp_op_of(list_token(op)) is None && list_op_of(list_token(op)) == Some(op)
                && list_token(op) != "And"@ && list_token(op) != "Or"@,
        cmp_op_of("And"@) is None && list_op_of("And"@) is None,
        cmp_op_of("Or"@) is None && list_op_of("Or"@) is None && "Or"@ != "And"@,
        cmp_op_of("Not"@) is None && list_op_of("Not"@) is None,
        "Not"@ != "And"@ && "Not"@ != "Or"@,
{
    reveal_strlit("Eq");
    reveal_strlit("NotEq");
    reveal_strlit("Lt");
    reveal_strlit("Lte");
    reveal_strlit("Gt");
    reveal_strlit("Gte");
    reveal_strlit("Contains");
    reveal_strlit("In");
    reveal_strlit("ContainsAny");
    reveal_strlit("And");
    reveal_strlit("Or");
    reveal_strlit("Not");
    assert("Eq"@.len() == 2);
    assert("NotEq"@.len() == 5);
    assert("Lt"@.len() == 2);
    assert("Lte"@.len() == 3);
    assert("Gt"@.len() == 2);
    assert("Gte"@.len() == 3);
    assert("Contains"@.len() == 8);
    assert("In"@.len() == 2);
    assert("ContainsAny"@.len() == 11);
    assert("And"@.len() == 3);
    assert("Or"@.len() == 2);
    assert("Not"@.len() == 3);
    assert("Eq"@[0] != "Lt"@[0]);
    assert("Eq"@[0] != "Gt"@[0]);
    assert("Eq"@[0] != "In"@[0]);
    assert("Eq"@[0] != "Or"@[0]);
    assert("Lt"@[0] != "Gt"@[0]);
    assert("Lt"@[0] != "In"@[0]);
    assert("Lt"@[0] != "Or"@[0]);
    assert("Gt"@[0] != "In"@[0]);
    assert("Gt"@[0] != "Or"@[0]);
    assert("In"@[0] != "Or"@[0]);
    assert("Lte"@[0] != "Gte"@[0]);
    assert("Lte"@[0] != "And"@[0]);
    assert("Lte"@[0] != "Not"@[0]);
    assert("Gte"@[0] != "And"@[0]);
    assert("Gte"@[0] != "Not"@[0]);
    assert("And"@[0] != "Not"@[0]);
    assert forall|op: CmpOp|
        #![trigger cmp_token(op)]
        cmp_op_of(cmp_token(op)) == Some(op) && list_op_of(cmp_token(op)) is None by {
        let t = cmp_token(op);
        assert(t.len() >= 2 && "Eq"@.len() == 2);
        match op {
            CmpOp::Eq => {},
            CmpOp::NotEq => {},
            CmpOp::Lt => {
                assert(t[0] != "Eq"@[0]);
            },
            CmpOp::Lte => {},
            CmpOp::Gt => {
                assert(t[0] != "Eq"@[0]);
                assert(t[0] != "Lt"@[0]);
            },
            CmpOp::Gte => {},
            CmpOp::Contains => {},
        }
    }
    assert forall|op: ListOp|
        #![trigger list_token(op)]
        cmp_op_of(list_token(op)) is None && list_op_of(list_token(op)) == Some(op)
            && list_token(op) != "And"@ && list_token(op) != "Or"@ by {
        match op {
            ListOp::In => {
                assert("In"@[0] != "Eq"@[0]);
                assert("In"@[0] != "Lt"@[0]);
                assert("In"@[0] != "Gt"@[0]);
                assert("In"@[0] != "Or"@[0]);
            },
            ListOp::ContainsAny => {},
        }
    }
    assert("Or"@[0] != "Eq"@[0]);
    assert("Or"@[0] != "Lt"@[0]);
    assert("Or"@[0] != "Gt"@[0]);
    assert("Or"@[0] != "In"@[0]);
}

/// Decoding the encoding of any filter gives that filter back.
pub proof fn lemma_filter_round_trip(f: FilterModel)
    ensures
        filter_of(filter_json(f)) == Ok::<FilterModel, DecodeError>(f),
    decreases f,
{
    lemma_filter_tokens();
    match f {
        FilterModel::And(fs) => {
            lemma_filters_round_trip(fs);
        },
        FilterModel::Or(fs) => {
            lemma_filters_round_trip(fs);
        },
        FilterModel::Not(child) => {
            lemma_filter_round_trip(*child);
        },
        _ => {},
    }
}

/// Decoding the encodings of a sequence of filters gives the sequence back.
pub proof fn lemma_filters_round_trip(fs: Seq<FilterModel>)
    ensures
        filters_of(filters_json(fs)) == Ok::<Seq<FilterModel>, DecodeError>(fs),
    decreases fs,
{
    if fs.len() > 0 {
        lemma_filters_round_trip(fs.drop_last());
        lemma_filter_round_trip(fs.last());
        let js = filters_json(fs);
        assert(js == filters_json(fs.drop_last()).push(filter_json(fs.last())));
        assert(js.drop_last() =~= filters_json(fs.drop_last()));
        assert(js.last() == filter_json(fs.last()));
        assert(fs.drop_last().push(fs.last()) =~= fs);
    } else {
        assert(fs =~= Seq::empty());
    }
}

/// A wire value decodes only where it is the encoding of the filter decoded.
pub proof fn lemma_filter_decode_inverse(j: JsonModel)
    ensures
        filter_of(j) is Ok ==> filter_json(filter_of(j)->Ok_0) == j,
    decreases j,
{
    if let JsonModel::Array(s) = j {
        if s.len() == 2 {
            assert(s =~= seq![s[0], s[1]]);
            if let JsonModel::Array(p) = s[1] {
                if p.len() == 2 {
                    assert(p =~= seq![p[0], p[1]]);
                }
                lemma_filters_decode_inverse(p);
            }
            lemma_filter_decode_inverse(s[1]);
        }
    }
}

/// A sequence of wire values decodes only to filters whose encodings they are.
pub proof fn lemma_filters_decode_inverse(s: Seq<JsonModel>)
    ensures
        filters_of(s) is Ok ==> filters_json(filters_of(s)->Ok_0) == s,
    decreases s,
{
    if s.len() > 0 {
        lemma_filters_decode_inverse(s.drop_last());
        lemma_filter_decode_inverse(s.last());
        if filters_of(s) is Ok {
            let fs = filters_of(s)->Ok_0;
            assert(fs.drop_last() =~= filters_of(s.drop_last())->Ok_0);
            assert(s.drop_last().push(s.last()) =~= s);
        }
    }
}

} // verus!

verus! {

/// Encoding depends on the tree alone: equal filters have equal wire forms,
/// and only equal filters do.
pub proof fn lemma_filter_encoding_deterministic(a: FilterModel, b: FilterModel)
    ensures
        a == b <==> filter_json(a) == filter_json(b),
{
    lemma_filter_round_trip(a);
    lemma_filter_round_trip(b);
}

/// A double negation is kept: it encodes as two nested `"Not"` wrappers,
/// never as the inner filter.
pub proof fn lemma_double_negation_kept(f: FilterModel)
    ensures
        filter_json(FilterModel::Not(Box::new(FilterModel::Not(Box::new(f))))) == pair(
            JsonModel::Str("Not"@),
            pair(JsonModel::Str("Not"@), filter_json(f)),
        ),
        filter_json(FilterModel::Not(Box::new(FilterModel::Not(Box::new(f))))) != filter_json(f),
{
    let n = FilterModel::Not(Box::new(f));
    let nn = FilterModel::Not(Box::new(n));
    assert(filter_json(n) == pair(JsonModel::Str("Not"@), filter_json(f)));
    assert(nn != f);
    lemma_filter_encoding_deterministic(nn, f);
}

/// An empty conjunction or disjunction is legal: it encodes to an empty
/// operand array and decodes back to the same empty combinator.
pub proof fn lemma_empty_combinators()
    ensures
        filter_json(FilterModel::And(Seq::empty())) == pair(
            JsonModel::Str("And"@),
            JsonModel::Array(Seq::empty()),
        ),
        filter_json(FilterModel::Or(Seq::empty())) == pair(
            JsonModel::Str("Or"@),
            JsonModel::Array(Seq::empty()),
        ),
        filter_of(filter_json(FilterModel::And(Seq::empty()))) == Ok::<FilterModel, DecodeError>(
            FilterModel::And(Seq::empty()),
        ),
        filter_of(filter_json(FilterModel::Or(Seq::empty()))) == Ok::<FilterModel, DecodeError>(
            FilterModel::Or(Seq::empty()),
        ),
{
    assert(filters_json(Seq::<FilterModel>::empty()) == Seq::<JsonModel>::empty());
    lemma_filter_round_trip(FilterModel::And(Seq::empty()));
    lemma_filter_round_trip(FilterModel::Or(Seq::empty()));
}

} // verus!
