use vstd::prelude::*;

use crate::error::{DecodeError, ValidationError};
use crate::json::{
    json_pair, json_text, json_triple, lemma_view_items, lemma_view_items_push, pair, same_text,
    triple, view_items, Json, JsonModel,
};

verus! {

/// The direction of an attribute order.
#[derive(Clone, Copy, Debug, PartialEq, Eq, Structural)]
pub enum Direction {
    Asc,
    Desc,
}

/// A scoring expression that orders the rows of a query.
///
/// Weights and vector components are IEEE-754 binary64 bit patterns.
#[derive(Debug, PartialEq)]
pub enum RankBy {
    VectorSearch(String, Vec<u64>),
    TextRelevance(String, String),
    AttributeOrder(String, Direction),
    Sum(Vec<RankBy>),
    Product(u64, Box<RankBy>),
    Max(Vec<RankBy>),
}

/// The mathematical model of a [`RankBy`].
pub ghost enum RankModel {
    VectorSearch(Seq<char>, Seq<u64>),
    TextRelevance(Seq<char>, Seq<char>),
    AttributeOrder(Seq<char>, Direction),
    Sum(Seq<RankModel>),
    Product(u64, Box<RankModel>),
    Max(Seq<RankModel>),
}

/// The models of a sequence of rank trees, in order.
pub open spec fn view_ranks(s: Seq<RankBy>) -> Seq<RankModel>
    decreases s,
{
    if s.len() == 0 {
        Seq::empty()
    } else {
        view_ranks(s.drop_last()).push(s.last().view())
    }
}

impl View for RankBy {
    type V = RankModel;

    open spec fn view(&self) -> RankModel
        decreases self,
    {
        match self {
            RankBy::VectorSearch(attr, query) => RankModel::VectorSearch(attr@, query@),
            RankBy::TextRelevance(attr, text) => RankModel::TextRelevance(attr@, text@),
            RankBy::AttributeOrder(attr, dir) => RankModel::AttributeOrder(attr@, *dir),
            RankBy::Sum(rs) => RankModel::Sum(view_ranks(rs@)),
            RankBy::Product(weight, child) => RankModel::Product(
                *weight,
                Box::new((**child).view()),
            ),
            RankBy::Max(rs) => RankModel::Max(view_ranks(rs@)),
        }
    }
}

/// The models of a sequence of rank trees match it item by item.
pub proof fn lemma_view_ranks(s: Seq<RankBy>)
    ensures
        view_ranks(s).len() == s.len(),
        forall|i: int| 0 <= i < s.len() ==> #[trigger] view_ranks(s)[i] == s[i]@,
    decreases s.len(),
{
    if s.len() > 0 {
        lemma_view_ranks(s.drop_last());
        assert(view_ranks(s) == view_ranks(s.drop_last()).push(s.last()@));
        assert forall|i: int| 0 <= i < s.len() implies #[trigger] view_ranks(s)[i] == s[i]@ by {
            if i < s.len() - 1 {
                assert(s.drop_last()[i] == s[i]);
            }
        }
    }
}

/// Whether the binary64 number with bit pattern `bits` is finite: its
/// exponent field is not all ones.
pub open spec fn is_finite_weight(bits: u64) -> bool {
    (bits / 0x10_0000_0000_0000) % 0x800 != 0x7ff
}

/// A rank tree that its constructors can build: `Sum` and `Max` have at
/// least one child and every weight is finite.
pub open spec fn rank_wf(r: RankModel) -> bool
    decreases r,
{
    match r {
        RankModel::Sum(rs) => rs.len() > 0 && ranks_wf(rs),
        RankModel::Max(rs) => rs.len() > 0 && ranks_wf(rs),
        RankModel::Product(w, child) => is_finite_weight(w) && rank_wf(*child),
        _ => true,
    }
}

/// Every tree of `rs` is well formed.
pub open spec fn ranks_wf(rs: Seq<RankModel>) -> bool
    decreases rs,
{
    if rs.len() == 0 {
        true
    } else {
        ranks_wf(rs.drop_last()) && rank_wf(rs.last())
    }
}

/// The wire token of an order direction.
pub open spec fn direction_token(d: Direction) -> Seq<char> {
    match d {
        Direction::Asc => "asc"@,
        Direction::Desc => "desc"@,
    }
}

/// A vector as a JSON array of numbers.
pub open spec fn floats_json(v: Seq<u64>) -> Seq<JsonModel> {
    Seq::new(v.len(), |i: int| JsonModel::Float(v[i]))
}

/// The vector held by a JSON array of numbers, if every item is a number.
pub open spec fn floats_of(s: Seq<JsonModel>) -> Option<Seq<u64>> {
    if forall|i: int| 0 <= i < s.len() ==> #[trigger] s[i] is Float {
        Some(Seq::new(s.len(), |i: int| s[i]->Float_0))
    } else {
        None
    }
}

/// The wire form of a rank tree.
pub open spec fn rank_json(r: RankModel) -> JsonModel
    decreases r,
{
    match r {
        RankModel::VectorSearch(attr, query) => triple(
            JsonModel::Str(attr),
            JsonModel::Str("ANN"@),
            JsonModel::Array(floats_json(query)),
        ),
        RankModel::TextRelevance(attr, text) => triple(
            JsonModel::Str(attr),
            JsonModel::Str("BM25"@),
            JsonModel::Str(text),
        ),
        RankModel::AttributeOrder(attr, dir) => pair(
            JsonModel::Str(attr),
            JsonModel::Str(direction_token(dir)),
        ),
        RankModel::Sum(rs) => pair(JsonModel::Str("Sum"@), JsonModel::Array(ranks_json(rs))),
        RankModel::Product(w, child) => pair(
            JsonModel::Str("Product"@),
            pair(JsonModel::Float(w), rank_json(*child)),
        ),
        RankModel::Max(rs) => pair(JsonModel::Str("Max"@), JsonModel::Array(ranks_json(rs))),
    }
}

/// The wire forms of a sequence of rank trees, in order.
pub open spec fn ranks_json(rs: Seq<RankModel>) -> Seq<JsonModel>
    decreases rs,
{
    if rs.len() == 0 {
        Seq::empty()
    } else {
        ranks_json(rs.drop_last()).push(rank_json(rs.last()))
    }
}

/// The rank tree whose wire form is `j`, or the first fault found in it.
pub open spec fn rank_of(j: JsonModel) -> Result<RankModel, DecodeError>
    decreases j,
{
    match j {
        JsonModel::Array(s) => {
            if s.len() == 3 {
                if !(s[1] is Str) {
                    Err(DecodeError::UnknownOperator)
                } else if !(s[0] is Str) {
                    Err(DecodeError::ArityMismatch)
                } else if s[1]->Str_0 == "ANN"@ {
                    if s[2] is Array && floats_of(s[2]->Array_0) is Some {
                        Ok(RankModel::VectorSearch(s[0]->Str_0, floats_of(s[2]->Array_0)->0))
                    } else {
                        Err(DecodeError::ArityMismatch)
                    }
                } else if s[1]->Str_0 == "BM25"@ {
                    if s[2] is Str {
                        Ok(RankModel::TextRelevance(s[0]->Str_0, s[2]->Str_0))
                    } else {
                        Err(DecodeError::ArityMismatch)
                    }
                } else {
                    Err(DecodeError::UnknownOperator)
                }
            } else if s.len() == 2 {
                if s[1] is Str {
                    if !(s[0] is Str) {
                        Err(DecodeError::ArityMismatch)
                    } else if s[1]->Str_0 == "asc"@ {
                        Ok(RankModel::AttributeOrder(s[0]->Str_0, Direction::Asc))
                    } else if s[1]->Str_0 == "desc"@ {
                        Ok(RankModel::AttributeOrder(s[0]->Str_0, Direction::Desc))
                    } else {
                        Err(DecodeError::UnknownOperator)
                    }
                } else if !(s[0] is Str) {
                    Err(DecodeError::UnknownOperator)
                } else if s[0]->Str_0 == "Sum"@ || s[0]->Str_0 == "Max"@ {
                    match s[1] {
                        JsonModel::Array(items) => {
                            if items.len() == 0 {
                                Err(DecodeError::ArityMismatch)
                            } else {
                                match ranks_of(items) {
                                    Ok(rs) => {
                                        if s[0]->Str_0 == "Sum"@ {
                                            Ok(RankModel::Sum(rs))
                                        } else {
                                            Ok(RankModel::Max(rs))
                                        }
                                    },
                                    Err(e) => Err(e),
                                }
                            }
                        },
                        _ => Err(DecodeError::ArityMismatch),
                    }
                } else if s[0]->Str_0 == "Product"@ {
                    match s[1] {
                        JsonModel::Array(p) => {
                            if p.len() == 2 && p[0] is Float && is_finite_weight(p[0]->Float_0) {
                                match rank_of(p[1]) {
                                    Ok(child) => Ok(
                                        RankModel::Product(p[0]->Float_0, Box::new(child)),
                                    ),
                                    Err(e) => Err(e),
                                }
                            } else {
                                Err(DecodeError::ArityMismatch)
                            }
                        },
                        _ => Err(DecodeError::ArityMismatch),
                    }
                } else {
                    Err(DecodeError::UnknownOperator)
                }
            } else {
                Err(DecodeError::ArityMismatch)
            }
        },
        _ => Err(DecodeError::ArityMismatch),
    }
}

/// The rank trees whose wire forms are `s`, in order, or the first fault found.
pub open spec fn ranks_of(s: Seq<JsonModel>) -> Result<Seq<RankModel>, DecodeError>
    decreases s,
{
    if s.len() == 0 {
        Ok(Seq::empty())
    } else {
        match ranks_of(s.drop_last()) {
            Ok(rs) => match rank_of(s.last()) {
                Ok(r) => Ok(rs.push(r)),
                Err(e) => Err(e),
            },
            Err(e) => Err(e),
        }
    }
}

} // verus!

verus! {

/// Whether the binary64 number with bit pattern `bits` is finite.
pub fn weight_is_finite(bits: u64) -> (r: bool)
    ensures
        r == is_finite_weight(bits),
{
    (bits / 0x10_0000_0000_0000) % 0x800 != 0x7ff
}

fn direction_text(d: Direction) -> (r: &'static str)
    ensures
        r@ == direction_token(d),
{
    match d {
        Direction::Asc => "asc",
        Direction::Desc => "desc",
    }
}

fn encode_floats(v: &Vec<u64>) -> (r: Vec<Json>)
    ensures
        view_items(r@) == floats_json(v@),
{
    let mut out: Vec<Json> = Vec::new();
    let mut i: usize = 0;
    while i < v.len()
        invariant
            i <= v@.len(),
            view_items(out@) == floats_json(v@.take(i as int)),
        decreases v@.len() - i,
    {
        let item = Json::Float(v[i]);
        proof {
            lemma_view_items_push(out@, item);
            assert(floats_json(v@.take(i + 1)) =~= floats_json(v@.take(i as int)).push(item@));
        }
        out.push(item);
        i = i + 1;
    }
    assert(v@.take(v@.len() as int) =~= v@);
    out
}

fn decode_floats(items: &Vec<Json>) -> (r: Option<Vec<u64>>)
    ensures
        match r {
            Some(v) => floats_of(view_items(items@)) == Some(v@),
            None => floats_of(view_items(items@)) is None,
        },
{
    proof {
        lemma_view_items(items@);
    }
    let ghost whole = view_items(items@);
    let mut out: Vec<u64> = Vec::new();
    let mut i: usize = 0;
    while i < items.len()
        invariant
            i <= items@.len(),
            whole == view_items(items@),
            whole.len() == items@.len(),
            forall|k: int| 0 <= k < items@.len() ==> #[trigger] whole[k] == items@[k]@,
            out@.len() == i,
            forall|k: int| 0 <= k < i ==> #[trigger] whole[k] is Float && out@[k] == whole[k]->Float_0,
        decreases items@.len() - i,
    {
        match &items[i] {
            Json::Float(bits) => {
                out.push(*bits);
            },
            _ => {
                assert(!(whole[i as int] is Float));
                return None;
            },
        }
        i = i + 1;
    }
    assert(out@ =~= Seq::new(whole.len(), |k: int| whole[k]->Float_0));
    Some(out)
}

impl RankBy {
    /// The wire form of this rank tree.
    pub fn encode(&self) -> (r: Json)
        ensures
            r@ == rank_json(self@),
        decreases self,
    {
        match self {
            RankBy::VectorSearch(attr, query) => json_triple(
                Json::Str(attr.clone()),
                json_text("ANN"),
                Json::Array(encode_floats(query)),
            ),
            RankBy::TextRelevance(attr, text) => json_triple(
                Json::Str(attr.clone()),
                json_text("BM25"),
                Json::Str(text.clone()),
            ),
            RankBy::AttributeOrder(attr, dir) => json_pair(
                Json::Str(attr.clone()),
                json_text(direction_text(*dir)),
            ),
            RankBy::Sum(rs) => json_pair(json_text("Sum"), Json::Array(encode_ranks(rs))),
            RankBy::Product(weight, child) => json_pair(
                json_text("Product"),
                json_pair(Json::Float(*weight), child.encode()),
            ),
            RankBy::Max(rs) => json_pair(json_text("Max"), Json::Array(encode_ranks(rs))),
        }
    }
}

fn encode_ranks(rs: &Vec<RankBy>) -> (r: Vec<Json>)
    ensures
        view_items(r@) == ranks_json(view_ranks(rs@)),
    decreases rs,
{
    proof {
        lemma_view_ranks(rs@);
    }
    let mut out: Vec<Json> = Vec::new();
    let mut i: usize = 0;
    while i < rs.len()
        invariant
            i <= rs@.len(),
            view_ranks(rs@).len() == rs@.len(),
            forall|k: int| 0 <= k < rs@.len() ==> #[trigger] view_ranks(rs@)[k] == rs@[k]@,
            view_items(out@) == ranks_json(view_ranks(rs@).take(i as int)),
        decreases rs@.len() - i,
    {
        proof {
            assert(decreases_to!(rs => rs[i as int]));
        }
        let item = rs[i].encode();
        proof {
            lemma_view_items_push(out@, item);
            let pre = view_ranks(rs@).take(i as int);
            let next = view_ranks(rs@).take(i + 1);
            assert(next.drop_last() =~= pre);
            assert(next.last() == rs@[i as int]@);
        }
        out.push(item);
        i = i + 1;
    }
    assert(view_ranks(rs@).take(rs@.len() as int) =~= view_ranks(rs@));
    out
}

} // verus!

verus! {

/// Once a prefix of `s` holds a fault, that fault is the one reported for `s`.
proof fn lemma_ranks_of_fault(s: Seq<JsonModel>, k: int)
    requires
        0 <= k <= s.len(),
        ranks_of(s.take(k)) is Err,
    ensures
        ranks_of(s) == ranks_of(s.take(k)),
    decreases s.len(),
{
    if k == s.len() {
        assert(s.take(k) =~= s);
    } else {
        assert(s.drop_last().take(k) =~= s.take(k));
        lemma_ranks_of_fault(s.drop_last(), k);
    }
}

impl RankBy {
    /// The rank tree whose wire form is `j`.
    pub fn decode(j: &Json) -> (r: Result<RankBy, DecodeError>)
        ensures
            match r {
                Ok(x) => rank_of(j@) == Ok::<RankModel, DecodeError>(x@),
                Err(e) => rank_of(j@) == Err::<RankModel, DecodeError>(e),
            },
        decreases j,
    {
        match j {
            Json::Array(s) => {
                proof {
                    lemma_view_items(s@);
                }
                if s.len() == 3 {
                    let kind = match &s[1] {
                        Json::Str(k) => k,
                        _ => {
                            return Err(DecodeError::UnknownOperator);
                        },
                    };
                    let attr = match &s[0] {
                        Json::Str(a) => a,
                        _ => {
                            return Err(DecodeError::ArityMismatch);
                        },
                    };
                    if same_text(kind, "ANN") {
                        if let Json::Array(items) = &s[2] {
                            if let Some(query) = decode_floats(items) {
                                return Ok(RankBy::VectorSearch(attr.clone(), query));
                            }
                        }
                        Err(DecodeError::ArityMismatch)
                    } else if same_text(kind, "BM25") {
                        if let Json::Str(text) = &s[2] {
                            return Ok(RankBy::TextRelevance(attr.clone(), text.clone()));
                        }
                        Err(DecodeError::ArityMismatch)
                    } else {
                        Err(DecodeError::UnknownOperator)
                    }
                } else if s.len() == 2 {
                    if let Json::Str(d) = &s[1] {
                        let attr = match &s[0] {
                            Json::Str(a) => a,
                            _ => {
                                return Err(DecodeError::ArityMismatch);
                            },
                        };
                        if same_text(d, "asc") {
                            Ok(RankBy::AttributeOrder(attr.clone(), Direction::Asc))
                        } else if same_text(d, "desc") {
                            Ok(RankBy::AttributeOrder(attr.clone(), Direction::Desc))
                        } else {
                            Err(DecodeError::UnknownOperator)
                        }
                    } else {
                        let t = match &s[0] {
                            Json::Str(t) => t,
                            _ => {
                                return Err(DecodeError::UnknownOperator);
                            },
                        };
                        if same_text(t, "Sum") || same_text(t, "Max") {
                            match &s[1] {
                                Json::Array(items) => {
                                    proof {
                                        lemma_view_items(items@);
                                    }
                                    if items.len() == 0 {
                                        return Err(DecodeError::ArityMismatch);
                                    }
                                    proof {
                                        assert(decreases_to!(s => s[1]));
                                        assert(decreases_to!(s[1] => *items));
                                    }
                                    match decode_ranks(items) {
                                        Ok(rs) => {
                                            if same_text(t, "Sum") {
                                                Ok(RankBy::Sum(rs))
                                            } else {
                                                Ok(RankBy::Max(rs))
                                            }
                                        },
                                        Err(e) => Err(e),
                                    }
                                },
                                _ => Err(DecodeError::ArityMismatch),
                            }
                        } else if same_text(t, "Product") {
                            match &s[1] {
                                Json::Array(p) => {
                                    proof {
                                        lemma_view_items(p@);
                                    }
                                    if p.len() == 2 {
                                        if let Json::Float(w) = &p[0] {
                                            if weight_is_finite(*w) {
                                                proof {
                                                    assert(decreases_to!(s => s[1]));
                                                    assert(decreases_to!(s[1] => *p));
                                                    assert(decreases_to!(p => p[1]));
                                                }
                                                return match RankBy::decode(&p[1]) {
                                                    Ok(child) => Ok(
                                                        RankBy::Product(*w, Box::new(child)),
                                                    ),
                                                    Err(e) => Err(e),
                                                };
                                            }
                                        }
                                    }
                                    Err(DecodeError::ArityMismatch)
                                },
                                _ => Err(DecodeError::ArityMismatch),
                            }
                        } else {
                            Err(DecodeError::UnknownOperator)
                        }
                    }
                } else {
                    Err(DecodeError::ArityMismatch)
                }
            },
            _ => Err(DecodeError::ArityMismatch),
        }
    }
}

fn decode_ranks(items: &Vec<Json>) -> (r: Result<Vec<RankBy>, DecodeError>)
    ensures
        match r {
            Ok(rs) => ranks_of(view_items(items@)) == Ok::<Seq<RankModel>, DecodeError>(
                view_ranks(rs@),
            ),
            Err(e) => ranks_of(view_items(items@)) == Err::<Seq<RankModel>, DecodeError>(e),
        },
    decreases items,
{
    proof {
        lemma_view_items(items@);
    }
    let ghost whole = view_items(items@);
    let mut out: Vec<RankBy> = Vec::new();
    let mut i: usize = 0;
    while i < items.len()
        invariant
            i <= items@.len(),
            whole == view_items(items@),
            whole.len() == items@.len(),
            forall|k: int| 0 <= k < items@.len() ==> #[trigger] whole[k] == items@[k]@,
            ranks_of(whole.take(i as int)) == Ok::<Seq<RankModel>, DecodeError>(
                view_ranks(out@),
            ),
        decreases items@.len() - i,
    {
        proof {
            assert(decreases_to!(items => items[i as int]));
            assert(whole.take(i + 1).drop_last() =~= whole.take(i as int));
            assert(whole.take(i + 1).last() == items@[i as int]@);
        }
        match RankBy::decode(&items[i]) {
            Ok(x) => {
                proof {
                    assert(out@.push(x).drop_last() =~= out@);
                }
                out.push(x);
            },
            Err(e) => {
                proof {
                    lemma_ranks_of_fault(whole, i + 1);
                }
                return Err(e);
            },
        }
        i = i + 1;
    }
    assert(whole.take(items@.len() as int) =~= whole);
    Ok(out)
}

} // verus!

verus! {

impl RankBy {
    /// `[attr, "ANN", query]`: nearest neighbours of `query` by the vector attribute.
    pub fn vector(attr: String, query: Vec<u64>) -> (r: RankBy)
        ensures
            r@ == RankModel::VectorSearch(attr@, query@),
    {
        RankBy::VectorSearch(attr, query)
    }

    /// `[attr, "BM25", text]`: full-text relevance of the attribute to `text`.
    pub fn bm25(attr: String, text: String) -> (r: RankBy)
        ensures
            r@ == RankModel::TextRelevance(attr@, text@),
    {
        RankBy::TextRelevance(attr, text)
    }

    /// `[attr, "asc"]`: ascending order of the attribute.
    pub fn asc(attr: String) -> (r: RankBy)
        ensures
            r@ == RankModel::AttributeOrder(attr@, Direction::Asc),
    {
        RankBy::AttributeOrder(attr, Direction::Asc)
    }

    /// `[attr, "desc"]`: descending order of the attribute.
    pub fn desc(attr: String) -> (r: RankBy)
        ensures
            r@ == RankModel::AttributeOrder(attr@, Direction::Desc),
    {
        RankBy::AttributeOrder(attr, Direction::Desc)
    }

    /// `["Sum", [children...]]`; at least one child is needed.
    pub fn sum(children: Vec<RankBy>) -> (r: Result<RankBy, ValidationError>)
        ensures
            children@.len() > 0 <==> r is Ok,
            r is Ok ==> r->Ok_0@ == RankModel::Sum(view_ranks(children@)),
            r is Err ==> r->Err_0 == ValidationError::Arity,
            r is Ok && ranks_wf(view_ranks(children@)) ==> rank_wf(r->Ok_0@),
    {
        if children.len() == 0 {
            return Err(ValidationError::Arity);
        }
        proof {
            lemma_view_ranks(children@);
        }
        Ok(RankBy::Sum(children))
    }

    /// `["Max", [children...]]`; at least one child is needed.
    pub fn max(children: Vec<RankBy>) -> (r: Result<RankBy, ValidationError>)
        ensures
            children@.len() > 0 <==> r is Ok,
            r is Ok ==> r->Ok_0@ == RankModel::Max(view_ranks(children@)),
            r is Err ==> r->Err_0 == ValidationError::Arity,
            r is Ok && ranks_wf(view_ranks(children@)) ==> rank_wf(r->Ok_0@),
    {
        if children.len() == 0 {
            return Err(ValidationError::Arity);
        }
        proof {
            lemma_view_ranks(children@);
        }
        Ok(RankBy::Max(children))
    }

    /// `["Product", [weight, child]]`; the weight (a binary64 bit pattern)
    /// must be finite.
    pub fn product(weight: u64, child: RankBy) -> (r: Result<RankBy, ValidationError>)
        ensures
            is_finite_weight(weight) <==> r is Ok,
            r is Ok ==> r->Ok_0@ == RankModel::Product(weight, Box::new(child@)),
            r is Err ==> r->Err_0 == ValidationError::NonFiniteWeight,
            r is Ok && rank_wf(child@) ==> rank_wf(r->Ok_0@),
    {
        if !weight_is_finite(weight) {
            return Err(ValidationError::NonFiniteWeight);
        }
        Ok(RankBy::Product(weight, Box::new(child)))
    }
}

/// Facts on the rank tokens: each names one kind only.
proof fn lemma_rank_tokens()
    ensures
        "ANN"@ != "BM25"@,
        "asc"@ != "desc"@,
        "Sum"@ != "Max"@,
        "Product"@ != "Sum"@,
        "Product"@ != "Max"@,
{
    reveal_strlit("ANN");
    reveal_strlit("BM25");
    reveal_strlit("asc");
    reveal_strlit("desc");
    reveal_strlit("Sum");
    reveal_strlit("Max");
    reveal_strlit("Product");
    assert("ANN"@.len() == 3);
    assert("BM25"@.len() == 4);
    assert("asc"@.len() == 3);
    assert("desc"@.len() == 4);
    assert("Sum"@.len() == 3);
    assert("Max"@.len() == 3);
    assert("Product"@.len() == 7);
    assert("Sum"@[0] != "Max"@[0]);
}

proof fn lemma_floats_round_trip(v: Seq<u64>)
    ensures
        floats_of(floats_json(v)) == Some(v),
{
    let s = floats_json(v);
    assert(forall|i: int| 0 <= i < s.len() ==> #[trigger] s[i] is Float);
    assert(Seq::new(s.len(), |i: int| s[i]->Float_0) =~= v);
}

/// Decoding the encoding of any well-formed rank tree gives that tree back.
pub proof fn lemma_rank_round_trip(r: RankModel)
    requires
        rank_wf(r),
    ensures
        rank_of(rank_json(r)) == Ok::<RankModel, DecodeError>(r),
    decreases r,
{
    lemma_rank_tokens();
    match r {
        RankModel::VectorSearch(_, query) => {
            lemma_floats_round_trip(query);
        },
        RankModel::Sum(rs) => {
            lemma_ranks_round_trip(rs);
        },
        RankModel::Max(rs) => {
            lemma_ranks_round_trip(rs);
        },
        RankModel::Product(_, child) => {
            lemma_rank_round_trip(*child);
        },
        _ => {},
    }
}

/// Decoding the encodings of well-formed rank trees gives the trees back.
pub proof fn lemma_ranks_round_trip(rs: Seq<RankModel>)
    requires
        ranks_wf(rs),
    ensures
        ranks_of(ranks_json(rs)) == Ok::<Seq<RankModel>, DecodeError>(rs),
        ranks_json(rs).len() == rs.len(),
    decreases rs,
{
    if rs.len() > 0 {
        lemma_ranks_round_trip(rs.drop_last());
        lemma_rank_round_trip(rs.last());
        let js = ranks_json(rs);
        assert(js == ranks_json(rs.drop_last()).push(rank_json(rs.last())));
        assert(js.drop_last() =~= ranks_json(rs.drop_last()));
        assert(js.last() == rank_json(rs.last()));
        assert(rs.drop_last().push(rs.last()) =~= rs);
    } else {
        assert(rs =~= Seq::empty());
    }
}

/// A wire value decodes only to a well-formed tree whose encoding it is.
pub proof fn lemma_rank_decode_inverse(j: JsonModel)
    ensures
        rank_of(j) is Ok ==> rank_json(rank_of(j)->Ok_0) == j && rank_wf(rank_of(j)->Ok_0),
    decreases j,
{
    if let JsonModel::Array(s) = j {
        if s.len() == 3 {
            assert(s =~= seq![s[0], s[1], s[2]]);
            if let JsonModel::Array(items) = s[2] {
                if floats_of(items) is Some {
                    assert(floats_json(floats_of(items)->0) =~= items);
                }
            }
        } else if s.len() == 2 {
            assert(s =~= seq![s[0], s[1]]);
            if let JsonModel::Array(p) = s[1] {
                if p.len() == 2 {
                    assert(p =~= seq![p[0], p[1]]);
                    lemma_rank_decode_inverse(p[1]);
                }
                lemma_ranks_decode_inverse(p);
            }
        }
    }
}

/// A sequence of wire values decodes only to well-formed trees whose
/// encodings they are.
pub proof fn lemma_ranks_decode_inverse(s: Seq<JsonModel>)
    ensures
        ranks_of(s) is Ok ==> ranks_json(ranks_of(s)->Ok_0) == s && ranks_wf(ranks_of(s)->Ok_0)
            && ranks_of(s)->Ok_0.len() == s.len(),
    decreases s,
{
    if s.len() > 0 {
        lemma_ranks_decode_inverse(s.drop_last());
        lemma_rank_decode_inverse(s.last());
        if ranks_of(s) is Ok {
            let rs = ranks_of(s)->Ok_0;
            assert(rs.drop_last() =~= ranks_of(s.drop_last())->Ok_0);
            assert(s.drop_last().push(s.last()) =~= s);
        }
    }
}

} // verus!

verus! {

/// Encoding depends on the tree alone: equal well-formed rank trees have
/// equal wire forms, and only equal trees do.
pub proof fn lemma_rank_encoding_deterministic(a: RankModel, b: RankModel)
    requires
        rank_wf(a),
        rank_wf(b),
    ensures
        a == b <==> rank_json(a) == rank_json(b),
{
    lemma_rank_round_trip(a);
    lemma_rank_round_trip(b);
}

} // verus!
