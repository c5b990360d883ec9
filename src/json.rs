use vstd::prelude::*;

verus! {

/// A JSON value as it travels on the wire.
///
/// Floating-point numbers are carried as their IEEE-754 binary64 bit
/// pattern, so that the value is kept exactly and compared bit for bit.
#[derive(Debug, PartialEq)]
pub enum Json {
    Null,
    Bool(bool),
    Int(i64),
    Float(u64),
    Str(String),
    Array(Vec<Json>),
    Object(Vec<(String, Json)>),
}

/// The mathematical model of a [`Json`] value.
pub ghost enum JsonModel {
    Null,
    Bool(bool),
    Int(int),
    Float(u64),
    Str(Seq<char>),
    Array(Seq<JsonModel>),
    Object(Seq<(Seq<char>, JsonModel)>),
}

/// The models of a sequence of values, in order.
pub open spec fn view_items(s: Seq<Json>) -> Seq<JsonModel>
    decreases s,
{
    if s.len() == 0 {
        Seq::empty()
    } else {
        view_items(s.drop_last()).push(s.last().view())
    }
}

/// The models of a sequence of object members, in order.
pub open spec fn view_members(s: Seq<(String, Json)>) -> Seq<(Seq<char>, JsonModel)>
    decreases s,
{
    if s.len() == 0 {
        Seq::empty()
    } else {
        view_members(s.drop_last()).push((s.last().0@, s.last().1.view()))
    }
}

impl View for Json {
    type V = JsonModel;

    open spec fn view(&self) -> JsonModel
        decreases self,
    {
        match self {
            Json::Null => JsonModel::Null,
            Json::Bool(b) => JsonModel::Bool(*b),
            Json::Int(i) => JsonModel::Int(*i as int),
            Json::Float(bits) => JsonModel::Float(*bits),
            Json::Str(s) => JsonModel::Str(s@),
            Json::Array(v) => JsonModel::Array(view_items(v@)),
            Json::Object(v) => JsonModel::Object(view_members(v@)),
        }
    }
}


/// The models of a sequence match it item by item.
pub proof fn lemma_view_items(s: Seq<Json>)
    ensures
        view_items(s).len() == s.len(),
        forall|i: int| 0 <= i < s.len() ==> #[trigger] view_items(s)[i] == s[i]@,
    decreases s.len(),
{
    if s.len() > 0 {
        lemma_view_items(s.drop_last());
        assert(view_items(s) == view_items(s.drop_last()).push(s.last()@));
        assert forall|i: int| 0 <= i < s.len() implies #[trigger] view_items(s)[i] == s[i]@ by {
            if i < s.len() - 1 {
                assert(s.drop_last()[i] == s[i]);
            }
        }
    }
}

/// Modelling commutes with appending a value.
pub proof fn lemma_view_items_push(s: Seq<Json>, x: Json)
    ensures
        view_items(s.push(x)) == view_items(s).push(x@),
{
    assert(s.push(x).drop_last() =~= s);
}

/// Modelling commutes with appending a member.
pub proof fn lemma_view_members_push(s: Seq<(String, Json)>, x: (String, Json))
    ensures
        view_members(s.push(x)) == view_members(s).push((x.0@, x.1@)),
{
    assert(s.push(x).drop_last() =~= s);
}

impl Json {
    /// A copy of the value, equal to it in every part.
    pub fn deep_copy(&self) -> (r: Json)
        ensures
            r@ == self@,
        decreases self,
    {
        match self {
            Json::Null => Json::Null,
            Json::Bool(b) => Json::Bool(*b),
            Json::Int(i) => Json::Int(*i),
            Json::Float(bits) => Json::Float(*bits),
            Json::Str(s) => Json::Str(s.clone()),
            Json::Array(v) => Json::Array(copy_items(v)),
            Json::Object(v) => Json::Object(copy_members(v)),
        }
    }
}

/// The two-element array `[a, b]`.
pub open spec fn pair(a: JsonModel, b: JsonModel) -> JsonModel {
    JsonModel::Array(seq![a, b])
}

/// The three-element array `[a, b, c]`.
pub open spec fn triple(a: JsonModel, b: JsonModel, c: JsonModel) -> JsonModel {
    JsonModel::Array(seq![a, b, c])
}

/// Builds the two-element array `[a, b]`.
pub fn json_pair(a: Json, b: Json) -> (r: Json)
    ensures
        r@ == pair(a@, b@),
{
    let v = vec![a, b];
    proof {
        lemma_view_items(v@);
        assert(view_items(v@) =~= seq![a@, b@]);
    }
    Json::Array(v)
}

/// Builds the three-element array `[a, b, c]`.
pub fn json_triple(a: Json, b: Json, c: Json) -> (r: Json)
    ensures
        r@ == triple(a@, b@, c@),
{
    let v = vec![a, b, c];
    proof {
        lemma_view_items(v@);
        assert(view_items(v@) =~= seq![a@, b@, c@]);
    }
    Json::Array(v)
}

/// Builds a string value holding `text`.
pub fn json_text(text: &str) -> (r: Json)
    ensures
        r@ == JsonModel::Str(text@),
{
    Json::Str(text.to_owned())
}

/// Whether `s` holds exactly the characters of `text`.
pub fn same_text(s: &String, text: &str) -> (r: bool)
    ensures
        r == (s@ == text@),
{
    let t = text.to_owned();
    *s == t
}

/// Copies each member of `v`, in order.
pub fn copy_members(v: &Vec<(String, Json)>) -> (r: Vec<(String, Json)>)
    ensures
        view_members(r@) == view_members(v@),
    decreases v,
{
    let mut out: Vec<(String, Json)> = Vec::new();
    let mut i: usize = 0;
    while i < v.len()
        invariant
            i <= v@.len(),
            view_members(out@) == view_members(v@.take(i as int)),
        decreases v@.len() - i,
    {
        proof {
            assert(decreases_to!(v => v[i as int]));
            assert(decreases_to!(v[i as int] => v[i as int].1));
        }
        let item = (v[i].0.clone(), v[i].1.deep_copy());
        proof {
            lemma_view_members_push(out@, item);
            lemma_view_members_push(v@.take(i as int), v@[i as int]);
            assert(v@.take(i as int).push(v@[i as int]) =~= v@.take(i + 1));
        }
        out.push(item);
        i = i + 1;
    }
    assert(v@.take(v@.len() as int) =~= v@);
    out
}

/// Copies each value of `v`, in order.
pub fn copy_items(v: &Vec<Json>) -> (r: Vec<Json>)
    ensures
        view_items(r@) == view_items(v@),
    decreases v,
{
    let mut out: Vec<Json> = Vec::new();
    let mut i: usize = 0;
    while i < v.len()
        invariant
            i <= v@.len(),
            view_items(out@) == view_items(v@.take(i as int)),
        decreases v@.len() - i,
    {
        let item = v[i].deep_copy();
        proof {
            lemma_view_items_push(out@, item);
            lemma_view_items_push(v@.take(i as int), v@[i as int]);
            assert(v@.take(i as int).push(v@[i as int]) =~= v@.take(i + 1));
        }
        out.push(item);
        i = i + 1;
    }
    assert(v@.take(v@.len() as int) =~= v@);
    out
}

} // verus!
