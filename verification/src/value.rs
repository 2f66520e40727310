//! The generic JSON value tree and its mathematical model.

use vstd::prelude::*;

verus! {

/// A JSON number, stored exactly as a decimal significand with a sign and a
/// power-of-ten exponent: the value denoted is
/// `(-1)^negative * mantissa * 10^exponent`.
///
/// This representation covers every integer a fixed-width type can hold and
/// keeps fractional values (negative exponents) representable, so that
/// decoding an integer from a fractional number can fail as it must.
#[derive(Clone, Copy, PartialEq, Eq, Structural, Debug)]
pub struct JsonNumber {
    pub negative: bool,
    pub mantissa: u64,
    pub exponent: i16,
}

/// A generic JSON value: a closed tagged union over null, boolean, number,
/// string, array, and object (a list of string-keyed entries, in order).
#[derive(Debug, PartialEq)]
pub enum Json {
    Null,
    Bool(bool),
    Num(JsonNumber),
    Str(String),
    Arr(Vec<Json>),
    Obj(Vec<(String, Json)>),
}

/// The mathematical model of a JSON value: the same tree with strings as
/// character sequences and containers as `Seq`. All contracts of this
/// library speak about this type.
pub enum JsonData {
    Null,
    Bool(bool),
    Num(JsonNumber),
    Str(Seq<char>),
    Arr(Seq<JsonData>),
    Obj(Seq<(Seq<char>, JsonData)>),
}

/// The model of a JSON value tree.
pub open spec fn json_data(j: Json) -> JsonData
    decreases j,
{
    match j {
        Json::Null => JsonData::Null,
        Json::Bool(b) => JsonData::Bool(b),
        Json::Num(n) => JsonData::Num(n),
        Json::Str(s) => JsonData::Str(s@),
        Json::Arr(xs) => {
            proof {
                assert(decreases_to!(j => xs));
                assert(decreases_to!(xs => xs@));
            }
            JsonData::Arr(json_data_seq(xs@))
        },
        Json::Obj(es) => {
            proof {
                assert(decreases_to!(j => es));
                assert(decreases_to!(es => es@));
            }
            JsonData::Obj(json_data_entries(es@))
        },
    }
}

/// The model of a sequence of JSON values, element by element.
pub open spec fn json_data_seq(s: Seq<Json>) -> Seq<JsonData>
    decreases s,
{
    if s.len() == 0 {
        Seq::empty()
    } else {
        json_data_seq(s.drop_last()).push(json_data(s.last()))
    }
}

/// The model of a sequence of object entries, element by element.
pub open spec fn json_data_entries(s: Seq<(String, Json)>) -> Seq<(Seq<char>, JsonData)>
    decreases s,
{
    if s.len() == 0 {
        Seq::empty()
    } else {
        json_data_entries(s.drop_last()).push((s.last().0@, json_data(s.last().1)))
    }
}

/// `json_data_seq` maps `json_data` over the sequence, position by position.
pub proof fn lemma_json_data_seq(s: Seq<Json>)
    ensures
        json_data_seq(s).len() == s.len(),
        forall|i: int| 0 <= i < s.len() ==> json_data_seq(s)[i] == json_data(s[i]),
    decreases s.len(),
{
    if s.len() > 0 {
        lemma_json_data_seq(s.drop_last());
    }
}

/// `json_data_entries` maps the entry model over the sequence, position by
/// position.
pub proof fn lemma_json_data_entries(s: Seq<(String, Json)>)
    ensures
        json_data_entries(s).len() == s.len(),
        forall|i: int| 0 <= i < s.len() ==> json_data_entries(s)[i] == (
            s[i].0@,
            json_data(s[i].1),
        ),
    decreases s.len(),
{
    if s.len() > 0 {
        lemma_json_data_entries(s.drop_last());
    }
}

impl View for Json {
    type V = JsonData;

    open spec fn view(&self) -> JsonData {
        json_data(*self)
    }
}

} // verus!
