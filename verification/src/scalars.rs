//! Conversions for the leaf shapes: booleans and text.

use vstd::prelude::*;

use crate::codec::{FromJson, JsonRoundTrip, ToJson};
use crate::value::{Json, JsonData};

verus! {

impl ToJson for bool {
    open spec fn enc(m: bool) -> JsonData {
        JsonData::Bool(m)
    }

    fn to_json(&self) -> (r: Json) {
        Json::Bool(*self)
    }
}

impl FromJson for bool {
    open spec fn dec(j: JsonData) -> Option<bool> {
        match j {
            JsonData::Bool(b) => Some(b),
            _ => None,
        }
    }

    open spec fn shape(j: JsonData) -> bool {
        j is Bool
    }

    proof fn lemma_wrong_shape(j: JsonData) {
    }

    fn from_json(j: &Json) -> (r: Option<bool>) {
        match j {
            Json::Bool(b) => Some(*b),
            _ => None,
        }
    }
}

impl JsonRoundTrip for bool {
    open spec fn stable(m: bool) -> bool {
        true
    }

    proof fn lemma_round_trip(m: bool) {
    }
}

impl ToJson for String {
    open spec fn enc(m: Seq<char>) -> JsonData {
        JsonData::Str(m)
    }

    fn to_json(&self) -> (r: Json) {
        Json::Str(self.clone())
    }
}

impl FromJson for String {
    open spec fn dec(j: JsonData) -> Option<Seq<char>> {
        match j {
            JsonData::Str(s) => Some(s),
            _ => None,
        }
    }

    open spec fn shape(j: JsonData) -> bool {
        j is Str
    }

    proof fn lemma_wrong_shape(j: JsonData) {
    }

    fn from_json(j: &Json) -> (r: Option<String>) {
        match j {
            Json::Str(s) => Some(s.clone()),
            _ => None,
        }
    }
}

impl JsonRoundTrip for String {
    open spec fn stable(m: Seq<char>) -> bool {
        true
    }

    proof fn lemma_round_trip(m: Seq<char>) {
    }
}

} // verus!
