//! Conversions for the container shapes: sequences, string-keyed mappings,
//! optional values, and owned indirections.

use vstd::prelude::*;

use crate::codec::{FromJson, JsonRoundTrip, ToJson};
use crate::value::{json_data_seq, lemma_json_data_seq, Json, JsonData};

verus! {

/// Element-wise decode of a JSON array's model: `Some` exactly when every
/// element decodes, and then the sequence of the decoded elements in order.
pub open spec fn dec_elems<T: FromJson>(s: Seq<JsonData>) -> Option<Seq<T::V>> {
    if forall|i: int| 0 <= i < s.len() ==> (#[trigger] T::dec(s[i])) is Some {
        Some(Seq::new(s.len(), |i: int| T::dec(s[i])->Some_0))
    } else {
        None
    }
}

impl<T: ToJson> ToJson for Vec<T> {
    open spec fn enc(m: Seq<T::V>) -> JsonData {
        JsonData::Arr(Seq::new(m.len(), |i: int| T::enc(m[i])))
    }

    fn to_json(&self) -> (r: Json) {
        let mut out: Vec<Json> = Vec::new();
        let mut i: usize = 0;
        while i < self.len()
            invariant
                i <= self@.len(),
                out@.len() == i,
                forall|k: int| 0 <= k < i ==> crate::value::json_data(out@[k]) == T::enc(
                    self@[k].deep_view(),
                ),
            decreases self@.len() - i,
        {
            let e = self[i].to_json();
            out.push(e);
            i = i + 1;
        }
        proof {
            lemma_json_data_seq(out@);
            assert(json_data_seq(out@) =~= Seq::new(
                self.deep_view().len(),
                |k: int| T::enc(self.deep_view()[k]),
            ));
        }
        Json::Arr(out)
    }
}

impl<T: FromJson> FromJson for Vec<T> {
    open spec fn dec(j: JsonData) -> Option<Seq<T::V>> {
        match j {
            JsonData::Arr(s) => dec_elems::<T>(s),
            _ => None,
        }
    }

    open spec fn shape(j: JsonData) -> bool {
        j is Arr
    }

    proof fn lemma_wrong_shape(j: JsonData) {
    }

    fn from_json(j: &Json) -> (r: Option<Vec<T>>) {
        match j {
            Json::Arr(xs) => {
                proof {
                    lemma_json_data_seq(xs@);
                }
                let mut out: Vec<T> = Vec::new();
                let mut i: usize = 0;
                while i < xs.len()
                    invariant
                        i <= xs@.len(),
                        out@.len() == i,
                        j@ == JsonData::Arr(json_data_seq(xs@)),
                        json_data_seq(xs@).len() == xs@.len(),
                        forall|k: int| 0 <= k < xs@.len() ==> json_data_seq(xs@)[k]
                            == crate::value::json_data(xs@[k]),
                        forall|k: int| 0 <= k < i ==> T::dec(json_data_seq(xs@)[k]) == Some(
                            out@[k].deep_view(),
                        ),
                    decreases xs@.len() - i,
                {
                    match T::from_json(&xs[i]) {
                        Some(v) => {
                            out.push(v);
                        },
                        None => {
                            proof {
                                let s = json_data_seq(xs@);
                                assert(j@ == JsonData::Arr(s));
                                assert(T::dec(s[i as int]) is None);
                                assert(!(forall|k: int|
                                    0 <= k < s.len() ==> (#[trigger] T::dec(s[k])) is Some)) by {
                                    assert((i as int) < s.len());
                                    assert(!(T::dec(s[i as int]) is Some));
                                }
                                assert(dec_elems::<T>(s) is None);
                            }
                            return None;
                        },
                    }
                    i = i + 1;
                }
                proof {
                    let s = json_data_seq(xs@);
                    assert(forall|k: int|
                        0 <= k < s.len() ==> (#[trigger] T::dec(s[k])) is Some);
                    assert(Seq::new(s.len(), |k: int| T::dec(s[k])->Some_0)
                        =~= out.deep_view());
                }
                Some(out)
            },
            _ => None,
        }
    }
}

impl<T: JsonRoundTrip> JsonRoundTrip for Vec<T> {
    open spec fn stable(m: Seq<T::V>) -> bool {
        forall|i: int| 0 <= i < m.len() ==> T::stable(#[trigger] m[i])
    }

    proof fn lemma_round_trip(m: Seq<T::V>) {
        let s = Seq::new(m.len(), |i: int| T::enc(m[i]));
        assert forall|i: int| 0 <= i < s.len() implies (#[trigger] T::dec(s[i])) == Some(
            m[i],
        ) by {
            T::lemma_round_trip(m[i]);
        }
        assert(Seq::new(s.len(), |i: int| T::dec(s[i])->Some_0) =~= m);
    }
}

impl<T: ToJson> ToJson for Option<T> {
    open spec fn enc(m: Option<T::V>) -> JsonData {
        match m {
            Option::None => JsonData::Null,
            Option::Some(x) => T::enc(x),
        }
    }

    fn to_json(&self) -> (r: Json) {
        match self {
            Option::Some(x) => x.to_json(),
            Option::None => Json::Null,
        }
    }
}

impl<T: FromJson> FromJson for Option<T> {
    open spec fn dec(j: JsonData) -> Option<Option<T::V>> {
        if j is Null {
            Some(None)
        } else {
            match T::dec(j) {
                Some(x) => Some(Some(x)),
                None => None,
            }
        }
    }

    open spec fn shape(j: JsonData) -> bool {
        j is Null || T::shape(j)
    }

    proof fn lemma_wrong_shape(j: JsonData) {
        T::lemma_wrong_shape(j);
    }

    fn from_json(j: &Json) -> (r: Option<Option<T>>) {
        match j {
            Json::Null => Some(None),
            _ => match T::from_json(j) {
                Some(v) => Some(Some(v)),
                None => None,
            },
        }
    }
}

impl<T: JsonRoundTrip> JsonRoundTrip for Option<T> {
    open spec fn stable(m: Option<T::V>) -> bool {
        match m {
            Option::None => true,
            Option::Some(x) => T::stable(x) && T::enc(x) != JsonData::Null,
        }
    }

    proof fn lemma_round_trip(m: Option<T::V>) {
        match m {
            Option::None => {
            },
            Option::Some(x) => {
                T::lemma_round_trip(x);
            },
        }
    }
}

impl<T: ToJson> ToJson for Box<T> {
    open spec fn enc(m: T::V) -> JsonData {
        T::enc(m)
    }

    fn to_json(&self) -> (r: Json) {
        (**self).to_json()
    }
}

impl<T: FromJson> FromJson for Box<T> {
    open spec fn dec(j: JsonData) -> Option<T::V> {
        T::dec(j)
    }

    open spec fn shape(j: JsonData) -> bool {
        T::shape(j)
    }

    proof fn lemma_wrong_shape(j: JsonData) {
        T::lemma_wrong_shape(j);
    }

    fn from_json(j: &Json) -> (r: Option<Box<T>>) {
        match T::from_json(j) {
            Some(v) => Some(Box::new(v)),
            None => None,
        }
    }
}

impl<T: JsonRoundTrip> JsonRoundTrip for Box<T> {
    open spec fn stable(m: T::V) -> bool {
        T::stable(m)
    }

    proof fn lemma_round_trip(m: T::V) {
        T::lemma_round_trip(m);
    }
}

} // verus!
