//! The general laws of the framework, stated over the specification-level
//! decoders and proved once for every instantiation.
//!
//! The remaining two general laws live in the traits themselves:
//! decoding an encoded stable value yields the value back
//! ([`crate::codec::JsonRoundTrip::lemma_round_trip`]), and decoding a JSON
//! value of the wrong top-level variant always fails
//! ([`crate::codec::FromJson::lemma_wrong_shape`]).

use vstd::prelude::*;

use crate::codec::FromJson;
use crate::string_map::StringMap;
use crate::value::JsonData;

verus! {

/// Short-circuit law for sequences: if any element of a JSON array fails to
/// decode, the whole sequence fails to decode, with no partial result.
pub proof fn seq_short_circuit<T: FromJson>(s: Seq<JsonData>, i: int)
    requires
        0 <= i < s.len(),
        T::dec(s[i]) is None,
    ensures
        <Vec<T> as FromJson>::dec(JsonData::Arr(s)) is None,
{
    assert(!(forall|k: int| 0 <= k < s.len() ==> (#[trigger] T::dec(s[k])) is Some)) by {
        assert(!(T::dec(s[i]) is Some));
    }
}

/// Short-circuit law for mappings: if any entry's value fails to decode,
/// the whole mapping fails to decode, with no partial result.
pub proof fn map_short_circuit<V: FromJson>(s: Seq<(Seq<char>, JsonData)>, i: int)
    requires
        0 <= i < s.len(),
        V::dec(s[i].1) is None,
    ensures
        <StringMap<V> as FromJson>::dec(JsonData::Obj(s)) is None,
{
    assert(!(forall|k: int| 0 <= k < s.len() ==> (#[trigger] V::dec(s[k].1)) is Some)) by {
        assert(!(V::dec(s[i].1) is Some));
    }
}

/// Optional law, absent case: JSON null decodes to the absent state, for
/// every wrapped type.
pub proof fn option_decodes_null<T: FromJson>()
    ensures
        <Option<T> as FromJson>::dec(JsonData::Null) == Some(Option::<T::V>::None),
{
}

/// Optional law, present case: a JSON value other than null decodes to a
/// present value exactly when the wrapped type decodes it, and fails
/// exactly when the wrapped type fails.
pub proof fn option_decodes_delegating<T: FromJson>(j: JsonData)
    requires
        !(j is Null),
    ensures
        <Option<T> as FromJson>::dec(j) == match T::dec(j) {
            Some(x) => Some(Some(x)),
            None => None::<Option<T::V>>,
        },
{
}

/// Arity law for pairs: a JSON array whose length is not 2 never
/// decodes.
pub proof fn tuple2_wrong_arity<A0: FromJson, A1: FromJson>(s: Seq<JsonData>)
    requires
        s.len() != 2,
    ensures
        <(A0, A1) as FromJson>::dec(JsonData::Arr(s)) is None,
{
}

/// Short-circuit law for pairs: if any position fails to decode, the
/// whole tuple fails to decode, with no partial result.
pub proof fn tuple2_short_circuit<A0: FromJson, A1: FromJson>(s: Seq<JsonData>)
    requires
        s.len() == 2,
        A0::dec(s[0]) is None || A1::dec(s[1]) is None,
    ensures
        <(A0, A1) as FromJson>::dec(JsonData::Arr(s)) is None,
{
}

/// Arity law for triples: a JSON array whose length is not 3 never
/// decodes.
pub proof fn tuple3_wrong_arity<A0: FromJson, A1: FromJson, A2: FromJson>(s: Seq<JsonData>)
    requires
        s.len() != 3,
    ensures
        <(A0, A1, A2) as FromJson>::dec(JsonData::Arr(s)) is None,
{
}

/// Short-circuit law for triples: if any position fails to decode, the
/// whole tuple fails to decode, with no partial result.
pub proof fn tuple3_short_circuit<A0: FromJson, A1: FromJson, A2: FromJson>(s: Seq<JsonData>)
    requires
        s.len() == 3,
        A0::dec(s[0]) is None || A1::dec(s[1]) is None || A2::dec(s[2]) is None,
    ensures
        <(A0, A1, A2) as FromJson>::dec(JsonData::Arr(s)) is None,
{
}

/// Arity law for quadruples: a JSON array whose length is not 4 never
/// decodes.
pub proof fn tuple4_wrong_arity<A0: FromJson, A1: FromJson, A2: FromJson, A3: FromJson>(s: Seq<JsonData>)
    requires
        s.len() != 4,
    ensures
        <(A0, A1, A2, A3) as FromJson>::dec(JsonData::Arr(s)) is None,
{
}

/// Short-circuit law for quadruples: if any position fails to decode, the
/// whole tuple fails to decode, with no partial result.
pub proof fn tuple4_short_circuit<A0: FromJson, A1: FromJson, A2: FromJson, A3: FromJson>(s: Seq<JsonData>)
    requires
        s.len() == 4,
        A0::dec(s[0]) is None || A1::dec(s[1]) is None || A2::dec(s[2]) is None || A3::dec(s[3]) is None,
    ensures
        <(A0, A1, A2, A3) as FromJson>::dec(JsonData::Arr(s)) is None,
{
}

/// Arity law for quintuples: a JSON array whose length is not 5 never
/// decodes.
pub proof fn tuple5_wrong_arity<A0: FromJson, A1: FromJson, A2: FromJson, A3: FromJson, A4: FromJson>(s: Seq<JsonData>)
    requires
        s.len() != 5,
    ensures
        <(A0, A1, A2, A3, A4) as FromJson>::dec(JsonData::Arr(s)) is None,
{
}

/// Short-circuit law for quintuples: if any position fails to decode, the
/// whole tuple fails to decode, with no partial result.
pub proof fn tuple5_short_circuit<A0: FromJson, A1: FromJson, A2: FromJson, A3: FromJson, A4: FromJson>(s: Seq<JsonData>)
    requires
        s.len() == 5,
        A0::dec(s[0]) is None || A1::dec(s[1]) is None || A2::dec(s[2]) is None || A3::dec(s[3]) is None || A4::dec(s[4]) is None,
    ensures
        <(A0, A1, A2, A3, A4) as FromJson>::dec(JsonData::Arr(s)) is None,
{
}

/// Arity law for sextuples: a JSON array whose length is not 6 never
/// decodes.
pub proof fn tuple6_wrong_arity<A0: FromJson, A1: FromJson, A2: FromJson, A3: FromJson, A4: FromJson, A5: FromJson>(s: Seq<JsonData>)
    requires
        s.len() != 6,
    ensures
        <(A0, A1, A2, A3, A4, A5) as FromJson>::dec(JsonData::Arr(s)) is None,
{
}

/// Short-circuit law for sextuples: if any position fails to decode, the
/// whole tuple fails to decode, with no partial result.
pub proof fn tuple6_short_circuit<A0: FromJson, A1: FromJson, A2: FromJson, A3: FromJson, A4: FromJson, A5: FromJson>(s: Seq<JsonData>)
    requires
        s.len() == 6,
        A0::dec(s[0]) is None || A1::dec(s[1]) is None || A2::dec(s[2]) is None || A3::dec(s[3]) is None || A4::dec(s[4]) is None || A5::dec(s[5]) is None,
    ensures
        <(A0, A1, A2, A3, A4, A5) as FromJson>::dec(JsonData::Arr(s)) is None,
{
}

/// Arity law for septuples: a JSON array whose length is not 7 never
/// decodes.
pub proof fn tuple7_wrong_arity<A0: FromJson, A1: FromJson, A2: FromJson, A3: FromJson, A4: FromJson, A5: FromJson, A6: FromJson>(s: Seq<JsonData>)
    requires
        s.len() != 7,
    ensures
        <(A0, A1, A2, A3, A4, A5, A6) as FromJson>::dec(JsonData::Arr(s)) is None,
{
}

/// Short-circuit law for septuples: if any position fails to decode, the
/// whole tuple fails to decode, with no partial result.
pub proof fn tuple7_short_circuit<A0: FromJson, A1: FromJson, A2: FromJson, A3: FromJson, A4: FromJson, A5: FromJson, A6: FromJson>(s: Seq<JsonData>)
    requires
        s.len() == 7,
        A0::dec(s[0]) is None || A1::dec(s[1]) is None || A2::dec(s[2]) is None || A3::dec(s[3]) is None || A4::dec(s[4]) is None || A5::dec(s[5]) is None || A6::dec(s[6]) is None,
    ensures
        <(A0, A1, A2, A3, A4, A5, A6) as FromJson>::dec(JsonData::Arr(s)) is None,
{
}

/// Arity law for octuples: a JSON array whose length is not 8 never
/// decodes.
pub proof fn tuple8_wrong_arity<A0: FromJson, A1: FromJson, A2: FromJson, A3: FromJson, A4: FromJson, A5: FromJson, A6: FromJson, A7: FromJson>(s: Seq<JsonData>)
    requires
        s.len() != 8,
    ensures
        <(A0, A1, A2, A3, A4, A5, A6, A7) as FromJson>::dec(JsonData::Arr(s)) is None,
{
}

/// Short-circuit law for octuples: if any position fails to decode, the
/// whole tuple fails to decode, with no partial result.
pub proof fn tuple8_short_circuit<A0: FromJson, A1: FromJson, A2: FromJson, A3: FromJson, A4: FromJson, A5: FromJson, A6: FromJson, A7: FromJson>(s: Seq<JsonData>)
    requires
        s.len() == 8,
        A0::dec(s[0]) is None || A1::dec(s[1]) is None || A2::dec(s[2]) is None || A3::dec(s[3]) is None || A4::dec(s[4]) is None || A5::dec(s[5]) is None || A6::dec(s[6]) is None || A7::dec(s[7]) is None,
    ensures
        <(A0, A1, A2, A3, A4, A5, A6, A7) as FromJson>::dec(JsonData::Arr(s)) is None,
{
}

/// Arity law for nonuples: a JSON array whose length is not 9 never
/// decodes.
pub proof fn tuple9_wrong_arity<A0: FromJson, A1: FromJson, A2: FromJson, A3: FromJson, A4: FromJson, A5: FromJson, A6: FromJson, A7: FromJson, A8: FromJson>(s: Seq<JsonData>)
    requires
        s.len() != 9,
    ensures
        <(A0, A1, A2, A3, A4, A5, A6, A7, A8) as FromJson>::dec(JsonData::Arr(s)) is None,
{
}

/// Short-circuit law for nonuples: if any position fails to decode, the
/// whole tuple fails to decode, with no partial result.
pub proof fn tuple9_short_circuit<A0: FromJson, A1: FromJson, A2: FromJson, A3: FromJson, A4: FromJson, A5: FromJson, A6: FromJson, A7: FromJson, A8: FromJson>(s: Seq<JsonData>)
    requires
        s.len() == 9,
        A0::dec(s[0]) is None || A1::dec(s[1]) is None || A2::dec(s[2]) is None || A3::dec(s[3]) is None || A4::dec(s[4]) is None || A5::dec(s[5]) is None || A6::dec(s[6]) is None || A7::dec(s[7]) is None || A8::dec(s[8]) is None,
    ensures
        <(A0, A1, A2, A3, A4, A5, A6, A7, A8) as FromJson>::dec(JsonData::Arr(s)) is None,
{
}

/// Arity law for decuples: a JSON array whose length is not 10 never
/// decodes.
pub proof fn tuple10_wrong_arity<A0: FromJson, A1: FromJson, A2: FromJson, A3: FromJson, A4: FromJson, A5: FromJson, A6: FromJson, A7: FromJson, A8: FromJson, A9: FromJson>(s: Seq<JsonData>)
    requires
        s.len() != 10,
    ensures
        <(A0, A1, A2, A3, A4, A5, A6, A7, A8, A9) as FromJson>::dec(JsonData::Arr(s)) is None,
{
}

/// Short-circuit law for decuples: if any position fails to decode, the
/// whole tuple fails to decode, with no partial result.
pub proof fn tuple10_short_circuit<A0: FromJson, A1: FromJson, A2: FromJson, A3: FromJson, A4: FromJson, A5: FromJson, A6: FromJson, A7: FromJson, A8: FromJson, A9: FromJson>(s: Seq<JsonData>)
    requires
        s.len() == 10,
        A0::dec(s[0]) is None || A1::dec(s[1]) is None || A2::dec(s[2]) is None || A3::dec(s[3]) is None || A4::dec(s[4]) is None || A5::dec(s[5]) is None || A6::dec(s[6]) is None || A7::dec(s[7]) is None || A8::dec(s[8]) is None || A9::dec(s[9]) is None,
    ensures
        <(A0, A1, A2, A3, A4, A5, A6, A7, A8, A9) as FromJson>::dec(JsonData::Arr(s)) is None,
{
}

} // verus!
