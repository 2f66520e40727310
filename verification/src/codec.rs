//! The two conversion capabilities, and the round-trip law that ties them
//! together.

use vstd::prelude::*;

use crate::value::{Json, JsonData};

verus! {

/// The capability of producing a generic JSON value from a typed value.
/// Encoding is total: it never fails.
///
/// `enc` fixes, at the specification level, which JSON tree a value's model
/// encodes to; `to_json` is its executable form.
pub trait ToJson: DeepView {
    /// The JSON model that a value with model `m` encodes to.
    spec fn enc(m: Self::V) -> JsonData;

    /// Encode a value as a generic JSON value.
    fn to_json(&self) -> (r: Json)
        ensures
            r@ == Self::enc(self.deep_view()),
    ;
}

/// The capability of reconstructing a typed value from a generic JSON value.
/// Decoding fails, uniformly by returning `None`, whenever the JSON shape
/// does not match what the type expects.
///
/// `dec` fixes, at the specification level, the model of the decoded value
/// for every JSON tree (or `None` where decoding must fail); `from_json` is
/// its executable form. `shape` names the top-level JSON variants the type
/// accepts: decoding any other variant always fails.
pub trait FromJson: DeepView + Sized {
    /// The model of the value that JSON model `j` decodes to, or `None` if
    /// decoding fails.
    spec fn dec(j: JsonData) -> Option<Self::V>;

    /// Whether the top-level variant of `j` is one this type can decode
    /// from. A matching shape does not promise success (a number can still
    /// be out of range, an element can still fail); a mismatched shape
    /// promises failure.
    spec fn shape(j: JsonData) -> bool;

    /// Decoding a JSON value of the wrong top-level variant always fails.
    proof fn lemma_wrong_shape(j: JsonData)
        requires
            !Self::shape(j),
        ensures
            Self::dec(j) is None,
    ;

    /// Decode a value from a generic JSON value, or report failure.
    fn from_json(j: &Json) -> (r: Option<Self>)
        ensures
            match r {
                Some(v) => Self::dec(j@) == Some(v.deep_view()),
                None => Self::dec(j@) is None,
            },
    ;
}

/// The round-trip law: decoding an encoded value gives the value back.
///
/// The law is stated over `stable` values. For every shape except one the
/// whole type is stable; the exception is an optional holding a present
/// value whose own encoding is `Null` (such as a present inner `None` of a
/// nested optional), which encodes to `Null` and so decodes to the absent
/// state instead. That collapse is inherent in the representation of
/// optionals, which marks absence by `Null` alone.
pub trait JsonRoundTrip: ToJson + FromJson {
    /// The values whose encoding decodes back to them. Containers are
    /// stable exactly when all their elements are.
    spec fn stable(m: Self::V) -> bool;

    /// Decoding the encoding of a stable value yields exactly that value.
    proof fn lemma_round_trip(m: Self::V)
        requires
            Self::stable(m),
        ensures
            Self::dec(Self::enc(m)) == Some(m),
    ;
}

} // verus!
