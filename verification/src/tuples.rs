//! Conversions for fixed-arity tuples. Each arity encodes as a JSON array
//! of exactly that many elements, one per position in order, and decoding
//! demands an array of exactly that length whose every position decodes.

use vstd::prelude::*;

use crate::codec::{FromJson, JsonRoundTrip, ToJson};
use crate::value::{json_data_seq, lemma_json_data_seq, Json, JsonData};

verus! {

impl<A0: ToJson, A1: ToJson> ToJson for (A0, A1) {
    open spec fn enc(m: (A0::V, A1::V)) -> JsonData {
        JsonData::Arr(seq![A0::enc(m.0), A1::enc(m.1)])
    }

    fn to_json(&self) -> (r: Json) {
        let mut out: Vec<Json> = Vec::new();
        out.push(self.0.to_json());
        out.push(self.1.to_json());
        proof {
            lemma_json_data_seq(out@);
            assert(json_data_seq(out@) =~= seq![A0::enc(self.deep_view().0), A1::enc(self.deep_view().1)]);
        }
        Json::Arr(out)
    }
}

impl<A0: FromJson, A1: FromJson> FromJson for (A0, A1) {
    open spec fn dec(j: JsonData) -> Option<(A0::V, A1::V)> {
        match j {
            JsonData::Arr(s) => {
                if s.len() == 2 && A0::dec(s[0]) is Some && A1::dec(s[1]) is Some {
                    Some((A0::dec(s[0])->Some_0, A1::dec(s[1])->Some_0))
                } else {
                    None
                }
            },
            _ => None,
        }
    }

    open spec fn shape(j: JsonData) -> bool {
        j is Arr
    }

    proof fn lemma_wrong_shape(j: JsonData) {
    }

    fn from_json(j: &Json) -> (r: Option<(A0, A1)>) {
        match j {
            Json::Arr(xs) => {
                proof {
                    lemma_json_data_seq(xs@);
                }
                if xs.len() != 2 {
                    return None;
                }
                let x0 = match A0::from_json(&xs[0]) {
                    Some(v) => v,
                    None => {
                        return None;
                    },
                };
                let x1 = match A1::from_json(&xs[1]) {
                    Some(v) => v,
                    None => {
                        return None;
                    },
                };
                Some((x0, x1))
            },
            _ => None,
        }
    }
}

impl<A0: JsonRoundTrip, A1: JsonRoundTrip> JsonRoundTrip for (A0, A1) {
    open spec fn stable(m: (A0::V, A1::V)) -> bool {
        A0::stable(m.0) && A1::stable(m.1)
    }

    proof fn lemma_round_trip(m: (A0::V, A1::V)) {
        A0::lemma_round_trip(m.0);
        A1::lemma_round_trip(m.1);
    }
}

impl<A0: ToJson, A1: ToJson, A2: ToJson> ToJson for (A0, A1, A2) {
    open spec fn enc(m: (A0::V, A1::V, A2::V)) -> JsonData {
        JsonData::Arr(seq![A0::enc(m.0), A1::enc(m.1), A2::enc(m.2)])
    }

    fn to_json(&self) -> (r: Json) {
        let mut out: Vec<Json> = Vec::new();
        out.push(self.0.to_json());
        out.push(self.1.to_json());
        out.push(self.2.to_json());
        proof {
            lemma_json_data_seq(out@);
            assert(json_data_seq(out@) =~= seq![A0::enc(self.deep_view().0), A1::enc(self.deep_view().1), A2::enc(self.deep_view().2)]);
        }
        Json::Arr(out)
    }
}

impl<A0: FromJson, A1: FromJson, A2: FromJson> FromJson for (A0, A1, A2) {
    open spec fn dec(j: JsonData) -> Option<(A0::V, A1::V, A2::V)> {
        match j {
            JsonData::Arr(s) => {
                if s.len() == 3 && A0::dec(s[0]) is Some && A1::dec(s[1]) is Some && A2::dec(s[2]) is Some {
                    Some((A0::dec(s[0])->Some_0, A1::dec(s[1])->Some_0, A2::dec(s[2])->Some_0))
                } else {
                    None
                }
            },
            _ => None,
        }
    }

    open spec fn shape(j: JsonData) -> bool {
        j is Arr
    }

    proof fn lemma_wrong_shape(j: JsonData) {
    }

    fn from_json(j: &Json) -> (r: Option<(A0, A1, A2)>) {
        match j {
            Json::Arr(xs) => {
                proof {
                    lemma_json_data_seq(xs@);
                }
                if xs.len() != 3 {
                    return None;
                }
                let x0 = match A0::from_json(&xs[0]) {
                    Some(v) => v,
                    None => {
                        return None;
                    },
                };
                let x1 = match A1::from_json(&xs[1]) {
                    Some(v) => v,
                    None => {
                        return None;
                    },
                };
                let x2 = match A2::from_json(&xs[2]) {
                    Some(v) => v,
                    None => {
                        return None;
                    },
                };
                Some((x0, x1, x2))
            },
            _ => None,
        }
    }
}

impl<A0: JsonRoundTrip, A1: JsonRoundTrip, A2: JsonRoundTrip> JsonRoundTrip for (A0, A1, A2) {
    open spec fn stable(m: (A0::V, A1::V, A2::V)) -> bool {
        A0::stable(m.0) && A1::stable(m.1) && A2::stable(m.2)
    }

    proof fn lemma_round_trip(m: (A0::V, A1::V, A2::V)) {
        A0::lemma_round_trip(m.0);
        A1::lemma_round_trip(m.1);
        A2::lemma_round_trip(m.2);
    }
}

impl<A0: ToJson, A1: ToJson, A2: ToJson, A3: ToJson> ToJson for (A0, A1, A2, A3) {
    open spec fn enc(m: (A0::V, A1::V, A2::V, A3::V)) -> JsonData {
        JsonData::Arr(seq![A0::enc(m.0), A1::enc(m.1), A2::enc(m.2), A3::enc(m.3)])
    }

    fn to_json(&self) -> (r: Json) {
        let mut out: Vec<Json> = Vec::new();
        out.push(self.0.to_json());
        out.push(self.1.to_json());
        out.push(self.2.to_json());
        out.push(self.3.to_json());
        proof {
            lemma_json_data_seq(out@);
            assert(json_data_seq(out@) =~= seq![A0::enc(self.deep_view().0), A1::enc(self.deep_view().1), A2::enc(self.deep_view().2), A3::enc(self.deep_view().3)]);
        }
        Json::Arr(out)
    }
}

impl<A0: FromJson, A1: FromJson, A2: FromJson, A3: FromJson> FromJson for (A0, A1, A2, A3) {
    open spec fn dec(j: JsonData) -> Option<(A0::V, A1::V, A2::V, A3::V)> {
        match j {
            JsonData::Arr(s) => {
                if s.len() == 4 && A0::dec(s[0]) is Some && A1::dec(s[1]) is Some && A2::dec(s[2]) is Some && A3::dec(s[3]) is Some {
                    Some((A0::dec(s[0])->Some_0, A1::dec(s[1])->Some_0, A2::dec(s[2])->Some_0, A3::dec(s[3])->Some_0))
                } else {
                    None
                }
            },
            _ => None,
        }
    }

    open spec fn shape(j: JsonData) -> bool {
        j is Arr
    }

    proof fn lemma_wrong_shape(j: JsonData) {
    }

    fn from_json(j: &Json) -> (r: Option<(A0, A1, A2, A3)>) {
        match j {
            Json::Arr(xs) => {
                proof {
                    lemma_json_data_seq(xs@);
                }
                if xs.len() != 4 {
                    return None;
                }
                let x0 = match A0::from_json(&xs[0]) {
                    Some(v) => v,
                    None => {
                        return None;
                    },
                };
                let x1 = match A1::from_json(&xs[1]) {
                    Some(v) => v,
                    None => {
                        return None;
                    },
                };
                let x2 = match A2::from_json(&xs[2]) {
                    Some(v) => v,
                    None => {
                        return None;
                    },
                };
                let x3 = match A3::from_json(&xs[3]) {
                    Some(v) => v,
                    None => {
                        return None;
                    },
                };
                Some((x0, x1, x2, x3))
            },
            _ => None,
        }
    }
}

impl<A0: JsonRoundTrip, A1: JsonRoundTrip, A2: JsonRoundTrip, A3: JsonRoundTrip> JsonRoundTrip for (A0, A1, A2, A3) {
    open spec fn stable(m: (A0::V, A1::V, A2::V, A3::V)) -> bool {
        A0::stable(m.0) && A1::stable(m.1) && A2::stable(m.2) && A3::stable(m.3)
    }

    proof fn lemma_round_trip(m: (A0::V, A1::V, A2::V, A3::V)) {
        A0::lemma_round_trip(m.0);
        A1::lemma_round_trip(m.1);
        A2::lemma_round_trip(m.2);
        A3::lemma_round_trip(m.3);
    }
}

impl<A0: ToJson, A1: ToJson, A2: ToJson, A3: ToJson, A4: ToJson> ToJson for (A0, A1, A2, A3, A4) {
    open spec fn enc(m: (A0::V, A1::V, A2::V, A3::V, A4::V)) -> JsonData {
        JsonData::Arr(seq![A0::enc(m.0), A1::enc(m.1), A2::enc(m.2), A3::enc(m.3), A4::enc(m.4)])
    }

    fn to_json(&self) -> (r: Json) {
        let mut out: Vec<Json> = Vec::new();
        out.push(self.0.to_json());
        out.push(self.1.to_json());
        out.push(self.2.to_json());
        out.push(self.3.to_json());
        out.push(self.4.to_json());
        proof {
            lemma_json_data_seq(out@);
            assert(json_data_seq(out@) =~= seq![A0::enc(self.deep_view().0), A1::enc(self.deep_view().1), A2::enc(self.deep_view().2), A3::enc(self.deep_view().3), A4::enc(self.deep_view().4)]);
        }
        Json::Arr(out)
    }
}

impl<A0: FromJson, A1: FromJson, A2: FromJson, A3: FromJson, A4: FromJson> FromJson for (A0, A1, A2, A3, A4) {
    open spec fn dec(j: JsonData) -> Option<(A0::V, A1::V, A2::V, A3::V, A4::V)> {
        match j {
            JsonData::Arr(s) => {
                if s.len() == 5 && A0::dec(s[0]) is Some && A1::dec(s[1]) is Some && A2::dec(s[2]) is Some && A3::dec(s[3]) is Some && A4::dec(s[4]) is Some {
                    Some((A0::dec(s[0])->Some_0, A1::dec(s[1])->Some_0, A2::dec(s[2])->Some_0, A3::dec(s[3])->Some_0, A4::dec(s[4])->Some_0))
                } else {
                    None
                }
            },
            _ => None,
        }
    }

    open spec fn shape(j: JsonData) -> bool {
        j is Arr
    }

    proof fn lemma_wrong_shape(j: JsonData) {
    }

    fn from_json(j: &Json) -> (r: Option<(A0, A1, A2, A3, A4)>) {
        match j {
            Json::Arr(xs) => {
                proof {
                    lemma_json_data_seq(xs@);
                }
                if xs.len() != 5 {
                    return None;
                }
                let x0 = match A0::from_json(&xs[0]) {
                    Some(v) => v,
                    None => {
                        return None;
                    },
                };
                let x1 = match A1::from_json(&xs[1]) {
                    Some(v) => v,
                    None => {
                        return None;
                    },
                };
                let x2 = match A2::from_json(&xs[2]) {
                    Some(v) => v,
                    None => {
                        return None;
                    },
                };
                let x3 = match A3::from_json(&xs[3]) {
                    Some(v) => v,
                    None => {
                        return None;
                    },
                };
                let x4 = match A4::from_json(&xs[4]) {
                    Some(v) => v,
                    None => {
                        return None;
                    },
                };
                Some((x0, x1, x2, x3, x4))
            },
            _ => None,
        }
    }
}

impl<A0: JsonRoundTrip, A1: JsonRoundTrip, A2: JsonRoundTrip, A3: JsonRoundTrip, A4: JsonRoundTrip> JsonRoundTrip for (A0, A1, A2, A3, A4) {
    open spec fn stable(m: (A0::V, A1::V, A2::V, A3::V, A4::V)) -> bool {
        A0::stable(m.0) && A1::stable(m.1) && A2::stable(m.2) && A3::stable(m.3) && A4::stable(m.4)
    }

    proof fn lemma_round_trip(m: (A0::V, A1::V, A2::V, A3::V, A4::V)) {
        A0::lemma_round_trip(m.0);
        A1::lemma_round_trip(m.1);
        A2::lemma_round_trip(m.2);
        A3::lemma_round_trip(m.3);
        A4::lemma_round_trip(m.4);
    }
}

impl<A0: ToJson, A1: ToJson, A2: ToJson, A3: ToJson, A4: ToJson, A5: ToJson> ToJson for (A0, A1, A2, A3, A4, A5) {
    open spec fn enc(m: (A0::V, A1::V, A2::V, A3::V, A4::V, A5::V)) -> JsonData {
        JsonData::Arr(seq![A0::enc(m.0), A1::enc(m.1), A2::enc(m.2), A3::enc(m.3), A4::enc(m.4), A5::enc(m.5)])
    }

    fn to_json(&self) -> (r: Json) {
        let mut out: Vec<Json> = Vec::new();
        out.push(self.0.to_json());
        out.push(self.1.to_json());
        out.push(self.2.to_json());
        out.push(self.3.to_json());
        out.push(self.4.to_json());
        out.push(self.5.to_json());
        proof {
            lemma_json_data_seq(out@);
            assert(json_data_seq(out@) =~= seq![A0::enc(self.deep_view().0), A1::enc(self.deep_view().1), A2::enc(self.deep_view().2), A3::enc(self.deep_view().3), A4::enc(self.deep_view().4), A5::enc(self.deep_view().5)]);
        }
        Json::Arr(out)
    }
}

impl<A0: FromJson, A1: FromJson, A2: FromJson, A3: FromJson, A4: FromJson, A5: FromJson> FromJson for (A0, A1, A2, A3, A4, A5) {
    open spec fn dec(j: JsonData) -> Option<(A0::V, A1::V, A2::V, A3::V, A4::V, A5::V)> {
        match j {
            JsonData::Arr(s) => {
                if s.len() == 6 && A0::dec(s[0]) is Some && A1::dec(s[1]) is Some && A2::dec(s[2]) is Some && A3::dec(s[3]) is Some && A4::dec(s[4]) is Some && A5::dec(s[5]) is Some {
                    Some((A0::dec(s[0])->Some_0, A1::dec(s[1])->Some_0, A2::dec(s[2])->Some_0, A3::dec(s[3])->Some_0, A4::dec(s[4])->Some_0, A5::dec(s[5])->Some_0))
                } else {
                    None
                }
            },
            _ => None,
        }
    }

    open spec fn shape(j: JsonData) -> bool {
        j is Arr
    }

    proof fn lemma_wrong_shape(j: JsonData) {
    }

    fn from_json(j: &Json) -> (r: Option<(A0, A1, A2, A3, A4, A5)>) {
        match j {
            Json::Arr(xs) => {
                proof {
                    lemma_json_data_seq(xs@);
                }
                if xs.len() != 6 {
                    return None;
                }
                let x0 = match A0::from_json(&xs[0]) {
                    Some(v) => v,
                    None => {
                        return None;
                    },
                };
                let x1 = match A1::from_json(&xs[1]) {
                    Some(v) => v,
                    None => {
                        return None;
                    },
                };
                let x2 = match A2::from_json(&xs[2]) {
                    Some(v) => v,
                    None => {
                        return None;
                    },
                };
                let x3 = match A3::from_json(&xs[3]) {
                    Some(v) => v,
                    None => {
                        return None;
                    },
                };
                let x4 = match A4::from_json(&xs[4]) {
                    Some(v) => v,
                    None => {
                        return None;
                    },
                };
                let x5 = match A5::from_json(&xs[5]) {
                    Some(v) => v,
                    None => {
                        return None;
                    },
                };
                Some((x0, x1, x2, x3, x4, x5))
            },
            _ => None,
        }
    }
}

impl<A0: JsonRoundTrip, A1: JsonRoundTrip, A2: JsonRoundTrip, A3: JsonRoundTrip, A4: JsonRoundTrip, A5: JsonRoundTrip> JsonRoundTrip for (A0, A1, A2, A3, A4, A5) {
    open spec fn stable(m: (A0::V, A1::V, A2::V, A3::V, A4::V, A5::V)) -> bool {
        A0::stable(m.0) && A1::stable(m.1) && A2::stable(m.2) && A3::stable(m.3) && A4::stable(m.4) && A5::stable(m.5)
    }

    proof fn lemma_round_trip(m: (A0::V, A1::V, A2::V, A3::V, A4::V, A5::V)) {
        A0::lemma_round_trip(m.0);
        A1::lemma_round_trip(m.1);
        A2::lemma_round_trip(m.2);
        A3::lemma_round_trip(m.3);
        A4::lemma_round_trip(m.4);
        A5::lemma_round_trip(m.5);
    }
}

impl<A0: ToJson, A1: ToJson, A2: ToJson, A3: ToJson, A4: ToJson, A5: ToJson, A6: ToJson> ToJson for (A0, A1, A2, A3, A4, A5, A6) {
    open spec fn enc(m: (A0::V, A1::V, A2::V, A3::V, A4::V, A5::V, A6::V)) -> JsonData {
        JsonData::Arr(seq![A0::enc(m.0), A1::enc(m.1), A2::enc(m.2), A3::enc(m.3), A4::enc(m.4), A5::enc(m.5), A6::enc(m.6)])
    }

    fn to_json(&self) -> (r: Json) {
        let mut out: Vec<Json> = Vec::new();
        out.push(self.0.to_json());
        out.push(self.1.to_json());
        out.push(self.2.to_json());
        out.push(self.3.to_json());
        out.push(self.4.to_json());
        out.push(self.5.to_json());
        out.push(self.6.to_json());
        proof {
            lemma_json_data_seq(out@);
            assert(json_data_seq(out@) =~= seq![A0::enc(self.deep_view().0), A1::enc(self.deep_view().1), A2::enc(self.deep_view().2), A3::enc(self.deep_view().3), A4::enc(self.deep_view().4), A5::enc(self.deep_view().5), A6::enc(self.deep_view().6)]);
        }
        Json::Arr(out)
    }
}

impl<A0: FromJson, A1: FromJson, A2: FromJson, A3: FromJson, A4: FromJson, A5: FromJson, A6: FromJson> FromJson for (A0, A1, A2, A3, A4, A5, A6) {
    open spec fn dec(j: JsonData) -> Option<(A0::V, A1::V, A2::V, A3::V, A4::V, A5::V, A6::V)> {
        match j {
            JsonData::Arr(s) => {
                if s.len() == 7 && A0::dec(s[0]) is Some && A1::dec(s[1]) is Some && A2::dec(s[2]) is Some && A3::dec(s[3]) is Some && A4::dec(s[4]) is Some && A5::dec(s[5]) is Some && A6::dec(s[6]) is Some {
                    Some((A0::dec(s[0])->Some_0, A1::dec(s[1])->Some_0, A2::dec(s[2])->Some_0, A3::dec(s[3])->Some_0, A4::dec(s[4])->Some_0, A5::dec(s[5])->Some_0, A6::dec(s[6])->Some_0))
                } else {
                    None
                }
            },
            _ => None,
        }
    }

    open spec fn shape(j: JsonData) -> bool {
        j is Arr
    }

    proof fn lemma_wrong_shape(j: JsonData) {
    }

    fn from_json(j: &Json) -> (r: Option<(A0, A1, A2, A3, A4, A5, A6)>) {
        match j {
            Json::Arr(xs) => {
                proof {
                    lemma_json_data_seq(xs@);
                }
                if xs.len() != 7 {
                    return None;
                }
                let x0 = match A0::from_json(&xs[0]) {
                    Some(v) => v,
                    None => {
                        return None;
                    },
                };
                let x1 = match A1::from_json(&xs[1]) {
                    Some(v) => v,
                    None => {
                        return None;
                    },
                };
                let x2 = match A2::from_json(&xs[2]) {
                    Some(v) => v,
                    None => {
                        return None;
                    },
                };
                let x3 = match A3::from_json(&xs[3]) {
                    Some(v) => v,
                    None => {
                        return None;
                    },
                };
                let x4 = match A4::from_json(&xs[4]) {
                    Some(v) => v,
                    None => {
                        return None;
                    },
                };
                let x5 = match A5::from_json(&xs[5]) {
                    Some(v) => v,
                    None => {
                        return None;
                    },
                };
                let x6 = match A6::from_json(&xs[6]) {
                    Some(v) => v,
                    None => {
                        return None;
                    },
                };
                Some((x0, x1, x2, x3, x4, x5, x6))
            },
            _ => None,
        }
    }
}

impl<A0: JsonRoundTrip, A1: JsonRoundTrip, A2: JsonRoundTrip, A3: JsonRoundTrip, A4: JsonRoundTrip, A5: JsonRoundTrip, A6: JsonRoundTrip> JsonRoundTrip for (A0, A1, A2, A3, A4, A5, A6) {
    open spec fn stable(m: (A0::V, A1::V, A2::V, A3::V, A4::V, A5::V, A6::V)) -> bool {
        A0::stable(m.0) && A1::stable(m.1) && A2::stable(m.2) && A3::stable(m.3) && A4::stable(m.4) && A5::stable(m.5) && A6::stable(m.6)
    }

    proof fn lemma_round_trip(m: (A0::V, A1::V, A2::V, A3::V, A4::V, A5::V, A6::V)) {
        A0::lemma_round_trip(m.0);
        A1::lemma_round_trip(m.1);
        A2::lemma_round_trip(m.2);
        A3::lemma_round_trip(m.3);
        A4::lemma_round_trip(m.4);
        A5::lemma_round_trip(m.5);
        A6::lemma_round_trip(m.6);
    }
}

impl<A0: ToJson, A1: ToJson, A2: ToJson, A3: ToJson, A4: ToJson, A5: ToJson, A6: ToJson, A7: ToJson> ToJson for (A0, A1, A2, A3, A4, A5, A6, A7) {
    open spec fn enc(m: (A0::V, A1::V, A2::V, A3::V, A4::V, A5::V, A6::V, A7::V)) -> JsonData {
        JsonData::Arr(seq![A0::enc(m.0), A1::enc(m.1), A2::enc(m.2), A3::enc(m.3), A4::enc(m.4), A5::enc(m.5), A6::enc(m.6), A7::enc(m.7)])
    }

    fn to_json(&self) -> (r: Json) {
        let mut out: Vec<Json> = Vec::new();
        out.push(self.0.to_json());
        out.push(self.1.to_json());
        out.push(self.2.to_json());
        out.push(self.3.to_json());
        out.push(self.4.to_json());
        out.push(self.5.to_json());
        out.push(self.6.to_json());
        out.push(self.7.to_json());
        proof {
            lemma_json_data_seq(out@);
            assert(json_data_seq(out@) =~= seq![A0::enc(self.deep_view().0), A1::enc(self.deep_view().1), A2::enc(self.deep_view().2), A3::enc(self.deep_view().3), A4::enc(self.deep_view().4), A5::enc(self.deep_view().5), A6::enc(self.deep_view().6), A7::enc(self.deep_view().7)]);
        }
        Json::Arr(out)
    }
}

impl<A0: FromJson, A1: FromJson, A2: FromJson, A3: FromJson, A4: FromJson, A5: FromJson, A6: FromJson, A7: FromJson> FromJson for (A0, A1, A2, A3, A4, A5, A6, A7) {
    open spec fn dec(j: JsonData) -> Option<(A0::V, A1::V, A2::V, A3::V, A4::V, A5::V, A6::V, A7::V)> {
        match j {
            JsonData::Arr(s) => {
                if s.len() == 8 && A0::dec(s[0]) is Some && A1::dec(s[1]) is Some && A2::dec(s[2]) is Some && A3::dec(s[3]) is Some && A4::dec(s[4]) is Some && A5::dec(s[5]) is Some && A6::dec(s[6]) is Some && A7::dec(s[7]) is Some {
                    Some((A0::dec(s[0])->Some_0, A1::dec(s[1])->Some_0, A2::dec(s[2])->Some_0, A3::dec(s[3])->Some_0, A4::dec(s[4])->Some_0, A5::dec(s[5])->Some_0, A6::dec(s[6])->Some_0, A7::dec(s[7])->Some_0))
                } else {
                    None
                }
            },
            _ => None,
        }
    }

    open spec fn shape(j: JsonData) -> bool {
        j is Arr
    }

    proof fn lemma_wrong_shape(j: JsonData) {
    }

    fn from_json(j: &Json) -> (r: Option<(A0, A1, A2, A3, A4, A5, A6, A7)>) {
        match j {
            Json::Arr(xs) => {
                proof {
                    lemma_json_data_seq(xs@);
                }
                if xs.len() != 8 {
                    return None;
                }
                let x0 = match A0::from_json(&xs[0]) {
                    Some(v) => v,
                    None => {
                        return None;
                    },
                };
                let x1 = match A1::from_json(&xs[1]) {
                    Some(v) => v,
                    None => {
                        return None;
                    },
                };
                let x2 = match A2::from_json(&xs[2]) {
                    Some(v) => v,
                    None => {
                        return None;
                    },
                };
                let x3 = match A3::from_json(&xs[3]) {
                    Some(v) => v,
                    None => {
                        return None;
                    },
                };
                let x4 = match A4::from_json(&xs[4]) {
                    Some(v) => v,
                    None => {
                        return None;
                    },
                };
                let x5 = match A5::from_json(&xs[5]) {
                    Some(v) => v,
                    None => {
                        return None;
                    },
                };
                let x6 = match A6::from_json(&xs[6]) {
                    Some(v) => v,
                    None => {
                        return None;
                    },
                };
                let x7 = match A7::from_json(&xs[7]) {
                    Some(v) => v,
                    None => {
                        return None;
                    },
                };
                Some((x0, x1, x2, x3, x4, x5, x6, x7))
            },
            _ => None,
        }
    }
}

impl<A0: JsonRoundTrip, A1: JsonRoundTrip, A2: JsonRoundTrip, A3: JsonRoundTrip, A4: JsonRoundTrip, A5: JsonRoundTrip, A6: JsonRoundTrip, A7: JsonRoundTrip> JsonRoundTrip for (A0, A1, A2, A3, A4, A5, A6, A7) {
    open spec fn stable(m: (A0::V, A1::V, A2::V, A3::V, A4::V, A5::V, A6::V, A7::V)) -> bool {
        A0::stable(m.0) && A1::stable(m.1) && A2::stable(m.2) && A3::stable(m.3) && A4::stable(m.4) && A5::stable(m.5) && A6::stable(m.6) && A7::stable(m.7)
    }

    proof fn lemma_round_trip(m: (A0::V, A1::V, A2::V, A3::V, A4::V, A5::V, A6::V, A7::V)) {
        A0::lemma_round_trip(m.0);
        A1::lemma_round_trip(m.1);
        A2::lemma_round_trip(m.2);
        A3::lemma_round_trip(m.3);
        A4::lemma_round_trip(m.4);
        A5::lemma_round_trip(m.5);
        A6::lemma_round_trip(m.6);
        A7::lemma_round_trip(m.7);
    }
}

impl<A0: ToJson, A1: ToJson, A2: ToJson, A3: ToJson, A4: ToJson, A5: ToJson, A6: ToJson, A7: ToJson, A8: ToJson> ToJson for (A0, A1, A2, A3, A4, A5, A6, A7, A8) {
    open spec fn enc(m: (A0::V, A1::V, A2::V, A3::V, A4::V, A5::V, A6::V, A7::V, A8::V)) -> JsonData {
        JsonData::Arr(seq![A0::enc(m.0), A1::enc(m.1), A2::enc(m.2), A3::enc(m.3), A4::enc(m.4), A5::enc(m.5), A6::enc(m.6), A7::enc(m.7), A8::enc(m.8)])
    }

    fn to_json(&self) -> (r: Json) {
        let mut out: Vec<Json> = Vec::new();
        out.push(self.0.to_json());
        out.push(self.1.to_json());
        out.push(self.2.to_json());
        out.push(self.3.to_json());
        out.push(self.4.to_json());
        out.push(self.5.to_json());
        out.push(self.6.to_json());
        out.push(self.7.to_json());
        out.push(self.8.to_json());
        proof {
            lemma_json_data_seq(out@);
            assert(json_data_seq(out@) =~= seq![A0::enc(self.deep_view().0), A1::enc(self.deep_view().1), A2::enc(self.deep_view().2), A3::enc(self.deep_view().3), A4::enc(self.deep_view().4), A5::enc(self.deep_view().5), A6::enc(self.deep_view().6), A7::enc(self.deep_view().7), A8::enc(self.deep_view().8)]);
        }
        Json::Arr(out)
    }
}

impl<A0: FromJson, A1: FromJson, A2: FromJson, A3: FromJson, A4: FromJson, A5: FromJson, A6: FromJson, A7: FromJson, A8: FromJson> FromJson for (A0, A1, A2, A3, A4, A5, A6, A7, A8) {
    open spec fn dec(j: JsonData) -> Option<(A0::V, A1::V, A2::V, A3::V, A4::V, A5::V, A6::V, A7::V, A8::V)> {
        match j {
            JsonData::Arr(s) => {
                if s.len() == 9 && A0::dec(s[0]) is Some && A1::dec(s[1]) is Some && A2::dec(s[2]) is Some && A3::dec(s[3]) is Some && A4::dec(s[4]) is Some && A5::dec(s[5]) is Some && A6::dec(s[6]) is Some && A7::dec(s[7]) is Some && A8::dec(s[8]) is Some {
                    Some((A0::dec(s[0])->Some_0, A1::dec(s[1])->Some_0, A2::dec(s[2])->Some_0, A3::dec(s[3])->Some_0, A4::dec(s[4])->Some_0, A5::dec(s[5])->Some_0, A6::dec(s[6])->Some_0, A7::dec(s[7])->Some_0, A8::dec(s[8])->Some_0))
                } else {
                    None
                }
            },
            _ => None,
        }
    }

    open spec fn shape(j: JsonData) -> bool {
        j is Arr
    }

    proof fn lemma_wrong_shape(j: JsonData) {
    }

    fn from_json(j: &Json) -> (r: Option<(A0, A1, A2, A3, A4, A5, A6, A7, A8)>) {
        match j {
            Json::Arr(xs) => {
                proof {
                    lemma_json_data_seq(xs@);
                }
                if xs.len() != 9 {
                    return None;
                }
                let x0 = match A0::from_json(&xs[0]) {
                    Some(v) => v,
                    None => {
                        return None;
                    },
                };
                let x1 = match A1::from_json(&xs[1]) {
                    Some(v) => v,
                    None => {
                        return None;
                    },
                };
                let x2 = match A2::from_json(&xs[2]) {
                    Some(v) => v,
                    None => {
                        return None;
                    },
                };
                let x3 = match A3::from_json(&xs[3]) {
                    Some(v) => v,
                    None => {
                        return None;
                    },
                };
                let x4 = match A4::from_json(&xs[4]) {
                    Some(v) => v,
                    None => {
                        return None;
                    },
                };
                let x5 = match A5::from_json(&xs[5]) {
                    Some(v) => v,
                    None => {
                        return None;
                    },
                };
                let x6 = match A6::from_json(&xs[6]) {
                    Some(v) => v,
                    None => {
                        return None;
                    },
                };
                let x7 = match A7::from_json(&xs[7]) {
                    Some(v) => v,
                    None => {
                        return None;
                    },
                };
                let x8 = match A8::from_json(&xs[8]) {
                    Some(v) => v,
                    None => {
                        return None;
                    },
                };
                Some((x0, x1, x2, x3, x4, x5, x6, x7, x8))
            },
            _ => None,
        }
    }
}

impl<A0: JsonRoundTrip, A1: JsonRoundTrip, A2: JsonRoundTrip, A3: JsonRoundTrip, A4: JsonRoundTrip, A5: JsonRoundTrip, A6: JsonRoundTrip, A7: JsonRoundTrip, A8: JsonRoundTrip> JsonRoundTrip for (A0, A1, A2, A3, A4, A5, A6, A7, A8) {
    open spec fn stable(m: (A0::V, A1::V, A2::V, A3::V, A4::V, A5::V, A6::V, A7::V, A8::V)) -> bool {
        A0::stable(m.0) && A1::stable(m.1) && A2::stable(m.2) && A3::stable(m.3) && A4::stable(m.4) && A5::stable(m.5) && A6::stable(m.6) && A7::stable(m.7) && A8::stable(m.8)
    }

    proof fn lemma_round_trip(m: (A0::V, A1::V, A2::V, A3::V, A4::V, A5::V, A6::V, A7::V, A8::V)) {
        A0::lemma_round_trip(m.0);
        A1::lemma_round_trip(m.1);
        A2::lemma_round_trip(m.2);
        A3::lemma_round_trip(m.3);
        A4::lemma_round_trip(m.4);
        A5::lemma_round_trip(m.5);
        A6::lemma_round_trip(m.6);
        A7::lemma_round_trip(m.7);
        A8::lemma_round_trip(m.8);
    }
}

impl<A0: ToJson, A1: ToJson, A2: ToJson, A3: ToJson, A4: ToJson, A5: ToJson, A6: ToJson, A7: ToJson, A8: ToJson, A9: ToJson> ToJson for (A0, A1, A2, A3, A4, A5, A6, A7, A8, A9) {
    open spec fn enc(m: (A0::V, A1::V, A2::V, A3::V, A4::V, A5::V, A6::V, A7::V, A8::V, A9::V)) -> JsonData {
        JsonData::Arr(seq![A0::enc(m.0), A1::enc(m.1), A2::enc(m.2), A3::enc(m.3), A4::enc(m.4), A5::enc(m.5), A6::enc(m.6), A7::enc(m.7), A8::enc(m.8), A9::enc(m.9)])
    }

    fn to_json(&self) -> (r: Json) {
        let mut out: Vec<Json> = Vec::new();
        out.push(self.0.to_json());
        out.push(self.1.to_json());
        out.push(self.2.to_json());
        out.push(self.3.to_json());
        out.push(self.4.to_json());
        out.push(self.5.to_json());
        out.push(self.6.to_json());
        out.push(self.7.to_json());
        out.push(self.8.to_json());
        out.push(self.9.to_json());
        proof {
            lemma_json_data_seq(out@);
            assert(json_data_seq(out@) =~= seq![A0::enc(self.deep_view().0), A1::enc(self.deep_view().1), A2::enc(self.deep_view().2), A3::enc(self.deep_view().3), A4::enc(self.deep_view().4), A5::enc(self.deep_view().5), A6::enc(self.deep_view().6), A7::enc(self.deep_view().7), A8::enc(self.deep_view().8), A9::enc(self.deep_view().9)]);
        }
        Json::Arr(out)
    }
}

impl<A0: FromJson, A1: FromJson, A2: FromJson, A3: FromJson, A4: FromJson, A5: FromJson, A6: FromJson, A7: FromJson, A8: FromJson, A9: FromJson> FromJson for (A0, A1, A2, A3, A4, A5, A6, A7, A8, A9) {
    open spec fn dec(j: JsonData) -> Option<(A0::V, A1::V, A2::V, A3::V, A4::V, A5::V, A6::V, A7::V, A8::V, A9::V)> {
        match j {
            JsonData::Arr(s) => {
                if s.len() == 10 && A0::dec(s[0]) is Some && A1::dec(s[1]) is Some && A2::dec(s[2]) is Some && A3::dec(s[3]) is Some && A4::dec(s[4]) is Some && A5::dec(s[5]) is Some && A6::dec(s[6]) is Some && A7::dec(s[7]) is Some && A8::dec(s[8]) is Some && A9::dec(s[9]) is Some {
                    Some((A0::dec(s[0])->Some_0, A1::dec(s[1])->Some_0, A2::dec(s[2])->Some_0, A3::dec(s[3])->Some_0, A4::dec(s[4])->Some_0, A5::dec(s[5])->Some_0, A6::dec(s[6])->Some_0, A7::dec(s[7])->Some_0, A8::dec(s[8])->Some_0, A9::dec(s[9])->Some_0))
                } else {
                    None
                }
            },
            _ => None,
        }
    }

    open spec fn shape(j: JsonData) -> bool {
        j is Arr
    }

    proof fn lemma_wrong_shape(j: JsonData) {
    }

    fn from_json(j: &Json) -> (r: Option<(A0, A1, A2, A3, A4, A5, A6, A7, A8, A9)>) {
        match j {
            Json::Arr(xs) => {
                proof {
                    lemma_json_data_seq(xs@);
                }
                if xs.len() != 10 {
                    return None;
                }
                let x0 = match A0::from_json(&xs[0]) {
                    Some(v) => v,
                    None => {
                        return None;
                    },
                };
                let x1 = match A1::from_json(&xs[1]) {
                    Some(v) => v,
                    None => {
                        return None;
                    },
                };
                let x2 = match A2::from_json(&xs[2]) {
                    Some(v) => v,
                    None => {
                        return None;
                    },
                };
                let x3 = match A3::from_json(&xs[3]) {
                    Some(v) => v,
                    None => {
                        return None;
                    },
                };
                let x4 = match A4::from_json(&xs[4]) {
                    Some(v) => v,
                    None => {
                        return None;
                    },
                };
                let x5 = match A5::from_json(&xs[5]) {
                    Some(v) => v,
                    None => {
                        return None;
                    },
                };
                let x6 = match A6::from_json(&xs[6]) {
                    Some(v) => v,
                    None => {
                        return None;
                    },
                };
                let x7 = match A7::from_json(&xs[7]) {
                    Some(v) => v,
                    None => {
                        return None;
                    },
                };
                let x8 = match A8::from_json(&xs[8]) {
                    Some(v) => v,
                    None => {
                        return None;
                    },
                };
                let x9 = match A9::from_json(&xs[9]) {
                    Some(v) => v,
                    None => {
                        return None;
                    },
                };
                Some((x0, x1, x2, x3, x4, x5, x6, x7, x8, x9))
            },
            _ => None,
        }
    }
}

impl<A0: JsonRoundTrip, A1: JsonRoundTrip, A2: JsonRoundTrip, A3: JsonRoundTrip, A4: JsonRoundTrip, A5: JsonRoundTrip, A6: JsonRoundTrip, A7: JsonRoundTrip, A8: JsonRoundTrip, A9: JsonRoundTrip> JsonRoundTrip for (A0, A1, A2, A3, A4, A5, A6, A7, A8, A9) {
    open spec fn stable(m: (A0::V, A1::V, A2::V, A3::V, A4::V, A5::V, A6::V, A7::V, A8::V, A9::V)) -> bool {
        A0::stable(m.0) && A1::stable(m.1) && A2::stable(m.2) && A3::stable(m.3) && A4::stable(m.4) && A5::stable(m.5) && A6::stable(m.6) && A7::stable(m.7) && A8::stable(m.8) && A9::stable(m.9)
    }

    proof fn lemma_round_trip(m: (A0::V, A1::V, A2::V, A3::V, A4::V, A5::V, A6::V, A7::V, A8::V, A9::V)) {
        A0::lemma_round_trip(m.0);
        A1::lemma_round_trip(m.1);
        A2::lemma_round_trip(m.2);
        A3::lemma_round_trip(m.3);
        A4::lemma_round_trip(m.4);
        A5::lemma_round_trip(m.5);
        A6::lemma_round_trip(m.6);
        A7::lemma_round_trip(m.7);
        A8::lemma_round_trip(m.8);
        A9::lemma_round_trip(m.9);
    }
}

} // verus!
