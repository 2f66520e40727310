//! Conversions for the fixed-width integer types. Each encodes as a JSON
//! number with exponent zero, and decodes from any JSON number that denotes
//! an exact integer within the type's range.

use vstd::prelude::*;

use crate::codec::{FromJson, JsonRoundTrip, ToJson};
use crate::number::{int_number, lemma_int_number, number_int, number_magnitude};
use crate::value::{Json, JsonData, JsonNumber};

verus! {

impl ToJson for u8 {
    open spec fn enc(m: u8) -> JsonData {
        JsonData::Num(int_number(m as int))
    }

    fn to_json(&self) -> (r: Json) {
        Json::Num(JsonNumber { negative: false, mantissa: *self as u64, exponent: 0 })
    }
}

impl FromJson for u8 {
    open spec fn dec(j: JsonData) -> Option<u8> {
        match j {
            JsonData::Num(n) => match number_int(n) {
                Some(v) => if 0 <= v <= u8::MAX as int {
                    Some(v as u8)
                } else {
                    None
                },
                None => None,
            },
            _ => None,
        }
    }

    open spec fn shape(j: JsonData) -> bool {
        j is Num
    }

    proof fn lemma_wrong_shape(j: JsonData) {
    }

    fn from_json(j: &Json) -> (r: Option<u8>) {
        match j {
            Json::Num(n) => match number_magnitude(n) {
                Some(m) => {
                    if n.negative && m != 0 {
                        None
                    } else if m <= u8::MAX as u64 {
                        Some(m as u8)
                    } else {
                        None
                    }
                },
                None => None,
            },
            _ => None,
        }
    }
}

impl JsonRoundTrip for u8 {
    open spec fn stable(m: u8) -> bool {
        true
    }

    proof fn lemma_round_trip(m: u8) {
        lemma_int_number(m as int);
    }
}

impl ToJson for u16 {
    open spec fn enc(m: u16) -> JsonData {
        JsonData::Num(int_number(m as int))
    }

    fn to_json(&self) -> (r: Json) {
        Json::Num(JsonNumber { negative: false, mantissa: *self as u64, exponent: 0 })
    }
}

impl FromJson for u16 {
    open spec fn dec(j: JsonData) -> Option<u16> {
        match j {
            JsonData::Num(n) => match number_int(n) {
                Some(v) => if 0 <= v <= u16::MAX as int {
                    Some(v as u16)
                } else {
                    None
                },
                None => None,
            },
            _ => None,
        }
    }

    open spec fn shape(j: JsonData) -> bool {
        j is Num
    }

    proof fn lemma_wrong_shape(j: JsonData) {
    }

    fn from_json(j: &Json) -> (r: Option<u16>) {
        match j {
            Json::Num(n) => match number_magnitude(n) {
                Some(m) => {
                    if n.negative && m != 0 {
                        None
                    } else if m <= u16::MAX as u64 {
                        Some(m as u16)
                    } else {
                        None
                    }
                },
                None => None,
            },
            _ => None,
        }
    }
}

impl JsonRoundTrip for u16 {
    open spec fn stable(m: u16) -> bool {
        true
    }

    proof fn lemma_round_trip(m: u16) {
        lemma_int_number(m as int);
    }
}

impl ToJson for u32 {
    open spec fn enc(m: u32) -> JsonData {
        JsonData::Num(int_number(m as int))
    }

    fn to_json(&self) -> (r: Json) {
        Json::Num(JsonNumber { negative: false, mantissa: *self as u64, exponent: 0 })
    }
}

impl FromJson for u32 {
    open spec fn dec(j: JsonData) -> Option<u32> {
        match j {
            JsonData::Num(n) => match number_int(n) {
                Some(v) => if 0 <= v <= u32::MAX as int {
                    Some(v as u32)
                } else {
                    None
                },
                None => None,
            },
            _ => None,
        }
    }

    open spec fn shape(j: JsonData) -> bool {
        j is Num
    }

    proof fn lemma_wrong_shape(j: JsonData) {
    }

    fn from_json(j: &Json) -> (r: Option<u32>) {
        match j {
            Json::Num(n) => match number_magnitude(n) {
                Some(m) => {
                    if n.negative && m != 0 {
                        None
                    } else if m <= u32::MAX as u64 {
                        Some(m as u32)
                    } else {
                        None
                    }
                },
                None => None,
            },
            _ => None,
        }
    }
}

impl JsonRoundTrip for u32 {
    open spec fn stable(m: u32) -> bool {
        true
    }

    proof fn lemma_round_trip(m: u32) {
        lemma_int_number(m as int);
    }
}

impl ToJson for u64 {
    open spec fn enc(m: u64) -> JsonData {
        JsonData::Num(int_number(m as int))
    }

    fn to_json(&self) -> (r: Json) {
        Json::Num(JsonNumber { negative: false, mantissa: *self as u64, exponent: 0 })
    }
}

impl FromJson for u64 {
    open spec fn dec(j: JsonData) -> Option<u64> {
        match j {
            JsonData::Num(n) => match number_int(n) {
                Some(v) => if 0 <= v <= u64::MAX as int {
                    Some(v as u64)
                } else {
                    None
                },
                None => None,
            },
            _ => None,
        }
    }

    open spec fn shape(j: JsonData) -> bool {
        j is Num
    }

    proof fn lemma_wrong_shape(j: JsonData) {
    }

    fn from_json(j: &Json) -> (r: Option<u64>) {
        match j {
            Json::Num(n) => match number_magnitude(n) {
                Some(m) => {
                    if n.negative && m != 0 {
                        None
                    } else if m <= u64::MAX as u64 {
                        Some(m as u64)
                    } else {
                        None
                    }
                },
                None => None,
            },
            _ => None,
        }
    }
}

impl JsonRoundTrip for u64 {
    open spec fn stable(m: u64) -> bool {
        true
    }

    proof fn lemma_round_trip(m: u64) {
        lemma_int_number(m as int);
    }
}

impl ToJson for usize {
    open spec fn enc(m: usize) -> JsonData {
        JsonData::Num(int_number(m as int))
    }

    fn to_json(&self) -> (r: Json) {
        Json::Num(JsonNumber { negative: false, mantissa: *self as u64, exponent: 0 })
    }
}

impl FromJson for usize {
    open spec fn dec(j: JsonData) -> Option<usize> {
        match j {
            JsonData::Num(n) => match number_int(n) {
                Some(v) => if 0 <= v <= usize::MAX as int {
                    Some(v as usize)
                } else {
                    None
                },
                None => None,
            },
            _ => None,
        }
    }

    open spec fn shape(j: JsonData) -> bool {
        j is Num
    }

    proof fn lemma_wrong_shape(j: JsonData) {
    }

    fn from_json(j: &Json) -> (r: Option<usize>) {
        match j {
            Json::Num(n) => match number_magnitude(n) {
                Some(m) => {
                    if n.negative && m != 0 {
                        None
                    } else if m <= usize::MAX as u64 {
                        Some(m as usize)
                    } else {
                        None
                    }
                },
                None => None,
            },
            _ => None,
        }
    }
}

impl JsonRoundTrip for usize {
    open spec fn stable(m: usize) -> bool {
        true
    }

    proof fn lemma_round_trip(m: usize) {
        lemma_int_number(m as int);
    }
}

impl ToJson for i8 {
    open spec fn enc(m: i8) -> JsonData {
        JsonData::Num(int_number(m as int))
    }

    fn to_json(&self) -> (r: Json) {
        let negative = *self < 0;
        let mantissa: u64 = if negative {
            (-(*self as i128)) as u64
        } else {
            *self as u64
        };
        Json::Num(JsonNumber { negative, mantissa, exponent: 0 })
    }
}

impl FromJson for i8 {
    open spec fn dec(j: JsonData) -> Option<i8> {
        match j {
            JsonData::Num(n) => match number_int(n) {
                Some(v) => if i8::MIN as int <= v <= i8::MAX as int {
                    Some(v as i8)
                } else {
                    None
                },
                None => None,
            },
            _ => None,
        }
    }

    open spec fn shape(j: JsonData) -> bool {
        j is Num
    }

    proof fn lemma_wrong_shape(j: JsonData) {
    }

    fn from_json(j: &Json) -> (r: Option<i8>) {
        match j {
            Json::Num(n) => match number_magnitude(n) {
                Some(m) => {
                    if n.negative {
                        if m <= i8::MAX as u64 {
                            Some(-(m as i8))
                        } else if m == (i8::MAX as u64) + 1 {
                            Some(i8::MIN)
                        } else {
                            None
                        }
                    } else {
                        if m <= i8::MAX as u64 {
                            Some(m as i8)
                        } else {
                            None
                        }
                    }
                },
                None => None,
            },
            _ => None,
        }
    }
}

impl JsonRoundTrip for i8 {
    open spec fn stable(m: i8) -> bool {
        true
    }

    proof fn lemma_round_trip(m: i8) {
        lemma_int_number(m as int);
    }
}

impl ToJson for i16 {
    open spec fn enc(m: i16) -> JsonData {
        JsonData::Num(int_number(m as int))
    }

    fn to_json(&self) -> (r: Json) {
        let negative = *self < 0;
        let mantissa: u64 = if negative {
            (-(*self as i128)) as u64
        } else {
            *self as u64
        };
        Json::Num(JsonNumber { negative, mantissa, exponent: 0 })
    }
}

impl FromJson for i16 {
    open spec fn dec(j: JsonData) -> Option<i16> {
        match j {
            JsonData::Num(n) => match number_int(n) {
                Some(v) => if i16::MIN as int <= v <= i16::MAX as int {
                    Some(v as i16)
                } else {
                    None
                },
                None => None,
            },
            _ => None,
        }
    }

    open spec fn shape(j: JsonData) -> bool {
        j is Num
    }

    proof fn lemma_wrong_shape(j: JsonData) {
    }

    fn from_json(j: &Json) -> (r: Option<i16>) {
        match j {
            Json::Num(n) => match number_magnitude(n) {
                Some(m) => {
                    if n.negative {
                        if m <= i16::MAX as u64 {
                            Some(-(m as i16))
                        } else if m == (i16::MAX as u64) + 1 {
                            Some(i16::MIN)
                        } else {
                            None
                        }
                    } else {
                        if m <= i16::MAX as u64 {
                            Some(m as i16)
                        } else {
                            None
                        }
                    }
                },
                None => None,
            },
            _ => None,
        }
    }
}

impl JsonRoundTrip for i16 {
    open spec fn stable(m: i16) -> bool {
        true
    }

    proof fn lemma_round_trip(m: i16) {
        lemma_int_number(m as int);
    }
}

impl ToJson for i32 {
    open spec fn enc(m: i32) -> JsonData {
        JsonData::Num(int_number(m as int))
    }

    fn to_json(&self) -> (r: Json) {
        let negative = *self < 0;
        let mantissa: u64 = if negative {
            (-(*self as i128)) as u64
        } else {
            *self as u64
        };
        Json::Num(JsonNumber { negative, mantissa, exponent: 0 })
    }
}

impl FromJson for i32 {
    open spec fn dec(j: JsonData) -> Option<i32> {
        match j {
            JsonData::Num(n) => match number_int(n) {
                Some(v) => if i32::MIN as int <= v <= i32::MAX as int {
                    Some(v as i32)
                } else {
                    None
                },
                None => None,
            },
            _ => None,
        }
    }

    open spec fn shape(j: JsonData) -> bool {
        j is Num
    }

    proof fn lemma_wrong_shape(j: JsonData) {
    }

    fn from_json(j: &Json) -> (r: Option<i32>) {
        match j {
            Json::Num(n) => match number_magnitude(n) {
                Some(m) => {
                    if n.negative {
                        if m <= i32::MAX as u64 {
                            Some(-(m as i32))
                        } else if m == (i32::MAX as u64) + 1 {
                            Some(i32::MIN)
                        } else {
                            None
                        }
                    } else {
                        if m <= i32::MAX as u64 {
                            Some(m as i32)
                        } else {
                            None
                        }
                    }
                },
                None => None,
            },
            _ => None,
        }
    }
}

impl JsonRoundTrip for i32 {
    open spec fn stable(m: i32) -> bool {
        true
    }

    proof fn lemma_round_trip(m: i32) {
        lemma_int_number(m as int);
    }
}

impl ToJson for i64 {
    open spec fn enc(m: i64) -> JsonData {
        JsonData::Num(int_number(m as int))
    }

    fn to_json(&self) -> (r: Json) {
        let negative = *self < 0;
        let mantissa: u64 = if negative {
            (-(*self as i128)) as u64
        } else {
            *self as u64
        };
        Json::Num(JsonNumber { negative, mantissa, exponent: 0 })
    }
}

impl FromJson for i64 {
    open spec fn dec(j: JsonData) -> Option<i64> {
        match j {
            JsonData::Num(n) => match number_int(n) {
                Some(v) => if i64::MIN as int <= v <= i64::MAX as int {
                    Some(v as i64)
                } else {
                    None
                },
                None => None,
            },
            _ => None,
        }
    }

    open spec fn shape(j: JsonData) -> bool {
        j is Num
    }

    proof fn lemma_wrong_shape(j: JsonData) {
    }

    fn from_json(j: &Json) -> (r: Option<i64>) {
        match j {
            Json::Num(n) => match number_magnitude(n) {
                Some(m) => {
                    if n.negative {
                        if m <= i64::MAX as u64 {
                            Some(-(m as i64))
                        } else if m == (i64::MAX as u64) + 1 {
                            Some(i64::MIN)
                        } else {
                            None
                        }
                    } else {
                        if m <= i64::MAX as u64 {
                            Some(m as i64)
                        } else {
                            None
                        }
                    }
                },
                None => None,
            },
            _ => None,
        }
    }
}

impl JsonRoundTrip for i64 {
    open spec fn stable(m: i64) -> bool {
        true
    }

    proof fn lemma_round_trip(m: i64) {
        lemma_int_number(m as int);
    }
}

impl ToJson for isize {
    open spec fn enc(m: isize) -> JsonData {
        JsonData::Num(int_number(m as int))
    }

    fn to_json(&self) -> (r: Json) {
        let negative = *self < 0;
        let mantissa: u64 = if negative {
            (-(*self as i128)) as u64
        } else {
            *self as u64
        };
        Json::Num(JsonNumber { negative, mantissa, exponent: 0 })
    }
}

impl FromJson for isize {
    open spec fn dec(j: JsonData) -> Option<isize> {
        match j {
            JsonData::Num(n) => match number_int(n) {
                Some(v) => if isize::MIN as int <= v <= isize::MAX as int {
                    Some(v as isize)
                } else {
                    None
                },
                None => None,
            },
            _ => None,
        }
    }

    open spec fn shape(j: JsonData) -> bool {
        j is Num
    }

    proof fn lemma_wrong_shape(j: JsonData) {
    }

    fn from_json(j: &Json) -> (r: Option<isize>) {
        match j {
            Json::Num(n) => match number_magnitude(n) {
                Some(m) => {
                    if n.negative {
                        if m <= isize::MAX as u64 {
                            Some(-(m as isize))
                        } else if m == (isize::MAX as u64) + 1 {
                            Some(isize::MIN)
                        } else {
                            None
                        }
                    } else {
                        if m <= isize::MAX as u64 {
                            Some(m as isize)
                        } else {
                            None
                        }
                    }
                },
                None => None,
            },
            _ => None,
        }
    }
}

impl JsonRoundTrip for isize {
    open spec fn stable(m: isize) -> bool {
        true
    }

    proof fn lemma_round_trip(m: isize) {
        lemma_int_number(m as int);
    }
}

} // verus!
