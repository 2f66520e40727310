use decent_serde_json_alternative::{FromJson, Json, JsonNumber, StringMap, ToJson};

fn num(negative: bool, mantissa: u64, exponent: i16) -> Json {
    Json::Num(JsonNumber {
        negative,
        mantissa,
        exponent,
    })
}

fn jint(v: u64) -> Json {
    num(false, v, 0)
}

#[test]
fn round_trip_unsigned() {
    for v in [0u8, 1, 127, 255] {
        assert_eq!(u8::from_json(&v.to_json()), Some(v));
    }
    assert_eq!(u16::from_json(&9000u16.to_json()), Some(9000));
    assert_eq!(u32::from_json(&u32::MAX.to_json()), Some(u32::MAX));
    assert_eq!(u64::from_json(&u64::MAX.to_json()), Some(u64::MAX));
    assert_eq!(usize::from_json(&usize::MAX.to_json()), Some(usize::MAX));
}

#[test]
fn round_trip_signed() {
    for v in [i8::MIN, -1, 0, 1, i8::MAX] {
        assert_eq!(i8::from_json(&v.to_json()), Some(v));
    }
    assert_eq!(i16::from_json(&(-12345i16).to_json()), Some(-12345));
    assert_eq!(i32::from_json(&i32::MIN.to_json()), Some(i32::MIN));
    assert_eq!(i64::from_json(&i64::MIN.to_json()), Some(i64::MIN));
    assert_eq!(i64::from_json(&i64::MAX.to_json()), Some(i64::MAX));
    assert_eq!(isize::from_json(&isize::MIN.to_json()), Some(isize::MIN));
}

#[test]
fn round_trip_bool_and_string() {
    assert_eq!(bool::from_json(&true.to_json()), Some(true));
    assert_eq!(bool::from_json(&false.to_json()), Some(false));
    let s = String::from("hello world");
    assert_eq!(String::from_json(&s.to_json()), Some(s));
    let empty = String::new();
    assert_eq!(String::from_json(&empty.to_json()), Some(empty));
}

#[test]
fn round_trip_vec() {
    let v: Vec<u32> = vec![1, 2, 3];
    assert_eq!(Vec::<u32>::from_json(&v.to_json()), Some(v));
    let nested: Vec<Vec<u8>> = vec![vec![1], vec![], vec![2, 3]];
    assert_eq!(Vec::<Vec<u8>>::from_json(&nested.to_json()), Some(nested));
    let empty: Vec<bool> = vec![];
    assert_eq!(Vec::<bool>::from_json(&empty.to_json()), Some(empty));
}

#[test]
fn round_trip_option_and_box() {
    assert_eq!(Option::<u8>::from_json(&Some(5u8).to_json()), Some(Some(5)));
    assert_eq!(Option::<u8>::from_json(&None::<u8>.to_json()), Some(None));
    let b = Box::new(42u16);
    assert_eq!(Box::<u16>::from_json(&b.to_json()), Some(b));
}

#[test]
fn round_trip_tuples() {
    let p = (1u8, true);
    assert_eq!(<(u8, bool)>::from_json(&p.to_json()), Some(p));
    let t10 = (
        1u8,
        2u16,
        3u32,
        4u64,
        -5i8,
        -6i16,
        true,
        String::from("x"),
        vec![7u8],
        Some(8u8),
    );
    type T10 = (u8, u16, u32, u64, i8, i16, bool, String, Vec<u8>, Option<u8>);
    assert_eq!(T10::from_json(&t10.to_json()), Some(t10));
}

#[test]
fn round_trip_string_map() {
    let mut m: StringMap<u32> = StringMap::new();
    m.insert(String::from("one"), 1);
    m.insert(String::from("two"), 2);
    let j = m.to_json();
    let back = StringMap::<u32>::from_json(&j).expect("object should decode");
    assert_eq!(back.len(), 2);
    assert_eq!(back.get(&String::from("one")), Some(&1));
    assert_eq!(back.get(&String::from("two")), Some(&2));
    assert_eq!(back.get(&String::from("three")), None);
}

#[test]
fn string_map_insert_replaces() {
    let mut m: StringMap<u8> = StringMap::new();
    m.insert(String::from("k"), 1);
    m.insert(String::from("k"), 2);
    assert_eq!(m.len(), 1);
    assert_eq!(m.get(&String::from("k")), Some(&2));
}

#[test]
fn encode_tuple_scenario() {
    // (1u32, "hi", true) must encode to the array [1, "hi", true].
    let t = (1u32, String::from("hi"), true);
    let expected = Json::Arr(vec![jint(1), Json::Str(String::from("hi")), Json::Bool(true)]);
    assert_eq!(t.to_json(), expected);
}

#[test]
fn decode_tuple_scenario() {
    let j = Json::Arr(vec![jint(1), Json::Str(String::from("hi")), Json::Bool(true)]);
    assert_eq!(
        <(u32, String, bool)>::from_json(&j),
        Some((1u32, String::from("hi"), true))
    );
    // Two elements against a three-ary tuple type must fail.
    let short = Json::Arr(vec![jint(1), Json::Str(String::from("hi"))]);
    assert_eq!(<(u32, String, bool)>::from_json(&short), None);
}

#[test]
fn decode_mapping_scenario() {
    // {"a": 1, "b": 2} as a string-keyed mapping of unsigned integers.
    let j = Json::Obj(vec![
        (String::from("a"), jint(1)),
        (String::from("b"), jint(2)),
    ]);
    let m = StringMap::<u32>::from_json(&j).expect("object should decode");
    assert_eq!(m.len(), 2);
    assert_eq!(m.get(&String::from("a")), Some(&1));
    assert_eq!(m.get(&String::from("b")), Some(&2));
    // Encoding it back yields an object with the same two pairs.
    assert_eq!(m.to_json(), j);
}

#[test]
fn wrong_variant_fails() {
    let s = Json::Str(String::from("5"));
    assert_eq!(u32::from_json(&s), None);
    assert_eq!(i32::from_json(&s), None);
    assert_eq!(bool::from_json(&jint(1)), None);
    assert_eq!(String::from_json(&jint(1)), None);
    assert_eq!(Vec::<u8>::from_json(&jint(1)), None);
    assert_eq!(StringMap::<u8>::from_json(&jint(1)), None);
    assert_eq!(<(u8, u8)>::from_json(&jint(1)), None);
    assert_eq!(u8::from_json(&Json::Null), None);
}

#[test]
fn sequence_short_circuit() {
    // A three-element array whose middle element has the wrong shape.
    let j = Json::Arr(vec![jint(1), Json::Str(String::from("x")), jint(3)]);
    assert_eq!(Vec::<u8>::from_json(&j), None);
}

#[test]
fn mapping_short_circuit() {
    let j = Json::Obj(vec![
        (String::from("a"), jint(1)),
        (String::from("b"), Json::Bool(true)),
        (String::from("c"), jint(3)),
    ]);
    assert_eq!(StringMap::<u8>::from_json(&j), None);
}

#[test]
fn tuple_short_circuit() {
    let j = Json::Arr(vec![jint(1), Json::Str(String::from("x")), jint(3)]);
    assert_eq!(<(u8, u8, u8)>::from_json(&j), None);
}

#[test]
fn tuple_wrong_arity_fails() {
    let two = Json::Arr(vec![jint(1), jint(2)]);
    let three = Json::Arr(vec![jint(1), jint(2), jint(3)]);
    let four = Json::Arr(vec![jint(1), jint(2), jint(3), jint(4)]);
    assert_eq!(<(u8, u8, u8)>::from_json(&two), None);
    assert_eq!(<(u8, u8, u8)>::from_json(&four), None);
    assert_eq!(<(u8, u8, u8)>::from_json(&three), Some((1, 2, 3)));
}

#[test]
fn optional_null_and_delegation() {
    assert_eq!(Option::<u8>::from_json(&Json::Null), Some(None));
    assert_eq!(Option::<String>::from_json(&Json::Null), Some(None));
    assert_eq!(Option::<u8>::from_json(&jint(5)), Some(Some(5)));
    // A non-null value the wrapped type rejects fails the optional too.
    assert_eq!(Option::<u8>::from_json(&Json::Str(String::from("x"))), None);
}

#[test]
fn nested_optional_collapses() {
    // A present inner absence encodes to null, so it comes back as the
    // outer absence: the one value the round trip cannot keep.
    let v: Option<Option<u8>> = Some(None);
    assert_eq!(v.to_json(), Json::Null);
    assert_eq!(Option::<Option<u8>>::from_json(&v.to_json()), Some(None));
    // A present inner value survives.
    let w: Option<Option<u8>> = Some(Some(3));
    assert_eq!(Option::<Option<u8>>::from_json(&w.to_json()), Some(w));
}

#[test]
fn numeric_range_checks() {
    assert_eq!(u8::from_json(&jint(255)), Some(255));
    assert_eq!(u8::from_json(&jint(256)), None);
    assert_eq!(u8::from_json(&num(true, 1, 0)), None);
    assert_eq!(i8::from_json(&num(true, 128, 0)), Some(i8::MIN));
    assert_eq!(i8::from_json(&num(true, 129, 0)), None);
    assert_eq!(i8::from_json(&jint(127)), Some(127));
    assert_eq!(i8::from_json(&jint(128)), None);
    assert_eq!(u64::from_json(&jint(u64::MAX)), Some(u64::MAX));
}

#[test]
fn numeric_exponent_scaling() {
    // 5 * 10^2 == 500.
    assert_eq!(u16::from_json(&num(false, 5, 2)), Some(500));
    // 10 * 10^-1 == 1 exactly.
    assert_eq!(u8::from_json(&num(false, 10, -1)), Some(1));
    // -12 * 10^1 == -120.
    assert_eq!(i16::from_json(&num(true, 12, 1)), Some(-120));
    // 15 * 10^-1 == 1.5 is fractional.
    assert_eq!(u8::from_json(&num(false, 15, -1)), None);
    assert_eq!(i64::from_json(&num(false, 15, -1)), None);
    // 2 * 10^64 exceeds every width.
    assert_eq!(u64::from_json(&num(false, 2, 64)), None);
    // A negative zero still denotes zero.
    assert_eq!(u8::from_json(&num(true, 0, 0)), Some(0));
}

#[test]
fn composition_nests() {
    // A sequence of mappings of pairs of optionals works by composition.
    let mut inner: StringMap<(Option<u8>, bool)> = StringMap::new();
    inner.insert(String::from("p"), (Some(1), true));
    inner.insert(String::from("q"), (None, false));
    let v = vec![inner];
    let j = v.to_json();
    let back = Vec::<StringMap<(Option<u8>, bool)>>::from_json(&j).expect("should decode");
    assert_eq!(back.len(), 1);
    assert_eq!(back[0].get(&String::from("p")), Some(&(Some(1), true)));
    assert_eq!(back[0].get(&String::from("q")), Some(&(None, false)));
}
