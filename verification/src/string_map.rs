//! An insertion-ordered mapping with text keys, the native shape this
//! library pairs with JSON objects.

use vstd::prelude::*;

use crate::codec::{FromJson, JsonRoundTrip, ToJson};
use crate::value::{json_data_entries, lemma_json_data_entries, Json, JsonData};

verus! {

/// A mapping from text keys to values, kept in insertion order. JSON
/// objects decode into it and it encodes back to a JSON object. Keys are
/// expected to be distinct: `insert` replaces the entry of a key it already
/// holds.
#[derive(Debug, PartialEq)]
pub struct StringMap<V> {
    entries: Vec<(String, V)>,
}

impl<V: DeepView> DeepView for StringMap<V> {
    type V = Seq<(Seq<char>, V::V)>;

    closed spec fn deep_view(&self) -> Seq<(Seq<char>, V::V)> {
        self.entries.deep_view()
    }
}

/// The value at `key` in an entry sequence: the first entry with that key.
pub open spec fn entries_lookup<M>(s: Seq<(Seq<char>, M)>, key: Seq<char>) -> Option<M>
    decreases s.len(),
{
    if s.len() == 0 {
        None
    } else if s[0].0 == key {
        Some(s[0].1)
    } else {
        entries_lookup(s.drop_first(), key)
    }
}

/// The entry sequence after setting `key` to `value`: the first entry with
/// that key is replaced in place; a key not yet present is appended at the
/// end.
pub open spec fn entries_insert<M>(
    s: Seq<(Seq<char>, M)>,
    key: Seq<char>,
    value: M,
) -> Seq<(Seq<char>, M)>
    decreases s.len(),
{
    if s.len() == 0 {
        seq![(key, value)]
    } else if s[0].0 == key {
        seq![(key, value)] + s.drop_first()
    } else {
        seq![s[0]] + entries_insert(s.drop_first(), key, value)
    }
}

impl<V: DeepView> StringMap<V> {
    /// The empty mapping.
    pub fn new() -> (r: StringMap<V>)
        ensures
            r.deep_view() == Seq::<(Seq<char>, V::V)>::empty(),
    {
        let r = StringMap { entries: Vec::new() };
        proof {
            assert(r.deep_view() =~= Seq::<(Seq<char>, V::V)>::empty());
        }
        r
    }

    /// The number of entries held.
    pub fn len(&self) -> (r: usize)
        ensures
            r == self.deep_view().len(),
    {
        self.entries.len()
    }

    /// The value stored under `key`, if any.
    pub fn get(&self, key: &String) -> (r: Option<&V>)
        ensures
            match r {
                Some(v) => entries_lookup(self.deep_view(), key@) == Some(v.deep_view()),
                None => entries_lookup(self.deep_view(), key@) is None,
            },
    {
        let mut i: usize = 0;
        proof {
            assert(self.deep_view().skip(0) =~= self.deep_view());
        }
        while i < self.entries.len()
            invariant
                i <= self.entries@.len(),
                self.deep_view().len() == self.entries@.len(),
                forall|k: int| 0 <= k < self.entries@.len() ==> #[trigger] self.deep_view()[k]
                    == (self.entries@[k].0@, self.entries@[k].1.deep_view()),
                entries_lookup(self.deep_view(), key@) == entries_lookup(
                    self.deep_view().skip(i as int),
                    key@,
                ),
            decreases self.entries@.len() - i,
        {
            let ghost dv = self.deep_view();
            proof {
                assert(dv.skip(i as int)[0] == dv[i as int]);
            }
            if self.entries[i].0 == *key {
                return Some(&self.entries[i].1);
            }
            proof {
                assert(dv.skip(i as int).drop_first() =~= dv.skip(i as int + 1));
            }
            i = i + 1;
        }
        proof {
            assert(self.deep_view().skip(i as int).len() == 0);
        }
        None
    }

    /// Set `key` to `value`, replacing the entry of a key already present
    /// and appending a new one otherwise.
    pub fn insert(&mut self, key: String, value: V)
        ensures
            final(self).deep_view() == entries_insert(old(self).deep_view(), key@, value.deep_view()),
    {
        let ghost dv = old(self).deep_view();
        let ghost kv = (key@, value.deep_view());
        let mut i: usize = 0;
        proof {
            assert(dv.skip(0) =~= dv);
            assert(dv.take(0) + entries_insert(dv, key@, value.deep_view()) =~= entries_insert(
                dv,
                key@,
                value.deep_view(),
            ));
        }
        while i < self.entries.len()
            invariant
                i <= self.entries@.len(),
                *self == *old(self),
                dv == self.deep_view(),
                kv == (key@, value.deep_view()),
                dv.len() == self.entries@.len(),
                forall|k: int| 0 <= k < self.entries@.len() ==> #[trigger] dv[k] == (
                    self.entries@[k].0@,
                    self.entries@[k].1.deep_view(),
                ),
                entries_insert(dv, key@, value.deep_view()) == dv.take(i as int)
                    + entries_insert(dv.skip(i as int), key@, value.deep_view()),
            decreases self.entries@.len() - i,
        {
            proof {
                assert(dv.skip(i as int)[0] == dv[i as int]);
            }
            if self.entries[i].0 == key {
                let ghost pre = self.entries@;
                let ghost t = (key, value);
                proof {
                    assert(t.deep_view() == kv);
                    assert(dv.take(i as int) + (seq![kv] + dv.skip(i as int).drop_first())
                        =~= dv.update(i as int, kv));
                }
                self.entries[i] = (key, value);
                proof {
                    assert(self.entries@ == pre.update(i as int, t));
                    assert forall|k: int| 0 <= k < self.entries@.len() implies self.deep_view()[k]
                        == dv.update(i as int, kv)[k] by {
                        if k != i as int {
                            assert(self.entries@[k] == pre[k]);
                            assert(self.deep_view()[k] == self.entries@[k].deep_view());
                        } else {
                            assert(self.deep_view()[k] == self.entries@[k].deep_view());
                        }
                    }
                    assert(self.deep_view() =~= dv.update(i as int, kv));
                }
                return ;
            }
            proof {
                assert(dv.skip(i as int).drop_first() =~= dv.skip(i as int + 1));
                assert(dv.take(i as int) + (seq![dv[i as int]] + entries_insert(
                    dv.skip(i as int + 1),
                    key@,
                    value.deep_view(),
                )) =~= dv.take(i as int + 1) + entries_insert(
                    dv.skip(i as int + 1),
                    key@,
                    value.deep_view(),
                ));
            }
            i = i + 1;
        }
        let ghost pre = self.entries@;
        let ghost t = (key, value);
        proof {
            assert(t.deep_view() == kv);
            assert(dv.skip(i as int).len() == 0);
            assert(dv.take(i as int) =~= dv);
            assert(entries_insert(dv.skip(i as int), kv.0, kv.1) =~= seq![kv]);
        }
        self.entries.push((key, value));
        proof {
            assert(self.entries@ == pre.push(t));
            assert forall|k: int| 0 <= k < self.entries@.len() implies self.deep_view()[k] == (dv
                + seq![kv])[k] by {
                if k < pre.len() {
                    assert(self.entries@[k] == pre[k]);
                    assert(self.deep_view()[k] == self.entries@[k].deep_view());
                } else {
                    assert(self.entries@[k] == t);
                    assert(self.deep_view()[k] == self.entries@[k].deep_view());
                }
            }
            assert(self.deep_view() =~= dv + seq![kv]);
        }
    }
}

/// Entry-wise decode of a JSON object's model: `Some` exactly when every
/// entry's value decodes, keys kept unchanged and in order.
pub open spec fn dec_entries<V: FromJson>(s: Seq<(Seq<char>, JsonData)>) -> Option<
    Seq<(Seq<char>, V::V)>,
> {
    if forall|i: int| 0 <= i < s.len() ==> (#[trigger] V::dec(s[i].1)) is Some {
        Some(Seq::new(s.len(), |i: int| (s[i].0, V::dec(s[i].1)->Some_0)))
    } else {
        None
    }
}

impl<V: ToJson> ToJson for StringMap<V> {
    open spec fn enc(m: Seq<(Seq<char>, V::V)>) -> JsonData {
        JsonData::Obj(Seq::new(m.len(), |i: int| (m[i].0, V::enc(m[i].1))))
    }

    fn to_json(&self) -> (r: Json) {
        let mut out: Vec<(String, Json)> = Vec::new();
        let mut i: usize = 0;
        while i < self.entries.len()
            invariant
                i <= self.entries@.len(),
                out@.len() == i,
                self.deep_view().len() == self.entries@.len(),
                forall|k: int| 0 <= k < self.entries@.len() ==> #[trigger] self.deep_view()[k]
                    == (self.entries@[k].0@, self.entries@[k].1.deep_view()),
                forall|k: int| 0 <= k < i ==> (#[trigger] out@[k].0@, crate::value::json_data(
                    out@[k].1,
                )) == (self.deep_view()[k].0, V::enc(self.deep_view()[k].1)),
            decreases self.entries@.len() - i,
        {
            let e = self.entries[i].1.to_json();
            out.push((self.entries[i].0.clone(), e));
            i = i + 1;
        }
        proof {
            lemma_json_data_entries(out@);
            assert(json_data_entries(out@) =~= Seq::new(
                self.deep_view().len(),
                |k: int| (self.deep_view()[k].0, V::enc(self.deep_view()[k].1)),
            ));
        }
        Json::Obj(out)
    }
}

impl<V: FromJson> FromJson for StringMap<V> {
    open spec fn dec(j: JsonData) -> Option<Seq<(Seq<char>, V::V)>> {
        match j {
            JsonData::Obj(s) => dec_entries::<V>(s),
            _ => None,
        }
    }

    open spec fn shape(j: JsonData) -> bool {
        j is Obj
    }

    proof fn lemma_wrong_shape(j: JsonData) {
    }

    fn from_json(j: &Json) -> (r: Option<StringMap<V>>) {
        match j {
            Json::Obj(es) => {
                proof {
                    lemma_json_data_entries(es@);
                }
                let mut out: Vec<(String, V)> = Vec::new();
                let mut i: usize = 0;
                while i < es.len()
                    invariant
                        i <= es@.len(),
                        out@.len() == i,
                        j@ == JsonData::Obj(json_data_entries(es@)),
                        json_data_entries(es@).len() == es@.len(),
                        forall|k: int| 0 <= k < es@.len() ==> json_data_entries(es@)[k] == (
                            es@[k].0@,
                            crate::value::json_data(es@[k].1),
                        ),
                        forall|k: int| 0 <= k < i ==> (#[trigger] out@[k].0@, out@[
                            k
                        ].1.deep_view()) == (
                            json_data_entries(es@)[k].0,
                            V::dec(json_data_entries(es@)[k].1)->Some_0,
                        ),
                        forall|k: int| 0 <= k < i ==> V::dec(
                            #[trigger] json_data_entries(es@)[k].1,
                        ) is Some,
                    decreases es@.len() - i,
                {
                    match V::from_json(&es[i].1) {
                        Some(v) => {
                            out.push((es[i].0.clone(), v));
                        },
                        None => {
                            proof {
                                let s = json_data_entries(es@);
                                assert(V::dec(s[i as int].1) is None);
                                assert(!(forall|k: int|
                                    0 <= k < s.len() ==> (#[trigger] V::dec(s[k].1)) is Some)) by {
                                    assert((i as int) < s.len());
                                    assert(!(V::dec(s[i as int].1) is Some));
                                }
                                assert(dec_entries::<V>(s) is None);
                            }
                            return None;
                        },
                    }
                    i = i + 1;
                }
                let r = StringMap { entries: out };
                proof {
                    let s = json_data_entries(es@);
                    assert(forall|k: int|
                        0 <= k < s.len() ==> (#[trigger] V::dec(s[k].1)) is Some);
                    assert(Seq::new(s.len(), |k: int| (s[k].0, V::dec(s[k].1)->Some_0))
                        =~= r.deep_view());
                }
                Some(r)
            },
            _ => None,
        }
    }
}

impl<V: JsonRoundTrip> JsonRoundTrip for StringMap<V> {
    open spec fn stable(m: Seq<(Seq<char>, V::V)>) -> bool {
        forall|i: int| 0 <= i < m.len() ==> V::stable(#[trigger] m[i].1)
    }

    proof fn lemma_round_trip(m: Seq<(Seq<char>, V::V)>) {
        let s = Seq::new(m.len(), |i: int| (m[i].0, V::enc(m[i].1)));
        assert forall|i: int| 0 <= i < s.len() implies (#[trigger] V::dec(s[i].1)) == Some(
            m[i].1,
        ) by {
            V::lemma_round_trip(m[i].1);
        }
        assert(Seq::new(s.len(), |i: int| (s[i].0, V::dec(s[i].1)->Some_0)) =~= m);
    }
}

} // verus!
