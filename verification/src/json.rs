//! The JSON values the library works with: arrays and objects keep their
//! items in order, integers are 64-bit, and any other number rides along
//! as its canonical text.

use vstd::prelude::*;

verus! {

/// A JSON value. Object fields keep the order in which they were written,
/// each field a `(key, value)` pair. A number that is an integer fitting
/// `i64` is held as one; any other number (a float, or an integer beyond
/// `i64`) is held as `Num`, its canonical decimal text carried opaquely so
/// that the value passes through the library unharmed.
#[derive(Debug, PartialEq)]
pub enum JsonValue {
    Null,
    Bool(bool),
    Int(i64),
    Num(String),
    Str(String),
    Arr(Vec<JsonValue>),
    Obj(Vec<(String, JsonValue)>),
}

/// The mathematical shape of a JSON value, used by every contract.
#[verifier::ext_equal]
pub enum JsonSpec {
    Null,
    Bool(bool),
    Int(int),
    Num(Seq<char>),
    Str(Seq<char>),
    Arr(Seq<JsonSpec>),
    Obj(Seq<(Seq<char>, JsonSpec)>),
}

/// The view of one JSON value.
pub open spec fn json_view(v: JsonValue) -> JsonSpec
    decreases v,
{
    match v {
        JsonValue::Null => JsonSpec::Null,
        JsonValue::Bool(b) => JsonSpec::Bool(b),
        JsonValue::Int(i) => JsonSpec::Int(i as int),
        JsonValue::Num(n) => JsonSpec::Num(n@),
        JsonValue::Str(s) => JsonSpec::Str(s@),
        JsonValue::Arr(items) => JsonSpec::Arr(json_view_seq(items@)),
        JsonValue::Obj(fields) => JsonSpec::Obj(json_view_fields(fields@)),
    }
}

impl DeepView for JsonValue {
    type V = JsonSpec;

    open spec fn deep_view(&self) -> JsonSpec {
        json_view(*self)
    }
}

/// The element-by-element view of a sequence of JSON values.
pub open spec fn json_view_seq(items: Seq<JsonValue>) -> Seq<JsonSpec>
    decreases items,
{
    if items.len() == 0 {
        Seq::empty()
    } else {
        seq![json_view(items[0])] + json_view_seq(items.subrange(1, items.len() as int))
    }
}

/// The element-by-element view of a sequence of JSON object fields.
pub open spec fn json_view_fields(fields: Seq<(String, JsonValue)>) -> Seq<(Seq<char>, JsonSpec)>
    decreases fields,
{
    if fields.len() == 0 {
        Seq::empty()
    } else {
        seq![(fields[0].0@, json_view(fields[0].1))] + json_view_fields(
            fields.subrange(1, fields.len() as int),
        )
    }
}

pub proof fn lemma_json_view_seq(items: Seq<JsonValue>)
    ensures
        json_view_seq(items).len() == items.len(),
        forall|i: int|
            0 <= i < items.len() ==> json_view_seq(items)[i] == items[i].deep_view(),
    decreases items,
{
    reveal_with_fuel(json_view_seq, 2);
    if items.len() > 0 {
        let rest = items.subrange(1, items.len() as int);
        lemma_json_view_seq(rest);
        assert forall|i: int|
            0 <= i < items.len() implies json_view_seq(items)[i] == items[i].deep_view() by {
            if i > 0 {
                assert(rest[i - 1] == items[i]);
            }
        }
    }
}

pub proof fn lemma_json_view_fields(fields: Seq<(String, JsonValue)>)
    ensures
        json_view_fields(fields).len() == fields.len(),
        forall|i: int|
            0 <= i < fields.len() ==> json_view_fields(fields)[i] == (
                fields[i].0@,
                fields[i].1.deep_view(),
            ),
    decreases fields,
{
    reveal_with_fuel(json_view_fields, 2);
    if fields.len() > 0 {
        let rest = fields.subrange(1, fields.len() as int);
        lemma_json_view_fields(rest);
        assert forall|i: int|
            0 <= i < fields.len() implies json_view_fields(fields)[i] == (
            fields[i].0@,
            fields[i].1.deep_view(),
        ) by {
            if i > 0 {
                assert(rest[i - 1] == fields[i]);
            }
        }
    }
}

/// A vector's deep view and the library's own sequence view agree.
pub proof fn lemma_json_vec_deep_view(items: &Vec<JsonValue>)
    ensures
        items.deep_view() =~= json_view_seq(items@),
{
    lemma_json_view_seq(items@);
}

/// A field vector's deep view and the library's own field view agree.
pub proof fn lemma_json_fields_deep_view(fields: &Vec<(String, JsonValue)>)
    ensures
        fields.deep_view() =~= json_view_fields(fields@),
{
    lemma_json_view_fields(fields@);
}

/// The value of the first field named `key`, if any.
pub open spec fn obj_lookup(fields: Seq<(Seq<char>, JsonSpec)>, key: Seq<char>) -> Option<JsonSpec>
    decreases fields.len(),
{
    if fields.len() == 0 {
        None
    } else if fields[0].0 == key {
        Some(fields[0].1)
    } else {
        obj_lookup(fields.skip(1), key)
    }
}

/// Lookup of `key` in `v`: defined only when `v` is an object.
pub open spec fn json_get(v: JsonSpec, key: Seq<char>) -> Option<JsonSpec> {
    match v {
        JsonSpec::Obj(fields) => obj_lookup(fields, key),
        _ => None,
    }
}

/// Every object anywhere inside `v` names each key once.
pub open spec fn json_keys_unique(v: JsonSpec) -> bool
    decreases v,
{
    match v {
        JsonSpec::Arr(items) => forall|i: int|
            0 <= i < items.len() ==> json_keys_unique(#[trigger] items[i]),
        JsonSpec::Obj(fields) => {
            &&& forall|i: int, j: int|
                0 <= i < j < fields.len() ==> fields[i].0 != fields[j].0
            &&& forall|i: int| 0 <= i < fields.len() ==> json_keys_unique(#[trigger] fields[i].1)
        },
        _ => true,
    }
}

/// How deeply arrays and objects nest inside `v`: a value with no
/// container is depth zero.
pub open spec fn json_depth(v: JsonSpec) -> nat
    decreases v,
{
    match v {
        JsonSpec::Arr(items) => 1 + json_depth_seq(items),
        JsonSpec::Obj(fields) => 1 + json_depth_fields(fields),
        _ => 0,
    }
}

/// The deepest nesting among the items of an array.
pub open spec fn json_depth_seq(items: Seq<JsonSpec>) -> nat
    decreases items,
{
    if items.len() == 0 {
        0
    } else {
        let head = json_depth(items.last());
        let rest = json_depth_seq(items.drop_last());
        if head >= rest {
            head
        } else {
            rest
        }
    }
}

/// The deepest nesting among the values of an object's fields.
pub open spec fn json_depth_fields(fields: Seq<(Seq<char>, JsonSpec)>) -> nat
    decreases fields,
{
    if fields.len() == 0 {
        0
    } else {
        let head = json_depth(fields.last().1);
        let rest = json_depth_fields(fields.drop_last());
        if head >= rest {
            head
        } else {
            rest
        }
    }
}

/// Every opaque number inside `v` carries the canonical text the codec
/// itself writes for numbers.
pub open spec fn json_nums_canonical(v: JsonSpec) -> bool
    decreases v,
{
    match v {
        JsonSpec::Num(t) => crate::codec::canonical_number_text(t),
        JsonSpec::Arr(items) => forall|i: int|
            0 <= i < items.len() ==> json_nums_canonical(#[trigger] items[i]),
        JsonSpec::Obj(fields) => forall|i: int|
            0 <= i < fields.len() ==> json_nums_canonical(#[trigger] fields[i].1),
        _ => true,
    }
}

/// Character-for-character equality of two string slices.
pub fn str_eq(a: &str, b: &str) -> (r: bool)
    ensures
        r == (a@ == b@),
{
    let a_len = a.unicode_len();
    let b_len = b.unicode_len();
    if a_len != b_len {
        return false;
    }
    let mut i: usize = 0;
    while i < a_len
        invariant
            i <= a_len,
            a_len == a@.len(),
            a@.len() == b@.len(),
            forall|j: int| 0 <= j < i ==> a@[j] == b@[j],
        decreases a_len - i,
    {
        if a.get_char(i) != b.get_char(i) {
            return false;
        }
        i += 1;
    }
    proof {
        assert(a@ =~= b@);
    }
    true
}

impl JsonValue {
    /// A string value built from a string slice.
    pub fn string(text: &str) -> (r: JsonValue)
        ensures
            r.deep_view() == JsonSpec::Str(text@),
    {
        JsonValue::Str(text.to_owned())
    }

    /// The field named `key`, where `self` is an object that has one.
    pub fn get<'a>(&'a self, key: &str) -> (r: Option<&'a JsonValue>)
        ensures
            match r {
                Some(v) => json_get(self.deep_view(), key@) == Some(v.deep_view()),
                None => json_get(self.deep_view(), key@) is None,
            },
    {
        match self {
            JsonValue::Obj(fields) => {
                let ghost all: Seq<(Seq<char>, JsonSpec)> = json_view_fields(fields@);
                proof {
                    lemma_json_view_fields(fields@);
                    assert(all.skip(0) =~= all);
                    reveal_with_fuel(json_view, 1);
                    assert(self.deep_view() == JsonSpec::Obj(all));
                }
                let n = fields.len();
                let mut i: usize = 0;
                while i < n
                    invariant
                        i <= n,
                        n == fields@.len(),
                        all == json_view_fields(fields@),
                        all.len() == n,
                        forall|k: int| 0 <= k < n ==> all[k] == (fields@[k].0@, fields@[k].1.deep_view()),
                        obj_lookup(all, key@) == obj_lookup(all.skip(i as int), key@),
                        self.deep_view() == JsonSpec::Obj(all),
                    decreases n - i,
                {
                    if str_eq(fields[i].0.as_str(), key) {
                        proof {
                            reveal_with_fuel(obj_lookup, 2);
                            assert(all.skip(i as int)[0] == all[i as int]);
                        }
                        return Some(&fields[i].1);
                    }
                    proof {
                        reveal_with_fuel(obj_lookup, 2);
                        assert(all.skip(i as int)[0] == all[i as int]);
                        assert(all.skip(i as int).skip(1) =~= all.skip(i as int + 1));
                    }
                    i += 1;
                }
                proof {
                    reveal_with_fuel(obj_lookup, 1);
                    assert(all.skip(n as int).len() == 0);
                }
                None
            },
            _ => None,
        }
    }

    /// The item at position `i`, where `self` is an array long enough.
    pub fn at<'a>(&'a self, i: usize) -> (r: Option<&'a JsonValue>)
        ensures
            match r {
                Some(v) => {
                    &&& self.deep_view() matches JsonSpec::Arr(items)
                    &&& i < items.len()
                    &&& items[i as int] == v.deep_view()
                },
                None => match self.deep_view() {
                    JsonSpec::Arr(items) => i >= items.len(),
                    _ => true,
                },
            },
    {
        proof {
            if self is Arr {
                lemma_json_view_seq(self->Arr_0@);
            }
        }
        match self {
            JsonValue::Arr(items) => {
                if i < items.len() {
                    Some(&items[i])
                } else {
                    None
                }
            },
            _ => None,
        }
    }

    /// The text of a string value.
    pub fn as_str<'a>(&'a self) -> (r: Option<&'a String>)
        ensures
            match r {
                Some(s) => self.deep_view() == JsonSpec::Str(s@),
                None => !(self.deep_view() is Str),
            },
    {
        match self {
            JsonValue::Str(s) => Some(s),
            _ => None,
        }
    }

    /// A structurally equal copy of the value.
    pub fn duplicate(&self) -> (r: JsonValue)
        ensures
            r.deep_view() == self.deep_view(),
        decreases self,
    {
        match self {
            JsonValue::Null => JsonValue::Null,
            JsonValue::Bool(b) => JsonValue::Bool(*b),
            JsonValue::Int(i) => JsonValue::Int(*i),
            JsonValue::Num(n) => JsonValue::Num(n.clone()),
            JsonValue::Str(s) => JsonValue::Str(s.clone()),
            JsonValue::Arr(items) => {
                let n = items.len();
                let mut out: Vec<JsonValue> = Vec::new();
                let mut i: usize = 0;
                while i < n
                    invariant
                        i <= n,
                        n == items@.len(),
                        out@.len() == i,
                        *self is Arr,
                        self->Arr_0@ == items@,
                        forall|j: int|
                            0 <= j < i ==> #[trigger] out@[j].deep_view() == items@[j].deep_view(),
                    decreases n - i,
                {
                    proof {
                        assert(decreases_to!(*self => items@[i as int])) by {
                            assert(decreases_to!(*self => self->Arr_0));
                            assert(decreases_to!(self->Arr_0 => self->Arr_0@));
                            assert(decreases_to!(self->Arr_0@ => self->Arr_0@[i as int]));
                        }
                    }
                    out.push(items[i].duplicate());
                    i += 1;
                }
                let r = JsonValue::Arr(out);
                proof {
                    lemma_json_view_seq(out@);
                    lemma_json_view_seq(items@);
                    assert(json_view_seq(out@) =~= json_view_seq(items@));
                }
                r
            },
            JsonValue::Obj(fields) => {
                let n = fields.len();
                let mut out: Vec<(String, JsonValue)> = Vec::new();
                let mut i: usize = 0;
                while i < n
                    invariant
                        i <= n,
                        n == fields@.len(),
                        out@.len() == i,
                        *self is Obj,
                        self->Obj_0@ == fields@,
                        forall|j: int|
                            0 <= j < i ==> (#[trigger] out@[j]).0@ == fields@[j].0@
                                && out@[j].1.deep_view() == fields@[j].1.deep_view(),
                    decreases n - i,
                {
                    proof {
                        assert(decreases_to!(*self => fields@[i as int].1)) by {
                            assert(decreases_to!(*self => self->Obj_0));
                            assert(decreases_to!(self->Obj_0 => self->Obj_0@));
                            assert(decreases_to!(self->Obj_0@ => self->Obj_0@[i as int]));
                            assert(decreases_to!(fields@[i as int] => fields@[i as int].1));
                        }
                    }
                    let entry = &fields[i];
                    out.push((entry.0.clone(), entry.1.duplicate()));
                    i += 1;
                }
                let r = JsonValue::Obj(out);
                proof {
                    lemma_json_view_fields(out@);
                    lemma_json_view_fields(fields@);
                    assert(json_view_fields(out@) =~= json_view_fields(fields@));
                }
                r
            },
        }
    }
}

/// An object of one field.
pub(crate) fn obj1(k1: &str, v1: JsonValue) -> (r: JsonValue)
    ensures
        r.deep_view() == JsonSpec::Obj(seq![(k1@, v1.deep_view())]),
{
    let ghost g1 = v1.deep_view();
    let mut fields: Vec<(String, JsonValue)> = Vec::new();
    fields.push((k1.to_owned(), v1));
    proof {
        lemma_json_fields_deep_view(&fields);
        assert(fields.deep_view() =~= seq![(k1@, g1)]);
    }
    JsonValue::Obj(fields)
}

/// An object of two fields, in order.
pub(crate) fn obj2(k1: &str, v1: JsonValue, k2: &str, v2: JsonValue) -> (r: JsonValue)
    ensures
        r.deep_view() == JsonSpec::Obj(seq![(k1@, v1.deep_view()), (k2@, v2.deep_view())]),
{
    let ghost g1 = v1.deep_view();
    let ghost g2 = v2.deep_view();
    let mut fields: Vec<(String, JsonValue)> = Vec::new();
    fields.push((k1.to_owned(), v1));
    fields.push((k2.to_owned(), v2));
    proof {
        lemma_json_fields_deep_view(&fields);
        assert(fields.deep_view() =~= seq![(k1@, g1), (k2@, g2)]);
    }
    JsonValue::Obj(fields)
}

/// An object of three fields, in order.
pub(crate) fn obj3(k1: &str, v1: JsonValue, k2: &str, v2: JsonValue, k3: &str, v3: JsonValue) -> (r:
    JsonValue)
    ensures
        r.deep_view() == JsonSpec::Obj(
            seq![(k1@, v1.deep_view()), (k2@, v2.deep_view()), (k3@, v3.deep_view())],
        ),
{
    let ghost g1 = v1.deep_view();
    let ghost g2 = v2.deep_view();
    let ghost g3 = v3.deep_view();
    let mut fields: Vec<(String, JsonValue)> = Vec::new();
    fields.push((k1.to_owned(), v1));
    fields.push((k2.to_owned(), v2));
    fields.push((k3.to_owned(), v3));
    proof {
        lemma_json_fields_deep_view(&fields);
        assert(fields.deep_view() =~= seq![(k1@, g1), (k2@, g2), (k3@, g3)]);
    }
    JsonValue::Obj(fields)
}

/// An array from its items.
pub(crate) fn arr_value(items: Vec<JsonValue>) -> (r: JsonValue)
    ensures
        r.deep_view() == JsonSpec::Arr(items.deep_view()),
{
    proof {
        lemma_json_vec_deep_view(&items);
    }
    JsonValue::Arr(items)
}


} // verus!
