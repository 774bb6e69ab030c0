//! JSON values, as the panel sends them.

use vstd::prelude::*;

use crate::outside::{
    json_from_str, json_parsed, json_read, keys_ascend, open_value, text_lt, value_entries,
    value_model, ValueParts,
};
use crate::text::chars::text_eq;
use crate::text::number::decimal_int;
use crate::text::order::{text_le_antisymmetric, text_le_transitive};

verus! {

/// A JSON number: its value where it is an `i64` or a `u64`, and its text.
#[derive(Debug)]
pub struct JsonNumber {
    pub signed: Option<i64>,
    pub unsigned: Option<u64>,
    pub text: String,
}

/// A JSON value. The entries of an object stand in the order in which they are walked.
#[derive(Debug)]
pub enum Json {
    Null,
    Bool(bool),
    Number(JsonNumber),
    Str(String),
    Array(Vec<Json>),
    Object(Vec<(String, Json)>),
}

/// What a JSON value is.
pub enum JsonModel {
    Null,
    Bool(bool),
    Number { signed: Option<i64>, unsigned: Option<u64>, text: Seq<char> },
    Str(Seq<char>),
    Array(Seq<JsonModel>),
    Object(Seq<(Seq<char>, JsonModel)>),
}

impl View for Json {
    type V = JsonModel;

    open spec fn view(&self) -> JsonModel
        decreases self,
    {
        match self {
            Json::Null => JsonModel::Null,
            Json::Bool(b) => JsonModel::Bool(*b),
            Json::Number(n) => JsonModel::Number { signed: n.signed, unsigned: n.unsigned, text: n.text@ },
            Json::Str(s) => JsonModel::Str(s@),
            Json::Array(items) => JsonModel::Array(
                Seq::new(
                    items@.len(),
                    |i: int|
                        if 0 <= i < items@.len() {
                            items@[i].view()
                        } else {
                            JsonModel::Null
                        },
                ),
            ),
            Json::Object(entries) => JsonModel::Object(
                Seq::new(
                    entries@.len(),
                    |i: int|
                        if 0 <= i < entries@.len() {
                            (entries@[i].0@, entries@[i].1.view())
                        } else {
                            (Seq::empty(), JsonModel::Null)
                        },
                ),
            ),
        }
    }
}

/// The position of the first entry with the key `key`, or the number of entries where there is none.
pub open spec fn key_index(entries: Seq<(Seq<char>, JsonModel)>, key: Seq<char>) -> nat
    decreases entries.len(),
{
    if entries.len() == 0 || entries[0].0 == key {
        0
    } else {
        1 + key_index(entries.drop_first(), key)
    }
}

/// The value of the entry with the key `key`.
pub open spec fn entry(entries: Seq<(Seq<char>, JsonModel)>, key: Seq<char>) -> Option<JsonModel> {
    let i = key_index(entries, key) as int;
    if i < entries.len() {
        Some(entries[i].1)
    } else {
        None
    }
}

impl JsonModel {
    /// The value of an object's entry with the key `key`; nothing for any other value.
    pub open spec fn field(self, key: Seq<char>) -> Option<JsonModel> {
        match self {
            JsonModel::Object(entries) => entry(entries, key),
            _ => None,
        }
    }

    /// The characters of a string.
    pub open spec fn as_str(self) -> Option<Seq<char>> {
        match self {
            JsonModel::Str(s) => Some(s),
            _ => None,
        }
    }

    /// The value of a number that is an `i64`.
    pub open spec fn as_i64(self) -> Option<i64> {
        match self {
            JsonModel::Number { signed, .. } => signed,
            _ => None,
        }
    }

    /// The value of a number that is a `u64`.
    pub open spec fn as_u64(self) -> Option<u64> {
        match self {
            JsonModel::Number { unsigned, .. } => unsigned,
            _ => None,
        }
    }

    /// The value of a boolean.
    pub open spec fn as_bool(self) -> Option<bool> {
        match self {
            JsonModel::Bool(b) => Some(b),
            _ => None,
        }
    }

    /// The items of an array.
    pub open spec fn as_array(self) -> Option<Seq<JsonModel>> {
        match self {
            JsonModel::Array(items) => Some(items),
            _ => None,
        }
    }
}

/// The string that the field `key` holds, if it holds one.
pub open spec fn str_field(value: JsonModel, key: Seq<char>) -> Option<Seq<char>> {
    match value.field(key) {
        Some(v) => v.as_str(),
        None => None,
    }
}

/// The integer that the field `key` holds, if it holds one.
pub open spec fn int_field(value: JsonModel, key: Seq<char>) -> Option<i64> {
    match value.field(key) {
        Some(v) => v.as_i64(),
        None => None,
    }
}

/// The natural number that the field `key` holds, if it holds one.
pub open spec fn uint_field(value: JsonModel, key: Seq<char>) -> Option<u64> {
    match value.field(key) {
        Some(v) => v.as_u64(),
        None => None,
    }
}

/// The boolean that the field `key` holds, if it holds one.
pub open spec fn bool_field(value: JsonModel, key: Seq<char>) -> Option<bool> {
    match value.field(key) {
        Some(v) => v.as_bool(),
        None => None,
    }
}

/// The array that the field `key` holds, if it holds one.
pub open spec fn array_field(value: JsonModel, key: Seq<char>) -> Option<Seq<JsonModel>> {
    match value.field(key) {
        Some(v) => v.as_array(),
        None => None,
    }
}

/// An integer as a JSON number.
pub open spec fn number_of(n: int) -> JsonModel {
    JsonModel::Number {
        signed: if i64::MIN <= n <= i64::MAX {
            Some(n as i64)
        } else {
            None
        },
        unsigned: if 0 <= n <= u64::MAX {
            Some(n as u64)
        } else {
            None
        },
        text: decimal_int(n),
    }
}

/// A borrowed value, if there is one, as a model.
pub open spec fn model_of(r: Option<&Json>) -> Option<JsonModel> {
    match r {
        Some(v) => Some(v@),
        None => None,
    }
}

/// The items of a vector as models.
pub open spec fn models(items: Seq<Json>) -> Seq<JsonModel> {
    Seq::new(items.len(), |i: int| items[i]@)
}

/// The entries of a vector as models.
pub open spec fn entry_models(entries: Seq<(String, Json)>) -> Seq<(Seq<char>, JsonModel)> {
    Seq::new(entries.len(), |i: int| (entries[i].0@, entries[i].1@))
}

/// `key_index` is the first position at which the key stands.
pub proof fn key_index_is_first(entries: Seq<(Seq<char>, JsonModel)>, key: Seq<char>)
    ensures
        key_index(entries, key) <= entries.len(),
        key_index(entries, key) < entries.len() ==> entries[key_index(entries, key) as int].0 == key,
        forall|j: int| 0 <= j < key_index(entries, key) ==> (#[trigger] entries[j]).0 != key,
    decreases entries.len(),
{
    if entries.len() > 0 && entries[0].0 != key {
        key_index_is_first(entries.drop_first(), key);
        assert forall|j: int| 0 <= j < key_index(entries, key) implies (#[trigger] entries[j]).0
            != key by {
            if j > 0 {
                assert(entries[j] == entries.drop_first()[j - 1]);
            }
        }
    }
}

/// An array is larger than each of its items.
pub proof fn item_is_smaller(items: Seq<JsonModel>, i: int)
    requires
        0 <= i < items.len(),
    ensures
        decreases_to!(JsonModel::Array(items) => items[i]),
{
    let whole = JsonModel::Array(items);
    assert(decreases_to!(whole->Array_0 => whole->Array_0[i]));
    assert(decreases_to!(whole => whole->Array_0));
}

/// An object is larger than the value of each of its entries.
pub proof fn entry_is_smaller(entries: Seq<(Seq<char>, JsonModel)>, i: int)
    requires
        0 <= i < entries.len(),
    ensures
        decreases_to!(JsonModel::Object(entries) => entries[i].1),
{
    let whole = JsonModel::Object(entries);
    assert(decreases_to!(whole->Object_0[i] => whole->Object_0[i].1));
    assert(decreases_to!(whole->Object_0 => whole->Object_0[i]));
    assert(decreases_to!(whole => whole->Object_0));
}

impl Json {
    /// An array's view has its items' views.
    pub proof fn array_view(items: Vec<Json>)
        ensures
            Json::Array(items)@ == JsonModel::Array(models(items@)),
    {
        reveal_with_fuel(<Json as View>::view, 2);
        assert(Json::Array(items)@->Array_0 =~= models(items@));
    }

    /// An object's view has its entries' views.
    pub proof fn object_view(entries: Vec<(String, Json)>)
        ensures
            Json::Object(entries)@ == JsonModel::Object(entry_models(entries@)),
    {
        reveal_with_fuel(<Json as View>::view, 2);
        assert(Json::Object(entries)@->Object_0 =~= entry_models(entries@));
    }

    /// The value of an object's entry with the key `key`.
    pub fn field(&self, key: &str) -> (r: Option<&Json>)
        ensures
            model_of(r) == self@.field(key@),
    {
        match self {
            Json::Object(entries) => {
                let ghost all = entry_models(entries@);
                proof {
                    Json::object_view(*entries);
                    key_index_is_first(all, key@);
                }
                let mut i: usize = 0;
                while i < entries.len()
                    invariant
                        i <= entries@.len(),
                        all == entry_models(entries@),
                        self@ == JsonModel::Object(all),
                        key_index(all, key@) <= all.len(),
                        key_index(all, key@) < all.len() ==> all[key_index(all, key@) as int].0
                            == key@,
                        forall|j: int|
                            0 <= j < key_index(all, key@) ==> (#[trigger] all[j]).0 != key@,
                        forall|j: int| 0 <= j < i ==> (#[trigger] all[j]).0 != key@,
                    decreases entries@.len() - i,
                {
                    assert(all[i as int].0 == entries@[i as int].0@);
                    if text_eq(&entries[i].0, key) {
                        assert(key_index(all, key@) == i);
                        return Some(&entries[i].1);
                    }
                    i = i + 1;
                }
                assert(key_index(all, key@) == all.len());
                None
            },
            _ => None,
        }
    }

    /// The string that a string value holds.
    pub fn as_str(&self) -> (r: Option<&String>)
        ensures
            r is Some <==> self@.as_str() is Some,
            r matches Some(s) ==> self@.as_str() == Some(s@),
    {
        match self {
            Json::Str(s) => Some(s),
            _ => None,
        }
    }

    /// The value of a number that is an `i64`.
    pub fn as_i64(&self) -> (r: Option<i64>)
        ensures
            r == self@.as_i64(),
    {
        match self {
            Json::Number(n) => n.signed,
            _ => None,
        }
    }

    /// The value of a number that is a `u64`.
    pub fn as_u64(&self) -> (r: Option<u64>)
        ensures
            r == self@.as_u64(),
    {
        match self {
            Json::Number(n) => n.unsigned,
            _ => None,
        }
    }

    /// The value of a boolean.
    pub fn as_bool(&self) -> (r: Option<bool>)
        ensures
            r == self@.as_bool(),
    {
        match self {
            Json::Bool(b) => Some(*b),
            _ => None,
        }
    }

    /// The items of an array.
    pub fn as_array(&self) -> (r: Option<&Vec<Json>>)
        ensures
            r is Some <==> self@.as_array() is Some,
            r matches Some(items) ==> self@.as_array() == Some(models(items@)),
    {
        match self {
            Json::Array(items) => {
                proof {
                    Json::array_view(*items);
                }
                Some(items)
            },
            _ => None,
        }
    }

    /// The string that the field `key` holds, if it holds one.
    pub fn str_field(&self, key: &str) -> (r: Option<String>)
        ensures
            r.deep_view() == str_field(self@, key@),
    {
        match self.field(key) {
            Some(v) => match v.as_str() {
                Some(s) => Some(s.clone()),
                None => None,
            },
            None => None,
        }
    }

    /// The integer that the field `key` holds, if it holds one.
    pub fn int_field(&self, key: &str) -> (r: Option<i64>)
        ensures
            r == int_field(self@, key@),
    {
        match self.field(key) {
            Some(v) => v.as_i64(),
            None => None,
        }
    }

    /// The natural number that the field `key` holds, if it holds one.
    pub fn uint_field(&self, key: &str) -> (r: Option<u64>)
        ensures
            r == uint_field(self@, key@),
    {
        match self.field(key) {
            Some(v) => v.as_u64(),
            None => None,
        }
    }

    /// The boolean that the field `key` holds, if it holds one.
    pub fn bool_field(&self, key: &str) -> (r: Option<bool>)
        ensures
            r == bool_field(self@, key@),
    {
        match self.field(key) {
            Some(v) => v.as_bool(),
            None => None,
        }
    }

    /// The array that the field `key` holds, if it holds one.
    pub fn array_field(&self, key: &str) -> (r: Option<&Vec<Json>>)
        ensures
            r is Some <==> array_field(self@, key@) is Some,
            r matches Some(items) ==> array_field(self@, key@) == Some(models(items@)),
    {
        match self.field(key) {
            Some(v) => v.as_array(),
            None => None,
        }
    }

    /// A value with the same contents.
    pub fn copy(&self) -> (r: Json)
        ensures
            r@ == self@,
        decreases self@,
    {
        match self {
            Json::Null => Json::Null,
            Json::Bool(b) => Json::Bool(*b),
            Json::Number(n) => Json::Number(
                JsonNumber { signed: n.signed, unsigned: n.unsigned, text: n.text.clone() },
            ),
            Json::Str(s) => Json::Str(s.clone()),
            Json::Array(items) => {
                proof {
                    Json::array_view(*items);
                }
                let ghost all = models(items@);
                let mut out: Vec<Json> = Vec::new();
                let mut i: usize = 0;
                while i < items.len()
                    invariant
                        i <= items@.len(),
                        all == models(items@),
                        self@ == JsonModel::Array(all),
                        models(out@) == all.take(i as int),
                    decreases items@.len() - i,
                {
                    let ghost before = out@;
                    assert(all[i as int] == items@[i as int]@);
                    proof {
                        item_is_smaller(all, i as int);
                    }
                    out.push(items[i].copy());
                    assert(models(out@) =~= models(before).push(all[i as int]));
                    assert(all.take(i + 1) =~= all.take(i as int).push(all[i as int]));
                    i = i + 1;
                }
                assert(all.take(i as int) =~= all);
                proof {
                    Json::array_view(out);
                }
                Json::Array(out)
            },
            Json::Object(entries) => {
                proof {
                    Json::object_view(*entries);
                }
                let ghost all = entry_models(entries@);
                let mut out: Vec<(String, Json)> = Vec::new();
                let mut i: usize = 0;
                while i < entries.len()
                    invariant
                        i <= entries@.len(),
                        all == entry_models(entries@),
                        self@ == JsonModel::Object(all),
                        entry_models(out@) == all.take(i as int),
                    decreases entries@.len() - i,
                {
                    let ghost before = out@;
                    assert(all[i as int] == (entries@[i as int].0@, entries@[i as int].1@));
                    proof {
                        entry_is_smaller(all, i as int);
                    }
                    out.push((entries[i].0.clone(), entries[i].1.copy()));
                    assert(entry_models(out@) =~= entry_models(before).push(all[i as int]));
                    assert(all.take(i + 1) =~= all.take(i as int).push(all[i as int]));
                    i = i + 1;
                }
                assert(all.take(i as int) =~= all);
                proof {
                    Json::object_view(out);
                }
                Json::Object(out)
            },
        }
    }
}

/// A value of `serde_json` as a value of this library.
pub fn json_of_value(value: serde_json::Value) -> (r: Json)
    ensures
        r@ == value_model(value),
    decreases value_model(value),
{
    match open_value(value) {
        ValueParts::Null => Json::Null,
        ValueParts::Bool(b) => Json::Bool(b),
        ValueParts::Number(n) => Json::Number(n),
        ValueParts::Str(s) => Json::Str(s),
        ValueParts::Array(items) => {
            let mut rest = items;
            let ghost all = rest@.map_values(|v: serde_json::Value| value_model(v));
            assert(value_model(value) == JsonModel::Array(all));
            let mut out: Vec<Json> = Vec::new();
            while rest.len() > 0
                invariant
                    value_model(value) == JsonModel::Array(all),
                    out@.len() + rest@.len() == all.len(),
                    models(out@) == all.take(out@.len() as int),
                    forall|i: int|
                        0 <= i < rest@.len() ==> value_model(#[trigger] rest@[i]) == all[out@.len()
                            + i],
                decreases rest@.len(),
            {
                let ghost before = out@;
                let ghost left = rest@;
                let k: usize = 0;
                let item = rest.remove(k);
                assert(value_model(item) == all[before.len() as int]);
                proof {
                    item_is_smaller(all, before.len() as int);
                }
                out.push(json_of_value(item));
                assert(models(out@) =~= models(before).push(all[before.len() as int]));
                assert(all.take(out@.len() as int) =~= all.take(before.len() as int).push(
                    all[before.len() as int],
                ));
                assert forall|i: int| 0 <= i < rest@.len() implies value_model(#[trigger] rest@[i])
                    == all[out@.len() + i] by {
                    assert(rest@[i] == left[i + 1]);
                }
            }
            assert(all.take(out@.len() as int) =~= all);
            proof {
                Json::array_view(out);
            }
            Json::Array(out)
        },
        ValueParts::Object(entries) => {
            let mut rest = entries;
            let ghost all = rest@.map_values(
                |e: (String, serde_json::Value)| (e.0@, value_model(e.1)),
            );
            assert(value_model(value) == JsonModel::Object(all));
            let mut out: Vec<(String, Json)> = Vec::new();
            while rest.len() > 0
                invariant
                    value_model(value) == JsonModel::Object(all),
                    out@.len() + rest@.len() == all.len(),
                    entry_models(out@) == all.take(out@.len() as int),
                    forall|i: int|
                        0 <= i < rest@.len() ==> ((#[trigger] rest@[i]).0@, value_model(rest@[i].1))
                            == all[out@.len() + i],
                decreases rest@.len(),
            {
                let ghost before = out@;
                let ghost left = rest@;
                let k: usize = 0;
                let (key, item) = rest.remove(k);
                assert((left[0].0@, value_model(left[0].1)) == all[before.len() as int]);
                proof {
                    entry_is_smaller(all, before.len() as int);
                }
                out.push((key, json_of_value(item)));
                assert(entry_models(out@) =~= entry_models(before).push(all[before.len() as int]));
                assert(all.take(out@.len() as int) =~= all.take(before.len() as int).push(
                    all[before.len() as int],
                ));
                assert forall|i: int| 0 <= i < rest@.len() implies ((#[trigger] rest@[i]).0@, value_model(
                    rest@[i].1,
                )) == all[out@.len() + i] by {
                    assert(rest@[i] == left[i + 1]);
                }
            }
            assert(all.take(out@.len() as int) =~= all);
            proof {
                Json::object_view(out);
            }
            Json::Object(out)
        },
    }
}

/// The value that a JSON text stands for, if it is one.
pub fn parse_json(text: &str) -> (r: Option<Json>)
    ensures
        r is Some <==> json_parsed(text@) is Some,
        r matches Some(v) ==> json_parsed(text@) == Some(v@),
{
    match read_json(text) {
        Ok(value) => Some(value),
        Err(_) => None,
    }
}

/// The value that a JSON text stands for, or why it is none.
pub fn read_json(text: &str) -> (r: Result<Json, String>)
    ensures
        json_read(text@) == match r {
            Ok(value) => Ok::<JsonModel, Seq<char>>(value@),
            Err(cause) => Err(cause@),
        },
{
    match json_from_str(text) {
        Ok(value) => Ok(json_of_value(value)),
        Err(cause) => Err(cause),
    }
}

/// Appends an entry of an object that is to be made.
pub fn push_value(entries: &mut Vec<(String, serde_json::Value)>, key: &str, value: serde_json::Value)
    ensures
        value_entries(final(entries)@) == value_entries(old(entries)@).push(
            (key@, value_model(value)),
        ),
{
    let ghost before = entries@;
    entries.push((key.to_string(), value));
    assert(value_entries(entries@) =~= value_entries(before).push((key@, value_model(value))));
}

/// A field of an object is its first entry with that key; other values have no fields.
pub proof fn first_entry_is_the_field(
    entries: Seq<(Seq<char>, JsonModel)>,
    key: Seq<char>,
    i: int,
)
    requires
        0 <= i <= entries.len(),
        i < entries.len() ==> entries[i].0 == key,
        forall|j: int| 0 <= j < i ==> (#[trigger] entries[j]).0 != key,
    ensures
        JsonModel::Object(entries).field(key) == if i < entries.len() {
            Some(entries[i].1)
        } else {
            None
        },
        key_index(entries, key) == i,
    decreases entries.len(),
{
    if i > 0 {
        assert(entries[0].0 != key);
        let rest = entries.drop_first();
        assert forall|j: int| 0 <= j < i - 1 implies (#[trigger] rest[j]).0 != key by {
            assert(rest[j] == entries[j + 1]);
        }
        first_entry_is_the_field(rest, key, i - 1);
    }
}

proof fn ascending_keys_are_ordered(entries: Seq<(Seq<char>, JsonModel)>, j: int, i: int)
    requires
        keys_ascend(entries),
        0 <= j < i < entries.len(),
    ensures
        text_lt(entries[j].0, entries[i].0),
    decreases i,
{
    assert(text_lt(entries[i - 1].0, entries[i].0));
    if j < i - 1 {
        ascending_keys_are_ordered(entries, j, i - 1);
        text_le_transitive(entries[j].0, entries[i - 1].0, entries[i].0);
        if entries[j].0 == entries[i].0 {
            text_le_antisymmetric(entries[i - 1].0, entries[i].0);
        }
    }
}

/// Where the keys of an object ascend, every entry is the field of its key.
pub proof fn every_entry_is_a_field(entries: Seq<(Seq<char>, JsonModel)>, i: int)
    requires
        keys_ascend(entries),
        0 <= i < entries.len(),
    ensures
        JsonModel::Object(entries).field(entries[i].0) == Some(entries[i].1),
{
    assert forall|j: int| 0 <= j < i implies (#[trigger] entries[j]).0 != entries[i].0 by {
        ascending_keys_are_ordered(entries, j, i);
    }
    first_entry_is_the_field(entries, entries[i].0, i);
}

/// A number in JSON is the number, as far as it fits, and its decimal notation.
pub proof fn numbers_are_numbers(n: i64, m: u64)
    ensures
        number_of(n as int).as_i64() == Some(n),
        number_of(m as int).as_u64() == Some(m),
        n < 0 ==> number_of(n as int).as_u64() is None,
        m > i64::MAX ==> number_of(m as int).as_i64() is None,
        number_of(n as int)->text == decimal_int(n as int),
{
}

/// Of two texts that differ first at `k`, the one with the lower character there stands before the
/// other.
pub proof fn first_difference_decides(a: Seq<char>, b: Seq<char>, k: int)
    requires
        0 <= k < a.len(),
        k < b.len(),
        forall|i: int| 0 <= i < k ==> a[i] == b[i],
        a[k] < b[k],
    ensures
        text_lt(a, b),
    decreases k,
{
    if k > 0 {
        assert(a[0] == b[0]);
        first_difference_decides(a.drop_first(), b.drop_first(), k - 1);
    }
}

} // verus!
