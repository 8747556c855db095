//! The JSON document that the library works on, and its mathematical model.

use serde_json::Number;
use vstd::prelude::*;

verus! {

/// `serde_json::Number`: a JSON number. The library never looks inside one; it
/// carries numbers through unchanged.
#[verifier::external_type_specification]
#[verifier::external_body]
pub struct ExNumber(serde_json::Number);

/// `Clone::clone` of `serde_json::Number`: the copy is the same number.
pub assume_specification[ <serde_json::Number as Clone>::clone ](
    number: &serde_json::Number,
) -> (copy: serde_json::Number)
    ensures
        copy == *number,
;

/// The mathematical model of a JSON document: a finite tree.
///
/// An object keeps its entries in document order, as a sequence of pairs of a
/// key and a value.
pub enum JsonValue {
    Null,
    Bool(bool),
    Number(Number),
    String(Seq<char>),
    Array(Seq<JsonValue>),
    Object(Seq<(Seq<char>, JsonValue)>),
}

impl JsonValue {
    /// Whether no key occurs twice among the entries of an object.
    pub open spec fn distinct_keys(entries: Seq<(Seq<char>, JsonValue)>) -> bool {
        forall|i: int, j: int| 0 <= i < j < entries.len() ==> entries[i].0 != entries[j].0
    }

    /// The value of the first entry with the key `key`, if there is one.
    pub open spec fn lookup(entries: Seq<(Seq<char>, JsonValue)>, key: Seq<char>) -> Option<
        JsonValue,
    >
        decreases entries.len(),
    {
        if entries.len() == 0 {
            None
        } else if entries[0].0 == key {
            Some(entries[0].1)
        } else {
            Self::lookup(entries.drop_first(), key)
        }
    }

    /// The value that an object holds under `key`; `None` where it holds none,
    /// or where the document is no object.
    pub open spec fn field(self, key: Seq<char>) -> Option<JsonValue> {
        match self {
            JsonValue::Object(entries) => Self::lookup(entries, key),
            _ => None,
        }
    }

    /// Whether the document is a valid JSON document: in every object, at any
    /// depth, each key occurs once.
    pub open spec fn well_formed(self) -> bool
        decreases self,
    {
        match self {
            JsonValue::Array(items) => forall|i: int|
                0 <= i < items.len() ==> (#[trigger] items[i]).well_formed(),
            JsonValue::Object(entries) => {
                &&& Self::distinct_keys(entries)
                &&& forall|i: int|
                    0 <= i < entries.len() ==> (#[trigger] entries[i]).1.well_formed()
            },
            _ => true,
        }
    }
}

/// A JSON document: null, a boolean, a number, a string, an array of
/// documents, or an object, which is a list of entries, each a key with a
/// document.
///
/// A document is valid where no object holds a key twice, see
/// [`JsonValue::well_formed`] and [`Json::is_well_formed`]. Rewriting does not
/// ask for that; printing does.
#[derive(Debug, PartialEq, Eq)]
pub enum Json {
    Null,
    Bool(bool),
    Number(Number),
    String(String),
    Array(Vec<Json>),
    Object(Vec<(String, Json)>),
}

impl View for Json {
    type V = JsonValue;

    open spec fn view(&self) -> JsonValue
        decreases self,
    {
        match self {
            Json::Null => JsonValue::Null,
            Json::Bool(b) => JsonValue::Bool(*b),
            Json::Number(n) => JsonValue::Number(*n),
            Json::String(s) => JsonValue::String(s@),
            Json::Array(items) => JsonValue::Array(
                Seq::new(
                    items@.len(),
                    |i: int|
                        if 0 <= i < items@.len() {
                            items@[i]@
                        } else {
                            JsonValue::Null
                        },
                ),
            ),
            Json::Object(entries) => JsonValue::Object(
                Seq::new(
                    entries@.len(),
                    |i: int|
                        (
                            entries@[i].0@,
                            if 0 <= i < entries@.len() {
                                entries@[i].1@
                            } else {
                                JsonValue::Null
                            },
                        ),
                ),
            ),
        }
    }
}

impl Clone for Json {
    /// A copy that holds the same document.
    fn clone(&self) -> (copy: Json)
        ensures
            copy@ == self@,
        decreases self,
    {
        match self {
            Json::Null => Json::Null,
            Json::Bool(b) => Json::Bool(*b),
            Json::Number(n) => Json::Number(n.clone()),
            Json::String(s) => Json::String(s.clone()),
            Json::Array(items) => {
                let mut copies: Vec<Json> = Vec::new();
                let mut i: usize = 0;
                while i < items.len()
                    invariant
                        *self == Json::Array(*items),
                        i <= items@.len(),
                        copies@.len() == i,
                        forall|j: int| 0 <= j < i ==> copies@[j]@ == items@[j]@,
                    decreases items@.len() - i,
                {
                    assert(decreases_to!(*self => self->Array_0[i as int]));
                    copies.push(items[i].clone());
                    i += 1;
                }
                let copy = Json::Array(copies);
                assert(copy@->Array_0 =~= self@->Array_0);
                copy
            },
            Json::Object(entries) => {
                let mut copies: Vec<(String, Json)> = Vec::new();
                let mut i: usize = 0;
                while i < entries.len()
                    invariant
                        *self == Json::Object(*entries),
                        i <= entries@.len(),
                        copies@.len() == i,
                        forall|j: int|
                            0 <= j < i ==> (copies@[j].0@, copies@[j].1@) == (
                                entries@[j].0@,
                                entries@[j].1@,
                            ),
                    decreases entries@.len() - i,
                {
                    assert(decreases_to!(*self => self->Object_0[i as int].1));
                    copies.push((entries[i].0.clone(), entries[i].1.clone()));
                    i += 1;
                }
                let copy = Json::Object(copies);
                assert(copy@->Object_0 =~= self@->Object_0);
                copy
            },
        }
    }
}

impl Json {
    /// Whether the document is a string.
    pub fn is_string(&self) -> (yes: bool)
        ensures
            yes == (self@ is String),
    {
        match self {
            Json::String(_) => true,
            _ => false,
        }
    }

    /// Whether the document is a valid JSON document: whether in every
    /// object, at any depth, each key occurs once.
    pub fn is_well_formed(&self) -> (yes: bool)
        ensures
            yes == self@.well_formed(),
        decreases self,
    {
        match self {
            Json::Array(items) => {
                let mut i: usize = 0;
                while i < items.len()
                    invariant
                        *self == Json::Array(*items),
                        i <= items@.len(),
                        forall|j: int| 0 <= j < i ==> (#[trigger] self@->Array_0[j]).well_formed(),
                    decreases items@.len() - i,
                {
                    assert(decreases_to!(*self => self->Array_0[i as int]));
                    if !items[i].is_well_formed() {
                        assert(!self@->Array_0[i as int].well_formed());
                        return false;
                    }
                    i += 1;
                }
                true
            },
            Json::Object(entries) => {
                let mut i: usize = 0;
                while i < entries.len()
                    invariant
                        *self == Json::Object(*entries),
                        i <= entries@.len(),
                        forall|j: int|
                            0 <= j < i ==> (#[trigger] self@->Object_0[j]).1.well_formed(),
                        forall|j: int, k: int|
                            0 <= j < k < i ==> self@->Object_0[j].0 != self@->Object_0[k].0,
                    decreases entries@.len() - i,
                {
                    assert(decreases_to!(*self => self->Object_0[i as int].1));
                    if !entries[i].1.is_well_formed() {
                        assert(!self@->Object_0[i as int].1.well_formed());
                        return false;
                    }
                    let mut j: usize = 0;
                    while j < i
                        invariant
                            *self == Json::Object(*entries),
                            j <= i < entries@.len(),
                            forall|k: int|
                                0 <= k < j ==> self@->Object_0[k].0 != self@->Object_0[i as int].0,
                        decreases i - j,
                    {
                        if entries[j].0 == entries[i].0 {
                            assert(self@->Object_0[j as int].0 == self@->Object_0[i as int].0);
                            return false;
                        }
                        j += 1;
                    }
                    i += 1;
                }
                true
            },
            _ => true,
        }
    }

    /// The text of a string; `None` for any other document.
    pub fn as_str(&self) -> (text: Option<&str>)
        ensures
            match text {
                Some(t) => self@ == JsonValue::String(t@),
                None => !(self@ is String),
            },
    {
        match self {
            Json::String(s) => Some(s.as_str()),
            _ => None,
        }
    }

    /// The value that an object holds under `key`: that of the first entry
    /// with this key. `None` where there is no such entry, or where the
    /// document is no object.
    pub fn get(&self, key: &str) -> (found: Option<&Json>)
        ensures
            match found {
                Some(value) => self@.field(key@) == Some(value@),
                None => self@.field(key@) is None,
            },
    {
        match self {
            Json::Object(entries) => {
                let wanted = String::from_str(key);
                let mut i: usize = 0;
                assert(self@->Object_0.skip(0) =~= self@->Object_0);
                while i < entries.len()
                    invariant
                        *self == Json::Object(*entries),
                        wanted@ == key@,
                        i <= entries@.len(),
                        JsonValue::lookup(self@->Object_0, key@) == JsonValue::lookup(
                            self@->Object_0.skip(i as int),
                            key@,
                        ),
                    decreases entries@.len() - i,
                {
                    let ghost rest = self@->Object_0.skip(i as int);
                    assert(rest[0] == self@->Object_0[i as int]);
                    assert(rest.drop_first() =~= self@->Object_0.skip(i + 1));
                    if entries[i].0 == wanted {
                        return Some(&entries[i].1);
                    }
                    i += 1;
                }
                None
            },
            _ => None,
        }
    }
}

} // verus!
