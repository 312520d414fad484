//! JSON values as plain data, with their mathematical model.
//!
//! [`Json`] is the tree the rest of the crate computes on. Its view,
//! [`JsonModel`], forgets the order of an object's entries and keeps, for a key
//! that occurs more than once, the entry written last. Reading and writing JSON
//! text is left to `serde_json`; what is assumed of it is stated on the few
//! functions at the end of this file that call it.

use vstd::prelude::*;
use vstd::slice::*;
use vstd::string::*;
use vstd::utf8::*;

verus! {

/// The mathematical value of a JSON document.
pub ghost enum JsonModel {
    Null,
    Bool(bool),
    /// A number written without fraction or exponent.
    Int(int),
    /// Any other number, kept as `serde_json` holds it.
    Float(serde_json::Number),
    Str(Seq<char>),
    Arr(Seq<JsonModel>),
    Obj(Map<Seq<char>, JsonModel>),
}

impl JsonModel {
    /// The member `key` of an object; nothing for a missing key or a value that is no object.
    pub open spec fn get(self, key: Seq<char>) -> Option<JsonModel> {
        match self {
            JsonModel::Obj(m) => if m.contains_key(key) {
                Some(m[key])
            } else {
                None
            },
            _ => None,
        }
    }

    pub open spec fn as_str(self) -> Option<Seq<char>> {
        match self {
            JsonModel::Str(s) => Some(s),
            _ => None,
        }
    }

    pub open spec fn as_bool(self) -> Option<bool> {
        match self {
            JsonModel::Bool(b) => Some(b),
            _ => None,
        }
    }

    /// The value as an unsigned 64-bit integer, if it is an integer in that range.
    pub open spec fn as_u64(self) -> Option<u64> {
        match self {
            JsonModel::Int(i) => if 0 <= i <= u64::MAX {
                Some(i as u64)
            } else {
                None
            },
            _ => None,
        }
    }

    /// The value as a signed 64-bit integer, if it is an integer in that range.
    pub open spec fn as_i64(self) -> Option<i64> {
        match self {
            JsonModel::Int(i) => if i64::MIN <= i <= i64::MAX {
                Some(i as i64)
            } else {
                None
            },
            _ => None,
        }
    }

    pub open spec fn as_array(self) -> Option<Seq<JsonModel>> {
        match self {
            JsonModel::Arr(a) => Some(a),
            _ => None,
        }
    }

    /// Arrays and objects are nested at most `depth` deep.
    pub open spec fn within_depth(self, depth: nat) -> bool
        decreases depth,
    {
        match self {
            JsonModel::Arr(a) => depth > 0 && forall|i: int|
                0 <= i < a.len() ==> (#[trigger] a[i]).within_depth((depth - 1) as nat),
            JsonModel::Obj(m) => depth > 0 && forall|k: Seq<char>|
                m.contains_key(k) ==> (#[trigger] m[k]).within_depth((depth - 1) as nat),
            _ => true,
        }
    }
}

/// The deepest nesting of arrays and objects that the JSON reader accepts.
pub const MAX_PARSE_DEPTH: usize = 127;

/// A JSON value held as plain data.
///
/// An object is a list of entries. Where a key occurs twice the later entry counts.
#[derive(Debug, PartialEq, Eq)]
pub enum Json {
    Null,
    Bool(bool),
    Number(serde_json::Number),
    String(String),
    Array(Vec<Json>),
    Object(Vec<(String, Json)>),
}

/// Index of the last entry of `entries` whose key is `key`, or -1 if there is none.
pub open spec fn last_index_of(entries: Seq<(String, Json)>, key: Seq<char>) -> int
    decreases entries.len(),
{
    if entries.len() == 0 {
        -1
    } else if entries.last().0@ == key {
        entries.len() - 1
    } else {
        last_index_of(entries.drop_last(), key)
    }
}

/// The model of a number: its integer value, or the number itself if it has none.
pub open spec fn number_model(n: serde_json::Number) -> JsonModel {
    match number_int(n) {
        Some(i) => JsonModel::Int(i),
        None => JsonModel::Float(n),
    }
}

/// The models of a list of values, item by item.
pub open spec fn items_model(items: Seq<Json>) -> Seq<JsonModel>
    decreases items,
{
    Seq::new(
        items.len(),
        |i: int|
            if 0 <= i < items.len() {
                json_model(items[i])
            } else {
                JsonModel::Null
            },
    )
}

/// The map that a list of entries stands for: each key with the value written last for it.
pub open spec fn entries_model(entries: Seq<(String, Json)>) -> Map<Seq<char>, JsonModel>
    decreases entries,
{
    Map::new(
        |k: Seq<char>| last_index_of(entries, k) >= 0,
        |k: Seq<char>|
            if 0 <= last_index_of(entries, k) < entries.len() {
                json_model(entries[last_index_of(entries, k)].1)
            } else {
                JsonModel::Null
            },
    )
}

/// The model of a value.
pub open spec fn json_model(v: Json) -> JsonModel
    decreases v,
{
    match v {
        Json::Null => JsonModel::Null,
        Json::Bool(b) => JsonModel::Bool(b),
        Json::Number(n) => number_model(n),
        Json::String(s) => JsonModel::Str(s@),
        Json::Array(a) => JsonModel::Arr(items_model(a@)),
        Json::Object(o) => JsonModel::Obj(entries_model(o@)),
    }
}

impl View for Json {
    type V = JsonModel;

    open spec fn view(&self) -> JsonModel {
        json_model(*self)
    }
}

/// The last index of a key lies in range, and holds that key.
pub proof fn lemma_last_index_of(entries: Seq<(String, Json)>, key: Seq<char>)
    ensures
        -1 <= last_index_of(entries, key) < entries.len(),
        last_index_of(entries, key) >= 0 ==> entries[last_index_of(entries, key)].0@ == key,
        forall|j: int|
            last_index_of(entries, key) < j < entries.len() ==> (#[trigger] entries[j]).0@ != key,
    decreases entries.len(),
{
    if entries.len() > 0 && entries.last().0@ != key {
        lemma_last_index_of(entries.drop_last(), key);
        assert forall|j: int| last_index_of(entries, key) < j < entries.len() implies (
        #[trigger] entries[j]).0@ != key by {
            if j < entries.len() - 1 {
                assert(entries.drop_last()[j] == entries[j]);
            }
        }
    }
}

/// Appending an entry sets its key and leaves every other key as it was.
pub proof fn lemma_entries_push(entries: Seq<(String, Json)>, key: String, value: Json)
    ensures
        entries_model(entries.push((key, value))) == entries_model(entries).insert(
            key@,
            json_model(value),
        ),
{
    let after = entries.push((key, value));
    assert(after.drop_last() == entries);
    assert forall|k: Seq<char>| #[trigger]
        last_index_of(after, k) == (if k == key@ {
            entries.len() as int
        } else {
            last_index_of(entries, k)
        }) by {}
    assert forall|k: Seq<char>| k != key@ implies (#[trigger] entries_model(after).contains_key(k))
        == entries_model(entries).contains_key(k) by {}
    assert forall|k: Seq<char>|
        k != key@ && entries_model(entries).contains_key(k) implies #[trigger] entries_model(
        after,
    )[k] == entries_model(entries)[k] by {
        lemma_last_index_of(entries, k);
    }
    assert(entries_model(after) =~= entries_model(entries).insert(key@, json_model(value)));
}

/// The empty list of entries stands for the empty map.
pub proof fn lemma_entries_empty()
    ensures
        entries_model(Seq::<(String, Json)>::empty()) == Map::<Seq<char>, JsonModel>::empty(),
{
    assert(entries_model(Seq::<(String, Json)>::empty()) =~= Map::<
        Seq<char>,
        JsonModel,
    >::empty());
}

/// Whether two strings hold the same characters.
pub fn str_eq(a: &str, b: &str) -> (r: bool)
    ensures
        r == (a@ == b@),
{
    let x = a.as_bytes();
    let y = b.as_bytes();
    proof {
        encode_utf8_decode_utf8(a@);
        encode_utf8_decode_utf8(b@);
    }
    if x.len() != y.len() {
        return false;
    }
    let mut i: usize = 0;
    while i < x.len()
        invariant
            i <= x.len(),
            x.len() == y.len(),
            x@ == encode_utf8(a@),
            y@ == encode_utf8(b@),
            forall|j: int| 0 <= j < i ==> x@[j] == y@[j],
        decreases x.len() - i,
    {
        if x[i] != y[i] {
            return false;
        }
        i += 1;
    }
    assert(x@ =~= y@);
    true
}

/// The value that the entries hold for `key`: that of the last entry with this key.
pub fn entries_get<'a>(entries: &'a Vec<(String, Json)>, key: &str) -> (r: Option<&'a Json>)
    ensures
        match r {
            Some(x) => entries_model(entries@).contains_key(key@) && entries_model(entries@)[key@]
                == x@ && 0 <= last_index_of(entries@, key@) < entries@.len() && *x
                == entries@[last_index_of(entries@, key@)].1,
            None => !entries_model(entries@).contains_key(key@),
        },
{
    let mut i: usize = entries.len();
    assert(entries@.take(i as int) == entries@);
    while i > 0
        invariant
            i <= entries.len(),
            last_index_of(entries@, key@) == last_index_of(entries@.take(i as int), key@),
        decreases i,
    {
        i -= 1;
        assert(entries@.take(i + 1).drop_last() == entries@.take(i as int));
        assert(entries@.take(i + 1).last() == entries@[i as int]);
        if str_eq(entries[i].0.as_str(), key) {
            return Some(&entries[i].1);
        }
    }
    None
}

/// Writes `value` under `key` as a new last entry, which counts from then on
/// whatever was written for the key before.
pub fn entries_insert(entries: &mut Vec<(String, Json)>, key: &str, value: Json)
    ensures
        entries_model(final(entries)@) == entries_model(old(entries)@).insert(key@, value@),
        final(entries)@ == old(entries)@.push((final(entries)@.last().0, value)),
        final(entries)@.last().0@ == key@,
{
    let k = key.to_owned();
    proof {
        lemma_entries_push(entries@, k, value);
    }
    entries.push((k, value));
}

/// No two entries have the same key.
pub open spec fn distinct_keys(entries: Seq<(String, Json)>) -> bool {
    forall|i: int, j: int|
        0 <= i < entries.len() && 0 <= j < entries.len() && i != j ==> (#[trigger] entries[i]).0@
            != (#[trigger] entries[j]).0@
}

/// Replacing the entry that counts for a key changes the value of that key and nothing else.
pub proof fn lemma_entries_update(entries: Seq<(String, Json)>, key: String, value: Json)
    requires
        last_index_of(entries, key@) >= 0,
    ensures
        last_index_of(entries, key@) < entries.len(),
        entries_model(entries.update(last_index_of(entries, key@), (key, value)))
            == entries_model(entries).insert(key@, json_model(value)),
{
    let at = last_index_of(entries, key@);
    lemma_last_index_of(entries, key@);
    let after = entries.update(at, (key, value));
    assert forall|k: Seq<char>| #[trigger] last_index_of(after, k) == last_index_of(entries, k) by {
        lemma_same_keys_same_index(entries, after, k);
    }
    assert forall|k: Seq<char>| entries_model(entries).contains_key(k) && k != key@ implies (
    #[trigger] entries_model(after)[k]) == entries_model(entries)[k] by {
        lemma_last_index_of(entries, k);
    }
    assert(entries_model(after) =~= entries_model(entries).insert(key@, json_model(value)));
}

/// Two lists with the same keys at the same places find a key at the same place.
pub proof fn lemma_same_keys_same_index(
    a: Seq<(String, Json)>,
    b: Seq<(String, Json)>,
    key: Seq<char>,
)
    requires
        a.len() == b.len(),
        forall|i: int| 0 <= i < a.len() ==> (#[trigger] a[i]).0@ == b[i].0@,
    ensures
        last_index_of(a, key) == last_index_of(b, key),
    decreases a.len(),
{
    if a.len() > 0 {
        assert(a.last().0@ == b.last().0@);
        if a.last().0@ != key {
            assert forall|i: int| 0 <= i < a.drop_last().len() implies (#[trigger] a.drop_last()[i]).0@
                == b.drop_last()[i].0@ by {
                assert(a.drop_last()[i] == a[i]);
                assert(b.drop_last()[i] == b[i]);
            }
            lemma_same_keys_same_index(a.drop_last(), b.drop_last(), key);
        }
    }
}

/// With distinct keys, each entry is the one that counts for its key.
pub proof fn lemma_distinct_index(entries: Seq<(String, Json)>, i: int)
    requires
        distinct_keys(entries),
        0 <= i < entries.len(),
    ensures
        last_index_of(entries, entries[i].0@) == i,
        entries_model(entries).contains_key(entries[i].0@),
        entries_model(entries)[entries[i].0@] == json_model(entries[i].1),
{
    lemma_last_index_of(entries, entries[i].0@);
    let at = last_index_of(entries, entries[i].0@);
    if at < i {
        assert(entries[i].0@ != entries[i].0@);
    }
}

/// The place of the entry that counts for `key`, if there is one.
pub fn entries_find(entries: &Vec<(String, Json)>, key: &str) -> (r: Option<usize>)
    ensures
        match r {
            Some(i) => i == last_index_of(entries@, key@) && i < entries@.len(),
            None => last_index_of(entries@, key@) == -1,
        },
{
    let mut i: usize = entries.len();
    assert(entries@.take(i as int) == entries@);
    while i > 0
        invariant
            i <= entries.len(),
            last_index_of(entries@, key@) == last_index_of(entries@.take(i as int), key@),
        decreases i,
    {
        i -= 1;
        assert(entries@.take(i + 1).drop_last() == entries@.take(i as int));
        assert(entries@.take(i + 1).last() == entries@[i as int]);
        if str_eq(entries[i].0.as_str(), key) {
            return Some(i);
        }
    }
    None
}

/// Sets `key` to `value`: in place where the key has an entry, else at the end.
pub fn entries_set(entries: &mut Vec<(String, Json)>, key: &str, value: Json)
    ensures
        entries_model(final(entries)@) == entries_model(old(entries)@).insert(key@, value@),
        distinct_keys(old(entries)@) ==> distinct_keys(final(entries)@),
        entries_model(old(entries)@).contains_key(key@) ==> final(entries)@.len() == old(
            entries,
        )@.len(),
        !entries_model(old(entries)@).contains_key(key@) ==> final(entries)@.len() == old(
            entries,
        )@.len() + 1,
{
    let k = key.to_owned();
    match entries_find(entries, key) {
        Some(i) => {
            proof {
                lemma_entries_update(entries@, k, value);
            }
            entries.set(i, (k, value));
            assert(distinct_keys(old(entries)@) ==> distinct_keys(entries@)) by {
                if distinct_keys(old(entries)@) {
                    assert forall|a: int, b: int|
                        0 <= a < entries@.len() && 0 <= b < entries@.len() && a != b implies (
                    #[trigger] entries@[a]).0@ != (#[trigger] entries@[b]).0@ by {
                        lemma_last_index_of(old(entries)@, key@);
                        assert(entries@[a].0@ == old(entries)@[a].0@);
                        assert(entries@[b].0@ == old(entries)@[b].0@);
                    }
                }
            }
        },
        None => {
            proof {
                lemma_entries_push(entries@, k, value);
                lemma_last_index_of(entries@, key@);
            }
            entries.push((k, value));
            assert(distinct_keys(old(entries)@) ==> distinct_keys(entries@)) by {
                if distinct_keys(old(entries)@) {
                    assert forall|a: int, b: int|
                        0 <= a < entries@.len() && 0 <= b < entries@.len() && a != b implies (
                    #[trigger] entries@[a]).0@ != (#[trigger] entries@[b]).0@ by {
                        lemma_last_index_of(old(entries)@, key@);
                        if a < old(entries)@.len() {
                            assert(entries@[a] == old(entries)@[a]);
                        }
                        if b < old(entries)@.len() {
                            assert(entries@[b] == old(entries)@[b]);
                        }
                    }
                }
            }
        },
    }
}

impl Json {
    /// The member `key` of an object.
    pub fn get<'a>(&'a self, key: &str) -> (r: Option<&'a Json>)
        ensures
            match r {
                Some(x) => self@.get(key@) == Some(x@),
                None => self@.get(key@) is None,
            },
    {
        match self {
            Json::Object(o) => entries_get(o, key),
            _ => None,
        }
    }

    pub fn as_str<'a>(&'a self) -> (r: Option<&'a str>)
        ensures
            match r {
                Some(s) => self@.as_str() == Some(s@),
                None => self@.as_str() is None,
            },
    {
        match self {
            Json::String(s) => Some(s.as_str()),
            Json::Number(n) => {
                proof {
                    let _ = number_model(*n);
                }
                None
            },
            _ => None,
        }
    }

    pub fn as_bool(&self) -> (r: Option<bool>)
        ensures
            r == self@.as_bool(),
    {
        match self {
            Json::Bool(b) => Some(*b),
            _ => None,
        }
    }

    pub fn as_u64(&self) -> (r: Option<u64>)
        ensures
            r == self@.as_u64(),
    {
        match self {
            Json::Number(n) => match number_as_i128(n) {
                Some(i) => if 0 <= i && i <= 0xffff_ffff_ffff_ffff {
                    Some(i as u64)
                } else {
                    None
                },
                None => None,
            },
            _ => None,
        }
    }

    pub fn as_i64(&self) -> (r: Option<i64>)
        ensures
            r == self@.as_i64(),
    {
        match self {
            Json::Number(n) => match number_as_i128(n) {
                Some(i) => if -0x8000_0000_0000_0000 <= i && i <= 0x7fff_ffff_ffff_ffff {
                    Some(i as i64)
                } else {
                    None
                },
                None => None,
            },
            _ => None,
        }
    }

    pub fn as_array<'a>(&'a self) -> (r: Option<&'a Vec<Json>>)
        ensures
            match r {
                Some(a) => self@.as_array() == Some(items_model(a@)) && *self == Json::Array(*a),
                None => self@.as_array() is None,
            },
    {
        match self {
            Json::Array(a) => Some(a),
            _ => None,
        }
    }

    pub fn is_object(&self) -> (r: bool)
        ensures
            r == (self@ is Obj),
    {
        match self {
            Json::Object(_) => true,
            _ => false,
        }
    }

    pub fn is_null(&self) -> (r: bool)
        ensures
            r == (self@ is Null),
    {
        match self {
            Json::Null => true,
            _ => false,
        }
    }

    /// The string `s` as a value.
    pub fn string(s: &str) -> (r: Json)
        ensures
            r@ == JsonModel::Str(s@),
    {
        Json::String(s.to_owned())
    }

    /// The integer `n` as a value.
    pub fn uint(n: u64) -> (r: Json)
        ensures
            r@ == JsonModel::Int(n as int),
    {
        match number_from_i128(n as i128) {
            Some(number) => Json::Number(number),
            None => Json::Null,
        }
    }

    /// The integer `n` as a value.
    pub fn signed(n: i64) -> (r: Json)
        ensures
            r@ == JsonModel::Int(n as int),
    {
        match number_from_i128(n as i128) {
            Some(number) => Json::Number(number),
            None => Json::Null,
        }
    }

    /// The object with no member.
    pub fn empty_object() -> (r: Json)
        ensures
            r@ == JsonModel::Obj(Map::empty()),
    {
        proof {
            lemma_entries_empty();
        }
        Json::Object(Vec::new())
    }

    /// A copy of the whole tree.
    pub fn deep_clone(&self) -> (r: Json)
        ensures
            r@ == self@,
        decreases self,
    {
        match self {
            Json::Null => Json::Null,
            Json::Bool(b) => Json::Bool(*b),
            Json::Number(n) => Json::Number(number_clone(n)),
            Json::String(s) => Json::String(s.clone()),
            Json::Array(a) => {
                let mut out: Vec<Json> = Vec::new();
                let mut i: usize = 0;
                while i < a.len()
                    invariant
                        i <= a.len(),
                        out@.len() == i,
                        *self == Json::Array(*a),
                        forall|j: int| 0 <= j < i ==> json_model(out@[j]) == json_model(a@[j]),
                    decreases a.len() - i,
                {
                    assert(self->Array_0 == *a && decreases_to!(*self => self->Array_0));
                    assert(decreases_to!(*a => a[i as int]));
                    let item = a[i].deep_clone();
                    out.push(item);
                    i += 1;
                }
                assert(items_model(out@) =~= items_model(a@));
                Json::Array(out)
            },
            Json::Object(o) => {
                let mut out: Vec<(String, Json)> = Vec::new();
                let mut i: usize = 0;
                proof {
                    lemma_entries_empty();
                    assert(o@.take(0) =~= Seq::empty());
                }
                while i < o.len()
                    invariant
                        i <= o.len(),
                        *self == Json::Object(*o),
                        entries_model(out@) == entries_model(o@.take(i as int)),
                    decreases o.len() - i,
                {
                    let k = o[i].0.clone();
                    assert(self->Object_0 == *o && decreases_to!(*self => self->Object_0));
                    assert(decreases_to!(*o => o[i as int]));
                    assert(decreases_to!(o[i as int] => o[i as int].1));
                    let x = o[i].1.deep_clone();
                    proof {
                        lemma_entries_push(out@, k, x);
                        lemma_entries_push(o@.take(i as int), o@[i as int].0, o@[i as int].1);
                        assert(o@.take(i as int).push(o@[i as int]) =~= o@.take(i + 1));
                    }
                    out.push((k, x));
                    i += 1;
                }
                assert(o@.take(o.len() as int) == o@);
                Json::Object(out)
            },
        }
    }

    /// The JSON text of the value, in the compact form.
    pub fn to_text(&self) -> (r: String)
        ensures
            r@ == json_text(self@),
            self@.within_depth(MAX_PARSE_DEPTH as nat) ==> json_parse(encode_utf8(r@)) == Some(
                self@,
            ),
    {
        let v = to_outside(self);
        value_to_string(&v)
    }

    /// The JSON text of the value as UTF-8 bytes.
    pub fn to_bytes(&self) -> (r: Vec<u8>)
        ensures
            r@ == encode_utf8(json_text(self@)),
            self@.within_depth(MAX_PARSE_DEPTH as nat) ==> json_parse(r@) == Some(self@),
    {
        let s = self.to_text();
        s.as_str().as_bytes_vec()
    }

    /// Reads one JSON value that fills `bytes`.
    pub fn parse_bytes(bytes: &[u8]) -> (r: Result<Json, serde_json::Error>)
        ensures
            match r {
                Ok(v) => json_parse(bytes@) == Some(v@),
                Err(_) => json_parse(bytes@) is None,
            },
    {
        match value_from_slice(bytes) {
            Ok(v) => Ok(from_outside(&v)),
            Err(e) => Err(e),
        }
    }

    /// Reads one JSON value that fills `text`.
    pub fn parse_text(text: &str) -> (r: Result<Json, serde_json::Error>)
        ensures
            match r {
                Ok(v) => json_parse(encode_utf8(text@)) == Some(v@),
                Err(_) => json_parse(encode_utf8(text@)) is None,
            },
    {
        Json::parse_bytes(text.as_bytes())
    }
}

impl Clone for Json {
    fn clone(&self) -> (r: Json)
        ensures
            r@ == self@,
    {
        self.deep_clone()
    }
}

// ---------------------------------------------------------------------------
// What is taken from `serde_json`.
// ---------------------------------------------------------------------------

/// `serde_json::Value`, of which nothing is seen but that it is there.
#[verifier::external_type_specification]
#[verifier::external_body]
pub struct ExValue(serde_json::Value);

/// `serde_json::Number`, of which nothing is seen but that it is there.
#[verifier::external_type_specification]
#[verifier::external_body]
pub struct ExNumber(serde_json::Number);

/// `serde_json::Error`, of which nothing is seen but that it is there.
#[verifier::external_type_specification]
#[verifier::external_body]
pub struct ExJsonError(serde_json::Error);

/// The integer that a `serde_json::Number` holds; nothing for a number with a
/// fraction or an exponent.
pub uninterp spec fn number_int(n: serde_json::Number) -> Option<int>;

/// What a `serde_json::Value` holds.
pub uninterp spec fn value_model(v: serde_json::Value) -> JsonModel;

/// The compact JSON text that `serde_json` writes for a value.
pub uninterp spec fn json_text(m: JsonModel) -> Seq<char>;

/// The value that `serde_json` reads from a whole buffer; nothing where it rejects the buffer.
pub uninterp spec fn json_parse(bytes: Seq<u8>) -> Option<JsonModel>;

/// `serde_json::Number::as_i128`: the number if it is an integer. An integer
/// number lies between `i64::MIN` and `u64::MAX`.
#[verifier::external_body]
pub(crate) fn number_as_i128(n: &serde_json::Number) -> (r: Option<i128>)
    ensures
        match r {
            Some(i) => number_int(*n) == Some(i as int) && i64::MIN <= i <= u64::MAX,
            None => number_int(*n) is None,
        },
{
    n.as_i128()
}

/// `serde_json::Number::from_i128`: the number that holds this integer,
/// which there is for the integers from `i64::MIN` to `u64::MAX`.
#[verifier::external_body]
fn number_from_i128(n: i128) -> (r: Option<serde_json::Number>)
    ensures
        r is Some <==> i64::MIN <= n <= u64::MAX,
        r matches Some(number) ==> number_int(number) == Some(n as int),
{
    serde_json::Number::from_i128(n)
}

/// `Clone::clone` of a `serde_json::Number`: the same number.
#[verifier::external_body]
fn number_clone(n: &serde_json::Number) -> (r: serde_json::Number)
    ensures
        r == *n,
{
    n.clone()
}

/// Builds the `serde_json::Value` with the same content, node by node. Entries
/// of an object are inserted in order, so a later entry replaces an earlier one
/// with the same key.
#[verifier::external_body]
fn to_outside(v: &Json) -> (r: serde_json::Value)
    ensures
        value_model(r) == v@,
{
    match v {
        Json::Null => serde_json::Value::Null,
        Json::Bool(b) => serde_json::Value::Bool(*b),
        Json::Number(n) => serde_json::Value::Number(n.clone()),
        Json::String(s) => serde_json::Value::String(s.clone()),
        Json::Array(a) => serde_json::Value::Array(a.iter().map(to_outside).collect()),
        Json::Object(o) => {
            let mut m = serde_json::Map::new();
            for e in o.iter() {
                m.insert(e.0.clone(), to_outside(&e.1));
            }
            serde_json::Value::Object(m)
        },
    }
}

/// Copies a `serde_json::Value` out into plain data, node by node.
#[verifier::external_body]
fn from_outside(v: &serde_json::Value) -> (r: Json)
    ensures
        r@ == value_model(*v),
{
    match v {
        serde_json::Value::Null => Json::Null,
        serde_json::Value::Bool(b) => Json::Bool(*b),
        serde_json::Value::Number(n) => Json::Number(n.clone()),
        serde_json::Value::String(s) => Json::String(s.clone()),
        serde_json::Value::Array(a) => Json::Array(a.iter().map(from_outside).collect()),
        serde_json::Value::Object(o) => Json::Object(
            o.iter().map(|(k, x)| (k.clone(), from_outside(x))).collect(),
        ),
    }
}

/// `serde_json::to_string` on a `Value`, which cannot fail: the compact text of
/// the value. With the reader's exact float parsing switched on, the reader
/// gives the value back from that text as long as the nesting stays within
/// what it accepts.
#[verifier::external_body]
fn value_to_string(v: &serde_json::Value) -> (r: String)
    ensures
        r@ == json_text(value_model(*v)),
        value_model(*v).within_depth(MAX_PARSE_DEPTH as nat) ==> json_parse(encode_utf8(r@))
            == Some(value_model(*v)),
{
    serde_json::to_string(v).unwrap()
}

/// `serde_json::from_slice` to a `Value`: the value that the buffer spells,
/// or the error of the reader.
#[verifier::external_body]
fn value_from_slice(bytes: &[u8]) -> (r: Result<serde_json::Value, serde_json::Error>)
    ensures
        match r {
            Ok(v) => json_parse(bytes@) == Some(value_model(v)),
            Err(_) => json_parse(bytes@) is None,
        },
{
    serde_json::from_slice(bytes)
}

} // verus!
