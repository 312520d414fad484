//! The binary term format: how JSON values are written as terms and read
//! back from them.
//!
//! Terms are plain data here. Turning bytes into terms is left to the
//! caller, and turning terms into bytes to the `eetf` codec.

use crate::json::{
    entries_insert, entries_model, items_model, json_model, lemma_entries_empty, number_as_i128,
    number_int, number_model, str_eq, Json, JsonModel,
};
use crate::protocol::OutgoingFrame;
use crate::text::{i128_to_text, lossy_text, signed_decimal_text, utf8_lossy};
use vstd::prelude::*;
use vstd::slice::*;
use vstd::string::*;
use vstd::utf8::*;

verus! {

/// The first byte of every encoded term.
pub const VERSION_TAG: u8 = 131;

/// The key of a map entry.
#[derive(Debug, PartialEq)]
pub enum EtfKey {
    Atom(String),
    Binary(Vec<u8>),
    ByteList(Vec<u8>),
    /// A key of another kind, as the codec writes it out.
    Other(String),
}

/// A term.
#[derive(Debug, PartialEq)]
pub enum EtfTerm {
    Atom(String),
    FixInteger(i32),
    /// An integer of up to 128 bits.
    BigInteger(i128),
    /// An integer beyond 128 bits, in decimal digits.
    HugeInteger(String),
    Float(eetf::Float),
    Binary(Vec<u8>),
    ByteList(Vec<u8>),
    List(Vec<EtfTerm>),
    Tuple(Vec<EtfTerm>),
    Dict(Vec<(EtfKey, EtfTerm)>),
    /// A term of another kind, as the codec describes it.
    Other(String),
}

/// The mathematical value of a key.
pub ghost enum KeyModel {
    Atom(Seq<char>),
    Binary(Seq<u8>),
    ByteList(Seq<u8>),
    Other(Seq<char>),
}

/// The mathematical value of a term.
pub ghost enum TermModel {
    Atom(Seq<char>),
    FixInteger(i32),
    BigInteger(int),
    HugeInteger(Seq<char>),
    Float(eetf::Float),
    Binary(Seq<u8>),
    ByteList(Seq<u8>),
    List(Seq<TermModel>),
    Tuple(Seq<TermModel>),
    Dict(Seq<(KeyModel, TermModel)>),
    Other(Seq<char>),
}

impl View for EtfKey {
    type V = KeyModel;

    open spec fn view(&self) -> KeyModel {
        match self {
            EtfKey::Atom(a) => KeyModel::Atom(a@),
            EtfKey::Binary(b) => KeyModel::Binary(b@),
            EtfKey::ByteList(b) => KeyModel::ByteList(b@),
            EtfKey::Other(s) => KeyModel::Other(s@),
        }
    }
}

/// The models of a list of terms, one by one.
pub open spec fn terms_model(items: Seq<EtfTerm>) -> Seq<TermModel>
    decreases items,
{
    Seq::new(
        items.len(),
        |i: int|
            if 0 <= i < items.len() {
                term_model(items[i])
            } else {
                TermModel::List(Seq::empty())
            },
    )
}

/// The models of the entries of a map, one by one.
pub open spec fn pairs_model(entries: Seq<(EtfKey, EtfTerm)>) -> Seq<(KeyModel, TermModel)>
    decreases entries,
{
    Seq::new(
        entries.len(),
        |i: int|
            if 0 <= i < entries.len() {
                (entries[i].0@, term_model(entries[i].1))
            } else {
                (KeyModel::Other(Seq::empty()), TermModel::List(Seq::empty()))
            },
    )
}

/// The model of a term.
pub open spec fn term_model(t: EtfTerm) -> TermModel
    decreases t,
{
    match t {
        EtfTerm::Atom(a) => TermModel::Atom(a@),
        EtfTerm::FixInteger(i) => TermModel::FixInteger(i),
        EtfTerm::BigInteger(i) => TermModel::BigInteger(i as int),
        EtfTerm::HugeInteger(s) => TermModel::HugeInteger(s@),
        EtfTerm::Float(f) => TermModel::Float(f),
        EtfTerm::Binary(b) => TermModel::Binary(b@),
        EtfTerm::ByteList(b) => TermModel::ByteList(b@),
        EtfTerm::List(x) => TermModel::List(terms_model(x@)),
        EtfTerm::Tuple(x) => TermModel::Tuple(terms_model(x@)),
        EtfTerm::Dict(m) => TermModel::Dict(pairs_model(m@)),
        EtfTerm::Other(s) => TermModel::Other(s@),
    }
}

impl View for EtfTerm {
    type V = TermModel;

    open spec fn view(&self) -> TermModel {
        term_model(*self)
    }
}

// ---------------------------------------------------------------------------
// From JSON to terms
// ---------------------------------------------------------------------------

/// The terms that the items of an array are written as, one by one.
pub open spec fn terms_of(items: Seq<Json>) -> Seq<TermModel>
    decreases items,
{
    Seq::new(
        items.len(),
        |i: int|
            if 0 <= i < items.len() {
                term_of(items[i])
            } else {
                TermModel::List(Seq::empty())
            },
    )
}

/// The map entries that the entries of an object are written as, one by one:
/// the key as a binary of its UTF-8 bytes.
pub open spec fn pairs_of(entries: Seq<(String, Json)>) -> Seq<(KeyModel, TermModel)>
    decreases entries,
{
    Seq::new(
        entries.len(),
        |i: int|
            if 0 <= i < entries.len() {
                (KeyModel::Binary(encode_utf8(entries[i].0@)), term_of(entries[i].1))
            } else {
                (KeyModel::Other(Seq::empty()), TermModel::List(Seq::empty()))
            },
    )
}

/// The term that a JSON value is written as.
///
/// Null is the atom `nil`, a truth value the atom `true` or `false`. An
/// integer is a fixed integer where 32 bits with a sign hold it and a big
/// integer where they do not. Any other number is a float. A string is a
/// binary of its UTF-8 bytes, an array a list, an object a map.
pub open spec fn term_of(v: Json) -> TermModel
    decreases v,
{
    match v {
        Json::Null => TermModel::Atom("nil"@),
        Json::Bool(b) => TermModel::Atom(
            if b {
                "true"@
            } else {
                "false"@
            },
        ),
        Json::Number(n) => match number_int(n) {
            Some(i) => if i32::MIN <= i <= i32::MAX {
                TermModel::FixInteger(i as i32)
            } else {
                TermModel::BigInteger(i)
            },
            None => TermModel::Float(float_of_number(n)),
        },
        Json::String(s) => TermModel::Binary(encode_utf8(s@)),
        Json::Array(a) => TermModel::List(terms_of(a@)),
        Json::Object(o) => TermModel::Dict(pairs_of(o@)),
    }
}

/// Writes a JSON value as a term.
pub fn json_to_term(v: &Json) -> (r: EtfTerm)
    ensures
        r@ == term_of(*v),
    decreases v,
{
    match v {
        Json::Null => EtfTerm::Atom("nil".to_owned()),
        Json::Bool(b) => if *b {
            EtfTerm::Atom("true".to_owned())
        } else {
            EtfTerm::Atom("false".to_owned())
        },
        Json::Number(n) => match number_as_i128(n) {
            Some(i) => if -0x8000_0000 <= i && i <= 0x7fff_ffff {
                EtfTerm::FixInteger(i as i32)
            } else {
                EtfTerm::BigInteger(i)
            },
            None => EtfTerm::Float(number_to_float(n)),
        },
        Json::String(s) => EtfTerm::Binary(s.as_str().as_bytes_vec()),
        Json::Array(a) => {
            let mut out: Vec<EtfTerm> = Vec::new();
            let mut i: usize = 0;
            while i < a.len()
                invariant
                    i <= a.len(),
                    out@.len() == i,
                    *v == Json::Array(*a),
                    forall|j: int| 0 <= j < i ==> term_model(#[trigger] out@[j]) == term_of(a@[j]),
                decreases a.len() - i,
            {
                assert(v->Array_0 == *a && decreases_to!(*v => v->Array_0));
                assert(decreases_to!(*a => a[i as int]));
                out.push(json_to_term(&a[i]));
                i += 1;
            }
            assert(terms_model(out@) =~= terms_of(a@));
            EtfTerm::List(out)
        },
        Json::Object(o) => {
            let mut out: Vec<(EtfKey, EtfTerm)> = Vec::new();
            let mut i: usize = 0;
            while i < o.len()
                invariant
                    i <= o.len(),
                    out@.len() == i,
                    *v == Json::Object(*o),
                    forall|j: int|
                        0 <= j < i ==> (#[trigger] out@[j]).0@ == KeyModel::Binary(
                            encode_utf8(o@[j].0@),
                        ) && term_model(out@[j].1) == term_of(o@[j].1),
                decreases o.len() - i,
            {
                assert(v->Object_0 == *o && decreases_to!(*v => v->Object_0));
                assert(decreases_to!(*o => o[i as int]));
                assert(decreases_to!(o[i as int] => o[i as int].1));
                let key = EtfKey::Binary(o[i].0.as_str().as_bytes_vec());
                let value = json_to_term(&o[i].1);
                out.push((key, value));
                i += 1;
            }
            assert(pairs_model(out@) =~= pairs_of(o@));
            EtfTerm::Dict(out)
        },
    }
}

// ---------------------------------------------------------------------------
// From terms to JSON
// ---------------------------------------------------------------------------

/// The text that a key becomes as the name of a member.
pub open spec fn key_text(k: KeyModel) -> Seq<char> {
    match k {
        KeyModel::Atom(a) => a,
        KeyModel::Binary(b) => utf8_lossy(b),
        KeyModel::ByteList(b) => utf8_lossy(b),
        KeyModel::Other(s) => s,
    }
}

/// The values that the terms of a list are read as, one by one.
pub open spec fn jsons_of(items: Seq<TermModel>) -> Seq<JsonModel>
    decreases items,
{
    Seq::new(
        items.len(),
        |i: int|
            if 0 <= i < items.len() {
                json_of(items[i])
            } else {
                JsonModel::Null
            },
    )
}

/// The members that the entries of a map are read as. Where two keys become
/// the same name, the later entry counts.
pub open spec fn members_of(entries: Seq<(KeyModel, TermModel)>) -> Map<Seq<char>, JsonModel>
    decreases entries,
{
    if entries.len() == 0 {
        Map::empty()
    } else {
        members_of(entries.drop_last()).insert(
            key_text(entries.last().0),
            json_of(entries.last().1),
        )
    }
}

/// The JSON value that a term is read as.
///
/// The atoms `nil`, `true` and `false` are null and the truth values; any
/// other atom is a string. A fixed integer is a number, and so is a big
/// integer from `i64::MIN` to `u64::MAX`; a bigger one is a string of its
/// digits. A float is a number, or null where JSON has no such number.
/// Binaries and byte lists are strings, lists and tuples are arrays, a map
/// is an object, and a term of another kind is a string that describes it.
pub open spec fn json_of(t: TermModel) -> JsonModel
    decreases t,
{
    match t {
        TermModel::Atom(a) => if a == "nil"@ {
            JsonModel::Null
        } else if a == "true"@ {
            JsonModel::Bool(true)
        } else if a == "false"@ {
            JsonModel::Bool(false)
        } else {
            JsonModel::Str(a)
        },
        TermModel::FixInteger(i) => JsonModel::Int(i as int),
        TermModel::BigInteger(i) => if i64::MIN <= i <= u64::MAX {
            JsonModel::Int(i)
        } else {
            JsonModel::Str(signed_decimal_text(i))
        },
        TermModel::HugeInteger(s) => JsonModel::Str(s),
        TermModel::Float(f) => match number_of_float(f) {
            Some(n) => number_model(n),
            None => JsonModel::Null,
        },
        TermModel::Binary(b) => JsonModel::Str(utf8_lossy(b)),
        TermModel::ByteList(b) => JsonModel::Str(utf8_lossy(b)),
        TermModel::List(x) => JsonModel::Arr(jsons_of(x)),
        TermModel::Tuple(x) => JsonModel::Arr(jsons_of(x)),
        TermModel::Dict(m) => JsonModel::Obj(members_of(m)),
        TermModel::Other(s) => JsonModel::Str(s),
    }
}

/// The text that a key becomes as the name of a member.
fn key_to_text(k: &EtfKey) -> (r: String)
    ensures
        r@ == key_text(k@),
{
    match k {
        EtfKey::Atom(a) => a.clone(),
        EtfKey::Binary(b) => lossy_text(b.as_slice()),
        EtfKey::ByteList(b) => lossy_text(b.as_slice()),
        EtfKey::Other(s) => s.clone(),
    }
}

/// Reads the terms of a list as JSON values.
fn terms_to_json(items: &Vec<EtfTerm>) -> (r: Vec<Json>)
    ensures
        items_model(r@) == jsons_of(terms_model(items@)),
    decreases items,
{
    let mut out: Vec<Json> = Vec::new();
    let mut i: usize = 0;
    while i < items.len()
        invariant
            i <= items.len(),
            out@.len() == i,
            forall|j: int| 0 <= j < i ==> json_model(#[trigger] out@[j]) == json_of(term_model(items@[j])),
        decreases items.len() - i,
    {
        assert(decreases_to!(*items => items[i as int]));
        out.push(term_to_json(&items[i]));
        i += 1;
    }
    assert(items_model(out@) =~= jsons_of(terms_model(items@)));
    out
}

/// Reads a term as a JSON value.
pub fn term_to_json(t: &EtfTerm) -> (r: Json)
    ensures
        r@ == json_of(t@),
    decreases t,
{
    match t {
        EtfTerm::Atom(a) => if str_eq(a.as_str(), "nil") {
            Json::Null
        } else if str_eq(a.as_str(), "true") {
            Json::Bool(true)
        } else if str_eq(a.as_str(), "false") {
            Json::Bool(false)
        } else {
            Json::String(a.clone())
        },
        EtfTerm::FixInteger(i) => Json::signed(*i as i64),
        EtfTerm::BigInteger(i) => if 0 <= *i && *i <= 0xffff_ffff_ffff_ffff {
            Json::uint(*i as u64)
        } else if -0x8000_0000_0000_0000 <= *i && *i < 0 {
            Json::signed(*i as i64)
        } else {
            Json::String(i128_to_text(*i))
        },
        EtfTerm::HugeInteger(s) => Json::String(s.clone()),
        EtfTerm::Float(f) => match number_from_float(f) {
            Some(n) => Json::Number(n),
            None => Json::Null,
        },
        EtfTerm::Binary(b) => Json::String(lossy_text(b.as_slice())),
        EtfTerm::ByteList(b) => Json::String(lossy_text(b.as_slice())),
        EtfTerm::List(x) => {
            assert(t->List_0 == *x && decreases_to!(*t => t->List_0));
            Json::Array(terms_to_json(x))
        },
        EtfTerm::Tuple(x) => {
            assert(t->Tuple_0 == *x && decreases_to!(*t => t->Tuple_0));
            Json::Array(terms_to_json(x))
        },
        EtfTerm::Dict(m) => {
            let mut out: Vec<(String, Json)> = Vec::new();
            let mut i: usize = 0;
            proof {
                lemma_entries_empty();
                assert(pairs_model(m@).take(0) =~= Seq::empty());
            }
            while i < m.len()
                invariant
                    i <= m.len(),
                    *t == EtfTerm::Dict(*m),
                    entries_model(out@) == members_of(pairs_model(m@).take(i as int)),
                decreases m.len() - i,
            {
                assert(t->Dict_0 == *m && decreases_to!(*t => t->Dict_0));
                assert(decreases_to!(*m => m[i as int]));
                assert(decreases_to!(m[i as int] => m[i as int].1));
                let key = key_to_text(&m[i].0);
                let value = term_to_json(&m[i].1);
                proof {
                    assert(pairs_model(m@).take(i + 1).drop_last() =~= pairs_model(m@).take(
                        i as int,
                    ));
                    assert(pairs_model(m@).take(i + 1).last() == (m@[i as int].0@, term_model(
                        m@[i as int].1,
                    )));
                }
                entries_insert(&mut out, key.as_str(), value);
                i += 1;
            }
            assert(pairs_model(m@).take(m.len() as int) =~= pairs_model(m@));
            Json::Object(out)
        },
        EtfTerm::Other(s) => Json::String(s.clone()),
    }
}

/// Reads a decoded frame as the JSON value that it carries.
pub fn decode_frame_etf(term: &EtfTerm) -> (r: Json)
    ensures
        r@ == json_of(term@),
{
    term_to_json(term)
}

// ---------------------------------------------------------------------------
// Encoding
// ---------------------------------------------------------------------------

/// Why a term was not encoded.
#[derive(Debug)]
pub enum EtfEncodeError {
    /// The term holds something that no JSON value is written as.
    NotJsonShaped,
    /// The codec refused.
    Codec(eetf::EncodeError),
}

/// The terms that JSON values are written as: atoms, integers of up to 128
/// bits, floats, binaries, lists, and maps with binaries as keys.
pub open spec fn json_shaped(t: TermModel) -> bool
    decreases t,
{
    match t {
        TermModel::Atom(_) => true,
        TermModel::FixInteger(_) => true,
        TermModel::BigInteger(_) => true,
        TermModel::Float(_) => true,
        TermModel::Binary(_) => true,
        TermModel::List(x) => forall|i: int| 0 <= i < x.len() ==> json_shaped(#[trigger] x[i]),
        TermModel::Dict(m) => forall|i: int|
            0 <= i < m.len() ==> (#[trigger] m[i]).0 is Binary && json_shaped(m[i].1),
        _ => false,
    }
}

/// What a JSON-shaped term holds, as the codec holds it: the entries of a
/// map without their order, and for a key that occurs more than once the
/// entry written last.
pub ghost enum TermContent {
    Atom(Seq<char>),
    FixInteger(i32),
    BigInteger(int),
    Float(eetf::Float),
    Binary(Seq<u8>),
    List(Seq<TermContent>),
    Dict(Map<Seq<u8>, TermContent>),
}

/// The bytes of a key that is a binary.
pub open spec fn key_bytes(k: KeyModel) -> Seq<u8> {
    match k {
        KeyModel::Binary(b) => b,
        _ => Seq::empty(),
    }
}

/// What the terms of a list hold, one by one.
pub open spec fn contents_of(items: Seq<TermModel>) -> Seq<TermContent>
    decreases items,
{
    Seq::new(
        items.len(),
        |i: int|
            if 0 <= i < items.len() {
                content_of(items[i])
            } else {
                TermContent::List(Seq::empty())
            },
    )
}

/// What the entries of a map hold: for each key the value written last for it.
pub open spec fn dict_content(entries: Seq<(KeyModel, TermModel)>) -> Map<Seq<u8>, TermContent>
    decreases entries,
{
    if entries.len() == 0 {
        Map::empty()
    } else {
        dict_content(entries.drop_last()).insert(
            key_bytes(entries.last().0),
            content_of(entries.last().1),
        )
    }
}

/// What a JSON-shaped term holds. (A term of another shape is never handed
/// to the codec; it counts as the empty list here.)
pub open spec fn content_of(t: TermModel) -> TermContent
    decreases t,
{
    match t {
        TermModel::Atom(a) => TermContent::Atom(a),
        TermModel::FixInteger(i) => TermContent::FixInteger(i),
        TermModel::BigInteger(i) => TermContent::BigInteger(i),
        TermModel::Float(f) => TermContent::Float(f),
        TermModel::Binary(b) => TermContent::Binary(b),
        TermModel::List(x) => TermContent::List(contents_of(x)),
        TermModel::Dict(m) => TermContent::Dict(dict_content(m)),
        _ => TermContent::List(Seq::empty()),
    }
}

/// What the terms of the items of an array hold, one by one.
pub open spec fn array_content(items: Seq<JsonModel>) -> Seq<TermContent>
    decreases items,
{
    Seq::new(
        items.len(),
        |i: int|
            if 0 <= i < items.len() {
                json_content(items[i])
            } else {
                TermContent::List(Seq::empty())
            },
    )
}

/// What the term of a JSON value holds: for an object, under the UTF-8
/// bytes of each key what the term of its value holds.
pub open spec fn json_content(m: JsonModel) -> TermContent
    decreases m,
{
    match m {
        JsonModel::Null => TermContent::Atom("nil"@),
        JsonModel::Bool(b) => TermContent::Atom(
            if b {
                "true"@
            } else {
                "false"@
            },
        ),
        JsonModel::Int(i) => if i32::MIN <= i <= i32::MAX {
            TermContent::FixInteger(i as i32)
        } else {
            TermContent::BigInteger(i)
        },
        JsonModel::Float(n) => TermContent::Float(float_of_number(n)),
        JsonModel::Str(s) => TermContent::Binary(encode_utf8(s)),
        JsonModel::Arr(a) => TermContent::List(array_content(a)),
        JsonModel::Obj(o) => TermContent::Dict(
            Map::new(
                |b: Seq<u8>| valid_utf8(b) && o.contains_key(decode_utf8(b)),
                |b: Seq<u8>|
                    if o.contains_key(decode_utf8(b)) {
                        json_content(o[decode_utf8(b)])
                    } else {
                        TermContent::List(Seq::empty())
                    },
            ),
        ),
    }
}

/// The members that the term of an object holds.
pub open spec fn object_content(members: Map<Seq<char>, JsonModel>) -> Map<Seq<u8>, TermContent> {
    json_content(JsonModel::Obj(members))->Dict_0
}

/// Setting a member of an object sets, under the bytes of its key, what the
/// term of the object holds.
pub proof fn lemma_object_content_insert(
    members: Map<Seq<char>, JsonModel>,
    key: Seq<char>,
    value: JsonModel,
)
    ensures
        object_content(members.insert(key, value)) == object_content(members).insert(
            encode_utf8(key),
            json_content(value),
        ),
{
    let after = members.insert(key, value);
    encode_utf8_valid_utf8(key);
    encode_utf8_decode_utf8(key);
    assert forall|b: Seq<u8>| #[trigger]
        object_content(after).contains_key(b) == object_content(members).insert(
            encode_utf8(key),
            json_content(value),
        ).contains_key(b) by {
        if valid_utf8(b) {
            decode_utf8_encode_utf8(b);
        }
    }
    assert forall|b: Seq<u8>| object_content(after).contains_key(b) implies #[trigger] object_content(
        after,
    )[b] == object_content(members).insert(encode_utf8(key), json_content(value))[b] by {
        decode_utf8_encode_utf8(b);
    }
    assert(object_content(after) =~= object_content(members).insert(
        encode_utf8(key),
        json_content(value),
    ));
}

/// What the entries of an object are written as holds what the term of the
/// object holds, where this is so of each of the values.
proof fn lemma_dict_content(entries: Seq<(String, Json)>)
    requires
        forall|i: int|
            0 <= i < entries.len() ==> content_of(term_of((#[trigger] entries[i]).1))
                == json_content(json_model(entries[i].1)),
    ensures
        dict_content(pairs_of(entries)) == object_content(entries_model(entries)),
    decreases entries.len(),
{
    if entries.len() == 0 {
        assert(entries =~= Seq::empty());
        lemma_entries_empty();
        assert(pairs_of(entries) =~= Seq::empty());
        assert(object_content(Map::empty()) =~= Map::empty());
    } else {
        let front = entries.drop_last();
        let last = entries.last();
        assert forall|i: int| 0 <= i < front.len() implies content_of(
            term_of((#[trigger] front[i]).1),
        ) == json_content(json_model(front[i].1)) by {
            assert(front[i] == entries[i]);
        }
        lemma_dict_content(front);
        crate::json::lemma_entries_push(front, last.0, last.1);
        assert(front.push(last) =~= entries);
        assert(pairs_of(entries).drop_last() =~= pairs_of(front));
        assert(pairs_of(entries).last() == (
            KeyModel::Binary(encode_utf8(last.0@)),
            term_of(last.1),
        ));
        assert(entries[entries.len() - 1] == last);
        lemma_object_content_insert(entries_model(front), last.0@, json_model(last.1));
    }
}

/// What the term of a JSON value holds depends on the value alone, not on
/// the order in which the entries of its objects are kept.
pub proof fn lemma_content_of_json(v: Json)
    ensures
        content_of(term_of(v)) == json_content(json_model(v)),
    decreases v,
{
    match v {
        Json::Array(a) => {
            assert forall|i: int| 0 <= i < a@.len() implies #[trigger] contents_of(
                terms_of(a@),
            )[i] == array_content(items_model(a@))[i] by {
                lemma_content_of_json(a@[i]);
            }
            assert(contents_of(terms_of(a@)) =~= array_content(items_model(a@)));
        },
        Json::Object(o) => {
            assert forall|i: int| 0 <= i < o@.len() implies content_of(
                term_of((#[trigger] o@[i]).1),
            ) == json_content(json_model(o@[i].1)) by {
                lemma_content_of_json(o@[i].1);
            }
            lemma_dict_content(o@);
        },
        _ => {},
    }
}

/// What the codec's terms of a list hold, one by one.
pub open spec fn outside_contents(items: Seq<eetf::Term>) -> Seq<TermContent> {
    Seq::new(items.len(), |i: int| outside_content(items[i]))
}

/// What a list of entries makes as a map of the codec, where every key is a
/// binary: for each key the value of the last entry with that key.
pub open spec fn outside_dict(entries: Seq<(eetf::Term, eetf::Term)>) -> Map<Seq<u8>, TermContent>
    decreases entries.len(),
{
    if entries.len() == 0 {
        Map::empty()
    } else {
        outside_dict(entries.drop_last()).insert(
            outside_content(entries.last().0)->Binary_0,
            outside_content(entries.last().1),
        )
    }
}

/// Builds the codec's terms for a list of terms; nothing where one of them
/// is not JSON-shaped.
fn terms_to_outside(items: &Vec<EtfTerm>) -> (r: Option<Vec<eetf::Term>>)
    ensures
        r is Some <==> (forall|i: int|
            0 <= i < items@.len() ==> json_shaped(#[trigger] terms_model(items@)[i])),
        r matches Some(out) ==> outside_contents(out@) == contents_of(terms_model(items@)),
    decreases items,
{
    let mut out: Vec<eetf::Term> = Vec::new();
    let mut i: usize = 0;
    while i < items.len()
        invariant
            i <= items.len(),
            out@.len() == i,
            forall|j: int| 0 <= j < i ==> json_shaped(#[trigger] terms_model(items@)[j]),
            forall|j: int|
                0 <= j < i ==> outside_content(#[trigger] out@[j]) == content_of(
                    term_model(items@[j]),
                ),
        decreases items.len() - i,
    {
        assert(decreases_to!(*items => items[i as int]));
        assert(terms_model(items@)[i as int] == term_model(items@[i as int]));
        match to_outside(&items[i]) {
            Some(o) => {
                out.push(o);
            },
            None => {
                return None;
            },
        }
        i += 1;
    }
    assert(outside_contents(out@) =~= contents_of(terms_model(items@)));
    Some(out)
}

/// Builds the codec's term for a term; nothing where the term is not
/// JSON-shaped. The codec's term holds what the term holds.
fn to_outside(t: &EtfTerm) -> (r: Option<eetf::Term>)
    ensures
        r is Some <==> json_shaped(t@),
        r matches Some(o) ==> outside_content(o) == content_of(t@),
    decreases t,
{
    match t {
        EtfTerm::Atom(a) => Some(outside_atom(a.as_str())),
        EtfTerm::FixInteger(i) => Some(outside_fix_integer(*i)),
        EtfTerm::BigInteger(i) => Some(outside_big_integer(*i)),
        EtfTerm::Float(f) => Some(outside_float(f)),
        EtfTerm::Binary(b) => Some(outside_binary(b.as_slice())),
        EtfTerm::List(x) => {
            assert(t->List_0 == *x && decreases_to!(*t => t->List_0));
            assert(t@ == TermModel::List(terms_model(x@)));
            assert(terms_model(x@).len() == x@.len());
            match terms_to_outside(x) {
                Some(items) => Some(outside_list(items)),
                None => {
                    proof {
                        let i = choose|i: int|
                            0 <= i < x@.len() && !json_shaped(#[trigger] terms_model(x@)[i]);
                        assert(!json_shaped(t@->List_0[i]));
                    }
                    None
                },
            }
        },
        EtfTerm::Dict(m) => {
            let mut out: Vec<(eetf::Term, eetf::Term)> = Vec::new();
            let mut i: usize = 0;
            assert(pairs_model(m@).take(0) =~= Seq::empty());
            while i < m.len()
                invariant
                    i <= m.len(),
                    out@.len() == i,
                    *t == EtfTerm::Dict(*m),
                    forall|j: int|
                        0 <= j < i ==> (#[trigger] pairs_model(m@)[j]).0 is Binary && json_shaped(
                            pairs_model(m@)[j].1,
                        ),
                    forall|j: int| 0 <= j < i ==> outside_content((#[trigger] out@[j]).0) is Binary,
                    outside_dict(out@) == dict_content(pairs_model(m@).take(i as int)),
                decreases m.len() - i,
            {
                assert(t->Dict_0 == *m && decreases_to!(*t => t->Dict_0));
                assert(decreases_to!(*m => m[i as int]));
                assert(decreases_to!(m[i as int] => m[i as int].1));
                assert(pairs_model(m@)[i as int] == (m@[i as int].0@, term_model(m@[i as int].1)));
                let key = match &m[i].0 {
                    EtfKey::Binary(b) => outside_binary(b.as_slice()),
                    _ => {
                        return None;
                    },
                };
                let value = match to_outside(&m[i].1) {
                    Some(o) => o,
                    None => {
                        return None;
                    },
                };
                proof {
                    assert(out@.push((key, value)).drop_last() =~= out@);
                    assert(pairs_model(m@).take(i + 1).drop_last() =~= pairs_model(m@).take(
                        i as int,
                    ));
                    assert(pairs_model(m@).take(i + 1).last() == pairs_model(m@)[i as int]);
                }
                out.push((key, value));
                i += 1;
            }
            assert(pairs_model(m@).take(m.len() as int) =~= pairs_model(m@));
            Some(outside_map(out))
        },
        EtfTerm::HugeInteger(_) => None,
        EtfTerm::ByteList(_) => None,
        EtfTerm::Tuple(_) => None,
        EtfTerm::Other(_) => None,
    }
}

/// Encodes a term. A term that is not JSON-shaped is refused. Where the
/// codec succeeds, the bytes start with the version tag and are, but for the
/// order in which the entries of maps are written, the bytes that the codec
/// writes for what the term holds.
pub fn encode_term(t: &EtfTerm) -> (r: Result<Vec<u8>, EtfEncodeError>)
    ensures
        !json_shaped(t@) <==> r matches Err(EtfEncodeError::NotJsonShaped),
        r matches Ok(bytes) ==> bytes@.len() >= 1 && bytes@[0] == VERSION_TAG
            && bytes@.to_multiset() == term_bag(content_of(t@)),
{
    match to_outside(t) {
        Some(o) => match encode_outside(&o) {
            Ok(bytes) => Ok(bytes),
            Err(e) => Err(EtfEncodeError::Codec(e)),
        },
        None => Err(EtfEncodeError::NotJsonShaped),
    }
}

/// The term that a JSON value is written as is JSON-shaped.
pub proof fn lemma_term_of_is_json_shaped(v: Json)
    ensures
        json_shaped(term_of(v)),
    decreases v,
{
    match v {
        Json::Array(a) => {
            assert forall|i: int| 0 <= i < terms_of(a@).len() implies json_shaped(
                #[trigger] terms_of(a@)[i],
            ) by {
                lemma_term_of_is_json_shaped(a@[i]);
            }
            assert(term_of(v) == TermModel::List(terms_of(a@)));
            assert(json_shaped(TermModel::List(terms_of(a@))));
        },
        Json::Object(o) => {
            assert forall|i: int| 0 <= i < pairs_of(o@).len() implies (#[trigger] pairs_of(
                o@,
            )[i]).0 is Binary && json_shaped(pairs_of(o@)[i].1) by {
                lemma_term_of_is_json_shaped(o@[i].1);
            }
            assert(term_of(v) == TermModel::Dict(pairs_of(o@)));
            assert(json_shaped(TermModel::Dict(pairs_of(o@))));
        },
        _ => {},
    }
}

/// Encodes a JSON value as a term. Where the codec succeeds, the bytes start
/// with the version tag and are, but for the order in which the entries of
/// maps are written, the bytes that the codec writes for the term of the
/// value.
pub fn encode_value_etf(v: &Json) -> (r: Result<Vec<u8>, EtfEncodeError>)
    ensures
        !(r matches Err(EtfEncodeError::NotJsonShaped)),
        r matches Ok(bytes) ==> bytes@.len() >= 1 && bytes@[0] == VERSION_TAG
            && bytes@.to_multiset() == term_bag(json_content(v@)),
{
    let term = json_to_term(v);
    proof {
        lemma_term_of_is_json_shaped(*v);
        lemma_content_of_json(*v);
    }
    encode_term(&term)
}

/// Encodes a frame as a term: the wire form of the frame, written as a
/// term. Where the codec succeeds, the bytes start with the version tag and
/// are, but for the order in which the entries of maps are written, the
/// bytes that the codec writes for the term of the wire form.
pub fn encode_frame_etf(frame: &OutgoingFrame) -> (r: Result<Vec<u8>, EtfEncodeError>)
    ensures
        !(r matches Err(EtfEncodeError::NotJsonShaped)),
        r matches Ok(bytes) ==> bytes@.len() >= 1 && bytes@[0] == VERSION_TAG
            && bytes@.to_multiset() == term_bag(json_content(frame.json())),
{
    encode_value_etf(&frame.to_json())
}

// ---------------------------------------------------------------------------
// What is taken from `eetf`.
// ---------------------------------------------------------------------------

/// `eetf::Term`, of which nothing is seen but that it is there.
#[verifier::external_type_specification]
#[verifier::external_body]
pub struct ExOutsideTerm(eetf::Term);

/// `eetf::Float`, of which nothing is seen but that it is there.
#[verifier::external_type_specification]
#[verifier::external_body]
pub struct ExOutsideFloat(eetf::Float);

/// `eetf::EncodeError`, of which nothing is seen but that it is there.
#[verifier::external_type_specification]
#[verifier::external_body]
pub struct ExEncodeError(eetf::EncodeError);

/// The float term that holds the same number as a JSON number that is no integer.
pub uninterp spec fn float_of_number(n: serde_json::Number) -> eetf::Float;

/// The JSON number that holds the same number as a float term; nothing for
/// a float that is not finite.
pub uninterp spec fn number_of_float(f: eetf::Float) -> Option<serde_json::Number>;

/// What a term of the codec holds. It is said of the terms that are built
/// here: atoms, integers, floats, binaries, lists of such, and maps from
/// binaries to such. For a term of another kind it is a content that none
/// of these has.
pub uninterp spec fn outside_content(t: eetf::Term) -> TermContent;

/// The bytes that the codec writes for a term that holds the given content,
/// the version tag included, without their order. The order in which the
/// entries of a map are written is not fixed; which bytes are written is.
pub uninterp spec fn term_bag(c: TermContent) -> vstd::multiset::Multiset<u8>;

/// `eetf::Float::try_from` on what `serde_json::Number::as_f64` gives. A
/// JSON number that is no integer is a finite float, for which both succeed;
/// `serde_json::Number::from_f64` gives the number back from the float.
#[verifier::external_body]
fn number_to_float(n: &serde_json::Number) -> (r: eetf::Float)
    requires
        number_int(*n) is None,
    ensures
        r == float_of_number(*n),
        number_of_float(r) == Some(*n),
{
    eetf::Float::try_from(n.as_f64().unwrap()).unwrap()
}

/// `serde_json::Number::from_f64` on the value of a float term: the number,
/// which is no integer, or nothing for a float that is not finite.
#[verifier::external_body]
fn number_from_float(f: &eetf::Float) -> (r: Option<serde_json::Number>)
    ensures
        r == number_of_float(*f),
        r matches Some(n) ==> number_int(n) is None,
{
    serde_json::Number::from_f64(f.value)
}

/// `eetf::Atom::from` a name, as a term: the atom with that name.
#[verifier::external_body]
fn outside_atom(name: &str) -> (r: eetf::Term)
    ensures
        outside_content(r) == TermContent::Atom(name@),
{
    eetf::Term::from(eetf::Atom::from(name))
}

/// `eetf::FixInteger::from` an `i32`, as a term: the integer with that value.
#[verifier::external_body]
fn outside_fix_integer(value: i32) -> (r: eetf::Term)
    ensures
        outside_content(r) == TermContent::FixInteger(value),
{
    eetf::Term::from(eetf::FixInteger::from(value))
}

/// An `eetf::BigInteger` with the given value, as a term.
#[verifier::external_body]
fn outside_big_integer(value: i128) -> (r: eetf::Term)
    ensures
        outside_content(r) == TermContent::BigInteger(value as int),
{
    eetf::Term::from(eetf::BigInteger { value: value.into() })
}

/// A copy of the float, as a term.
#[verifier::external_body]
fn outside_float(f: &eetf::Float) -> (r: eetf::Term)
    ensures
        outside_content(r) == TermContent::Float(*f),
{
    eetf::Term::from(f.clone())
}

/// `eetf::Binary::from` bytes, as a term: the binary of those bytes.
#[verifier::external_body]
fn outside_binary(bytes: &[u8]) -> (r: eetf::Term)
    ensures
        outside_content(r) == TermContent::Binary(bytes@),
{
    eetf::Term::from(eetf::Binary::from(bytes))
}

/// `eetf::List::from` terms, as a term: the list of those terms in their order.
#[verifier::external_body]
fn outside_list(items: Vec<eetf::Term>) -> (r: eetf::Term)
    ensures
        outside_content(r) == TermContent::List(outside_contents(items@)),
{
    eetf::Term::from(eetf::List::from(items))
}

/// `eetf::Map::from` the hash map that is collected from the entries, as a
/// term. The keys are binaries, which are the same key where their bytes are
/// the same; an entry replaces an earlier one with the same key.
#[verifier::external_body]
fn outside_map(entries: Vec<(eetf::Term, eetf::Term)>) -> (r: eetf::Term)
    requires
        forall|j: int| 0 <= j < entries@.len() ==> outside_content((#[trigger] entries@[j]).0) is Binary,
    ensures
        outside_content(r) == TermContent::Dict(outside_dict(entries@)),
{
    let map: std::collections::HashMap<eetf::Term, eetf::Term> = entries.into_iter().collect();
    eetf::Term::from(eetf::Map::from(map))
}

/// `eetf::Term::encode` into a vector: where the codec succeeds, the bytes
/// start with the version tag, and are the bytes that the codec writes for
/// what the term holds. The order in which the entries of a map are written
/// is not fixed, so the bytes are stated as a bag.
#[verifier::external_body]
fn encode_outside(term: &eetf::Term) -> (r: Result<Vec<u8>, eetf::EncodeError>)
    ensures
        r matches Ok(bytes) ==> bytes@.len() >= 1 && bytes@[0] == VERSION_TAG
            && bytes@.to_multiset() == term_bag(outside_content(*term)),
{
    let mut buf = Vec::new();
    term.encode(&mut buf).map(|_| buf)
}

} // verus!
