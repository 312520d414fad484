//! The activity descriptor: its wire form and its canonical outgoing form.

use crate::json::{
    entries_insert, entries_model, items_model, lemma_entries_empty, lemma_entries_push, str_eq,
    Json, JsonModel,
};
use vstd::prelude::*;
use vstd::string::*;

verus! {

/// Start and end of an activity, in epoch time.
#[derive(Debug, Clone, Copy, Default, PartialEq, Eq, Structural)]
pub struct ActivityTimestamps {
    pub start: Option<u64>,
    pub end: Option<u64>,
}

/// Keys and hover texts of the images shown with an activity.
#[derive(Debug, Clone, Default, PartialEq, Eq)]
pub struct ActivityAssets {
    pub large_image: Option<String>,
    pub large_text: Option<String>,
    pub small_image: Option<String>,
    pub small_text: Option<String>,
}

/// The party the player is in: its id, and its current and maximum size.
#[derive(Debug, Clone, Default, PartialEq, Eq)]
pub struct ActivityParty {
    pub id: Option<String>,
    pub size: Option<(u32, u32)>,
}

/// Secrets for joining and spectating.
#[derive(Debug, Clone, Default, PartialEq, Eq)]
pub struct ActivitySecrets {
    pub join: Option<String>,
    pub spectate: Option<String>,
    pub match_: Option<String>,
}

/// A button as a client submits it.
#[derive(Debug, Clone, PartialEq, Eq)]
pub struct ActivityButton {
    pub label: String,
    pub url: String,
}

/// What a client says it is doing.
#[derive(Debug, Clone, PartialEq, Eq)]
pub struct Activity {
    pub name: String,
    pub state: Option<String>,
    pub details: Option<String>,
    pub timestamps: Option<ActivityTimestamps>,
    pub assets: Option<ActivityAssets>,
    pub party: Option<ActivityParty>,
    pub secrets: Option<ActivitySecrets>,
    pub buttons: Option<Vec<ActivityButton>>,
    pub instance: Option<bool>,
    pub flags: Option<u32>,
    /// Members that are none of the above, kept as they came.
    pub extra: Vec<(String, Json)>,
}

pub ghost struct AssetsModel {
    pub large_image: Option<Seq<char>>,
    pub large_text: Option<Seq<char>>,
    pub small_image: Option<Seq<char>>,
    pub small_text: Option<Seq<char>>,
}

pub ghost struct PartyModel {
    pub id: Option<Seq<char>>,
    pub size: Option<(u32, u32)>,
}

pub ghost struct SecretsModel {
    pub join: Option<Seq<char>>,
    pub spectate: Option<Seq<char>>,
    pub match_: Option<Seq<char>>,
}

pub ghost struct ButtonModel {
    pub label: Seq<char>,
    pub url: Seq<char>,
}

pub ghost struct ActivityModel {
    pub name: Seq<char>,
    pub state: Option<Seq<char>>,
    pub details: Option<Seq<char>>,
    pub timestamps: Option<ActivityTimestamps>,
    pub assets: Option<AssetsModel>,
    pub party: Option<PartyModel>,
    pub secrets: Option<SecretsModel>,
    pub buttons: Option<Seq<ButtonModel>>,
    pub instance: Option<bool>,
    pub flags: Option<u32>,
    pub extra: Map<Seq<char>, JsonModel>,
}

/// The characters of an optional string.
pub open spec fn text_of(s: Option<String>) -> Option<Seq<char>> {
    match s {
        Some(x) => Some(x@),
        None => None,
    }
}

impl View for ActivityAssets {
    type V = AssetsModel;

    open spec fn view(&self) -> AssetsModel {
        AssetsModel {
            large_image: text_of(self.large_image),
            large_text: text_of(self.large_text),
            small_image: text_of(self.small_image),
            small_text: text_of(self.small_text),
        }
    }
}

impl View for ActivityParty {
    type V = PartyModel;

    open spec fn view(&self) -> PartyModel {
        PartyModel { id: text_of(self.id), size: self.size }
    }
}

impl View for ActivitySecrets {
    type V = SecretsModel;

    open spec fn view(&self) -> SecretsModel {
        SecretsModel {
            join: text_of(self.join),
            spectate: text_of(self.spectate),
            match_: text_of(self.match_),
        }
    }
}

impl View for ActivityButton {
    type V = ButtonModel;

    open spec fn view(&self) -> ButtonModel {
        ButtonModel { label: self.label@, url: self.url@ }
    }
}

/// The models of a list of buttons, one by one.
pub open spec fn buttons_model(buttons: Seq<ActivityButton>) -> Seq<ButtonModel> {
    Seq::new(buttons.len(), |i: int| buttons[i]@)
}

impl View for Activity {
    type V = ActivityModel;

    open spec fn view(&self) -> ActivityModel {
        ActivityModel {
            name: self.name@,
            state: text_of(self.state),
            details: text_of(self.details),
            timestamps: self.timestamps,
            assets: match self.assets {
                Some(a) => Some(a@),
                None => None,
            },
            party: match self.party {
                Some(p) => Some(p@),
                None => None,
            },
            secrets: match self.secrets {
                Some(s) => Some(s@),
                None => None,
            },
            buttons: match self.buttons {
                Some(b) => Some(buttons_model(b@)),
                None => None,
            },
            instance: self.instance,
            flags: self.flags,
            extra: entries_model(self.extra@),
        }
    }
}

// ---------------------------------------------------------------------------
// Reading the wire form
// ---------------------------------------------------------------------------
//
// A member that may be missing reads as `Some(None)` when it is missing or
// null, as `Some(Some(..))` when it has the right shape, and as `None` when it
// has another shape, which makes the whole descriptor unreadable.

/// The member `key` as an optional string.
pub open spec fn opt_str_member(m: JsonModel, key: Seq<char>) -> Option<Option<Seq<char>>> {
    match m.get(key) {
        None => Some(None),
        Some(JsonModel::Null) => Some(None),
        Some(JsonModel::Str(s)) => Some(Some(s)),
        Some(_) => None,
    }
}

/// The member `key` as an optional integer of 64 bits.
pub open spec fn opt_u64_member(m: JsonModel, key: Seq<char>) -> Option<Option<u64>> {
    match m.get(key) {
        None => Some(None),
        Some(JsonModel::Null) => Some(None),
        Some(v) => match v.as_u64() {
            Some(n) => Some(Some(n)),
            None => None,
        },
    }
}

/// A value as an integer of 32 bits.
pub open spec fn u32_of(m: JsonModel) -> Option<u32> {
    match m.as_u64() {
        Some(n) => if n <= u32::MAX {
            Some(n as u32)
        } else {
            None
        },
        None => None,
    }
}

/// The member `key` as an optional integer of 32 bits.
pub open spec fn opt_u32_member(m: JsonModel, key: Seq<char>) -> Option<Option<u32>> {
    match m.get(key) {
        None => Some(None),
        Some(JsonModel::Null) => Some(None),
        Some(v) => match u32_of(v) {
            Some(n) => Some(Some(n)),
            None => None,
        },
    }
}

/// The member `key` as an optional truth value.
pub open spec fn opt_bool_member(m: JsonModel, key: Seq<char>) -> Option<Option<bool>> {
    match m.get(key) {
        None => Some(None),
        Some(JsonModel::Null) => Some(None),
        Some(JsonModel::Bool(b)) => Some(Some(b)),
        Some(_) => None,
    }
}

/// The member `key`, read by `read` where it is there and not null.
pub open spec fn opt_member<T>(
    m: JsonModel,
    key: Seq<char>,
    read: spec_fn(JsonModel) -> Option<T>,
) -> Option<Option<T>> {
    match m.get(key) {
        None => Some(None),
        Some(JsonModel::Null) => Some(None),
        Some(v) => match read(v) {
            Some(x) => Some(Some(x)),
            None => None,
        },
    }
}

/// Timestamps from their object.
pub open spec fn timestamps_of(m: JsonModel) -> Option<ActivityTimestamps> {
    let start = opt_u64_member(m, "start"@);
    let end = opt_u64_member(m, "end"@);
    if m is Obj && start is Some && end is Some {
        Some(ActivityTimestamps { start: start->0, end: end->0 })
    } else {
        None
    }
}

/// Assets from their object.
pub open spec fn assets_of(m: JsonModel) -> Option<AssetsModel> {
    let large_image = opt_str_member(m, "large_image"@);
    let large_text = opt_str_member(m, "large_text"@);
    let small_image = opt_str_member(m, "small_image"@);
    let small_text = opt_str_member(m, "small_text"@);
    if m is Obj && large_image is Some && large_text is Some && small_image is Some
        && small_text is Some {
        Some(
            AssetsModel {
                large_image: large_image->0,
                large_text: large_text->0,
                small_image: small_image->0,
                small_text: small_text->0,
            },
        )
    } else {
        None
    }
}

/// A party size from an array of two numbers.
pub open spec fn size_of(m: JsonModel) -> Option<(u32, u32)> {
    match m {
        JsonModel::Arr(a) => if a.len() == 2 && u32_of(a[0]) is Some && u32_of(a[1]) is Some {
            Some((u32_of(a[0])->0, u32_of(a[1])->0))
        } else {
            None
        },
        _ => None,
    }
}

/// A party from its object.
pub open spec fn party_of(m: JsonModel) -> Option<PartyModel> {
    let id = opt_str_member(m, "id"@);
    let size = opt_member(m, "size"@, |v: JsonModel| size_of(v));
    if m is Obj && id is Some && size is Some {
        Some(PartyModel { id: id->0, size: size->0 })
    } else {
        None
    }
}

/// Secrets from their object.
pub open spec fn secrets_of(m: JsonModel) -> Option<SecretsModel> {
    let join = opt_str_member(m, "join"@);
    let spectate = opt_str_member(m, "spectate"@);
    let match_ = opt_str_member(m, "match"@);
    if m is Obj && join is Some && spectate is Some && match_ is Some {
        Some(SecretsModel { join: join->0, spectate: spectate->0, match_: match_->0 })
    } else {
        None
    }
}

/// A button from its object: both members must be strings.
pub open spec fn button_of(m: JsonModel) -> Option<ButtonModel> {
    match (m.get("label"@), m.get("url"@)) {
        (Some(JsonModel::Str(label)), Some(JsonModel::Str(url))) => Some(
            ButtonModel { label, url },
        ),
        _ => None,
    }
}

/// A list of buttons from an array of button objects.
pub open spec fn buttons_of(m: JsonModel) -> Option<Seq<ButtonModel>> {
    match m {
        JsonModel::Arr(a) => if forall|i: int| 0 <= i < a.len() ==> button_of(#[trigger] a[i])
            is Some {
            Some(Seq::new(a.len(), |i: int| button_of(a[i])->0))
        } else {
            None
        },
        _ => None,
    }
}

/// The name: a string, empty where the member is missing.
pub open spec fn name_of(m: JsonModel) -> Option<Seq<char>> {
    match m.get("name"@) {
        None => Some(Seq::empty()),
        Some(JsonModel::Str(s)) => Some(s),
        Some(_) => None,
    }
}

/// The keys that a descriptor reads into fields of its own.
pub open spec fn known_keys() -> Set<Seq<char>> {
    set![
        "name"@,
        "state"@,
        "details"@,
        "timestamps"@,
        "assets"@,
        "party"@,
        "secrets"@,
        "buttons"@,
        "instance"@,
        "flags"@,
    ]
}

/// The descriptor that a JSON value spells, if it spells one.
///
/// The value must be an object, and each known member must be missing, null
/// or of its shape. Every other member is kept as an extra.
pub open spec fn activity_of(m: JsonModel) -> Option<ActivityModel> {
    let name = name_of(m);
    let state = opt_str_member(m, "state"@);
    let details = opt_str_member(m, "details"@);
    let timestamps = opt_member(m, "timestamps"@, |v: JsonModel| timestamps_of(v));
    let assets = opt_member(m, "assets"@, |v: JsonModel| assets_of(v));
    let party = opt_member(m, "party"@, |v: JsonModel| party_of(v));
    let secrets = opt_member(m, "secrets"@, |v: JsonModel| secrets_of(v));
    let buttons = opt_member(m, "buttons"@, |v: JsonModel| buttons_of(v));
    let instance = opt_bool_member(m, "instance"@);
    let flags = opt_u32_member(m, "flags"@);
    if m is Obj && name is Some && state is Some && details is Some && timestamps is Some
        && assets is Some && party is Some && secrets is Some && buttons is Some
        && instance is Some && flags is Some {
        Some(
            ActivityModel {
                name: name->0,
                state: state->0,
                details: details->0,
                timestamps: timestamps->0,
                assets: assets->0,
                party: party->0,
                secrets: secrets->0,
                buttons: buttons->0,
                instance: instance->0,
                flags: flags->0,
                extra: m->Obj_0.remove_keys(known_keys()),
            },
        )
    } else {
        None
    }
}

// ---------------------------------------------------------------------------
// Writing the wire form
// ---------------------------------------------------------------------------

/// `m` with `key` set to `v` where there is a `v`.
pub open spec fn put_opt(
    m: Map<Seq<char>, JsonModel>,
    key: Seq<char>,
    v: Option<JsonModel>,
) -> Map<Seq<char>, JsonModel> {
    match v {
        Some(x) => m.insert(key, x),
        None => m,
    }
}

pub open spec fn opt_str_json(s: Option<Seq<char>>) -> Option<JsonModel> {
    match s {
        Some(x) => Some(JsonModel::Str(x)),
        None => None,
    }
}

pub open spec fn opt_u64_json(n: Option<u64>) -> Option<JsonModel> {
    match n {
        Some(x) => Some(JsonModel::Int(x as int)),
        None => None,
    }
}

pub open spec fn timestamps_json(t: ActivityTimestamps) -> JsonModel {
    JsonModel::Obj(
        put_opt(
            put_opt(Map::empty(), "start"@, opt_u64_json(t.start)),
            "end"@,
            opt_u64_json(t.end),
        ),
    )
}

pub open spec fn assets_json(a: AssetsModel) -> JsonModel {
    JsonModel::Obj(
        put_opt(
            put_opt(
                put_opt(
                    put_opt(Map::empty(), "large_image"@, opt_str_json(a.large_image)),
                    "large_text"@,
                    opt_str_json(a.large_text),
                ),
                "small_image"@,
                opt_str_json(a.small_image),
            ),
            "small_text"@,
            opt_str_json(a.small_text),
        ),
    )
}

pub open spec fn size_json(size: (u32, u32)) -> JsonModel {
    JsonModel::Arr(seq![JsonModel::Int(size.0 as int), JsonModel::Int(size.1 as int)])
}

pub open spec fn party_json(p: PartyModel) -> JsonModel {
    JsonModel::Obj(
        put_opt(
            put_opt(Map::empty(), "id"@, opt_str_json(p.id)),
            "size"@,
            match p.size {
                Some(s) => Some(size_json(s)),
                None => None,
            },
        ),
    )
}

pub open spec fn secrets_json(s: SecretsModel) -> JsonModel {
    JsonModel::Obj(
        put_opt(
            put_opt(
                put_opt(Map::empty(), "join"@, opt_str_json(s.join)),
                "spectate"@,
                opt_str_json(s.spectate),
            ),
            "match"@,
            opt_str_json(s.match_),
        ),
    )
}

pub open spec fn button_json(b: ButtonModel) -> JsonModel {
    JsonModel::Obj(
        Map::empty().insert("label"@, JsonModel::Str(b.label)).insert(
            "url"@,
            JsonModel::Str(b.url),
        ),
    )
}

pub open spec fn buttons_json(b: Seq<ButtonModel>) -> JsonModel {
    JsonModel::Arr(Seq::new(b.len(), |i: int| button_json(b[i])))
}

/// The members that the fields of a descriptor are written as. A field that
/// is not set is left out.
pub open spec fn typed_members(a: ActivityModel) -> Map<Seq<char>, JsonModel> {
    let m0 = Map::<Seq<char>, JsonModel>::empty().insert("name"@, JsonModel::Str(a.name));
    let m1 = put_opt(m0, "state"@, opt_str_json(a.state));
    let m2 = put_opt(m1, "details"@, opt_str_json(a.details));
    let m3 = put_opt(
        m2,
        "timestamps"@,
        match a.timestamps {
            Some(t) => Some(timestamps_json(t)),
            None => None,
        },
    );
    let m4 = put_opt(
        m3,
        "assets"@,
        match a.assets {
            Some(x) => Some(assets_json(x)),
            None => None,
        },
    );
    let m5 = put_opt(
        m4,
        "party"@,
        match a.party {
            Some(x) => Some(party_json(x)),
            None => None,
        },
    );
    let m6 = put_opt(
        m5,
        "secrets"@,
        match a.secrets {
            Some(x) => Some(secrets_json(x)),
            None => None,
        },
    );
    let m7 = put_opt(
        m6,
        "buttons"@,
        match a.buttons {
            Some(x) => Some(buttons_json(x)),
            None => None,
        },
    );
    let m8 = put_opt(
        m7,
        "instance"@,
        match a.instance {
            Some(x) => Some(JsonModel::Bool(x)),
            None => None,
        },
    );
    put_opt(
        m8,
        "flags"@,
        match a.flags {
            Some(x) => Some(JsonModel::Int(x as int)),
            None => None,
        },
    )
}

/// The wire form of a descriptor: its fields, then its extras, which win over
/// a field of the same name.
pub open spec fn activity_json(a: ActivityModel) -> JsonModel {
    JsonModel::Obj(typed_members(a).union_prefer_right(a.extra))
}

// ---------------------------------------------------------------------------
// The canonical form
// ---------------------------------------------------------------------------

/// A timestamp that lies below a hundredth of the current time in
/// milliseconds is taken to count seconds, and is multiplied by 1000 in
/// 64-bit arithmetic.
pub open spec fn coerce_ms(v: u64, now_ms: u64) -> u64 {
    if v < now_ms / 100 {
        v.wrapping_mul(1000)
    } else {
        v
    }
}

pub open spec fn coerce_opt_ms(v: Option<u64>, now_ms: u64) -> Option<u64> {
    match v {
        Some(x) => Some(coerce_ms(x, now_ms)),
        None => None,
    }
}

/// The labels of the buttons, in order, as JSON strings.
pub open spec fn button_labels(b: Seq<ButtonModel>) -> JsonModel {
    JsonModel::Arr(Seq::new(b.len(), |i: int| JsonModel::Str(b[i].label)))
}

/// The `metadata` member: the URLs of the buttons, in order.
pub open spec fn button_metadata(b: Seq<ButtonModel>) -> JsonModel {
    JsonModel::Obj(
        Map::empty().insert(
            "button_urls"@,
            JsonModel::Arr(Seq::new(b.len(), |i: int| JsonModel::Str(b[i].url))),
        ),
    )
}

/// The canonical form of a descriptor at the time `now_ms`.
pub open spec fn normalize_spec(a: ActivityModel, now_ms: u64) -> ActivityModel {
    ActivityModel {
        timestamps: match a.timestamps {
            Some(t) => Some(
                ActivityTimestamps {
                    start: coerce_opt_ms(t.start, now_ms),
                    end: coerce_opt_ms(t.end, now_ms),
                },
            ),
            None => None,
        },
        flags: if a.instance == Some(true) {
            Some(
                match a.flags {
                    Some(f) => f | 1,
                    None => 1,
                },
            )
        } else {
            a.flags
        },
        buttons: None,
        extra: match a.buttons {
            Some(b) => a.extra.insert("metadata"@, button_metadata(b)).insert(
                "buttons"@,
                button_labels(b),
            ),
            None => a.extra,
        },
        ..a
    }
}


// ---------------------------------------------------------------------------
// Laws of the canonical form
// ---------------------------------------------------------------------------

/// However often a descriptor is brought into canonical form, it has no
/// buttons of its own afterwards: the first pass moves them to the extras.
pub proof fn lemma_normalize_clears_buttons(a: ActivityModel, first_ms: u64, second_ms: u64)
    ensures
        normalize_spec(a, first_ms).buttons is None,
        normalize_spec(normalize_spec(a, first_ms), second_ms).buttons is None,
{
}

/// A second pass changes nothing but the timestamps, which it reads again
/// against the clock.
pub proof fn lemma_normalize_twice(a: ActivityModel, first_ms: u64, second_ms: u64)
    ensures
        normalize_spec(normalize_spec(a, first_ms), second_ms) == (ActivityModel {
            timestamps: normalize_spec(normalize_spec(a, first_ms), second_ms).timestamps,
            ..normalize_spec(a, first_ms)
        }),
{
    match a.flags {
        Some(f) => {
            assert((f | 1) | 1 == f | 1) by (bit_vector);
        },
        None => {
            assert(1u32 | 1 == 1u32) by (bit_vector);
        },
    }
}

/// A timestamp in milliseconds that is not taken for seconds stays as it is,
/// and one that is taken for seconds becomes exactly its thousandfold while
/// the clock is below `u64::MAX / 10`.
pub proof fn lemma_coerce_ms_exact(v: u64, now_ms: u64)
    ensures
        v >= now_ms / 100 ==> coerce_ms(v, now_ms) == v,
        v < now_ms / 100 && now_ms <= u64::MAX / 10 ==> coerce_ms(v, now_ms) == v * 1000,
{
    if v < now_ms / 100 && now_ms <= u64::MAX / 10 {
        assert(v * 1000 <= u64::MAX) by (nonlinear_arith)
            requires
                v < now_ms / 100,
                now_ms <= u64::MAX / 10,
        ;
    }
}

// ---------------------------------------------------------------------------
// Executable readers
// ---------------------------------------------------------------------------

/// The member `key` where it is there and not null.
fn member<'a>(v: &'a Json, key: &str) -> (r: Option<&'a Json>)
    ensures
        match r {
            Some(x) => v@.get(key@) == Some(x@) && !(x@ is Null),
            None => v@.get(key@) is None || v@.get(key@) == Some(JsonModel::Null),
        },
{
    match v.get(key) {
        Some(x) => if x.is_null() {
            None
        } else {
            Some(x)
        },
        None => None,
    }
}

fn read_opt_str(v: &Json, key: &str) -> (r: Option<Option<String>>)
    ensures
        match r {
            Some(x) => opt_str_member(v@, key@) == Some(text_of(x)),
            None => opt_str_member(v@, key@) is None,
        },
{
    match member(v, key) {
        None => Some(None),
        Some(x) => match x.as_str() {
            Some(s) => Some(Some(s.to_owned())),
            None => None,
        },
    }
}

fn read_opt_u64(v: &Json, key: &str) -> (r: Option<Option<u64>>)
    ensures
        r == opt_u64_member(v@, key@),
{
    match member(v, key) {
        None => Some(None),
        Some(x) => match x.as_u64() {
            Some(n) => Some(Some(n)),
            None => None,
        },
    }
}

fn read_u32(v: &Json) -> (r: Option<u32>)
    ensures
        r == u32_of(v@),
{
    match v.as_u64() {
        Some(n) => if n <= 0xffff_ffff {
            Some(n as u32)
        } else {
            None
        },
        None => None,
    }
}

fn read_opt_u32(v: &Json, key: &str) -> (r: Option<Option<u32>>)
    ensures
        r == opt_u32_member(v@, key@),
{
    match member(v, key) {
        None => Some(None),
        Some(x) => match read_u32(x) {
            Some(n) => Some(Some(n)),
            None => None,
        },
    }
}

fn read_opt_bool(v: &Json, key: &str) -> (r: Option<Option<bool>>)
    ensures
        r == opt_bool_member(v@, key@),
{
    match member(v, key) {
        None => Some(None),
        Some(x) => match x.as_bool() {
            Some(b) => Some(Some(b)),
            None => None,
        },
    }
}

impl ActivityTimestamps {
    /// Reads timestamps from their object.
    pub fn from_json(v: &Json) -> (r: Option<ActivityTimestamps>)
        ensures
            r == timestamps_of(v@),
    {
        if !v.is_object() {
            return None;
        }
        let start = match read_opt_u64(v, "start") {
            Some(x) => x,
            None => {
                return None;
            },
        };
        let end = match read_opt_u64(v, "end") {
            Some(x) => x,
            None => {
                return None;
            },
        };
        Some(ActivityTimestamps { start, end })
    }

    /// The object that the timestamps are written as.
    pub fn to_json(&self) -> (r: Json)
        ensures
            r@ == timestamps_json(*self),
    {
        let mut out: Vec<(String, Json)> = Vec::new();
        proof {
            lemma_entries_empty();
        }
        put_opt_u64(&mut out, "start", self.start);
        put_opt_u64(&mut out, "end", self.end);
        Json::Object(out)
    }
}

impl ActivityAssets {
    /// Reads assets from their object.
    pub fn from_json(v: &Json) -> (r: Option<ActivityAssets>)
        ensures
            match r {
                Some(a) => assets_of(v@) == Some(a@),
                None => assets_of(v@) is None,
            },
    {
        if !v.is_object() {
            return None;
        }
        let large_image = match read_opt_str(v, "large_image") {
            Some(x) => x,
            None => {
                return None;
            },
        };
        let large_text = match read_opt_str(v, "large_text") {
            Some(x) => x,
            None => {
                return None;
            },
        };
        let small_image = match read_opt_str(v, "small_image") {
            Some(x) => x,
            None => {
                return None;
            },
        };
        let small_text = match read_opt_str(v, "small_text") {
            Some(x) => x,
            None => {
                return None;
            },
        };
        Some(ActivityAssets { large_image, large_text, small_image, small_text })
    }

    /// The object that the assets are written as.
    pub fn to_json(&self) -> (r: Json)
        ensures
            r@ == assets_json(self@),
    {
        let mut out: Vec<(String, Json)> = Vec::new();
        proof {
            lemma_entries_empty();
        }
        put_opt_str(&mut out, "large_image", &self.large_image);
        put_opt_str(&mut out, "large_text", &self.large_text);
        put_opt_str(&mut out, "small_image", &self.small_image);
        put_opt_str(&mut out, "small_text", &self.small_text);
        Json::Object(out)
    }
}

/// Reads a party size from an array of two numbers.
fn read_size(v: &Json) -> (r: Option<(u32, u32)>)
    ensures
        r == size_of(v@),
{
    match v.as_array() {
        Some(a) => {
            if a.len() != 2 {
                return None;
            }
            assert(items_model(a@)[0] == a@[0]@ && items_model(a@)[1] == a@[1]@);
            match (read_u32(&a[0]), read_u32(&a[1])) {
                (Some(x), Some(y)) => Some((x, y)),
                _ => None,
            }
        },
        None => None,
    }
}

/// The array that a party size is written as.
fn size_to_json(size: (u32, u32)) -> (r: Json)
    ensures
        r@ == size_json(size),
{
    let mut items: Vec<Json> = Vec::new();
    items.push(Json::uint(size.0 as u64));
    items.push(Json::uint(size.1 as u64));
    assert(items_model(items@) =~= seq![
        JsonModel::Int(size.0 as int),
        JsonModel::Int(size.1 as int),
    ]);
    Json::Array(items)
}

impl ActivityParty {
    /// Reads a party from its object.
    pub fn from_json(v: &Json) -> (r: Option<ActivityParty>)
        ensures
            match r {
                Some(p) => party_of(v@) == Some(p@),
                None => party_of(v@) is None,
            },
    {
        if !v.is_object() {
            return None;
        }
        let id = match read_opt_str(v, "id") {
            Some(x) => x,
            None => {
                return None;
            },
        };
        let size = match member(v, "size") {
            None => None,
            Some(x) => match read_size(x) {
                Some(s) => Some(s),
                None => {
                    return None;
                },
            },
        };
        Some(ActivityParty { id, size })
    }

    /// The object that the party is written as.
    pub fn to_json(&self) -> (r: Json)
        ensures
            r@ == party_json(self@),
    {
        let mut out: Vec<(String, Json)> = Vec::new();
        proof {
            lemma_entries_empty();
        }
        put_opt_str(&mut out, "id", &self.id);
        match self.size {
            Some(s) => {
                entries_insert(&mut out, "size", size_to_json(s));
            },
            None => {},
        }
        Json::Object(out)
    }
}

impl ActivitySecrets {
    /// Reads secrets from their object.
    pub fn from_json(v: &Json) -> (r: Option<ActivitySecrets>)
        ensures
            match r {
                Some(s) => secrets_of(v@) == Some(s@),
                None => secrets_of(v@) is None,
            },
    {
        if !v.is_object() {
            return None;
        }
        let join = match read_opt_str(v, "join") {
            Some(x) => x,
            None => {
                return None;
            },
        };
        let spectate = match read_opt_str(v, "spectate") {
            Some(x) => x,
            None => {
                return None;
            },
        };
        let match_ = match read_opt_str(v, "match") {
            Some(x) => x,
            None => {
                return None;
            },
        };
        Some(ActivitySecrets { join, spectate, match_ })
    }

    /// The object that the secrets are written as.
    pub fn to_json(&self) -> (r: Json)
        ensures
            r@ == secrets_json(self@),
    {
        let mut out: Vec<(String, Json)> = Vec::new();
        proof {
            lemma_entries_empty();
        }
        put_opt_str(&mut out, "join", &self.join);
        put_opt_str(&mut out, "spectate", &self.spectate);
        put_opt_str(&mut out, "match", &self.match_);
        Json::Object(out)
    }
}

impl ActivityButton {
    /// Reads a button from its object.
    pub fn from_json(v: &Json) -> (r: Option<ActivityButton>)
        ensures
            match r {
                Some(b) => button_of(v@) == Some(b@),
                None => button_of(v@) is None,
            },
    {
        let label = match v.get("label") {
            Some(x) => match x.as_str() {
                Some(s) => s.to_owned(),
                None => {
                    return None;
                },
            },
            None => {
                return None;
            },
        };
        let url = match v.get("url") {
            Some(x) => match x.as_str() {
                Some(s) => s.to_owned(),
                None => {
                    return None;
                },
            },
            None => {
                return None;
            },
        };
        Some(ActivityButton { label, url })
    }

    /// The object that the button is written as.
    pub fn to_json(&self) -> (r: Json)
        ensures
            r@ == button_json(self@),
    {
        let mut out: Vec<(String, Json)> = Vec::new();
        proof {
            lemma_entries_empty();
        }
        entries_insert(&mut out, "label", Json::string(self.label.as_str()));
        entries_insert(&mut out, "url", Json::string(self.url.as_str()));
        Json::Object(out)
    }
}

/// Reads a list of buttons from an array of button objects.
fn read_buttons(v: &Json) -> (r: Option<Vec<ActivityButton>>)
    ensures
        match r {
            Some(b) => buttons_of(v@) == Some(buttons_model(b@)),
            None => buttons_of(v@) is None,
        },
{
    match v.as_array() {
        Some(a) => {
            let mut out: Vec<ActivityButton> = Vec::new();
            let mut i: usize = 0;
            while i < a.len()
                invariant
                    i <= a.len(),
                    out@.len() == i,
                    v@ == JsonModel::Arr(items_model(a@)),
                    forall|j: int|
                        0 <= j < i ==> button_of(#[trigger] items_model(a@)[j]) == Some(out@[j]@),
                decreases a.len() - i,
            {
                assert(items_model(a@)[i as int] == a@[i as int]@);
                match ActivityButton::from_json(&a[i]) {
                    Some(b) => {
                        out.push(b);
                    },
                    None => {
                        return None;
                    },
                }
                i += 1;
            }
            assert(buttons_of(v@)->0 =~= buttons_model(out@));
            Some(out)
        },
        None => None,
    }
}

/// The array that a list of buttons is written as.
fn buttons_to_json(buttons: &Vec<ActivityButton>) -> (r: Json)
    ensures
        r@ == buttons_json(buttons_model(buttons@)),
{
    let mut items: Vec<Json> = Vec::new();
    let mut i: usize = 0;
    while i < buttons.len()
        invariant
            i <= buttons.len(),
            items@.len() == i,
            forall|j: int| 0 <= j < i ==> (#[trigger] items@[j])@ == button_json(buttons@[j]@),
        decreases buttons.len() - i,
    {
        items.push(buttons[i].to_json());
        i += 1;
    }
    assert(items_model(items@) =~= buttons_json(buttons_model(buttons@))->Arr_0);
    Json::Array(items)
}

/// Sets `key` to the string where there is one.
fn put_opt_str(entries: &mut Vec<(String, Json)>, key: &str, v: &Option<String>)
    ensures
        entries_model(final(entries)@) == put_opt(
            entries_model(old(entries)@),
            key@,
            opt_str_json(text_of(*v)),
        ),
{
    match v {
        Some(s) => {
            entries_insert(entries, key, Json::string(s.as_str()));
        },
        None => {},
    }
}

/// Sets `key` to the number where there is one.
fn put_opt_u64(entries: &mut Vec<(String, Json)>, key: &str, v: Option<u64>)
    ensures
        entries_model(final(entries)@) == put_opt(
            entries_model(old(entries)@),
            key@,
            opt_u64_json(v),
        ),
{
    match v {
        Some(n) => {
            entries_insert(entries, key, Json::uint(n));
        },
        None => {},
    }
}

/// Whether a descriptor reads `key` into a field of its own.
fn is_known_key(key: &str) -> (r: bool)
    ensures
        r == known_keys().contains(key@),
{
    str_eq(key, "name") || str_eq(key, "state") || str_eq(key, "details") || str_eq(
        key,
        "timestamps",
    ) || str_eq(key, "assets") || str_eq(key, "party") || str_eq(key, "secrets") || str_eq(
        key,
        "buttons",
    ) || str_eq(key, "instance") || str_eq(key, "flags")
}

/// The entries whose keys a descriptor does not read into fields of its own.
fn collect_extra(entries: &Vec<(String, Json)>) -> (out: Vec<(String, Json)>)
    ensures
        entries_model(out@) == entries_model(entries@).remove_keys(known_keys()),
{
    let mut out: Vec<(String, Json)> = Vec::new();
    let mut i: usize = 0;
    proof {
        lemma_entries_empty();
        assert(entries@.take(0) =~= Seq::empty());
        assert(entries_model(out@) =~= entries_model(entries@.take(0)).remove_keys(known_keys()));
    }
    while i < entries.len()
        invariant
            i <= entries.len(),
            entries_model(out@) == entries_model(entries@.take(i as int)).remove_keys(
                known_keys(),
            ),
        decreases entries.len() - i,
    {
        let ghost before = entries_model(entries@.take(i as int));
        proof {
            lemma_entries_push(entries@.take(i as int), entries@[i as int].0, entries@[i as int].1);
            assert(entries@.take(i as int).push(entries@[i as int]) =~= entries@.take(i + 1));
        }
        if !is_known_key(entries[i].0.as_str()) {
            let ghost mid = entries_model(out@);
            entries_insert(&mut out, entries[i].0.as_str(), entries[i].1.deep_clone());
            assert(entries_model(out@) =~= entries_model(entries@.take(i + 1)).remove_keys(
                known_keys(),
            ));
        } else {
            assert(entries_model(out@) =~= entries_model(entries@.take(i + 1)).remove_keys(
                known_keys(),
            ));
        }
        i += 1;
    }
    assert(entries@.take(entries.len() as int) =~= entries@);
    out
}

/// Multiplies `v` by 1000 where it lies below a hundredth of `now_ms`.
pub fn maybe_seconds_to_ms(v: &mut u64, now_ms: u64)
    ensures
        *final(v) == coerce_ms(*old(v), now_ms),
{
    if *v < now_ms / 100 {
        *v = v.wrapping_mul(1000);
    }
}

fn coerce_opt(v: Option<u64>, now_ms: u64) -> (r: Option<u64>)
    ensures
        r == coerce_opt_ms(v, now_ms),
{
    match v {
        Some(x) => {
            let mut y: u64 = x;
            maybe_seconds_to_ms(&mut y, now_ms);
            Some(y)
        },
        None => None,
    }
}

impl Default for Activity {
    fn default() -> (r: Activity)
        ensures
            r@ == (ActivityModel {
                name: Seq::empty(),
                state: None,
                details: None,
                timestamps: None,
                assets: None,
                party: None,
                secrets: None,
                buttons: None,
                instance: None,
                flags: None,
                extra: Map::empty(),
            }),
    {
        proof {
            lemma_entries_empty();
        }
        Activity {
            name: String::new(),
            state: None,
            details: None,
            timestamps: None,
            assets: None,
            party: None,
            secrets: None,
            buttons: None,
            instance: None,
            flags: None,
            extra: Vec::new(),
        }
    }
}

impl Activity {
    /// Reads a descriptor from its wire form.
    pub fn from_json(v: &Json) -> (r: Option<Activity>)
        ensures
            match r {
                Some(a) => activity_of(v@) == Some(a@),
                None => activity_of(v@) is None,
            },
    {
        let entries = match v {
            Json::Object(o) => o,
            _ => {
                return None;
            },
        };
        let name = match v.get("name") {
            None => String::new(),
            Some(x) => match x.as_str() {
                Some(s) => s.to_owned(),
                None => {
                    return None;
                },
            },
        };
        let state = match read_opt_str(v, "state") {
            Some(x) => x,
            None => {
                return None;
            },
        };
        let details = match read_opt_str(v, "details") {
            Some(x) => x,
            None => {
                return None;
            },
        };
        let timestamps = match member(v, "timestamps") {
            None => None,
            Some(x) => match ActivityTimestamps::from_json(x) {
                Some(t) => Some(t),
                None => {
                    return None;
                },
            },
        };
        let assets = match member(v, "assets") {
            None => None,
            Some(x) => match ActivityAssets::from_json(x) {
                Some(t) => Some(t),
                None => {
                    return None;
                },
            },
        };
        let party = match member(v, "party") {
            None => None,
            Some(x) => match ActivityParty::from_json(x) {
                Some(t) => Some(t),
                None => {
                    return None;
                },
            },
        };
        let secrets = match member(v, "secrets") {
            None => None,
            Some(x) => match ActivitySecrets::from_json(x) {
                Some(t) => Some(t),
                None => {
                    return None;
                },
            },
        };
        let buttons = match member(v, "buttons") {
            None => None,
            Some(x) => match read_buttons(x) {
                Some(t) => Some(t),
                None => {
                    return None;
                },
            },
        };
        let instance = match read_opt_bool(v, "instance") {
            Some(x) => x,
            None => {
                return None;
            },
        };
        let flags = match read_opt_u32(v, "flags") {
            Some(x) => x,
            None => {
                return None;
            },
        };
        let extra = collect_extra(entries);
        Some(
            Activity {
                name,
                state,
                details,
                timestamps,
                assets,
                party,
                secrets,
                buttons,
                instance,
                flags,
                extra,
            },
        )
    }

    /// The wire form of the descriptor.
    pub fn to_json(&self) -> (r: Json)
        ensures
            r@ == activity_json(self@),
    {
        let mut out: Vec<(String, Json)> = Vec::new();
        proof {
            lemma_entries_empty();
        }
        entries_insert(&mut out, "name", Json::string(self.name.as_str()));
        put_opt_str(&mut out, "state", &self.state);
        put_opt_str(&mut out, "details", &self.details);
        match &self.timestamps {
            Some(t) => {
                entries_insert(&mut out, "timestamps", t.to_json());
            },
            None => {},
        }
        match &self.assets {
            Some(x) => {
                entries_insert(&mut out, "assets", x.to_json());
            },
            None => {},
        }
        match &self.party {
            Some(x) => {
                entries_insert(&mut out, "party", x.to_json());
            },
            None => {},
        }
        match &self.secrets {
            Some(x) => {
                entries_insert(&mut out, "secrets", x.to_json());
            },
            None => {},
        }
        match &self.buttons {
            Some(x) => {
                entries_insert(&mut out, "buttons", buttons_to_json(x));
            },
            None => {},
        }
        match self.instance {
            Some(x) => {
                entries_insert(&mut out, "instance", Json::Bool(x));
            },
            None => {},
        }
        match self.flags {
            Some(x) => {
                entries_insert(&mut out, "flags", Json::uint(x as u64));
            },
            None => {},
        }
        assert(entries_model(out@) == typed_members(self@));
        let mut i: usize = 0;
        proof {
            lemma_entries_empty();
            assert(self.extra@.take(0) =~= Seq::empty());
            assert(entries_model(out@) =~= typed_members(self@).union_prefer_right(
                entries_model(self.extra@.take(0)),
            ));
        }
        while i < self.extra.len()
            invariant
                i <= self.extra.len(),
                entries_model(out@) == typed_members(self@).union_prefer_right(
                    entries_model(self.extra@.take(i as int)),
                ),
            decreases self.extra.len() - i,
        {
            proof {
                lemma_entries_push(
                    self.extra@.take(i as int),
                    self.extra@[i as int].0,
                    self.extra@[i as int].1,
                );
                assert(self.extra@.take(i as int).push(self.extra@[i as int]) =~= self.extra@.take(
                    i + 1,
                ));
            }
            entries_insert(&mut out, self.extra[i].0.as_str(), self.extra[i].1.deep_clone());
            assert(entries_model(out@) =~= typed_members(self@).union_prefer_right(
                entries_model(self.extra@.take(i + 1)),
            ));
            i += 1;
        }
        assert(self.extra@.take(self.extra.len() as int) =~= self.extra@);
        Json::Object(out)
    }

    /// The canonical form of the descriptor at the time `now_ms`, in
    /// milliseconds since the epoch.
    ///
    /// Timestamps that look like seconds become milliseconds, a set
    /// `instance` sets bit 0 of `flags`, and buttons move to the extras: their
    /// labels as `buttons`, their URLs as `metadata.button_urls`.
    pub fn normalize_at(self, now_ms: u64) -> (r: Activity)
        ensures
            r@ == normalize_spec(self@, now_ms),
            r.buttons is None,
    {
        let mut a = self;
        a.timestamps = match a.timestamps {
            Some(t) => Some(
                ActivityTimestamps {
                    start: coerce_opt(t.start, now_ms),
                    end: coerce_opt(t.end, now_ms),
                },
            ),
            None => None,
        };
        match a.instance {
            Some(true) => {
                a.flags = Some(
                    match a.flags {
                        Some(f) => f | 1,
                        None => 1,
                    },
                );
            },
            _ => {},
        }
        let buttons = a.buttons;
        a.buttons = None;
        match buttons {
            Some(b) => {
                let mut labels: Vec<Json> = Vec::new();
                let mut urls: Vec<Json> = Vec::new();
                let mut i: usize = 0;
                while i < b.len()
                    invariant
                        i <= b.len(),
                        labels@.len() == i,
                        urls@.len() == i,
                        forall|j: int|
                            0 <= j < i ==> (#[trigger] labels@[j])@ == JsonModel::Str(
                                b@[j].label@,
                            ),
                        forall|j: int|
                            0 <= j < i ==> (#[trigger] urls@[j])@ == JsonModel::Str(b@[j].url@),
                    decreases b.len() - i,
                {
                    labels.push(Json::string(b[i].label.as_str()));
                    urls.push(Json::string(b[i].url.as_str()));
                    i += 1;
                }
                let mut meta: Vec<(String, Json)> = Vec::new();
                proof {
                    lemma_entries_empty();
                    assert(items_model(urls@) =~= button_metadata(buttons_model(b@))->Obj_0[
                        "button_urls"@
                    ]->Arr_0);
                    assert(items_model(labels@) =~= button_labels(buttons_model(b@))->Arr_0);
                }
                entries_insert(&mut meta, "button_urls", Json::Array(urls));
                entries_insert(&mut a.extra, "metadata", Json::Object(meta));
                entries_insert(&mut a.extra, "buttons", Json::Array(labels));
            },
            None => {},
        }
        a
    }

    /// The canonical form of the descriptor at the current time.
    pub fn normalize(self) -> (r: Activity)
        ensures
            exists|now_ms: u64| r@ == normalize_spec(self@, now_ms),
            r.buttons is None,
    {
        let now_ms = current_millis();
        self.normalize_at(now_ms)
    }
}

/// The system clock through `SystemTime::now`, as milliseconds since the
/// Unix epoch cut to 64 bits; 0 for a clock set before the epoch. Nothing is
/// assumed of the number.
#[verifier::external_body]
pub(crate) fn current_millis() -> (r: u64) {
    std::time::SystemTime::now().duration_since(std::time::UNIX_EPOCH).map_or(
        0,
        |d| d.as_millis() as u64,
    )
}

} // verus!
