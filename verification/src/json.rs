use serde_json::{Number, Value};
use vstd::prelude::*;

verus! {

/// A JSON value as mathematics sees it.
pub enum Json {
    Null,
    Bool(bool),
    Integer(int),
    Real(Seq<char>),
    String(Seq<char>),
    Array(Seq<Json>),
    Object(Seq<(Seq<char>, Json)>),
}

/// A JSON value held by the library.
///
/// Whole numbers are kept as integers. Any other number is kept as the
/// decimal text that stands for it.
#[derive(Debug)]
pub enum JsonValue {
    Null,
    Bool(bool),
    Integer(i128),
    Real(String),
    String(String),
    Array(Vec<JsonValue>),
    Object(Vec<(String, JsonValue)>),
}

impl View for JsonValue {
    type V = Json;

    open spec fn view(&self) -> Json {
        self.model()
    }
}

impl JsonValue {
    /// The value as mathematics sees it.
    pub open spec fn model(&self) -> Json
        decreases self,
    {
        match self {
            JsonValue::Null => Json::Null,
            JsonValue::Bool(b) => Json::Bool(*b),
            JsonValue::Integer(i) => Json::Integer(*i as int),
            JsonValue::Real(t) => Json::Real(t@),
            JsonValue::String(s) => Json::String(s@),
            JsonValue::Array(items) => Json::Array(
                Seq::new(items@.len(), |i: int| if 0 <= i < items@.len() { items@[i].model() } else { Json::Null }),
            ),
            JsonValue::Object(members) => Json::Object(
                Seq::new(
                    members@.len(),
                    |i: int| if 0 <= i < members@.len() { (members@[i].0@, members@[i].1.model()) } else { (Seq::empty(), Json::Null) },
                ),
            ),
        }
    }
}

/// The items of an array, read as mathematics.
pub open spec fn items_view(items: Seq<JsonValue>) -> Seq<Json> {
    Seq::new(items.len(), |i: int| items[i]@)
}

/// The members of an object, read as mathematics.
pub open spec fn members_view(members: Seq<(String, JsonValue)>) -> Seq<(Seq<char>, Json)> {
    Seq::new(members.len(), |i: int| (members[i].0@, members[i].1@))
}

/// An array's view is the array of its items' views.
pub proof fn lemma_array_view(items: Vec<JsonValue>)
    ensures
        JsonValue::Array(items)@ == Json::Array(items_view(items@)),
{
    match JsonValue::Array(items)@ {
        Json::Array(s) => {
            assert(s =~= items_view(items@));
        },
        _ => {},
    }
}

/// An object's view is the object of its members' views.
pub proof fn lemma_object_view(members: Vec<(String, JsonValue)>)
    ensures
        JsonValue::Object(members)@ == Json::Object(members_view(members@)),
{
    assert(JsonValue::Object(members).model() is Object);
    match JsonValue::Object(members)@ {
        Json::Object(s) => {
            assert(s.len() == members@.len());
            assert forall|i: int| 0 <= i < s.len() implies s[i] == members_view(members@)[i] by {
                assert(s[i].0 == members@[i].0@);
                assert(s[i].1 == members@[i].1@);
            }
            assert(s =~= members_view(members@));
        },
        _ => {},
    }
}

impl Clone for JsonValue {
    #[verifier::loop_isolation(false)]
    fn clone(&self) -> (r: Self)
        ensures
            r@ == self@,
        decreases self,
    {
        match self {
            JsonValue::Null => JsonValue::Null,
            JsonValue::Bool(b) => JsonValue::Bool(*b),
            JsonValue::Integer(i) => JsonValue::Integer(*i),
            JsonValue::Real(t) => JsonValue::Real(t.clone()),
            JsonValue::String(s) => JsonValue::String(s.clone()),
            JsonValue::Array(items) => {
                let mut copy: Vec<JsonValue> = Vec::new();
                let mut i: usize = 0;
                while i < items.len()
                    invariant
                        i <= items@.len(),
                        copy@.len() == i,
                        forall|k: int| 0 <= k < i ==> copy@[k]@ == items@[k]@,
                    decreases items@.len() - i,
                {
                    copy.push(items[i].clone());
                    i += 1;
                }
                proof {
                    lemma_array_view(copy);
                    lemma_array_view(*items);
                    assert(items_view(copy@) =~= items_view(items@));
                }
                JsonValue::Array(copy)
            },
            JsonValue::Object(members) => {
                let mut copy: Vec<(String, JsonValue)> = Vec::new();
                let mut i: usize = 0;
                while i < members.len()
                    invariant
                        i <= members@.len(),
                        copy@.len() == i,
                        forall|k: int| 0 <= k < i ==> copy@[k].0@ == members@[k].0@ && copy@[k].1@ == members@[k].1@,
                    decreases members@.len() - i,
                {
                    copy.push((members[i].0.clone(), members[i].1.clone()));
                    i += 1;
                }
                proof {
                    lemma_object_view(copy);
                    lemma_object_view(*members);
                    assert(members_view(copy@) =~= members_view(members@));
                }
                JsonValue::Object(copy)
            },
        }
    }
}

/// How deep a value may nest for the reader to take back what the writer wrote.
pub open spec fn plain_depth() -> nat {
    64
}

/// No two members of `members` share a name.
pub open spec fn names_distinct(members: Seq<(Seq<char>, Json)>) -> bool {
    forall|i: int, j: int|
        0 <= i < j < members.len() ==> (#[trigger] members[i]).0 != (#[trigger] members[j]).0
}

/// The value nests at most `depth` levels, its numbers are whole and fit in 64
/// bits, and no object names a member twice.
pub open spec fn json_plain(v: Json, depth: nat) -> bool
    decreases depth,
{
    match v {
        Json::Null => true,
        Json::Bool(_) => true,
        Json::Integer(i) => i64::MIN <= i <= u64::MAX,
        Json::Real(_) => false,
        Json::String(_) => true,
        Json::Array(items) => depth > 0 && forall|k: int|
            0 <= k < items.len() ==> json_plain(#[trigger] items[k], (depth - 1) as nat),
        Json::Object(members) => depth > 0 && names_distinct(members) && forall|k: int|
            0 <= k < members.len() ==> json_plain((#[trigger] members[k]).1, (depth - 1) as nat),
    }
}

/// The writer can hold the value as it is: its whole numbers fit in 64 bits
/// and no object names a member twice, at any depth.
pub open spec fn json_storable(v: Json) -> bool
    decreases v,
{
    match v {
        Json::Integer(i) => i64::MIN <= i <= u64::MAX,
        Json::Array(items) => forall|k: int|
            0 <= k < items.len() ==> json_storable(#[trigger] items[k]),
        Json::Object(members) => names_distinct(members) && forall|k: int|
            0 <= k < members.len() ==> json_storable((#[trigger] members[k]).1),
        _ => true,
    }
}

/// What the JSON reader makes of `text`: the value, or `None` where it rejects
/// the text.
pub uninterp spec fn json_parsed(text: Seq<u8>) -> Option<Json>;

/// The text that the JSON writer gives for a value it holds.
pub uninterp spec fn json_rendered(value: Json) -> Option<Seq<u8>>;

/// What a value of the JSON crate holds.
pub uninterp spec fn serde_json_model(value: Value) -> Json;

/// What the JSON crate's reader of numbers makes of a text, as the library
/// holds a number: a whole number, or the text that the crate prints for it;
/// `None` where the reader refuses the text.
pub uninterp spec fn number_parsed(text: Seq<char>) -> Option<Json>;

/// What the JSON crate holds once it has been handed `value`: the value
/// itself, but with every number that was given as text read by the crate's
/// reader of numbers. There is nothing to hold where that reader refuses a
/// text, or a whole number does not fit in 64 bits.
pub open spec fn json_held(value: Json) -> Option<Json>
    decreases value,
{
    match value {
        Json::Integer(i) => if i64::MIN <= i <= u64::MAX {
            Some(value)
        } else {
            None
        },
        Json::Real(t) => number_parsed(t),
        Json::Array(items) => if forall|k: int|
            0 <= k < items.len() ==> json_held(#[trigger] items[k]) is Some {
            Some(
                Json::Array(
                    Seq::new(
                        items.len(),
                        |k: int|
                            if 0 <= k < items.len() {
                                json_held(items[k])->0
                            } else {
                                Json::Null
                            },
                    ),
                ),
            )
        } else {
            None
        },
        Json::Object(members) => if forall|k: int|
            0 <= k < members.len() ==> json_held((#[trigger] members[k]).1) is Some {
            Some(
                Json::Object(
                    Seq::new(
                        members.len(),
                        |k: int|
                            if 0 <= k < members.len() {
                                (members[k].0, json_held(members[k].1)->0)
                            } else {
                                (Seq::empty(), Json::Null)
                            },
                    ),
                ),
            )
        } else {
            None
        },
        _ => Some(value),
    }
}

/// The text written for `value`: none for a value that the writer cannot
/// hold as it is.
pub open spec fn json_text(value: Json) -> Option<Seq<u8>> {
    if json_storable(value) {
        match json_held(value) {
            Some(held) => json_rendered(held),
            None => None,
        }
    } else {
        None
    }
}

/// A plain value is held as it is.
pub proof fn lemma_plain_is_held(v: Json, depth: nat)
    requires
        json_plain(v, depth),
    ensures
        json_held(v) == Some(v),
    decreases depth,
{
    match v {
        Json::Array(items) => {
            assert forall|k: int| 0 <= k < items.len() implies json_held(#[trigger] items[k])
                == Some(items[k]) by {
                lemma_plain_is_held(items[k], (depth - 1) as nat);
            }
            let held = Seq::new(
                items.len(),
                |k: int|
                    if 0 <= k < items.len() {
                        json_held(items[k])->0
                    } else {
                        Json::Null
                    },
            );
            assert(held =~= items);
            assert(json_held(v) is Some);
            assert(json_held(v)->0->Array_0 =~= items);
        },
        Json::Object(members) => {
            assert forall|k: int| 0 <= k < members.len() implies json_held(
                (#[trigger] members[k]).1,
            ) == Some(members[k].1) by {
                lemma_plain_is_held(members[k].1, (depth - 1) as nat);
            }
            assert(json_held(v) is Some);
            assert(json_held(v)->0->Object_0 =~= members);
        },
        _ => {},
    }
}

/// An array with an item that the writer cannot hold cannot be held.
pub proof fn lemma_item_not_storable(items: Seq<Json>, i: int)
    requires
        0 <= i < items.len(),
        !json_storable(items[i]),
    ensures
        !json_storable(Json::Array(items)),
{
    let v = Json::Array(items);
    assert(v->Array_0 == items);
    if json_storable(v) {
        assert(forall|k: int| 0 <= k < items.len() ==> json_storable(#[trigger] items[k]));
    }
}

/// A plain value is one that the writer can hold as it is.
pub proof fn lemma_plain_is_storable(v: Json, depth: nat)
    requires
        json_plain(v, depth),
    ensures
        json_storable(v),
    decreases depth,
{
    match v {
        Json::Array(items) => {
            assert forall|k: int| 0 <= k < items.len() implies json_storable(
                #[trigger] items[k],
            ) by {
                lemma_plain_is_storable(items[k], (depth - 1) as nat);
            }
        },
        Json::Object(members) => {
            assert forall|k: int| 0 <= k < members.len() implies json_storable(
                (#[trigger] members[k]).1,
            ) by {
                lemma_plain_is_storable(members[k].1, (depth - 1) as nat);
            }
        },
        _ => {},
    }
}

/// The JSON crate's value, which is carried between its reader and writer and
/// the library's own type and never looked into.
#[verifier::external_type_specification]
#[verifier::external_body]
pub struct ExSerdeValue(serde_json::Value);

/// Calls `serde_json::from_slice` for a `Value`. The contract names the
/// outcome: the same bytes always give the same value or the same refusal.
#[verifier::external_body]
fn serde_parse(text: &[u8]) -> (r: Option<Value>)
    ensures
        match r {
            Some(v) => json_parsed(text@) == Some(serde_json_model(v)),
            None => json_parsed(text@) is None,
        },
{
    serde_json::from_slice::<Value>(text).ok()
}

/// Calls `serde_json::to_vec` on a `Value`. The contract names the text,
/// which is UTF-8, and claims that the reader takes a plain value back from
/// it: numbers within 64 bits are written as digits and strings are escaped,
/// so what is read is what was written.
#[verifier::external_body]
fn serde_render(v: &Value) -> (r: Option<Vec<u8>>)
    ensures
        match r {
            Some(t) => json_rendered(serde_json_model(*v)) == Some(t@),
            None => json_rendered(serde_json_model(*v)) is None,
        },
        r matches Some(t) ==> vstd::utf8::valid_utf8(t@),
        json_plain(serde_json_model(*v), plain_depth()) ==> r is Some && json_parsed(r->0@)
            == Some(serde_json_model(*v)),
{
    serde_json::to_vec(v).ok()
}

/// Copies a `serde_json::Value` into the library's type, variant by variant.
/// A number that `Number::as_i128` gives is whole; any other is kept as the
/// text that `Number` prints for it.
#[verifier::external_body]
fn value_from_serde(v: &Value) -> (r: JsonValue)
    ensures
        r@ == serde_json_model(*v),
{
    match v {
        Value::Null => JsonValue::Null,
        Value::Bool(b) => JsonValue::Bool(*b),
        Value::Number(n) => match n.as_i128() {
            Some(i) => JsonValue::Integer(i),
            None => JsonValue::Real(n.to_string()),
        },
        Value::String(s) => JsonValue::String(s.clone()),
        Value::Array(a) => JsonValue::Array(a.iter().map(value_from_serde).collect()),
        Value::Object(o) => JsonValue::Object(
            o.iter().map(|(k, v)| (k.clone(), value_from_serde(v))).collect(),
        ),
    }
}

/// Copies a value of the library into a `serde_json::Value`, variant by
/// variant, for a value that can be held: `Number::from_i128` takes every
/// whole number within 64 bits, and a `Map` every list of members with
/// different names. A number given as text is read by
/// `serde_json::from_str` for a `Number`; where that refuses the text, or one
/// inside the value, there is no result.
#[verifier::external_body]
fn value_to_serde(v: &JsonValue) -> (r: Option<Value>)
    requires
        json_storable(v@),
    ensures
        match r {
            Some(held) => json_held(v@) == Some(serde_json_model(held)),
            None => json_held(v@) is None,
        },
        v matches JsonValue::Real(t) ==> match r {
            Some(held) => number_parsed(t@) == Some(serde_json_model(held)),
            None => number_parsed(t@) is None,
        },
{
    match v {
        JsonValue::Null => Some(Value::Null),
        JsonValue::Bool(b) => Some(Value::Bool(*b)),
        JsonValue::Integer(i) => Number::from_i128(*i).map(Value::Number),
        JsonValue::Real(t) => serde_json::from_str::<Number>(t).ok().map(Value::Number),
        JsonValue::String(s) => Some(Value::String(s.clone())),
        JsonValue::Array(a) => a.iter().map(value_to_serde).collect::<Option<_>>().map(Value::Array),
        JsonValue::Object(o) => o.iter().map(|(k, v)| Some((k.clone(), value_to_serde(v)?)))
            .collect::<Option<_>>().map(Value::Object),
    }
}

/// The view of an optional byte string.
pub open spec fn bytes_view(b: Option<Vec<u8>>) -> Option<Seq<u8>> {
    match b {
        Some(v) => Some(v@),
        None => None,
    }
}

/// The view of an optional value.
pub open spec fn value_view(v: Option<JsonValue>) -> Option<Json> {
    match v {
        Some(v) => Some(v@),
        None => None,
    }
}

impl JsonValue {
    /// Reads a JSON text.
    pub fn parse(text: &[u8]) -> (r: Option<JsonValue>)
        ensures
            value_view(r) == json_parsed(text@),
    {
        match serde_parse(text) {
            Some(v) => Some(value_from_serde(&v)),
            None => None,
        }
    }

    /// Writes the value as JSON text; a value that the writer cannot hold as
    /// it is, is not written. A plain value is read back from its text
    /// unchanged.
    pub fn render(&self) -> (r: Option<Vec<u8>>)
        ensures
            bytes_view(r) == json_text(self@),
            r matches Some(t) ==> vstd::utf8::valid_utf8(t@),
            json_plain(self@, plain_depth()) ==> r is Some && json_parsed(r->0@) == Some(self@),
    {
        proof {
            if json_plain(self@, plain_depth()) {
                lemma_plain_is_storable(self@, plain_depth());
                lemma_plain_is_held(self@, plain_depth());
            }
        }
        if !self.storable() {
            return None;
        }
        match value_to_serde(self) {
            Some(held) => serde_render(&held),
            None => None,
        }
    }

    /// Says whether the writer can hold the value as it is.
    #[verifier::loop_isolation(false)]
    pub fn storable(&self) -> (r: bool)
        ensures
            r == json_storable(self@),
        decreases self,
    {
        match self {
            JsonValue::Integer(i) => -0x8000_0000_0000_0000 <= *i && *i <= 0xffff_ffff_ffff_ffff,
            JsonValue::Array(items) => {
                proof {
                    lemma_array_view(*items);
                }
                let ghost list = items_view(items@);
                let mut i: usize = 0;
                while i < items.len()
                    invariant
                        i <= items@.len(),
                        forall|k: int| 0 <= k < i ==> json_storable(#[trigger] list[k]),
                    decreases items@.len() - i,
                {
                    if !items[i].storable() {
                        assert(list[i as int] == items@[i as int]@);
                        assert(!json_storable(list[i as int]));
                        proof {
                            lemma_item_not_storable(list, i as int);
                        }
                        return false;
                    }
                    assert(list[i as int] == items@[i as int]@);
                    i += 1;
                }
                assert(json_storable(Json::Array(list)));
                true
            },
            JsonValue::Object(members) => {
                proof {
                    lemma_object_view(*members);
                }
                let ghost m = members_view(members@);
                let mut i: usize = 0;
                while i < members.len()
                    invariant
                        i <= members@.len(),
                        forall|a: int, b: int|
                            0 <= a < b < i ==> (#[trigger] m[a]).0 != (#[trigger] m[b]).0,
                        forall|k: int| 0 <= k < i ==> json_storable((#[trigger] m[k]).1),
                    decreases members@.len() - i,
                {
                    if !members[i].1.storable() {
                        assert(!json_storable(m[i as int].1));
                        return false;
                    }
                    match find_member(members, members[i].0.as_str()) {
                        Some(k) => {
                            proof {
                                lemma_position_found(m, m[i as int].0);
                            }
                            if k != i {
                                assert(m[k as int].0 == m[i as int].0);
                                return false;
                            }
                        },
                        None => {
                            proof {
                                lemma_position_found(m, m[i as int].0);
                            }
                        },
                    }
                    i += 1;
                }
                true
            },
            _ => true,
        }
    }
}

/// Where the first member named `name` stands, or the number of members if
/// there is none.
pub open spec fn position(members: Seq<(Seq<char>, Json)>, name: Seq<char>) -> int
    decreases members.len(),
{
    if members.len() == 0 {
        0
    } else if members[0].0 == name {
        0
    } else {
        1 + position(members.skip(1), name)
    }
}

/// The value of the first member named `name`.
pub open spec fn lookup(members: Seq<(Seq<char>, Json)>, name: Seq<char>) -> Option<Json> {
    let k = position(members, name);
    if 0 <= k < members.len() {
        Some(members[k].1)
    } else {
        None
    }
}

/// The text of the first member named `name`, where it is a string.
pub open spec fn lookup_text(members: Seq<(Seq<char>, Json)>, name: Seq<char>) -> Option<Seq<char>> {
    match lookup(members, name) {
        Some(Json::String(t)) => Some(t),
        _ => None,
    }
}

/// The first member of a name stands where no earlier member has that name.
pub proof fn lemma_position(members: Seq<(Seq<char>, Json)>, name: Seq<char>, k: int)
    requires
        0 <= k <= members.len(),
        forall|i: int| 0 <= i < k ==> (#[trigger] members[i]).0 != name,
        k < members.len() ==> members[k].0 == name,
    ensures
        position(members, name) == k,
    decreases k,
{
    if k > 0 {
        let rest = members.skip(1);
        assert forall|i: int| 0 <= i < k - 1 implies (#[trigger] rest[i]).0 != name by {
            assert(rest[i] == members[i + 1]);
        }
        lemma_position(rest, name, k - 1);
    }
}

/// Where a name is said to stand, it stands, and nowhere before.
pub proof fn lemma_position_found(members: Seq<(Seq<char>, Json)>, name: Seq<char>)
    ensures
        0 <= position(members, name) <= members.len(),
        position(members, name) < members.len() ==> members[position(members, name)].0 == name,
        forall|i: int| 0 <= i < position(members, name) ==> (#[trigger] members[i]).0 != name,
    decreases members.len(),
{
    if members.len() > 0 && members[0].0 != name {
        let rest = members.skip(1);
        lemma_position_found(rest, name);
        assert forall|i: int| 0 <= i < position(members, name) implies (#[trigger] members[i]).0
            != name by {
            if i > 0 {
                assert(members[i] == rest[i - 1]);
            }
        }
    }
}

/// Looking a name up in two lists of members, one behind the other, finds it
/// in the first where it is there, else in the second.
pub proof fn lemma_lookup_concat(a: Seq<(Seq<char>, Json)>, b: Seq<(Seq<char>, Json)>, name: Seq<char>)
    ensures
        lookup(a + b, name) == if lookup(a, name) is Some {
            lookup(a, name)
        } else {
            lookup(b, name)
        },
{
    let whole = a + b;
    lemma_position_found(a, name);
    lemma_position_found(b, name);
    let i = position(a, name);
    let j = position(b, name);
    if i < a.len() {
        assert forall|k: int| 0 <= k < i implies (#[trigger] whole[k]).0 != name by {
            assert(whole[k] == a[k]);
        }
        assert(whole[i] == a[i]);
        lemma_position(whole, name, i);
    } else {
        assert forall|k: int| 0 <= k < a.len() + j implies (#[trigger] whole[k]).0 != name by {
            if k < a.len() {
                assert(whole[k] == a[k]);
            } else {
                assert(whole[k] == b[k - a.len()]);
            }
        }
        if j < b.len() {
            assert(whole[a.len() + j] == b[j]);
        }
        lemma_position(whole, name, a.len() + j);
    }
}

/// Compares two strings.
pub fn str_eq(a: &str, b: &str) -> (r: bool)
    ensures
        r == (a@ == b@),
{
    let x = a.as_bytes();
    let y = b.as_bytes();
    proof {
        vstd::utf8::encode_utf8_decode_utf8(a@);
        vstd::utf8::encode_utf8_decode_utf8(b@);
    }
    bytes_eq(x, y)
}

/// Compares two byte strings.
pub fn bytes_eq(a: &[u8], b: &[u8]) -> (r: bool)
    ensures
        r == (a@ == b@),
{
    if a.len() != b.len() {
        return false;
    }
    let mut i: usize = 0;
    while i < a.len()
        invariant
            a@.len() == b@.len(),
            i <= a@.len(),
            forall|k: int| 0 <= k < i ==> a@[k] == b@[k],
        decreases a@.len() - i,
    {
        if a[i] != b[i] {
            return false;
        }
        i += 1;
    }
    assert(a@ =~= b@);
    true
}

/// Looks a member up by name: the index of the first member so named.
pub fn find_member(members: &Vec<(String, JsonValue)>, name: &str) -> (r: Option<usize>)
    ensures
        match r {
            Some(k) => k < members@.len() && position(members_view(members@), name@) == k,
            None => position(members_view(members@), name@) == members@.len(),
        },
{
    let mut i: usize = 0;
    while i < members.len()
        invariant
            i <= members@.len(),
            forall|k: int| 0 <= k < i ==> (#[trigger] members_view(members@)[k]).0 != name@,
        decreases members@.len() - i,
    {
        if str_eq(members[i].0.as_str(), name) {
            proof {
                lemma_position(members_view(members@), name@, i as int);
            }
            return Some(i);
        }
        i += 1;
    }
    proof {
        lemma_position(members_view(members@), name@, members@.len() as int);
    }
    None
}

impl JsonValue {
    /// Compares two values: the same variant with the same contents, in the
    /// same order.
    #[verifier::loop_isolation(false)]
    pub fn same(&self, other: &JsonValue) -> (r: bool)
        ensures
            r == (self@ == other@),
        decreases self,
    {
        match (self, other) {
            (JsonValue::Null, JsonValue::Null) => true,
            (JsonValue::Bool(a), JsonValue::Bool(b)) => *a == *b,
            (JsonValue::Integer(a), JsonValue::Integer(b)) => *a == *b,
            (JsonValue::Real(a), JsonValue::Real(b)) => str_eq(a.as_str(), b.as_str()),
            (JsonValue::String(a), JsonValue::String(b)) => str_eq(a.as_str(), b.as_str()),
            (JsonValue::Array(a), JsonValue::Array(b)) => {
                proof {
                    lemma_array_view(*a);
                    lemma_array_view(*b);
                }
                if a.len() != b.len() {
                    assert(items_view(a@).len() != items_view(b@).len());
                    return false;
                }
                let mut i: usize = 0;
                while i < a.len()
                    invariant
                        i <= a@.len(),
                        a@.len() == b@.len(),
                        forall|k: int| 0 <= k < i ==> a@[k]@ == b@[k]@,
                    decreases a@.len() - i,
                {
                    if !a[i].same(&b[i]) {
                        assert(items_view(a@)[i as int] != items_view(b@)[i as int]);
                        return false;
                    }
                    i += 1;
                }
                assert(items_view(a@) =~= items_view(b@));
                true
            },
            (JsonValue::Object(a), JsonValue::Object(b)) => {
                proof {
                    lemma_object_view(*a);
                    lemma_object_view(*b);
                }
                if a.len() != b.len() {
                    assert(members_view(a@).len() != members_view(b@).len());
                    return false;
                }
                let mut i: usize = 0;
                while i < a.len()
                    invariant
                        i <= a@.len(),
                        a@.len() == b@.len(),
                        forall|k: int|
                            0 <= k < i ==> a@[k].0@ == b@[k].0@ && a@[k].1@ == b@[k].1@,
                    decreases a@.len() - i,
                {
                    if !str_eq(a[i].0.as_str(), b[i].0.as_str()) || !a[i].1.same(&b[i].1) {
                        assert(members_view(a@)[i as int] != members_view(b@)[i as int]);
                        return false;
                    }
                    i += 1;
                }
                assert(members_view(a@) =~= members_view(b@));
                true
            },
            _ => false,
        }
    }
}

} // verus!
