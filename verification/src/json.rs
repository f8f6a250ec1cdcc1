//! JSON values: what tool arguments, tool results and schemas are made of.

use vstd::prelude::*;

use serde_json::Value;

verus! {

/// A JSON number: an unsigned integer, a negative integer, or any other number
/// by its text.
#[derive(Debug, PartialEq, Eq)]
pub enum JsonNumber {
    Unsigned(u64),
    Negative(i64),
    Other(String),
}

/// A JSON value. An object keeps its members in order; where a key occurs
/// more than once, the last member counts.
#[derive(Debug, PartialEq, Eq)]
pub enum Json {
    Null,
    Bool(bool),
    Number(JsonNumber),
    Text(String),
    Array(Vec<Json>),
    Object(Vec<(String, Json)>),
}

/// The mathematical number behind a [`JsonNumber`].
pub enum NumberView {
    Unsigned(u64),
    Negative(i64),
    Other(Seq<char>),
}

/// The mathematical value behind a [`Json`].
pub enum JsonView {
    Null,
    Bool(bool),
    Number(NumberView),
    Text(Seq<char>),
    Array(Seq<JsonView>),
    Object(Seq<(Seq<char>, JsonView)>),
}

impl View for JsonNumber {
    type V = NumberView;

    open spec fn view(&self) -> NumberView {
        match self {
            JsonNumber::Unsigned(n) => NumberView::Unsigned(*n),
            JsonNumber::Negative(n) => NumberView::Negative(*n),
            JsonNumber::Other(text) => NumberView::Other(text@),
        }
    }
}

/// The value behind `json`, level by level.
pub open spec fn json_view(json: Json) -> JsonView
    decreases json,
{
    match json {
        Json::Null => JsonView::Null,
        Json::Bool(b) => JsonView::Bool(b),
        Json::Number(n) => JsonView::Number(n@),
        Json::Text(text) => JsonView::Text(text@),
        Json::Array(items) => JsonView::Array(
            Seq::new(
                items@.len(),
                |i: int|
                    if 0 <= i < items@.len() {
                        json_view(items@[i])
                    } else {
                        JsonView::Null
                    },
            ),
        ),
        Json::Object(members) => JsonView::Object(
            Seq::new(
                members@.len(),
                |i: int|
                    if 0 <= i < members@.len() {
                        (members@[i].0@, json_view(members@[i].1))
                    } else {
                        (Seq::empty(), JsonView::Null)
                    },
            ),
        ),
    }
}

impl View for Json {
    type V = JsonView;

    open spec fn view(&self) -> JsonView {
        json_view(*self)
    }
}

/// The values behind a list of items.
pub open spec fn items_view(items: Seq<Json>) -> Seq<JsonView> {
    Seq::new(items.len(), |i: int| items[i]@)
}

/// The keys and values behind a list of members.
pub open spec fn members_view(members: Seq<(String, Json)>) -> Seq<(Seq<char>, JsonView)> {
    Seq::new(members.len(), |i: int| (members[i].0@, members[i].1@))
}

pub broadcast proof fn lemma_array_view(items: Vec<Json>)
    ensures
        #[trigger] json_view(Json::Array(items)) == JsonView::Array(items_view(items@)),
{
    assert(json_view(Json::Array(items))->Array_0 =~= items_view(items@));
}

pub broadcast proof fn lemma_object_view(members: Vec<(String, Json)>)
    ensures
        #[trigger] json_view(Json::Object(members)) == JsonView::Object(members_view(members@)),
{
    assert(json_view(Json::Object(members))->Object_0 =~= members_view(members@));
}

/// The value of the last member named `key`.
pub open spec fn last_member(
    members: Seq<(Seq<char>, JsonView)>,
    key: Seq<char>,
) -> Option<JsonView>
    decreases members.len(),
{
    if members.len() == 0 {
        None
    } else if members.last().0 == key {
        Some(members.last().1)
    } else {
        last_member(members.drop_last(), key)
    }
}

/// The keys of an object, in order; none for any other value.
pub open spec fn keys_of(json: JsonView) -> Seq<Seq<char>> {
    match json {
        JsonView::Object(members) => Seq::new(members.len(), |i: int| members[i].0),
        _ => Seq::empty(),
    }
}

impl JsonView {
    /// The member `key` of an object.
    pub open spec fn member(self, key: Seq<char>) -> Option<JsonView> {
        match self {
            JsonView::Object(members) => last_member(members, key),
            _ => None,
        }
    }

    /// The text of a string.
    pub open spec fn text(self) -> Option<Seq<char>> {
        match self {
            JsonView::Text(text) => Some(text),
            _ => None,
        }
    }

    /// The value of an unsigned integer.
    pub open spec fn unsigned(self) -> Option<u64> {
        match self {
            JsonView::Number(NumberView::Unsigned(n)) => Some(n),
            _ => None,
        }
    }

    /// The member `key`, where it is a string.
    pub open spec fn text_member(self, key: Seq<char>) -> Option<Seq<char>> {
        match self.member(key) {
            Some(value) => value.text(),
            None => None,
        }
    }

    /// The member `key`, where it is an unsigned integer.
    pub open spec fn unsigned_member(self, key: Seq<char>) -> Option<u64> {
        match self.member(key) {
            Some(value) => value.unsigned(),
            None => None,
        }
    }
}

impl Clone for JsonNumber {
    fn clone(&self) -> (copy: Self)
        ensures
            copy@ == self@,
    {
        match self {
            JsonNumber::Unsigned(n) => JsonNumber::Unsigned(*n),
            JsonNumber::Negative(n) => JsonNumber::Negative(*n),
            JsonNumber::Other(text) => JsonNumber::Other(text.clone()),
        }
    }
}

impl Clone for Json {
    fn clone(&self) -> (copy: Self)
        ensures
            copy@ == self@,
        decreases self,
    {
        broadcast use {lemma_array_view, lemma_object_view};
        match self {
            Json::Null => Json::Null,
            Json::Bool(b) => Json::Bool(*b),
            Json::Number(n) => Json::Number(n.clone()),
            Json::Text(text) => Json::Text(text.clone()),
            Json::Array(items) => {
                let mut copies: Vec<Json> = Vec::new();
                let mut i: usize = 0;
                while i < items.len()
                    invariant
                        i <= items@.len(),
                        *self == Json::Array(*items),
                        items_view(copies@) == items_view(items@).take(i as int),
                    decreases items.len() - i,
                {
                    let ghost before = items_view(copies@);
                    assert(decreases_to!(*self => self->Array_0));
                    assert(decreases_to!(*items => items@));
                    assert(decreases_to!(items@ => items@[i as int]));
                    let copy = items[i].clone();
                    copies.push(copy);
                    i += 1;
                    assert(items_view(copies@) =~= before.push(copy@));
                    assert(items_view(items@).take(i as int) =~= items_view(items@).take(
                        i - 1,
                    ).push(items@[i - 1]@));
                }
                assert(items_view(items@).take(i as int) =~= items_view(items@));
                Json::Array(copies)
            },
            Json::Object(members) => {
                let mut copies: Vec<(String, Json)> = Vec::new();
                let mut i: usize = 0;
                while i < members.len()
                    invariant
                        i <= members@.len(),
                        *self == Json::Object(*members),
                        members_view(copies@) == members_view(members@).take(i as int),
                    decreases members.len() - i,
                {
                    let ghost before = members_view(copies@);
                    assert(decreases_to!(*self => self->Object_0));
                    assert(decreases_to!(*members => members@));
                    assert(decreases_to!(members@ => members@[i as int]));
                    assert(decreases_to!(members@[i as int] => members@[i as int].1));
                    let key = members[i].0.clone();
                    let copy = members[i].1.clone();
                    copies.push((key, copy));
                    i += 1;
                    assert(members_view(copies@) =~= before.push((key@, copy@)));
                    assert(members_view(members@).take(i as int) =~= members_view(members@).take(
                        i - 1,
                    ).push((members@[i - 1].0@, members@[i - 1].1@)));
                }
                assert(members_view(members@).take(i as int) =~= members_view(members@));
                Json::Object(copies)
            },
        }
    }
}

impl Json {
    /// A string.
    pub fn text(text: &str) -> (json: Json)
        ensures
            json@ == JsonView::Text(text@),
    {
        Json::Text(text.to_owned())
    }

    /// An unsigned integer.
    pub fn unsigned(n: u64) -> (json: Json)
        ensures
            json@ == JsonView::Number(NumberView::Unsigned(n)),
    {
        Json::Number(JsonNumber::Unsigned(n))
    }

    /// An array.
    pub fn array(items: Vec<Json>) -> (json: Json)
        ensures
            json@ == JsonView::Array(items_view(items@)),
    {
        broadcast use lemma_array_view;
        Json::Array(items)
    }

    /// An object.
    pub fn object(members: Vec<(String, Json)>) -> (json: Json)
        ensures
            json@ == JsonView::Object(members_view(members@)),
    {
        broadcast use lemma_object_view;
        Json::Object(members)
    }

    /// The member `key` of an object.
    pub fn get(&self, key: &str) -> (member: Option<&Json>)
        ensures
            match member {
                Some(value) => self@.member(key@) == Some(value@),
                None => self@.member(key@) is None,
            },
    {
        broadcast use lemma_object_view;
        let wanted = key.to_owned();
        match self {
            Json::Object(members) => {
                let ghost all = members_view(members@);
                let mut i: usize = members.len();
                assert(all.take(i as int) =~= all);
                while i > 0
                    invariant
                        i <= members@.len(),
                        wanted@ == key@,
                        all == members_view(members@),
                        self@ == JsonView::Object(all),
                        last_member(all, key@) == last_member(all.take(i as int), key@),
                    decreases i,
                {
                    i -= 1;
                    proof {
                        assert(all.take(i + 1).drop_last() =~= all.take(i as int));
                    }
                    if members[i].0 == wanted {
                        assert(all.take(i + 1).last() == all[i as int]);
                        return Some(&members[i].1);
                    }
                }
                None
            },
            _ => None,
        }
    }

    /// The text of a string.
    pub fn as_str(&self) -> (text: Option<&str>)
        ensures
            match text {
                Some(text) => self@.text() == Some(text@),
                None => self@.text() is None,
            },
    {
        match self {
            Json::Text(text) => Some(text.as_str()),
            _ => None,
        }
    }

    /// The value of an unsigned integer.
    pub fn as_u64(&self) -> (n: Option<u64>)
        ensures
            n == self@.unsigned(),
    {
        match self {
            Json::Number(JsonNumber::Unsigned(n)) => Some(*n),
            _ => None,
        }
    }

    /// Whether this is `null`.
    pub fn is_null(&self) -> (yes: bool)
        ensures
            yes == (self@ == JsonView::Null),
    {
        match self {
            Json::Null => true,
            _ => false,
        }
    }

    /// The member `key`, where it is a string.
    pub fn get_str(&self, key: &str) -> (text: Option<&str>)
        ensures
            match text {
                Some(text) => self@.text_member(key@) == Some(text@),
                None => self@.text_member(key@) is None,
            },
    {
        match self.get(key) {
            Some(value) => value.as_str(),
            None => None,
        }
    }

    /// The member `key`, where it is an unsigned integer.
    pub fn get_u64(&self, key: &str) -> (n: Option<u64>)
        ensures
            n == self@.unsigned_member(key@),
    {
        match self.get(key) {
            Some(value) => value.as_u64(),
            None => None,
        }
    }

    /// The keys of an object, in order; none for any other value.
    pub fn keys(&self) -> (keys: Vec<String>)
        ensures
            crate::text::texts(keys@) == keys_of(self@),
    {
        broadcast use lemma_object_view;
        let mut keys: Vec<String> = Vec::new();
        if let Json::Object(members) = self {
            let mut i: usize = 0;
            while i < members.len()
                invariant
                    i <= members@.len(),
                    *self == Json::Object(*members),
                    keys@.len() == i,
                    forall|j: int| 0 <= j < i ==> #[trigger] keys@[j]@ == members@[j].0@,
                decreases members.len() - i,
            {
                keys.push(members[i].0.clone());
                i += 1;
            }
        }
        assert(crate::text::texts(keys@) =~= keys_of(self@));
        keys
    }
}

/// The members `members` followed by `key` with `value`.
pub fn with_member(members: Vec<(String, Json)>, key: &str, value: Json) -> (more: Vec<
    (String, Json),
>)
    ensures
        members_view(more@) == members_view(members@).push((key@, value@)),
{
    let mut more = members;
    let ghost before = members_view(more@);
    more.push((key.to_owned(), value));
    assert(members_view(more@) =~= before.push((key@, value@)));
    more
}

/// Whether the member at a position is the last that is named `key`.
pub open spec fn is_last_named(
    members: Seq<(Seq<char>, JsonView)>,
    key: Seq<char>,
    i: int,
) -> bool {
    &&& 0 <= i < members.len()
    &&& members[i].0 == key
    &&& forall|j: int| i < j < members.len() ==> (#[trigger] members[j]).0 != key
}

/// Looking a key up gives the value of the last member that is named so, and
/// nothing exactly where no member is.
pub proof fn law_lookup_finds_the_last_member(members: Seq<(Seq<char>, JsonView)>, key: Seq<char>)
    ensures
        match JsonView::Object(members).member(key) {
            Some(value) => exists|i: int| #[trigger]
                is_last_named(members, key, i) && members[i].1 == value,
            None => forall|i: int| 0 <= i < members.len() ==> (#[trigger] members[i]).0 != key,
        },
    decreases members.len(),
{
    if members.len() > 0 {
        let last = members.len() - 1;
        let rest = members.drop_last();
        if members.last().0 == key {
            assert(is_last_named(members, key, last));
        } else {
            law_lookup_finds_the_last_member(rest, key);
            if let Some(value) = last_member(rest, key) {
                let i = choose|i: int| #[trigger]
                    is_last_named(rest, key, i) && rest[i].1 == value;
                assert(members[i] == rest[i]);
                assert forall|j: int| i < j < members.len() implies (
                #[trigger] members[j]).0 != key by {
                    if j < last {
                        assert(rest[j] == members[j]);
                    }
                }
                assert(is_last_named(members, key, i));
            } else {
                assert forall|i: int| 0 <= i < members.len() implies (
                #[trigger] members[i]).0 != key by {
                    if i < last {
                        assert(rest[i] == members[i]);
                    }
                }
            }
        }
    }
}

/// The value of the last member that is named `key`.
pub proof fn lemma_member_at(members: Seq<(Seq<char>, JsonView)>, key: Seq<char>, i: int)
    requires
        is_last_named(members, key, i),
    ensures
        last_member(members, key) == Some(members[i].1),
    decreases members.len(),
{
    if i < members.len() - 1 {
        assert(members[members.len() - 1].0 != key);
        let rest = members.drop_last();
        assert forall|j: int| i < j < rest.len() implies (#[trigger] rest[j]).0 != key by {
            assert(rest[j] == members[j]);
        }
        lemma_member_at(rest, key, i);
    }
}

/// A text, a number, a truth value and `null` are told apart, and so are two
/// texts: only a string has a text, and it is its own; only an unsigned integer
/// has a value, and it is its own.
pub proof fn law_values_are_their_own(value: JsonView, text: Seq<char>, n: u64)
    ensures
        value.text() == Some(text) <==> value == JsonView::Text(text),
        value.unsigned() == Some(n) <==> value == JsonView::Number(NumberView::Unsigned(n)),
{
}

/// The keys of an object are those of its members, in order; no other value has
/// any.
pub proof fn law_keys_are_those_of_the_members(json: JsonView, i: int)
    ensures
        match json {
            JsonView::Object(members) => keys_of(json).len() == members.len() && (0 <= i
                < members.len() ==> keys_of(json)[i] == members[i].0),
            _ => keys_of(json).len() == 0,
        },
{
}

/// What a value says is all that it holds, at every level: an array its items in
/// order, an object its members in order, each with its key.
pub proof fn law_values_are_seen_whole(json: Json, i: int)
    ensures
        match json {
            Json::Null => json@ is Null,
            Json::Bool(b) => json@ == JsonView::Bool(b),
            Json::Number(JsonNumber::Unsigned(n)) => json@ == JsonView::Number(
                NumberView::Unsigned(n),
            ),
            Json::Number(JsonNumber::Negative(n)) => json@ == JsonView::Number(
                NumberView::Negative(n),
            ),
            Json::Number(JsonNumber::Other(text)) => json@ == JsonView::Number(
                NumberView::Other(text@),
            ),
            Json::Text(text) => json@ == JsonView::Text(text@),
            Json::Array(items) => json@ matches JsonView::Array(seen) && seen.len() == items@.len()
                && (0 <= i < seen.len() ==> seen[i] == items@[i]@) && seen == items_view(items@),
            Json::Object(members) => json@ matches JsonView::Object(seen) && seen.len()
                == members@.len() && (0 <= i < seen.len() ==> seen[i].0 == members@[i].0@
                && seen[i].1 == members@[i].1@) && seen == members_view(members@),
        },
{
    broadcast use {lemma_array_view, lemma_object_view};
}

/// The type `serde_json::Value`, which only the wrappers look into.
#[verifier::external_type_specification]
#[verifier::external_body]
pub struct ExValue(serde_json::Value);

/// The text that `serde_json` writes for a value.
pub uninterp spec fn json_text(json: JsonView) -> Seq<char>;

/// The same value as a `serde_json::Value`. Nothing is claimed of it: the
/// wrappers that hand it to an outside function name that function's result by
/// the value they were given.
#[verifier::external_body]
pub(crate) fn to_value(json: &Json) -> Value {
    match json {
        Json::Null => Value::Null,
        Json::Bool(b) => Value::Bool(*b),
        Json::Number(JsonNumber::Unsigned(n)) => Value::from(*n),
        Json::Number(JsonNumber::Negative(n)) => Value::from(*n),
        Json::Number(JsonNumber::Other(text)) => text.parse().map_or(Value::Null, Value::Number),
        Json::Text(text) => Value::String(text.clone()),
        Json::Array(items) => items.iter().map(to_value).collect(),
        Json::Object(members) => members.iter().map(|(k, v)| (k.clone(), to_value(v))).collect(),
    }
}

/// `serde_json::Value::to_string` writes the value as compact JSON. Its text
/// depends on the value alone and is named [`json_text`].
#[verifier::external_body]
pub(crate) fn write_json(json: &Json) -> (text: String)
    ensures
        text@ == json_text(json@),
{
    to_value(json).to_string()
}

} // verus!
