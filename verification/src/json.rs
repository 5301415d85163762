//! JSON values as plain data.
//!
//! Parsing is done by `serde_json`. What it returns is turned, one for one,
//! into a tree of this crate's own, so that the logic that reads frames works
//! on data that contracts can speak of.
use vstd::prelude::*;

verus! {

/// A JSON value.
#[derive(Debug, PartialEq, Eq)]
pub enum Json {
    Null,
    Bool(bool),
    /// A number, held as its JSON text.
    Number(String),
    Str(String),
    Array(Vec<Json>),
    /// An object: its members, each a key and a value, in order.
    Object(Vec<(String, Json)>),
}

/// A JSON value, as contracts see it.
pub enum JsonView {
    Null,
    Bool(bool),
    Number(Seq<char>),
    Str(Seq<char>),
    Array(Seq<JsonView>),
    Object(Seq<(Seq<char>, JsonView)>),
}

/// What a value is to contracts.
pub open spec fn json_view(json: Json) -> JsonView
    decreases json,
{
    match json {
        Json::Null => JsonView::Null,
        Json::Bool(b) => JsonView::Bool(b),
        Json::Number(text) => JsonView::Number(text@),
        Json::Str(text) => JsonView::Str(text@),
        Json::Array(items) => JsonView::Array(items_view(items@)),
        Json::Object(members) => JsonView::Object(members_view(members@)),
    }
}

/// The views of the items of an array, in order.
pub open spec fn items_view(items: Seq<Json>) -> Seq<JsonView>
    decreases items,
{
    if items.len() == 0 {
        Seq::empty()
    } else {
        items_view(items.drop_last()).push(json_view(items.last()))
    }
}

/// The views of the members of an object, in order.
pub open spec fn members_view(members: Seq<(String, Json)>) -> Seq<(Seq<char>, JsonView)>
    decreases members,
{
    if members.len() == 0 {
        Seq::empty()
    } else {
        members_view(members.drop_last()).push((members.last().0@, json_view(members.last().1)))
    }
}

/// `items_view` views item by item.
pub proof fn lemma_items_view(items: Seq<Json>)
    ensures
        items_view(items).len() == items.len(),
        forall|i: int| 0 <= i < items.len() ==> #[trigger] items_view(items)[i] == json_view(items[i]),
    decreases items.len(),
{
    if items.len() > 0 {
        lemma_items_view(items.drop_last());
    }
}

/// `members_view` views member by member.
pub proof fn lemma_members_view(members: Seq<(String, Json)>)
    ensures
        members_view(members).len() == members.len(),
        forall|i: int|
            0 <= i < members.len() ==> #[trigger] members_view(members)[i] == (
                members[i].0@,
                json_view(members[i].1),
            ),
    decreases members.len(),
{
    if members.len() > 0 {
        lemma_members_view(members.drop_last());
    }
}

impl View for Json {
    type V = JsonView;

    open spec fn view(&self) -> JsonView {
        json_view(*self)
    }
}

impl Clone for Json {
    fn clone(&self) -> (copy: Self)
        ensures
            copy@ == self@,
    {
        self.duplicate()
    }
}

impl DeepView for Json {
    type V = JsonView;

    open spec fn deep_view(&self) -> JsonView {
        self@
    }
}

/// The value of the first member with the given key, from position `from`
/// on.
pub open spec fn member_from(members: Seq<(Seq<char>, JsonView)>, key: Seq<char>, from: int)
    -> Option<JsonView>
    decreases members.len() - from,
{
    if from < 0 || from >= members.len() {
        None
    } else if members[from].0 == key {
        Some(members[from].1)
    } else {
        member_from(members, key, from + 1)
    }
}

/// The number that a text of decimal digits stands for. Only meant for
/// such texts.
pub open spec fn digits_value(text: Seq<char>) -> nat
    decreases text.len(),
{
    if text.len() == 0 {
        0
    } else {
        digits_value(text.drop_last()) * 10 + (text.last() as nat - '0' as nat) as nat
    }
}

/// The text consists of decimal digits, at least one.
pub open spec fn is_digits(text: Seq<char>) -> bool {
    &&& text.len() > 0
    &&& forall|i: int| 0 <= i < text.len() ==> '0' <= #[trigger] text[i] <= '9'
}

/// The position of the first member with the given key, at or after
/// `from`.
pub open spec fn member_position(members: Seq<(Seq<char>, JsonView)>, key: Seq<char>, from: int)
    -> Option<int>
    decreases members.len() - from,
{
    if from < 0 || from >= members.len() {
        None
    } else if members[from].0 == key {
        Some(from)
    } else {
        member_position(members, key, from + 1)
    }
}

impl JsonView {
    /// This value with the given member, if this is an object: the value of
    /// the first member with the key is replaced or, where there is none, the
    /// member is added behind the others. Any other value stays as it is.
    pub open spec fn with_member(self, key: Seq<char>, value: JsonView) -> JsonView {
        match self {
            JsonView::Object(members) => match member_position(members, key, 0) {
                Some(at) => JsonView::Object(members.update(at, (key, value))),
                None => JsonView::Object(members.push((key, value))),
            },
            _ => self,
        }
    }

    /// The value of the member with the given key, if this is an object
    /// that has one.
    pub open spec fn get(self, key: Seq<char>) -> Option<JsonView> {
        match self {
            JsonView::Object(members) => member_from(members, key, 0),
            _ => None,
        }
    }

    /// The text, if this is a string.
    pub open spec fn as_str(self) -> Option<Seq<char>> {
        match self {
            JsonView::Str(text) => Some(text),
            _ => None,
        }
    }

    /// The truth value, if this is one.
    pub open spec fn as_bool(self) -> Option<bool> {
        match self {
            JsonView::Bool(b) => Some(b),
            _ => None,
        }
    }

    /// The items, if this is an array.
    pub open spec fn as_array(self) -> Option<Seq<JsonView>> {
        match self {
            JsonView::Array(items) => Some(items),
            _ => None,
        }
    }

    /// The number, if this is one that is written with digits alone and is
    /// at most `u32::MAX`.
    pub open spec fn as_u32(self) -> Option<u32> {
        match self {
            JsonView::Number(text) => if is_digits(text) && digits_value(text) <= u32::MAX {
                Some(digits_value(text) as u32)
            } else {
                None
            },
            _ => None,
        }
    }

    /// The number, if this is one that is written with digits alone and is
    /// at most `u64::MAX`.
    pub open spec fn as_u64(self) -> Option<u64> {
        match self {
            JsonView::Number(text) => if is_digits(text) && digits_value(text) <= u64::MAX {
                Some(digits_value(text) as u64)
            } else {
                None
            },
            _ => None,
        }
    }

    /// The text of the string member with the given key.
    pub open spec fn get_str(self, key: Seq<char>) -> Option<Seq<char>> {
        match self.get(key) {
            Some(value) => value.as_str(),
            None => None,
        }
    }

    /// The truth value of the member with the given key.
    pub open spec fn get_bool(self, key: Seq<char>) -> Option<bool> {
        match self.get(key) {
            Some(value) => value.as_bool(),
            None => None,
        }
    }

    /// The number held by the member with the given key.
    pub open spec fn get_u32(self, key: Seq<char>) -> Option<u32> {
        match self.get(key) {
            Some(value) => value.as_u32(),
            None => None,
        }
    }
}

/// What `serde_json` makes of a text: the value that the text denotes or,
/// where the text is not one JSON value, the message of the error, with the
/// line and the column.
pub uninterp spec fn json_result_of_bytes(bytes: Seq<u8>) -> Result<JsonView, Seq<char>>;

/// The value that a text denotes, or `None` where the text is not one JSON
/// value.
pub open spec fn json_of_bytes(bytes: Seq<u8>) -> Option<JsonView> {
    match json_result_of_bytes(bytes) {
        Ok(json) => Some(json),
        Err(_) => None,
    }
}

/// What is wrong with a text that is not one JSON value.
pub open spec fn json_error_of_bytes(bytes: Seq<u8>) -> Seq<char> {
    match json_result_of_bytes(bytes) {
        Ok(_) => Seq::empty(),
        Err(message) => message,
    }
}

/// `serde_json::Value`: what the parser returns. Nothing inside it is
/// visible to contracts.
#[verifier::external_type_specification]
#[verifier::external_body]
pub struct ExValue(serde_json::Value);

/// Moves a `serde_json::Value` into a [`Json`], variant by variant. A number
/// becomes the text that `serde_json` prints for it, an object the list of
/// its members in the order in which `serde_json` holds them.
#[verifier::external_body]
fn json_from_value(value: serde_json::Value) -> Json {
    match value {
        serde_json::Value::Null => Json::Null,
        serde_json::Value::Bool(b) => Json::Bool(b),
        serde_json::Value::Number(n) => Json::Number(n.to_string()),
        serde_json::Value::String(s) => Json::Str(s),
        serde_json::Value::Array(a) => Json::Array(a.into_iter().map(json_from_value).collect()),
        serde_json::Value::Object(m) => Json::Object(
            m.into_iter().map(|(k, v)| (k, json_from_value(v))).collect(),
        ),
    }
}

/// Calls `serde_json::from_slice`: parses the bytes as one JSON value.
///
/// The result depends on the bytes alone. An error is returned as the
/// message that `serde_json` prints for it.
#[verifier::external_body]
pub(crate) fn parse_json(bytes: &[u8]) -> (parsed: Result<Json, String>)
    ensures
        match parsed {
            Ok(json) => json_result_of_bytes(bytes@) == Ok::<JsonView, Seq<char>>(json@),
            Err(message) => json_result_of_bytes(bytes@) == Err::<JsonView, Seq<char>>(message@),
        },
{
    match serde_json::from_slice::<serde_json::Value>(bytes) {
        Ok(value) => Ok(json_from_value(value)),
        Err(error) => Err(error.to_string()),
    }
}

/// The text that `serde_json` writes for a value.
pub uninterp spec fn json_text(json: JsonView) -> Seq<char>;

/// Moves a [`Json`] into a `serde_json::Value`, variant by variant. The
/// text of a number is read back by `serde_json::from_str`; a text that is
/// no number becomes `null`. Of the members of an object with one key,
/// `serde_json` keeps the last.
#[verifier::external_body]
fn value_from_json(json: &Json) -> serde_json::Value {
    match json {
        Json::Null => serde_json::Value::Null,
        Json::Bool(b) => serde_json::Value::Bool(*b),
        Json::Number(n) => serde_json::from_str::<serde_json::Number>(n).map_or(
            serde_json::Value::Null,
            serde_json::Value::Number,
        ),
        Json::Str(s) => serde_json::Value::String(s.clone()),
        Json::Array(a) => serde_json::Value::Array(a.iter().map(value_from_json).collect()),
        Json::Object(m) => serde_json::Value::Object(
            m.iter().map(|(k, v)| (k.clone(), value_from_json(v))).collect(),
        ),
    }
}

/// Calls `serde_json::to_string`: writes the value as compact JSON text.
///
/// The text depends on the value alone.
#[verifier::external_body]
pub(crate) fn json_to_text(json: &Json) -> (text: String)
    ensures
        text@ == json_text(json@),
{
    serde_json::to_string(&value_from_json(json)).unwrap_or_default()
}

/// What `serde_json` makes of a text of characters.
pub open spec fn json_of_text(text: Seq<char>) -> Option<JsonView> {
    json_of_bytes(vstd::utf8::encode_utf8(text))
}

/// Parses a text as one JSON value.
pub fn parse_json_text(text: &str) -> (parsed: Option<Json>)
    ensures
        parsed.deep_view() == json_of_text(text@),
{
    match parse_json(text.as_bytes()) {
        Ok(json) => Some(json),
        Err(_) => None,
    }
}

impl Json {
    /// The string with the given text.
    pub fn string(text: &str) -> (json: Json)
        ensures
            json@ == JsonView::Str(text@),
    {
        Json::Str(text.to_owned())
    }

    /// The array of the given items.
    pub fn array(items: Vec<Json>) -> (json: Json)
        ensures
            json@ == JsonView::Array(items.deep_view()),
    {
        proof {
            lemma_items_view(items@);
            assert(items_view(items@) =~= items.deep_view());
        }
        Json::Array(items)
    }

    /// The object of the given members.
    pub fn object(members: Vec<(String, Json)>) -> (json: Json)
        ensures
            json@ == JsonView::Object(members.deep_view()),
    {
        proof {
            lemma_members_view(members@);
            assert(members_view(members@) =~= members.deep_view());
        }
        Json::Object(members)
    }

    /// This value with the given member: see [`JsonView::with_member`].
    pub fn with_member(self, key: &str, value: Json) -> (json: Json)
        ensures
            json@ == self@.with_member(key@, value@),
    {
        let ghost whole = self@;
        match self {
            Json::Object(mut members) => {
                let ghost before = members@;
                proof {
                    lemma_members_view(before);
                }
                let wanted = key.to_owned();
                let mut i: usize = 0;
                while i < members.len()
                    invariant
                        i <= members.len(),
                        members@ == before,
                        wanted@ == key@,
                        whole == self@,
                        whole == JsonView::Object(members_view(before)),
                        members_view(before).len() == before.len(),
                        forall|j: int|
                            0 <= j < before.len() ==> #[trigger] members_view(before)[j] == (
                                before[j].0@,
                                before[j].1@,
                            ),
                        member_position(members_view(before), key@, 0) == member_position(
                            members_view(before),
                            key@,
                            i as int,
                        ),
                    decreases members.len() - i,
                {
                    if members[i].0 == wanted {
                        members.remove(i);
                        members.insert(i, (wanted, value));
                        proof {
                            lemma_members_view(members@);
                            assert(members_view(members@) =~= members_view(before).update(
                                i as int,
                                (key@, value@),
                            ));
                        }
                        return Json::Object(members);
                    }
                    i += 1;
                }
                members.push((wanted, value));
                proof {
                    lemma_members_view(members@);
                    assert(members_view(members@) =~= members_view(before).push((key@, value@)));
                }
                Json::Object(members)
            },
            other => other,
        }
    }

    /// The value of the member with the given key, if this is an object
    /// that has one. Of several members with one key, the first counts.
    pub fn get(&self, key: &str) -> (found: Option<&Json>)
        ensures
            found.deep_view() == self@.get(key@),
    {
        match self {
            Json::Object(members) => {
                let wanted = key.to_owned();
                let mut i: usize = 0;
                proof {
                    lemma_members_view(members@);
                }
                while i < members.len()
                    invariant
                        i <= members.len(),
                        wanted@ == key@,
                        self@ == JsonView::Object(members_view(members@)),
                        members_view(members@).len() == members@.len(),
                        forall|j: int|
                            0 <= j < members@.len() ==> #[trigger] members_view(members@)[j] == (
                                members@[j].0@,
                                members@[j].1@,
                            ),
                        member_from(members_view(members@), key@, 0) == member_from(
                            members_view(members@),
                            key@,
                            i as int,
                        ),
                    decreases members.len() - i,
                {
                    if members[i].0 == wanted {
                        return Some(&members[i].1);
                    }
                    i += 1;
                }
                None
            },
            _ => None,
        }
    }

    /// The text, if this is a string.
    pub fn as_str(&self) -> (text: Option<&String>)
        ensures
            text.deep_view() == self@.as_str(),
    {
        match self {
            Json::Str(text) => Some(text),
            _ => None,
        }
    }

    /// The truth value, if this is one.
    pub fn as_bool(&self) -> (value: Option<bool>)
        ensures
            value == self@.as_bool(),
    {
        match self {
            Json::Bool(b) => Some(*b),
            _ => None,
        }
    }

    /// The items, if this is an array.
    pub fn as_array(&self) -> (items: Option<&Vec<Json>>)
        ensures
            items.deep_view() == self@.as_array(),
    {
        match self {
            Json::Array(items) => {
                proof {
                    lemma_items_view(items@);
                    assert(items.deep_view() =~= items_view(items@));
                }
                Some(items)
            },
            _ => None,
        }
    }

    /// The number, if this is one that is written with digits alone and is
    /// at most `u64::MAX`.
    pub fn as_u64(&self) -> (value: Option<u64>)
        ensures
            value == self@.as_u64(),
    {
        match self {
            Json::Number(text) => {
                let digits = crate::text::chars_of(text.as_str());
                if digits.len() == 0 {
                    return None;
                }
                let mut total: u64 = 0;
                let mut i: usize = 0;
                while i < digits.len()
                    invariant
                        i <= digits.len(),
                        digits@ == text@,
                        self@ == JsonView::Number(digits@),
                        forall|j: int| 0 <= j < i ==> '0' <= #[trigger] digits@[j] <= '9',
                        total == digits_value(digits@.take(i as int)),
                    decreases digits.len() - i,
                {
                    let c = digits[i];
                    if c < '0' || c > '9' {
                        return None;
                    }
                    let d: u64 = (c as u32 - '0' as u32) as u64;
                    proof {
                        let next = digits@.take(i as int + 1);
                        assert(next.drop_last() =~= digits@.take(i as int));
                        assert(next.last() == c);
                    }
                    if total > (u64::MAX - d) / 10 {
                        proof {
                            if is_digits(digits@) {
                                lemma_digits_value_grows(digits@, i as int + 1);
                            }
                        }
                        return None;
                    }
                    total = total * 10 + d;
                    i += 1;
                }
                proof {
                    assert(digits@.take(i as int) =~= digits@);
                }
                Some(total)
            },
            _ => None,
        }
    }

    /// The number, if this is one that is written with digits alone and is
    /// at most `u32::MAX`.
    pub fn as_u32(&self) -> (value: Option<u32>)
        ensures
            value == self@.as_u32(),
    {
        match self.as_u64() {
            Some(wide) => {
                if wide <= u32::MAX as u64 {
                    Some(wide as u32)
                } else {
                    None
                }
            },
            None => {
                proof {
                    if let JsonView::Number(text) = self@ {
                        if is_digits(text) {
                            assert(digits_value(text) > u64::MAX);
                        }
                    }
                }
                None
            },
        }
    }

    /// This value as compact JSON text.
    pub fn to_text(&self) -> (text: String)
        ensures
            text@ == json_text(self@),
    {
        json_to_text(self)
    }

    /// The text of the string member with the given key.
    pub fn get_str(&self, key: &str) -> (text: Option<&String>)
        ensures
            text.deep_view() == self@.get_str(key@),
    {
        match self.get(key) {
            Some(value) => value.as_str(),
            None => None,
        }
    }

    /// The truth value of the member with the given key.
    pub fn get_bool(&self, key: &str) -> (value: Option<bool>)
        ensures
            value == self@.get_bool(key@),
    {
        match self.get(key) {
            Some(value) => value.as_bool(),
            None => None,
        }
    }

    /// The number held by the member with the given key.
    pub fn get_u32(&self, key: &str) -> (value: Option<u32>)
        ensures
            value == self@.get_u32(key@),
    {
        match self.get(key) {
            Some(value) => value.as_u32(),
            None => None,
        }
    }

    /// A copy of this value.
    pub fn duplicate(&self) -> (copy: Json)
        ensures
            copy@ == self@,
        decreases self,
    {
        match self {
            Json::Null => Json::Null,
            Json::Bool(b) => Json::Bool(*b),
            Json::Number(text) => Json::Number(text.clone()),
            Json::Str(text) => Json::Str(text.clone()),
            Json::Array(items) => {
                let mut copies: Vec<Json> = Vec::new();
                let mut i: usize = 0;
                while i < items.len()
                    invariant
                        i <= items.len(),
                        copies@.len() == i,
                        *self == Json::Array(*items),
                        forall|j: int| 0 <= j < i ==> #[trigger] copies@[j]@ == items@[j]@,
                    decreases items.len() - i,
                {
                    proof {
                        assert(decreases_to!(*self => self->Array_0));
                        assert(decreases_to!(*items => items@));
                        assert(decreases_to!(items@ => items@[i as int]));
                    }
                    copies.push(items[i].duplicate());
                    i += 1;
                }
                proof {
                    lemma_items_view(items@);
                    lemma_items_view(copies@);
                    assert forall|j: int| 0 <= j < items@.len() implies items_view(copies@)[j]
                        == items_view(items@)[j] by {
                        assert(copies@[j]@ == items@[j]@);
                    }
                    assert(items_view(copies@) =~= items_view(items@));
                }
                Json::Array(copies)
            },
            Json::Object(members) => {
                let mut copies: Vec<(String, Json)> = Vec::new();
                let mut i: usize = 0;
                while i < members.len()
                    invariant
                        i <= members.len(),
                        copies@.len() == i,
                        *self == Json::Object(*members),
                        forall|j: int|
                            0 <= j < i ==> #[trigger] copies@[j].0@ == members@[j].0@
                                && copies@[j].1@ == members@[j].1@,
                    decreases members.len() - i,
                {
                    proof {
                        assert(decreases_to!(*self => self->Object_0));
                        assert(decreases_to!(*members => members@));
                        assert(decreases_to!(members@ => members@[i as int]));
                        assert(decreases_to!(members@[i as int] => members@[i as int].1));
                    }
                    copies.push((members[i].0.clone(), members[i].1.duplicate()));
                    i += 1;
                }
                proof {
                    lemma_members_view(members@);
                    lemma_members_view(copies@);
                    assert(members_view(copies@) =~= members_view(members@));
                }
                Json::Object(copies)
            },
        }
    }
}

/// The value of a text of digits is at least that of any beginning of it.
proof fn lemma_digits_value_grows(text: Seq<char>, len: int)
    requires
        0 <= len <= text.len(),
        forall|j: int| 0 <= j < text.len() ==> '0' <= #[trigger] text[j] <= '9',
    ensures
        digits_value(text.take(len)) <= digits_value(text),
    decreases text.len(),
{
    if len == text.len() {
        assert(text.take(len) =~= text);
    } else {
        lemma_digits_value_grows(text.drop_last(), len);
        assert(text.drop_last().take(len) =~= text.take(len));
    }
}

} // verus!
