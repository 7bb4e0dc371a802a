//! JSON values, how their members are read and built, and their text.
//!
//! A value is modelled by a `JsonView`: a tree of plain values in which strings are sequences of
//! characters and an object is the sequence of its members.

use serde_json::Value;
use vstd::prelude::*;
use vstd::utf8::encode_utf8;
use crate::text::same;

verus! {

// ---------------------------------------------------------------------------
// Values and their model
// ---------------------------------------------------------------------------

/// A JSON number.
#[derive(Debug, PartialEq, Eq)]
pub enum Number {
    /// A whole number that is not negative.
    Unsigned(u64),
    /// A whole number below zero.
    Negative(i64),
    /// Any other number, as its shortest decimal text.
    Decimal(String),
}

/// A JSON value.
#[derive(Debug, PartialEq, Eq)]
pub enum Json {
    Null,
    Bool(bool),
    Number(Number),
    Text(String),
    Array(Vec<Json>),
    /// The members, each with its name. A value that was read from text names each member once.
    Object(Vec<(String, Json)>),
}

/// The model of a number.
#[verifier::ext_equal]
pub enum NumberView {
    Unsigned(u64),
    Negative(i64),
    Decimal(Seq<char>),
}

/// The model of a value.
#[verifier::ext_equal]
pub enum JsonView {
    Null,
    Bool(bool),
    Number(NumberView),
    Text(Seq<char>),
    Array(Seq<JsonView>),
    Object(Seq<(Seq<char>, JsonView)>),
}

impl View for Number {
    type V = NumberView;

    open spec fn view(&self) -> NumberView {
        match self {
            Number::Unsigned(n) => NumberView::Unsigned(*n),
            Number::Negative(n) => NumberView::Negative(*n),
            Number::Decimal(text) => NumberView::Decimal(text@),
        }
    }
}

/// The model of `json`.
pub open spec fn json_view(json: Json) -> JsonView
    decreases json,
{
    match json {
        Json::Null => JsonView::Null,
        Json::Bool(b) => JsonView::Bool(b),
        Json::Number(n) => JsonView::Number(n@),
        Json::Text(text) => JsonView::Text(text@),
        Json::Array(items) => JsonView::Array(
            Seq::new(
                items@.len(),
                |i: int|
                    if 0 <= i < items@.len() {
                        json_view(items@[i])
                    } else {
                        JsonView::Null
                    },
            ),
        ),
        Json::Object(members) => JsonView::Object(
            Seq::new(
                members@.len(),
                |i: int|
                    if 0 <= i < members@.len() {
                        (members@[i].0@, json_view(members@[i].1))
                    } else {
                        (Seq::empty(), JsonView::Null)
                    },
            ),
        ),
    }
}

impl View for Json {
    type V = JsonView;

    open spec fn view(&self) -> JsonView {
        json_view(*self)
    }
}

/// The model of a list of members.
pub open spec fn members_view(members: Seq<(String, Json)>) -> Seq<(Seq<char>, JsonView)> {
    Seq::new(members.len(), |i: int| (members[i].0@, members[i].1@))
}

/// The model of a list of values.
pub open spec fn items_view(items: Seq<Json>) -> Seq<JsonView> {
    Seq::new(items.len(), |i: int| items[i]@)
}

proof fn lemma_container_views(json: Json)
    ensures
        json matches Json::Array(items) ==> json@ == JsonView::Array(items_view(items@)),
        json matches Json::Object(members) ==> json@ == JsonView::Object(members_view(members@)),
{
    match json {
        Json::Array(items) => {
            assert(json@->Array_0 =~= items_view(items@));
        },
        Json::Object(members) => {
            assert(json@->Object_0 =~= members_view(members@));
        },
        _ => {},
    }
}

impl Clone for Number {
    fn clone(&self) -> (copy: Number)
        ensures
            copy@ == self@,
    {
        match self {
            Number::Unsigned(n) => Number::Unsigned(*n),
            Number::Negative(n) => Number::Negative(*n),
            Number::Decimal(text) => Number::Decimal(text.clone()),
        }
    }
}

impl Clone for Json {
    fn clone(&self) -> (copy: Json)
        ensures
            copy@ == self@,
        decreases *self,
    {
        proof {
            lemma_container_views(*self);
        }
        match self {
            Json::Null => Json::Null,
            Json::Bool(b) => Json::Bool(*b),
            Json::Number(n) => Json::Number(n.clone()),
            Json::Text(text) => Json::Text(text.clone()),
            Json::Array(items) => {
                let mut copy: Vec<Json> = Vec::new();
                let mut i: usize = 0;
                while i < items.len()
                    invariant
                        i <= items@.len(),
                        copy@.len() == i,
                        *self == Json::Array(*items),
                        forall|j: int| 0 <= j < i ==> (#[trigger] copy@[j])@ == items@[j]@,
                    decreases items@.len() - i,
                {
                    assert(decreases_to!(*self => self->Array_0));
                    assert(decreases_to!(*items => items@[i as int]));
                    copy.push(items[i].clone());
                    i += 1;
                }
                assert(items_view(copy@) =~= items_view(items@));
                let result = Json::Array(copy);
                proof {
                    lemma_container_views(result);
                }
                result
            },
            Json::Object(members) => {
                let mut copy: Vec<(String, Json)> = Vec::new();
                let mut i: usize = 0;
                while i < members.len()
                    invariant
                        i <= members@.len(),
                        copy@.len() == i,
                        *self == Json::Object(*members),
                        forall|j: int|
                            0 <= j < i ==> (#[trigger] copy@[j]).0@ == members@[j].0@ && copy@[j].1@
                                == members@[j].1@,
                    decreases members@.len() - i,
                {
                    let name = members[i].0.clone();
                    assert(decreases_to!(*self => self->Object_0));
                    assert(decreases_to!(*members => members@[i as int]));
                    assert(decreases_to!(members@[i as int] => members@[i as int].1));
                    let value = members[i].1.clone();
                    copy.push((name, value));
                    i += 1;
                }
                assert(members_view(copy@) =~= members_view(members@));
                let result = Json::Object(copy);
                proof {
                    lemma_container_views(result);
                }
                result
            },
        }
    }
}

// ---------------------------------------------------------------------------
// Reading members
// ---------------------------------------------------------------------------

/// The value of the member `name`; where a name occurs more than once the last occurrence counts.
pub open spec fn member(members: Seq<(Seq<char>, JsonView)>, name: Seq<char>) -> Option<JsonView>
    decreases members.len(),
{
    if members.len() == 0 {
        None
    } else if members.last().0 == name {
        Some(members.last().1)
    } else {
        member(members.drop_last(), name)
    }
}

/// `members` with the value of `name` replaced, or with a new member at the end.
pub open spec fn with_member(
    members: Seq<(Seq<char>, JsonView)>,
    name: Seq<char>,
    value: JsonView,
) -> Seq<(Seq<char>, JsonView)>
    decreases members.len(),
{
    if members.len() == 0 {
        seq![(name, value)]
    } else if members.last().0 == name {
        members.drop_last().push((name, value))
    } else if member(members, name) is None {
        members.push((name, value))
    } else {
        with_member(members.drop_last(), name, value).push(members.last())
    }
}

impl JsonView {
    /// The member `name`, where the value is an object that has one.
    pub open spec fn get(self, name: Seq<char>) -> Option<JsonView> {
        match self {
            JsonView::Object(members) => member(members, name),
            _ => None,
        }
    }

    /// The characters, where the value is a string.
    pub open spec fn text(self) -> Option<Seq<char>> {
        match self {
            JsonView::Text(text) => Some(text),
            _ => None,
        }
    }

    /// The truth value, where the value is one.
    pub open spec fn flag(self) -> Option<bool> {
        match self {
            JsonView::Bool(b) => Some(b),
            _ => None,
        }
    }

    /// The number, where the value is a whole number that is not negative.
    pub open spec fn unsigned(self) -> Option<u64> {
        match self {
            JsonView::Number(NumberView::Unsigned(n)) => Some(n),
            _ => None,
        }
    }

    /// The number, where the value is a whole number that fits in 64 bits with a sign.
    pub open spec fn signed(self) -> Option<i64> {
        match self {
            JsonView::Number(NumberView::Unsigned(n)) => if n <= i64::MAX {
                Some(n as i64)
            } else {
                None
            },
            JsonView::Number(NumberView::Negative(n)) => Some(n),
            _ => None,
        }
    }

    /// The members, where the value is an object.
    pub open spec fn members(self) -> Option<Seq<(Seq<char>, JsonView)>> {
        match self {
            JsonView::Object(members) => Some(members),
            _ => None,
        }
    }
}

/// The model of a value that may be missing.
pub open spec fn optional_view(value: Option<&Json>) -> Option<JsonView> {
    match value {
        Some(json) => Some(json@),
        None => None,
    }
}

/// The characters of a string that may be missing.
pub open spec fn optional_text(value: Option<&str>) -> Option<Seq<char>> {
    match value {
        Some(text) => Some(text@),
        None => None,
    }
}

/// The characters of an owned string that may be missing.
pub open spec fn optional_string(value: Option<String>) -> Option<Seq<char>> {
    match value {
        Some(text) => Some(text@),
        None => None,
    }
}

/// The characters of a value that is there and is a string.
pub open spec fn text_of(value: Option<JsonView>) -> Option<Seq<char>> {
    match value {
        Some(json) => json.text(),
        None => None,
    }
}

/// The truth value of a value that is there and is one.
pub open spec fn flag_of(value: Option<JsonView>) -> Option<bool> {
    match value {
        Some(json) => json.flag(),
        None => None,
    }
}

/// The number of a value that is there and is one without a sign.
pub open spec fn unsigned_of(value: Option<JsonView>) -> Option<u64> {
    match value {
        Some(json) => json.unsigned(),
        None => None,
    }
}

/// The number of a value that is there and is an integer.
pub open spec fn signed_of(value: Option<JsonView>) -> Option<i64> {
    match value {
        Some(json) => json.signed(),
        None => None,
    }
}

/// `value`, or null where there is none.
pub open spec fn or_null(value: Option<JsonView>) -> JsonView {
    match value {
        Some(json) => json,
        None => JsonView::Null,
    }
}

/// The truth value of a value that is there and is one.
pub fn flag_in(value: Option<&Json>) -> (flag: Option<bool>)
    ensures
        flag == flag_of(optional_view(value)),
{
    match value {
        Some(json) => json.as_bool(),
        None => None,
    }
}

/// A copy of a value that may be missing, else null.
pub fn copy_or_null(value: Option<&Json>) -> (json: Json)
    ensures
        json@ == or_null(optional_view(value)),
{
    match value {
        Some(found) => found.clone(),
        None => Json::Null,
    }
}

/// Whether a truth value is there and is `wanted`.
pub fn is_flag(flag: Option<bool>, wanted: bool) -> (answer: bool)
    ensures
        answer == (flag == Some(wanted)),
{
    match flag {
        Some(b) => b == wanted,
        None => false,
    }
}

/// Appending a member shadows earlier ones of its name and leaves the others.
pub broadcast proof fn lemma_member_push(
    members: Seq<(Seq<char>, JsonView)>,
    added: (Seq<char>, JsonView),
    name: Seq<char>,
)
    ensures
        #[trigger] member(members.push(added), name) == if added.0 == name {
            Some(added.1)
        } else {
            member(members, name)
        },
{
    assert(members.push(added).drop_last() =~= members);
}

/// What was stored under a name is read back, and every other name keeps its value.
pub proof fn law_member_reads_back(
    members: Seq<(Seq<char>, JsonView)>,
    name: Seq<char>,
    value: JsonView,
    other: Seq<char>,
)
    ensures
        member(with_member(members, name, value), name) == Some(value),
        other != name ==> member(with_member(members, name, value), other) == member(
            members,
            other,
        ),
    decreases members.len(),
{
    broadcast use lemma_member_push;

    if members.len() == 0 {
        assert(seq![(name, value)] =~= Seq::<(Seq<char>, JsonView)>::empty().push((name, value)));
        assert(member(Seq::<(Seq<char>, JsonView)>::empty(), other) is None);
    } else {
        assert(members =~= members.drop_last().push(members.last()));
        if members.last().0 != name && member(members, name) is Some {
            law_member_reads_back(members.drop_last(), name, value, other);
        }
    }
}

/// The member `name` of an object's members.
pub fn get_member<'a>(members: &'a Vec<(String, Json)>, name: &str) -> (value: Option<&'a Json>)
    ensures
        optional_view(value) == member(members_view(members@), name@),
{
    let mut i: usize = members.len();
    let ghost all = members_view(members@);
    assert(all.take(i as int) =~= all);
    while i > 0
        invariant
            i <= members@.len(),
            all == members_view(members@),
            member(all.take(i as int), name@) == member(all, name@),
        decreases i,
    {
        assert(all.take(i as int).drop_last() =~= all.take(i - 1));
        i -= 1;
        if same(members[i].0.as_str(), name) {
            return Some(&members[i].1);
        }
    }
    None
}

/// Stores `value` under `name`.
pub fn set_member(members: &mut Vec<(String, Json)>, name: &str, value: Json)
    ensures
        members_view(final(members)@) == with_member(members_view(old(members)@), name@, value@),
{
    let ghost all = members_view(members@);
    let total: usize = members.len();
    let mut i: usize = total;
    assert(all.take(i as int) =~= all);
    while i > 0
        invariant
            i <= total,
            total == members@.len(),
            *members == *old(members),
            all == members_view(members@),
            member(all.take(i as int), name@) == member(all, name@),
            member(all, name@) is Some ==> with_member(all, name@, value@) =~= with_member(
                all.take(i as int),
                name@,
                value@,
            ) + all.skip(i as int),
            forall|j: int| i <= j < total ==> (#[trigger] all[j]).0 != name@,
        decreases i,
    {
        let ghost prefix = all.take(i as int);
        assert(prefix.drop_last() =~= all.take(i - 1));
        assert(prefix.last() == all[i - 1]);
        i -= 1;
        if same(members[i].0.as_str(), name) {
            let key = name.to_owned();
            members.set(i, (key, value));
            assert(members_view(members@) =~= all.update(i as int, (name@, value@)));
            assert(with_member(prefix, name@, value@) =~= all.take(i as int).push((name@, value@)));
            return;
        }
        assert(all.skip(i as int) =~= seq![all[i as int]] + all.skip(i + 1));
    }
    assert(all.take(0) =~= Seq::<(Seq<char>, JsonView)>::empty());
    let key = name.to_owned();
    members.push((key, value));
    assert(members_view(members@) =~= all.push((name@, value@)));
    assert(all.len() == 0 ==> all.push((name@, value@)) =~= seq![(name@, value@)]);
}

impl Json {
    /// The member `name`, where the value is an object that has one.
    pub fn get(&self, name: &str) -> (value: Option<&Json>)
        ensures
            optional_view(value) == self@.get(name@),
    {
        proof {
            lemma_container_views(*self);
        }
        match self {
            Json::Object(members) => get_member(members, name),
            _ => None,
        }
    }

    /// The characters, where the value is a string.
    pub fn as_str(&self) -> (text: Option<&str>)
        ensures
            optional_text(text) == self@.text(),
    {
        match self {
            Json::Text(text) => Some(text.as_str()),
            _ => None,
        }
    }

    /// The truth value, where the value is one.
    pub fn as_bool(&self) -> (flag: Option<bool>)
        ensures
            flag == self@.flag(),
    {
        match self {
            Json::Bool(b) => Some(*b),
            _ => None,
        }
    }

    /// The number, where the value is a whole number that is not negative.
    pub fn as_u64(&self) -> (number: Option<u64>)
        ensures
            number == self@.unsigned(),
    {
        match self {
            Json::Number(Number::Unsigned(n)) => Some(*n),
            _ => None,
        }
    }

    /// The number, where the value is a whole number that fits in 64 bits with a sign.
    pub fn as_i64(&self) -> (number: Option<i64>)
        ensures
            number == self@.signed(),
    {
        match self {
            Json::Number(Number::Unsigned(n)) => if *n <= i64::MAX as u64 {
                Some(*n as i64)
            } else {
                None
            },
            Json::Number(Number::Negative(n)) => Some(*n),
            _ => None,
        }
    }

    /// The members, where the value is an object.
    pub fn as_object(&self) -> (members: Option<&Vec<(String, Json)>>)
        ensures
            match members {
                Some(list) => self@ == JsonView::Object(members_view(list@)),
                None => !(self@ is Object),
            },
    {
        proof {
            lemma_container_views(*self);
        }
        match self {
            Json::Object(members) => Some(members),
            _ => None,
        }
    }

    /// Takes the members out, where the value is an object.
    pub fn into_object(self) -> (members: Option<Vec<(String, Json)>>)
        ensures
            match members {
                Some(list) => self@ == JsonView::Object(members_view(list@)),
                None => !(self@ is Object),
            },
    {
        proof {
            lemma_container_views(self);
        }
        match self {
            Json::Object(members) => Some(members),
            _ => None,
        }
    }

    /// The items, where the value is an array.
    pub fn as_array(&self) -> (items: Option<&Vec<Json>>)
        ensures
            match items {
                Some(list) => self@ == JsonView::Array(items_view(list@)),
                None => !(self@ is Array),
            },
    {
        proof {
            lemma_container_views(*self);
        }
        match self {
            Json::Array(items) => Some(items),
            _ => None,
        }
    }

    /// A truth value.
    pub fn flag(b: bool) -> (json: Json)
        ensures
            json@ == JsonView::Bool(b),
    {
        Json::Bool(b)
    }

    /// A string value that takes the string over.
    pub fn owned(text: String) -> (json: Json)
        ensures
            json@ == JsonView::Text(text@),
    {
        Json::Text(text)
    }

    /// A string value.
    pub fn text(text: &str) -> (json: Json)
        ensures
            json@ == JsonView::Text(text@),
    {
        Json::Text(text.to_owned())
    }

    /// A whole number that is not negative.
    pub fn unsigned(n: u64) -> (json: Json)
        ensures
            json@ == JsonView::Number(NumberView::Unsigned(n)),
    {
        Json::Number(Number::Unsigned(n))
    }

    /// A whole number with a sign.
    pub fn signed(n: i64) -> (json: Json)
        ensures
            json@ == signed_number(n),
    {
        if n < 0 {
            Json::Number(Number::Negative(n))
        } else {
            Json::Number(Number::Unsigned(n as u64))
        }
    }

    /// An array of the given values.
    pub fn array(items: Vec<Json>) -> (json: Json)
        ensures
            json@ == JsonView::Array(items_view(items@)),
    {
        let json = Json::Array(items);
        proof {
            lemma_container_views(json);
        }
        json
    }

    /// An object of the given members.
    pub fn object(members: Vec<(String, Json)>) -> (json: Json)
        ensures
            json@ == JsonView::Object(members_view(members@)),
    {
        let json = Json::Object(members);
        proof {
            lemma_container_views(json);
        }
        json
    }
}

/// The value of a whole number with a sign.
pub open spec fn signed_number(n: i64) -> JsonView {
    if n < 0 {
        JsonView::Number(NumberView::Negative(n))
    } else {
        JsonView::Number(NumberView::Unsigned(n as u64))
    }
}

/// The members of the empty object.
pub open spec fn no_members() -> Seq<(Seq<char>, JsonView)> {
    Seq::empty()
}

/// Collects the members of an object one by one.
pub struct Fields {
    pub members: Vec<(String, Json)>,
}

impl View for Fields {
    type V = Seq<(Seq<char>, JsonView)>;

    open spec fn view(&self) -> Seq<(Seq<char>, JsonView)> {
        members_view(self.members@)
    }
}

impl Fields {
    /// No members.
    pub fn new() -> (fields: Fields)
        ensures
            fields@ == no_members(),
    {
        let fields = Fields { members: Vec::new() };
        assert(fields@ =~= Seq::<(Seq<char>, JsonView)>::empty());
        fields
    }

    /// One member more.
    pub fn with(self, name: &str, value: Json) -> (fields: Fields)
        ensures
            fields@ == self@.push((name@, value@)),
    {
        let ghost before = self@;
        let mut members = self.members;
        members.push((name.to_owned(), value));
        let fields = Fields { members };
        assert(fields@ =~= before.push((name@, value@)));
        fields
    }

    /// The object of the members.
    pub fn done(self) -> (json: Json)
        ensures
            json@ == JsonView::Object(self@),
    {
        Json::object(self.members)
    }
}

// ---------------------------------------------------------------------------
// Text
// ---------------------------------------------------------------------------

/// What `serde_json::from_str` reads from a text: the value, or the words of its error.
pub uninterp spec fn parsed_json(text: Seq<char>) -> Result<JsonView, Seq<char>>;

/// What `serde_json::from_slice` reads from bytes: the value, or the words of its error.
pub uninterp spec fn parsed_json_bytes(bytes: Seq<u8>) -> Result<JsonView, Seq<char>>;

/// The compact text that `serde_json` gives of a value.
pub uninterp spec fn json_text(value: JsonView) -> Seq<char>;

/// The indented text that `serde_json::to_string_pretty` gives of a value.
pub uninterp spec fn json_pretty_text(value: JsonView) -> Seq<char>;

/// Whether a value is what some text reads as.
pub open spec fn is_read(value: JsonView) -> bool {
    exists|text: Seq<char>| #[trigger] parsed_json(text) == Ok::<JsonView, Seq<char>>(value)
}

/// Whether `text` is the compact text of `value`: it holds no character below the space, and where
/// the value was read from text, no other value that was read from text has the same.
pub open spec fn is_compact_text(text: Seq<char>, value: JsonView) -> bool {
    &&& text == json_text(value)
    &&& forall|i: int| 0 <= i < text.len() ==> ' ' <= #[trigger] text[i]
    &&& is_read(value) ==> forall|other: JsonView|
        is_read(other) && #[trigger] json_text(other) == text ==> other == value
}

/// The value type of `serde_json`.
#[verifier::external_type_specification]
#[verifier::external_body]
pub struct ExValue(serde_json::Value);

/// A `serde_json` value as a value of this library: each variant becomes the one of the same
/// meaning, and a number that is not whole keeps the decimal text that `serde_json` prints.
#[verifier::external_body]
fn json_of(value: Value) -> Json {
    match value {
        Value::Null => Json::Null,
        Value::Bool(b) => Json::Bool(b),
        Value::Number(n) => Json::Number(match (n.as_u64(), n.as_i64()) {
            (Some(whole), _) => Number::Unsigned(whole),
            (None, Some(whole)) => Number::Negative(whole),
            (None, None) => Number::Decimal(n.to_string()),
        }),
        Value::String(text) => Json::Text(text),
        Value::Array(items) => Json::Array(items.into_iter().map(json_of).collect()),
        Value::Object(map) => Json::Object(map.into_iter().map(|m| (m.0, json_of(m.1))).collect()),
    }
}

/// A value of this library as a `serde_json` value: each variant becomes the one of the same
/// meaning.
#[verifier::external_body]
fn value_of(json: &Json) -> Value {
    match json {
        Json::Null => Value::Null,
        Json::Bool(b) => Value::Bool(*b),
        Json::Number(Number::Unsigned(n)) => Value::from(*n),
        Json::Number(Number::Negative(n)) => Value::from(*n),
        Json::Number(Number::Decimal(t)) => t.parse().ok().and_then(serde_json::Number::from_f64)
            .map_or(Value::Null, Value::Number),
        Json::Text(text) => Value::String(text.clone()),
        Json::Array(items) => Value::Array(items.iter().map(value_of).collect()),
        Json::Object(list) => Value::Object(list.iter().map(|m| (m.0.clone(), value_of(&m.1))).collect()),
    }
}

/// Reads a value from text with `serde_json::from_str`. What is read depends on the text alone.
#[verifier::external_body]
fn read_text(text: &str) -> (result: Result<Json, String>)
    ensures
        match result {
            Ok(json) => parsed_json(text@) == Ok::<JsonView, Seq<char>>(json@),
            Err(message) => parsed_json(text@) == Err::<JsonView, Seq<char>>(message@),
        },
{
    serde_json::from_str(text).map(json_of).map_err(|error| error.to_string())
}

/// Reads a value from bytes with `serde_json::from_slice`. What is read depends on the bytes alone.
#[verifier::external_body]
fn read_bytes(bytes: &[u8]) -> (result: Result<Json, String>)
    ensures
        match result {
            Ok(json) => parsed_json_bytes(bytes@) == Ok::<JsonView, Seq<char>>(json@),
            Err(message) => parsed_json_bytes(bytes@) == Err::<JsonView, Seq<char>>(message@),
        },
{
    serde_json::from_slice(bytes).map(json_of).map_err(|error| error.to_string())
}

/// The compact text of a value, which `serde_json::Value` prints through `Display`. It holds no
/// character below the space (those are escaped), and two values that were read from text have
/// the same compact text only if they are the same.
#[verifier::external_body]
fn print_compact(json: &Json) -> (text: String)
    ensures
        is_compact_text(text@, json@),
{
    value_of(json).to_string()
}

/// The compact text of a value in UTF-8, from `serde_json::to_vec`. Writing a `serde_json::Value`
/// to memory does not fail; the bytes are those of the text that `Display` prints, and none of
/// them is a control character.
#[verifier::external_body]
fn print_bytes(json: &Json) -> (result: Result<Vec<u8>, String>)
    ensures
        result is Ok,
        result->Ok_0@ == encode_utf8(json_text(json@)),
        forall|i: int| 0 <= i < result->Ok_0@.len() ==> 32 <= #[trigger] result->Ok_0@[i],
{
    serde_json::to_vec(&value_of(json)).map_err(|error| error.to_string())
}

/// The indented text of a value, from `serde_json::to_string_pretty`, which does not fail on a
/// `serde_json::Value`.
#[verifier::external_body]
fn print_pretty(json: &Json) -> (result: Result<String, String>)
    ensures
        result is Ok,
        result->Ok_0@ == json_pretty_text(json@),
{
    serde_json::to_string_pretty(&value_of(json)).map_err(|error| error.to_string())
}

impl Json {
    /// Reads a value from text, or says what is wrong with the text.
    pub fn parse(text: &str) -> (result: Result<Json, String>)
        ensures
            match result {
                Ok(json) => parsed_json(text@) == Ok::<JsonView, Seq<char>>(json@),
                Err(message) => parsed_json(text@) == Err::<JsonView, Seq<char>>(message@),
            },
    {
        read_text(text)
    }

    /// Reads a value from bytes, or says what is wrong with them.
    pub fn parse_bytes(bytes: &[u8]) -> (result: Result<Json, String>)
        ensures
            match result {
                Ok(json) => parsed_json_bytes(bytes@) == Ok::<JsonView, Seq<char>>(json@),
                Err(message) => parsed_json_bytes(bytes@) == Err::<JsonView, Seq<char>>(message@),
            },
    {
        read_bytes(bytes)
    }

    /// The compact text of the value: one line, without control characters.
    pub fn to_text(&self) -> (text: String)
        ensures
            is_compact_text(text@, self@),
    {
        print_compact(self)
    }

    /// The compact text of the value in UTF-8.
    pub fn to_bytes(&self) -> (result: Result<Vec<u8>, String>)
        ensures
            result is Ok,
            result->Ok_0@ == encode_utf8(json_text(self@)),
            forall|i: int| 0 <= i < result->Ok_0@.len() ==> 32 <= #[trigger] result->Ok_0@[i],
    {
        print_bytes(self)
    }

    /// The indented text of the value.
    pub fn to_pretty_text(&self) -> (result: Result<String, String>)
        ensures
            result is Ok,
            result->Ok_0@ == json_pretty_text(self@),
    {
        print_pretty(self)
    }
}

// ---------------------------------------------------------------------------
// Laws
// ---------------------------------------------------------------------------

/// The member that counts is the last one of its name, and a name that no member has is not found.
pub proof fn law_last_member_of_a_name_counts(
    members: Seq<(Seq<char>, JsonView)>,
    at: int,
    name: Seq<char>,
)
    ensures
        0 <= at < members.len() && members[at].0 == name && (forall|j: int|
            at < j < members.len() ==> (#[trigger] members[j]).0 != name) ==> JsonView::Object(
            members,
        ).get(name) == Some(members[at].1),
        (forall|j: int| 0 <= j < members.len() ==> (#[trigger] members[j]).0 != name)
            ==> JsonView::Object(members).get(name) is None,
    decreases members.len(),
{
    if members.len() > 0 {
        let rest = members.drop_last();
        law_last_member_of_a_name_counts(rest, at, name);
        assert(members.last() == members[members.len() - 1]);
        assert forall|j: int| 0 <= j < rest.len() implies #[trigger] rest[j] == members[j] by {}
    }
}

/// Only an object has members, and each kind of value is read as what it is and as nothing else.
pub proof fn law_values_are_read_as_what_they_are(value: JsonView, name: Seq<char>)
    ensures
        !(value is Object) ==> value.get(name) is None && value.members() is None,
        value matches JsonView::Object(members) ==> value.members() == Some(members),
        text_of(Some(value)) == match value {
            JsonView::Text(text) => Some(text),
            _ => None,
        },
        flag_of(Some(value)) == match value {
            JsonView::Bool(flag) => Some(flag),
            _ => None,
        },
        unsigned_of(Some(value)) == match value {
            JsonView::Number(NumberView::Unsigned(number)) => Some(number),
            _ => None,
        },
        signed_of(Some(value)) == match value {
            JsonView::Number(NumberView::Unsigned(number)) => if number
                <= 9_223_372_036_854_775_807 {
                Some(number as i64)
            } else {
                None
            },
            JsonView::Number(NumberView::Negative(number)) => Some(number),
            _ => None,
        },
        or_null(Some(value)) == value,
        or_null(None) == JsonView::Null,
        text_of(None) is None && flag_of(None) is None && unsigned_of(None) is None && signed_of(
            None,
        ) is None,
{
}

/// A number with a sign reads back as itself, and one that is not negative also without a sign.
pub proof fn law_signed_numbers_read_back(number: i64)
    ensures
        signed_of(Some(signed_number(number))) == Some(number),
        number >= 0 ==> unsigned_of(Some(signed_number(number))) == Some(number as u64),
        number < 0 ==> signed_number(number) == JsonView::Number(NumberView::Negative(number)),
{
}

/// The model of a value shows it as it is, down to its items and members.
pub proof fn law_models_show_their_values(
    flag: bool,
    number: Number,
    text: String,
    items: Vec<Json>,
    members: Vec<(String, Json)>,
    i: int,
)
    ensures
        Json::Null@ == JsonView::Null,
        Json::Bool(flag)@ == JsonView::Bool(flag),
        Json::Number(number)@ == JsonView::Number(
            match number {
                Number::Unsigned(whole) => NumberView::Unsigned(whole),
                Number::Negative(whole) => NumberView::Negative(whole),
                Number::Decimal(digits) => NumberView::Decimal(digits@),
            },
        ),
        Json::Text(text)@ == JsonView::Text(text@),
        Json::Array(items)@ matches JsonView::Array(shown) && shown.len() == items@.len() && (0 <= i
            < items@.len() ==> shown[i] == items@[i]@),
        Json::Object(members)@ matches JsonView::Object(shown) && shown.len() == members@.len() && (
        0 <= i < members@.len() ==> shown[i] == (members@[i].0@, members@[i].1@)),
{
}

} // verus!
