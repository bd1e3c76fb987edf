//! JSON values as the gateway reads and writes them, and the text form that
//! `serde_json` gives them.

use crate::text::same;
use serde_json::Value;
use vstd::prelude::*;
use vstd::string::*;

verus! {

/// A number with a fraction or an exponent. It is carried as it was read.
#[derive(Debug)]
pub struct JsonFloat {
    number: serde_json::Number,
}

/// A JSON value.
#[derive(Debug)]
pub enum Json {
    Null,
    Bool(bool),
    Natural(u64),
    Integer(i64),
    Float(JsonFloat),
    Text(String),
    List(Vec<Json>),
    /// The members of an object. Of two members with one name the later counts.
    Object(Vec<(String, Json)>),
}

/// What a JSON value means: integers by their value, objects without an order.
pub enum JsonView {
    Null,
    Bool(bool),
    Integer(int),
    Float(serde_json::Number),
    Text(Seq<char>),
    List(Seq<JsonView>),
    Object(Map<Seq<char>, JsonView>),
}

/// The values of a list.
pub open spec fn list_view(items: Seq<Json>) -> Seq<JsonView>
    decreases items,
{
    if items.len() == 0 {
        Seq::empty()
    } else {
        list_view(items.drop_last()).push(items.last()@)
    }
}

/// The members of an object, a later one in place of an earlier one of the same
/// name.
pub open spec fn members_view(members: Seq<(String, Json)>) -> Map<Seq<char>, JsonView>
    decreases members,
{
    if members.len() == 0 {
        Map::empty()
    } else {
        members_view(members.drop_last()).insert(members.last().0@, members.last().1@)
    }
}

impl Json {
    pub closed spec fn float_number(f: JsonFloat) -> serde_json::Number {
        f.number
    }

    pub open spec fn view(&self) -> JsonView
        decreases self,
    {
        match self {
            Json::Null => JsonView::Null,
            Json::Bool(b) => JsonView::Bool(*b),
            Json::Natural(n) => JsonView::Integer(*n as int),
            Json::Integer(n) => JsonView::Integer(*n as int),
            Json::Float(f) => JsonView::Float(Json::float_number(*f)),
            Json::Text(s) => JsonView::Text(s@),
            Json::List(items) => JsonView::List(list_view(items@)),
            Json::Object(members) => JsonView::Object(members_view(members@)),
        }
    }
}

/// `serde_json::Number`, carried through unread.
#[verifier::external_type_specification]
#[verifier::external_body]
pub struct ExNumber(serde_json::Number);

/// `serde_json::Value`, the tree that the parser builds and the printer prints.
#[verifier::external_type_specification]
#[verifier::external_body]
pub struct ExValue(serde_json::Value);

/// The JSON value that a `serde_json::Value` holds.
pub uninterp spec fn value_view(value: serde_json::Value) -> JsonView;

/// What `serde_json::from_str` makes of a text: the value that it writes, or
/// the message of the error.
pub uninterp spec fn json_parsed(text: Seq<char>) -> Result<JsonView, Seq<char>>;

/// What `serde_json::to_string` writes for a value.
pub uninterp spec fn json_compact(value: JsonView) -> Result<Seq<char>, Seq<char>>;

/// What `serde_json::to_string_pretty` writes for a value.
pub uninterp spec fn json_pretty(value: JsonView) -> Result<Seq<char>, Seq<char>>;

/// Whether a text is read as a value.
pub open spec fn reads_as(text: Seq<char>, value: JsonView) -> bool {
    json_parsed(text) == Ok::<JsonView, Seq<char>>(value)
}

/// A member name that `serde_json` keeps for itself: with its `raw_value`
/// feature an object that starts with this member is not read as an object.
pub open spec fn reserved_name() -> Seq<char> {
    "$serde_json::private::RawValue"@
}

/// Whether a value holds no `Float` and no member with the reserved name, and
/// nests at most `depth` lists and objects.
pub open spec fn plain_within(value: JsonView, depth: nat) -> bool
    decreases depth,
{
    match value {
        JsonView::Float(_) => false,
        JsonView::List(items) => depth > 0 && forall|i: int|
            0 <= i < items.len() ==> plain_within(#[trigger] items[i], (depth - 1) as nat),
        JsonView::Object(members) => depth > 0 && !members.contains_key(reserved_name())
            && forall|k: Seq<char>| #[trigger]
            members.contains_key(k) ==> plain_within(members[k], (depth - 1) as nat),
        _ => true,
    }
}

/// Whether a value holds no member with the reserved name and nests at most `depth`
/// lists and objects.
pub open spec fn fits_within(value: JsonView, depth: nat) -> bool
    decreases depth,
{
    match value {
        JsonView::List(items) => depth > 0 && forall|i: int|
            0 <= i < items.len() ==> fits_within(#[trigger] items[i], (depth - 1) as nat),
        JsonView::Object(members) => depth > 0 && !members.contains_key(reserved_name())
            && forall|k: Seq<char>| #[trigger]
            members.contains_key(k) ==> fits_within(members[k], (depth - 1) as nat),
        _ => true,
    }
}

/// Whether two values are the same but for what their floating numbers are, down to
/// `depth` lists and objects inside each other.
pub open spec fn alike(a: JsonView, b: JsonView, depth: nat) -> bool
    decreases depth,
{
    ||| a == b
    ||| a is Float && b is Float
    ||| depth > 0 && match (a, b) {
        (JsonView::List(x), JsonView::List(y)) => x.len() == y.len() && forall|i: int|
            0 <= i < x.len() ==> alike(#[trigger] x[i], y[i], (depth - 1) as nat),
        (JsonView::Object(x), JsonView::Object(y)) => {
            &&& forall|k: Seq<char>| #[trigger] x.contains_key(k) <==> y.contains_key(k)
            &&& forall|k: Seq<char>| #[trigger]
                x.contains_key(k) ==> alike(x[k], y[k], (depth - 1) as nat)
        },
        _ => false,
    }
}

/// Whether what a text is read as, if it is read as anything, is alike to a value.
pub open spec fn reads_alike(text: Seq<char>, value: JsonView) -> bool {
    json_parsed(text) matches Ok(back) ==> alike(back, value, MAX_NESTING as nat)
}

/// The parser refuses more than this many lists and objects inside each other.
pub const MAX_NESTING: u64 = 127;

/// A `Result` of two strings by its characters.
pub open spec fn texts(r: Result<String, String>) -> Result<Seq<char>, Seq<char>> {
    match r {
        Ok(s) => Ok(s@),
        Err(e) => Err(e@),
    }
}

/// A `Result` of a `serde_json::Value` and an error message, by what they mean.
pub open spec fn value_texts(r: Result<serde_json::Value, String>) -> Result<JsonView, Seq<char>> {
    match r {
        Ok(value) => Ok(value_view(value)),
        Err(e) => Err(e@),
    }
}

/// A `Result` of a JSON value and an error message, by what they mean.
pub open spec fn parse_view(r: Result<Json, String>) -> Result<JsonView, Seq<char>> {
    match r {
        Ok(j) => Ok(j@),
        Err(e) => Err(e@),
    }
}

/// Calls `serde_json::from_str` for a `serde_json::Value`. The value read, or
/// the error's message, depends on the text alone.
#[verifier::external_body]
fn parse_value(text: &str) -> (r: Result<serde_json::Value, String>)
    ensures
        value_texts(r) == json_parsed(text@),
{
    serde_json::from_str::<serde_json::Value>(text).map_err(|e| e.to_string())
}

/// Calls `serde_json::to_string` on a `serde_json::Value`. It succeeds, since all
/// names of members are strings. What it writes depends on the value alone and
/// holds no line feed, since control characters are escaped.
/// `serde_json::from_str` reads the same value back where no number is floating,
/// no member has the reserved name and the nesting stays within the parser's
/// limit, also with a line feed behind it.
#[verifier::external_body]
fn compact_value(value: &serde_json::Value) -> (r: Result<String, String>)
    ensures
        r is Ok,
        texts(r) == json_compact(value_view(*value)),
        r matches Ok(s) ==> !s@.contains('\n'),
        r matches Ok(s) ==> plain_within(value_view(*value), MAX_NESTING as nat) ==> reads_as(
            s@.push('\n'),
            value_view(*value),
        ),
{
    serde_json::to_string(value).map_err(|e| e.to_string())
}

/// Calls `serde_json::to_string_pretty` on a `serde_json::Value`. It succeeds,
/// since all names of members are strings. What it writes depends on the value
/// alone. `serde_json::from_str` reads the same value back
/// where no number is floating, no member has the reserved name and the nesting
/// stays within the parser's limit, also with a line feed behind it. Where numbers
/// are floating, what it reads back is the same but for those: a floating number is
/// written with a point or an exponent and so read as a floating number again, with
/// its last digit perhaps another. That it reads anything is then not stated, since
/// a number at the very end of the range may be refused.
#[verifier::external_body]
fn pretty_value(value: &serde_json::Value) -> (r: Result<String, String>)
    ensures
        r is Ok,
        texts(r) == json_pretty(value_view(*value)),
        r matches Ok(s) ==> plain_within(value_view(*value), MAX_NESTING as nat) ==> reads_as(
            s@.push('\n'),
            value_view(*value),
        ),
        r matches Ok(s) ==> fits_within(value_view(*value), MAX_NESTING as nat) ==> reads_alike(
            s@.push('\n'),
            value_view(*value),
        ),
{
    serde_json::to_string_pretty(value).map_err(|e| e.to_string())
}

/// Turns a `serde_json::Value` into a `Json`, variant by variant. Numbers are
/// told apart by `serde_json::Number::as_u64` and `serde_json::Number::as_i64`.
#[verifier::external_body]
fn from_value(value: &Value) -> (r: Json)
    ensures
        r@ == value_view(*value),
{
    match value {
        Value::Null => Json::Null,
        Value::Bool(b) => Json::Bool(*b),
        Value::Number(n) => match (n.as_u64(), n.as_i64()) {
            (Some(natural), _) => Json::Natural(natural),
            (None, Some(integer)) => Json::Integer(integer),
            (None, None) => Json::Float(JsonFloat { number: n.clone() }),
        },
        Value::String(s) => Json::Text(s.clone()),
        Value::Array(items) => Json::List(items.iter().map(from_value).collect()),
        Value::Object(members) => Json::Object(
            members.iter().map(|(k, v)| (k.clone(), from_value(v))).collect(),
        ),
    }
}

/// Turns a `Json` into a `serde_json::Value`, variant by variant. Members go in one
/// by one through `serde_json::Map::insert`, which replaces the value of a name
/// that is there, so that of several members with one name the last stays.
#[verifier::external_body]
fn to_value(json: &Json) -> (r: Value)
    ensures
        value_view(r) == json@,
{
    match json {
        Json::Null => Value::Null,
        Json::Bool(b) => Value::Bool(*b),
        Json::Natural(n) => Value::from(*n),
        Json::Integer(n) => Value::from(*n),
        Json::Float(f) => Value::Number(f.number.clone()),
        Json::Text(s) => Value::String(s.clone()),
        Json::List(items) => Value::Array(items.iter().map(to_value).collect()),
        Json::Object(members) => {
            let mut map = serde_json::Map::new();
            for (k, v) in members { map.insert(k.clone(), to_value(v)); }
            Value::Object(map)
        },
    }
}

/// Reads a JSON text.
pub fn parse(text: &str) -> (r: Result<Json, String>)
    ensures
        parse_view(r) == json_parsed(text@),
{
    match parse_value(text) {
        Ok(value) => Ok(from_value(&value)),
        Err(e) => Err(e),
    }
}

/// Writes a JSON value on one line.
pub fn compact(json: &Json) -> (r: Result<String, String>)
    ensures
        r is Ok,
        texts(r) == json_compact(json@),
        r matches Ok(s) ==> !s@.contains('\n'),
        r matches Ok(s) ==> plain_within(json@, MAX_NESTING as nat) ==> reads_as(
            s@.push('\n'),
            json@,
        ),
{
    compact_value(&to_value(json))
}

/// Writes a JSON value over several lines, indented.
pub fn pretty(json: &Json) -> (r: Result<String, String>)
    ensures
        r is Ok,
        texts(r) == json_pretty(json@),
        r matches Ok(s) ==> plain_within(json@, MAX_NESTING as nat) ==> reads_as(
            s@.push('\n'),
            json@,
        ),
        r matches Ok(s) ==> fits_within(json@, MAX_NESTING as nat) ==> reads_alike(
            s@.push('\n'),
            json@,
        ),
{
    pretty_value(&to_value(json))
}

/// The text of a value, indented.
pub open spec fn pretty_text(value: JsonView) -> Seq<char> {
    match json_pretty(value) {
        Ok(s) => s,
        Err(_) => Seq::empty(),
    }
}

/// Writes a value over several lines, indented.
pub fn written(json: &Json) -> (r: String)
    ensures
        r@ == pretty_text(json@),
{
    match pretty(json) {
        Ok(s) => s,
        Err(_) => String::new(),
    }
}

/// The member `key` of an object; nothing where there is none, or where the
/// value is no object.
pub open spec fn member(value: JsonView, key: Seq<char>) -> Option<JsonView> {
    match value {
        JsonView::Object(members) => if members.contains_key(key) {
            Some(members[key])
        } else {
            None
        },
        _ => None,
    }
}

/// The string that a value is, if it is one.
pub open spec fn text_of(value: Option<JsonView>) -> Option<Seq<char>> {
    match value {
        Some(JsonView::Text(s)) => Some(s),
        _ => None,
    }
}

/// The truth value that a value is, if it is one.
pub open spec fn bool_of(value: Option<JsonView>) -> Option<bool> {
    match value {
        Some(JsonView::Bool(b)) => Some(b),
        _ => None,
    }
}

/// The unsigned 64-bit number that a value is, if it is one.
pub open spec fn natural_of(value: Option<JsonView>) -> Option<u64> {
    match value {
        Some(JsonView::Integer(n)) => if 0 <= n <= u64::MAX {
            Some(n as u64)
        } else {
            None
        },
        _ => None,
    }
}

/// The list that a value is, if it is one.
pub open spec fn list_of(value: Option<JsonView>) -> Option<Seq<JsonView>> {
    match value {
        Some(JsonView::List(items)) => Some(items),
        _ => None,
    }
}

/// Members behind place `n` that are named otherwise do not change what `key`
/// stands for.
proof fn lemma_members_view_take(members: Seq<(String, Json)>, n: int, key: Seq<char>)
    requires
        0 <= n <= members.len(),
        forall|i: int| n <= i < members.len() ==> (#[trigger] members[i]).0@ != key,
    ensures
        members_view(members).contains_key(key) == members_view(members.take(n)).contains_key(key),
        members_view(members).contains_key(key) ==> members_view(members)[key] == members_view(
            members.take(n),
        )[key],
    decreases members.len(),
{
    if n == members.len() {
        assert(members.take(n) =~= members);
    } else {
        let shorter = members.drop_last();
        assert(members[members.len() - 1].0@ != key);
        assert forall|i: int| n <= i < shorter.len() implies (#[trigger] shorter[i]).0@ != key by {
            assert(members[i].0@ != key);
        }
        lemma_members_view_take(shorter, n, key);
        assert(shorter.take(n) =~= members.take(n));
    }
}

/// The values of a list, one by one.
pub proof fn lemma_list_view(items: Seq<Json>)
    ensures
        list_view(items).len() == items.len(),
        forall|i: int| 0 <= i < items.len() ==> #[trigger] list_view(items)[i] == items[i]@,
    decreases items.len(),
{
    if items.len() > 0 {
        lemma_list_view(items.drop_last());
    }
}

impl Json {
    /// The place of the last member named `key`.
    fn member_place(members: &Vec<(String, Json)>, key: &str) -> (r: Option<usize>)
        ensures
            match r {
                Some(i) => {
                    &&& i < members.len()
                    &&& members[i as int].0@ == key@
                    &&& forall|j: int| i < j < members.len() ==> (#[trigger] members[j]).0@ != key@
                    &&& members_view(members@).contains_key(key@)
                    &&& members_view(members@)[key@] == members[i as int].1@
                },
                None => {
                    &&& !members_view(members@).contains_key(key@)
                    &&& forall|j: int| 0 <= j < members.len() ==> (#[trigger] members[j]).0@ != key@
                },
            },
    {
        let mut i: usize = members.len();
        while i > 0
            invariant
                i <= members.len(),
                forall|j: int| i <= j < members.len() ==> (#[trigger] members[j]).0@ != key@,
            decreases i,
        {
            if same(members[i - 1].0.as_str(), key) {
                proof {
                    lemma_members_view_take(members@, i as int, key@);
                    let upto = members@.take(i as int);
                    assert(upto.last() == members@[i - 1]);
                }
                return Some(i - 1);
            }
            i = i - 1;
        }
        proof {
            lemma_members_view_take(members@, 0, key@);
        }
        None
    }

    /// The member `key`, if this is an object that has it.
    pub fn get(&self, key: &str) -> (r: Option<&Json>)
        ensures
            match r {
                Some(j) => member(self@, key@) == Some(j@),
                None => member(self@, key@) is None,
            },
    {
        match self {
            Json::Object(members) => match Json::member_place(members, key) {
                Some(i) => Some(&members[i].1),
                None => None,
            },
            _ => None,
        }
    }

    /// The string that this is, if it is one.
    pub fn as_str(&self) -> (r: Option<&str>)
        ensures
            match r {
                Some(s) => text_of(Some(self@)) == Some(s@),
                None => text_of(Some(self@)) is None,
            },
    {
        match self {
            Json::Text(s) => Some(s.as_str()),
            _ => None,
        }
    }

    /// The truth value that this is, if it is one.
    pub fn as_bool(&self) -> (r: Option<bool>)
        ensures
            r == bool_of(Some(self@)),
    {
        match self {
            Json::Bool(b) => Some(*b),
            _ => None,
        }
    }

    /// The unsigned number that this is, if it is one.
    pub fn as_u64(&self) -> (r: Option<u64>)
        ensures
            r == natural_of(Some(self@)),
    {
        match self {
            Json::Natural(n) => Some(*n),
            Json::Integer(n) => if *n >= 0 {
                Some(*n as u64)
            } else {
                None
            },
            _ => None,
        }
    }

    /// The list that this is, if it is one.
    pub fn as_array(&self) -> (r: Option<&Vec<Json>>)
        ensures
            match r {
                Some(items) => list_of(Some(self@)) == Some(list_view(items@)),
                None => list_of(Some(self@)) is None,
            },
    {
        match self {
            Json::List(items) => Some(items),
            _ => None,
        }
    }
}

/// Taking out one member leaves the members of other names as they are.
proof fn lemma_members_view_remove(members: Seq<(String, Json)>, i: int)
    requires
        0 <= i < members.len(),
    ensures
        members_view(members.remove(i)).remove(members[i].0@) == members_view(members).remove(
            members[i].0@,
        ),
    decreases members.len(),
{
    let key = members[i].0@;
    let shorter = members.drop_last();
    if i == members.len() - 1 {
        assert(members.remove(i) =~= shorter);
    } else {
        lemma_members_view_remove(shorter, i);
        let left = members.remove(i);
        assert(left.drop_last() =~= shorter.remove(i));
        assert(left.last() == members.last());
        let name = members.last().0@;
        let value = members.last().1@;
        if name == key {
            assert(members_view(left).remove(key) =~= members_view(shorter.remove(i)).remove(key));
            assert(members_view(members).remove(key) =~= members_view(shorter).remove(key));
        } else {
            assert(members_view(left).remove(key) =~= members_view(shorter.remove(i)).remove(
                key,
            ).insert(name, value));
            assert(members_view(members).remove(key) =~= members_view(shorter).remove(key).insert(
                name,
                value,
            ));
        }
    }
    assert(members_view(members.remove(i)).remove(key) =~= members_view(members).remove(key));
}

/// Takes the member `key` out of the members of an object, if it is there.
pub fn take_member(members: Vec<(String, Json)>, key: &str) -> (r: Option<
    (Vec<(String, Json)>, Json),
>)
    ensures
        match r {
            Some((rest, value)) => {
                &&& members_view(members@).contains_key(key@)
                &&& members_view(members@)[key@] == value@
                &&& members_view(rest@).remove(key@) == members_view(members@).remove(key@)
            },
            None => !members_view(members@).contains_key(key@),
        },
{
    match Json::member_place(&members, key) {
        None => None,
        Some(i) => {
            proof {
                lemma_members_view_remove(members@, i as int);
            }
            let mut rest = members;
            let entry = rest.remove(i);
            Some((rest, entry.1))
        },
    }
}

/// Adds a member behind the others.
pub fn put(members: &mut Vec<(String, Json)>, key: &str, value: Json)
    ensures
        members_view(final(members)@) == members_view(old(members)@).insert(key@, value@),
{
    members.push((key.to_owned(), value));
    assert(members@.drop_last() =~= old(members)@);
}

/// A string as a JSON value.
pub fn text(s: &str) -> (r: Json)
    ensures
        r@ == JsonView::Text(s@),
{
    Json::Text(s.to_owned())
}

/// A member is read from an object that has it, and from nothing else; a value is a
/// string, a truth value, a list or a number of 64 bits where it is one, and nothing
/// else is.
pub proof fn law_values_are_read_as_what_they_are(value: JsonView, key: Seq<char>)
    ensures
        match member(value, key) {
            Some(inner) => value matches JsonView::Object(m) && m.contains_key(key) && inner
                == m[key],
            None => !(value matches JsonView::Object(m) && m.contains_key(key)),
        },
        match text_of(Some(value)) {
            Some(t) => value == JsonView::Text(t),
            None => !(value is Text),
        },
        match bool_of(Some(value)) {
            Some(b) => value == JsonView::Bool(b),
            None => !(value is Bool),
        },
        match list_of(Some(value)) {
            Some(items) => value == JsonView::List(items),
            None => !(value is List),
        },
        match natural_of(Some(value)) {
            Some(n) => value == JsonView::Integer(n as int),
            None => !(value matches JsonView::Integer(n) && 0 <= n <= u64::MAX),
        },
        text_of(None) is None,
        bool_of(None) is None,
        list_of(None) is None,
        natural_of(None) is None,
        json_pretty(value) matches Ok(t) ==> pretty_text(value) == t,
{
}

/// Of the members of an object the last of a name counts.
pub proof fn law_last_member_counts(members: Seq<(String, Json)>, i: int)
    requires
        0 <= i < members.len(),
        forall|j: int| i < j < members.len() ==> (#[trigger] members[j]).0@ != members[i].0@,
    ensures
        members_view(members).contains_key(members[i].0@),
        members_view(members)[members[i].0@] == members[i].1@,
    decreases members.len(),
{
    if i < members.len() - 1 {
        let front = members.drop_last();
        assert forall|j: int| i < j < front.len() implies (#[trigger] front[j]).0@
            != front[i].0@ by {
            assert(front[j] == members[j]);
        }
        law_last_member_counts(front, i);
        assert(members[members.len() - 1].0@ != members[i].0@);
    }
}

/// An object has no member but those that it was given.
pub proof fn law_no_other_members(members: Seq<(String, Json)>, name: Seq<char>)
    requires
        forall|j: int| 0 <= j < members.len() ==> (#[trigger] members[j]).0@ != name,
    ensures
        !members_view(members).contains_key(name),
    decreases members.len(),
{
    if members.len() > 0 {
        let front = members.drop_last();
        assert forall|j: int| 0 <= j < front.len() implies (#[trigger] front[j]).0@ != name by {
            assert(front[j] == members[j]);
        }
        law_no_other_members(front, name);
        assert(members[members.len() - 1].0@ != name);
    }
}

/// A JSON value means what it holds: a number its value, whichever way it is held, a list
/// its items in order.
pub proof fn law_json_means_what_it_holds(
    flag: bool,
    n: u64,
    k: i64,
    s: String,
    items: Vec<Json>,
    members: Vec<(String, Json)>,
    j: Json,
)
    ensures
        texts(Ok(s)) == Ok::<Seq<char>, Seq<char>>(s@),
        texts(Err(s)) == Err::<Seq<char>, Seq<char>>(s@),
        parse_view(Ok(j)) == Ok::<JsonView, Seq<char>>(j@),
        parse_view(Err(s)) == Err::<JsonView, Seq<char>>(s@),
        Json::Null@ == JsonView::Null,
        Json::Bool(flag)@ == JsonView::Bool(flag),
        Json::Natural(n)@ == JsonView::Integer(n as int),
        Json::Integer(k)@ == JsonView::Integer(k as int),
        Json::Text(s)@ == JsonView::Text(s@),
        Json::List(items)@ matches JsonView::List(list) && list.len() == items@.len() && (forall|
            i: int,
        |
            0 <= i < items@.len() ==> #[trigger] list[i] == items@[i]@),
        Json::Object(members)@ == JsonView::Object(members_view(members@)),
{
    lemma_list_view(items@);
}

} // verus!
