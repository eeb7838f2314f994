//! A JSON document as plain values: the shape in which every log line, payload and store of
//! the tools is read, queried and written back.

use vstd::prelude::*;

verus! {

broadcast use vstd::std_specs::vec::group_vec_axioms;

/// A JSON number as serde_json keeps it: a non-negative integer, a negative integer, or a
/// float, carried as its shortest decimal text (which reads back to the same float).
#[derive(Debug)]
pub enum JsonNumber {
    PosInt(u64),
    NegInt(i64),
    Float(String),
}

/// A JSON document. The members of an object read by serde_json come in its map's order:
/// sorted by key, each key once.
#[derive(Debug)]
pub enum JsonValue {
    Null,
    Bool(bool),
    Number(JsonNumber),
    Str(String),
    Array(Vec<JsonValue>),
    Object(Vec<(String, JsonValue)>),
}

/// The mathematical value of a [`JsonNumber`].
pub enum NumberView {
    PosInt(u64),
    NegInt(i64),
    Float(Seq<char>),
}

/// The mathematical value of a [`JsonValue`].
pub enum JsonView {
    Null,
    Bool(bool),
    Number(NumberView),
    Str(Seq<char>),
    Array(Seq<JsonView>),
    Object(Seq<(Seq<char>, JsonView)>),
}

impl View for JsonNumber {
    type V = NumberView;

    open spec fn view(&self) -> NumberView {
        match self {
            JsonNumber::PosInt(u) => NumberView::PosInt(*u),
            JsonNumber::NegInt(i) => NumberView::NegInt(*i),
            JsonNumber::Float(t) => NumberView::Float(t@),
        }
    }
}

impl JsonValue {
    /// The value of the whole document, members and items included.
    pub open spec fn deep(self) -> JsonView
        decreases self,
    {
        match self {
            JsonValue::Null => JsonView::Null,
            JsonValue::Bool(b) => JsonView::Bool(b),
            JsonValue::Number(n) => JsonView::Number(n@),
            JsonValue::Str(s) => JsonView::Str(s@),
            JsonValue::Array(items) => JsonView::Array(
                Seq::new(
                    items@.len(),
                    |i: int|
                        if 0 <= i < items@.len() {
                            items@[i].deep()
                        } else {
                            JsonView::Null
                        },
                ),
            ),
            JsonValue::Object(members) => JsonView::Object(
                Seq::new(
                    members@.len(),
                    |i: int|
                        if 0 <= i < members@.len() {
                            (members@[i].0@, members@[i].1.deep())
                        } else {
                            (Seq::empty(), JsonView::Null)
                        },
                ),
            ),
        }
    }
}

impl View for JsonValue {
    type V = JsonView;

    open spec fn view(&self) -> JsonView {
        self.deep()
    }
}

/// The value of a list of items.
pub open spec fn items_view(items: Seq<JsonValue>) -> Seq<JsonView> {
    Seq::new(items.len(), |i: int| items[i]@)
}

/// The value of a list of object members.
pub open spec fn members_view(members: Seq<(String, JsonValue)>) -> Seq<(Seq<char>, JsonView)> {
    Seq::new(members.len(), |i: int| (members[i].0@, members[i].1@))
}

pub proof fn lemma_array_view(items: Vec<JsonValue>)
    ensures
        JsonValue::Array(items)@ == JsonView::Array(items_view(items@)),
{
    let x = JsonValue::Array(items)@->Array_0;
    assert(x =~= items_view(items@));
}

pub proof fn lemma_object_view(members: Vec<(String, JsonValue)>)
    ensures
        JsonValue::Object(members)@ == JsonView::Object(members_view(members@)),
{
    let x = JsonValue::Object(members)@->Object_0;
    assert(x =~= members_view(members@));
}

/// The value stored under `key` among `members`: that of the first member with that key.
pub open spec fn member(members: Seq<(Seq<char>, JsonView)>, key: Seq<char>) -> Option<JsonView>
    decreases members.len(),
{
    if members.len() == 0 {
        None
    } else if members[0].0 == key {
        Some(members[0].1)
    } else {
        member(members.drop_first(), key)
    }
}

/// `Value::get` with a key: the member of an object, nothing for any other value.
pub open spec fn get(value: JsonView, key: Seq<char>) -> Option<JsonView> {
    match value {
        JsonView::Object(members) => member(members, key),
        _ => None,
    }
}

/// `Value::as_str`.
pub open spec fn as_str(value: JsonView) -> Option<Seq<char>> {
    match value {
        JsonView::Str(s) => Some(s),
        _ => None,
    }
}

/// `Value::as_u64`: only non-negative integers.
pub open spec fn as_u64(value: JsonView) -> Option<u64> {
    match value {
        JsonView::Number(NumberView::PosInt(u)) => Some(u),
        _ => None,
    }
}

/// `Value::as_i64`: integers that fit in an `i64`.
pub open spec fn as_i64(value: JsonView) -> Option<i64> {
    match value {
        JsonView::Number(NumberView::PosInt(u)) => if u <= i64::MAX {
            Some(u as i64)
        } else {
            None
        },
        JsonView::Number(NumberView::NegInt(i)) => Some(i),
        _ => None,
    }
}

/// The number a value holds, if it is one (what `Value::as_f64` reads).
pub open spec fn as_number(value: JsonView) -> Option<NumberView> {
    match value {
        JsonView::Number(n) => Some(n),
        _ => None,
    }
}

/// `Value::as_object`.
pub open spec fn as_object(value: JsonView) -> Option<Seq<(Seq<char>, JsonView)>> {
    match value {
        JsonView::Object(members) => Some(members),
        _ => None,
    }
}

/// `Value::as_array`.
pub open spec fn as_array(value: JsonView) -> Option<Seq<JsonView>> {
    match value {
        JsonView::Array(items) => Some(items),
        _ => None,
    }
}

/// `value.get(key).and_then(Value::as_str)`.
pub open spec fn get_str(value: JsonView, key: Seq<char>) -> Option<Seq<char>> {
    match get(value, key) {
        Some(v) => as_str(v),
        None => None,
    }
}

/// `value.get(key).and_then(Value::as_u64)`.
pub open spec fn get_u64(value: JsonView, key: Seq<char>) -> Option<u64> {
    match get(value, key) {
        Some(v) => as_u64(v),
        None => None,
    }
}

/// `value.get(key).and_then(Value::as_u64).unwrap_or(0)`.
pub open spec fn count(value: JsonView, key: Seq<char>) -> u64 {
    match get_u64(value, key) {
        Some(n) => n,
        None => 0,
    }
}

/// The position of the first member with `key`, if any.
pub open spec fn member_index(members: Seq<(Seq<char>, JsonView)>, key: Seq<char>) -> Option<int>
    decreases members.len(),
{
    if members.len() == 0 {
        None
    } else if members[0].0 == key {
        Some(0)
    } else {
        match member_index(members.drop_first(), key) {
            Some(i) => Some(i + 1),
            None => None,
        }
    }
}

/// `value[key] = new` on an object or null: null becomes an object first; an existing member
/// has its value replaced, a missing one is added.
pub open spec fn with_member(value: JsonView, key: Seq<char>, new: JsonView) -> JsonView {
    let members = object_members(value);
    match member_index(members, key) {
        Some(i) => JsonView::Object(members.update(i, (key, new))),
        None => JsonView::Object(members.push((key, new))),
    }
}

/// The members of an object; none for any other value.
pub open spec fn object_members(value: JsonView) -> Seq<(Seq<char>, JsonView)> {
    match value {
        JsonView::Object(members) => members,
        _ => Seq::empty(),
    }
}

/// Whether `value[key] = ..` can stand on `value` (serde_json panics on any other value).
pub open spec fn is_object_or_null(value: JsonView) -> bool {
    value is Object || value is Null
}

proof fn lemma_member_skip(members: Seq<(Seq<char>, JsonView)>, key: Seq<char>, i: int)
    requires
        0 <= i < members.len(),
        members[i].0 != key,
    ensures
        member(members.skip(i), key) == member(members.skip(i + 1), key),
        member_index(members.skip(i), key) matches Some(k) ==> member_index(members.skip(i + 1), key) == Some(k - 1),
        member_index(members.skip(i), key) is None ==> member_index(members.skip(i + 1), key) is None,
{
    assert(members.skip(i).drop_first() =~= members.skip(i + 1));
}

proof fn lemma_member_found(members: Seq<(Seq<char>, JsonView)>, key: Seq<char>, i: int)
    requires
        0 <= i < members.len(),
        members[i].0 == key,
    ensures
        member(members.skip(i), key) == Some(members[i].1),
        member_index(members.skip(i), key) == Some(0int),
{
}

proof fn lemma_member_none(members: Seq<(Seq<char>, JsonView)>, key: Seq<char>)
    ensures
        member(members.skip(members.len() as int), key) is None,
        member_index(members.skip(members.len() as int), key) is None,
{
    assert(members.skip(members.len() as int).len() == 0);
}

/// `member_index` finds the member that `member` returns.
pub proof fn lemma_member_index(members: Seq<(Seq<char>, JsonView)>, key: Seq<char>)
    ensures
        member_index(members, key) matches Some(i) ==> 0 <= i < members.len() && members[i].0 == key
            && member(members, key) == Some(members[i].1) && forall|j: int|
            0 <= j < i ==> members[j].0 != key,
        member_index(members, key) is None <==> member(members, key) is None,
        member_index(members, key) is None ==> forall|j: int|
            0 <= j < members.len() ==> members[j].0 != key,
    decreases members.len(),
{
    if members.len() > 0 && members[0].0 != key {
        let rest = members.drop_first();
        lemma_member_index(rest, key);
        assert forall|j: int| 0 < j < members.len() implies members[j] == rest[j - 1] by {}
    }
}

proof fn lemma_member_update(
    members: Seq<(Seq<char>, JsonView)>,
    i: int,
    key: Seq<char>,
    new: JsonView,
    other: Seq<char>,
)
    requires
        0 <= i < members.len(),
        members[i].0 == key,
        forall|j: int| 0 <= j < i ==> members[j].0 != key,
    ensures
        member(members.update(i, (key, new)), key) == Some(new),
        other != key ==> member(members.update(i, (key, new)), other) == member(members, other),
    decreases i,
{
    if i > 0 {
        assert(members.update(i, (key, new)).drop_first() =~= members.drop_first().update(
            i - 1,
            (key, new),
        ));
        lemma_member_update(members.drop_first(), i - 1, key, new, other);
    } else {
        assert(members.update(i, (key, new)).drop_first() =~= members.drop_first());
    }
}

proof fn lemma_member_push(
    members: Seq<(Seq<char>, JsonView)>,
    key: Seq<char>,
    new: JsonView,
    other: Seq<char>,
)
    requires
        forall|j: int| 0 <= j < members.len() ==> members[j].0 != key,
    ensures
        member(members.push((key, new)), key) == Some(new),
        other != key ==> member(members.push((key, new)), other) == member(members, other),
    decreases members.len(),
{
    if members.len() > 0 {
        assert(members.push((key, new)).drop_first() =~= members.drop_first().push((key, new)));
        lemma_member_push(members.drop_first(), key, new, other);
    } else {
        assert(members.push((key, new)).drop_first() =~= members);
    }
}

/// `value[key] = new` stores `new` under `key` and leaves every other key as it was.
pub proof fn lemma_with_member_get(value: JsonView, key: Seq<char>, new: JsonView, other: Seq<char>)
    requires
        is_object_or_null(value),
    ensures
        get(with_member(value, key, new), key) == Some(new),
        other != key ==> get(with_member(value, key, new), other) == get(value, other),
{
    let members = object_members(value);
    lemma_member_index(members, key);
    match member_index(members, key) {
        Some(i) => lemma_member_update(members, i, key, new, other),
        None => lemma_member_push(members, key, new, other),
    }
    if value is Null {
        assert(members =~= Seq::<(Seq<char>, JsonView)>::empty());
    }
}

impl JsonNumber {
    /// A copy of this number.
    pub fn duplicate(&self) -> (r: JsonNumber)
        ensures
            r@ == self@,
    {
        match self {
            JsonNumber::PosInt(u) => JsonNumber::PosInt(*u),
            JsonNumber::NegInt(i) => JsonNumber::NegInt(*i),
            JsonNumber::Float(t) => JsonNumber::Float(t.clone()),
        }
    }
}

impl JsonValue {
    /// A copy of this document.
    pub fn duplicate(&self) -> (r: JsonValue)
        ensures
            r@ == self@,
        decreases *self,
    {
        match self {
            JsonValue::Null => JsonValue::Null,
            JsonValue::Bool(b) => JsonValue::Bool(*b),
            JsonValue::Number(n) => JsonValue::Number(n.duplicate()),
            JsonValue::Str(s) => JsonValue::Str(s.clone()),
            JsonValue::Array(items) => {
                let mut out: Vec<JsonValue> = Vec::new();
                let mut i: usize = 0;
                while i < items.len()
                    invariant
                        i <= items@.len(),
                        *self == JsonValue::Array(*items),
                        out@.len() == i,
                        forall|k: int| 0 <= k < i ==> #[trigger] out@[k]@ == items@[k]@,
                    decreases items@.len() - i,
                {
                    assert(decreases_to!(*self => self->Array_0));
                    assert(decreases_to!(*items => items[i as int]));
                    let c = items[i].duplicate();
                    out.push(c);
                    i += 1;
                }
                proof {
                    lemma_array_view(out);
                    lemma_array_view(*items);
                    assert(items_view(out@) =~= items_view(items@));
                }
                JsonValue::Array(out)
            },
            JsonValue::Object(members) => {
                let mut out: Vec<(String, JsonValue)> = Vec::new();
                let mut i: usize = 0;
                while i < members.len()
                    invariant
                        i <= members@.len(),
                        *self == JsonValue::Object(*members),
                        out@.len() == i,
                        forall|k: int|
                            0 <= k < i ==> (#[trigger] out@[k]).0@ == members@[k].0@ && out@[k].1@
                                == members@[k].1@,
                    decreases members@.len() - i,
                {
                    assert(decreases_to!(*self => self->Object_0));
                    assert(decreases_to!(*members => members[i as int]));
                    assert(decreases_to!(members[i as int] => members[i as int].1));
                    let c = members[i].1.duplicate();
                    out.push((members[i].0.clone(), c));
                    i += 1;
                }
                proof {
                    lemma_object_view(out);
                    lemma_object_view(*members);
                    assert(members_view(out@) =~= members_view(members@));
                }
                JsonValue::Object(out)
            },
        }
    }

    /// `Value::get` with a key.
    pub fn get(&self, key: &str) -> (r: Option<&JsonValue>)
        ensures
            r matches Some(v) ==> get(self@, key@) == Some(v@),
            r is None ==> get(self@, key@) is None,
    {
        match self {
            JsonValue::Object(members) => {
                let ghost ms = members_view(members@);
                proof {
                    lemma_object_view(*members);
                    assert(ms.skip(0) =~= ms);
                }
                let mut i: usize = 0;
                while i < members.len()
                    invariant
                        i <= members@.len(),
                        self@ == JsonView::Object(ms),
                        ms == members_view(members@),
                        member(ms, key@) == member(ms.skip(i as int), key@),
                    decreases members@.len() - i,
                {
                    if crate::text::str_eq(members[i].0.as_str(), key) {
                        proof {
                            lemma_member_found(ms, key@, i as int);
                            assert(ms[i as int] == (members@[i as int].0@, members@[i as int].1@));
                        }
                        return Some(&members[i].1);
                    }
                    proof {
                        lemma_member_skip(ms, key@, i as int);
                    }
                    i += 1;
                }
                proof {
                    lemma_member_none(ms, key@);
                }
                None
            },
            _ => None,
        }
    }

    /// `Value::as_str`.
    pub fn as_str(&self) -> (r: Option<&String>)
        ensures
            r matches Some(s) ==> as_str(self@) == Some(s@),
            r is None ==> as_str(self@) is None,
    {
        match self {
            JsonValue::Str(s) => Some(s),
            _ => None,
        }
    }

    /// `Value::as_u64`.
    pub fn as_u64(&self) -> (r: Option<u64>)
        ensures
            r == as_u64(self@),
    {
        match self {
            JsonValue::Number(JsonNumber::PosInt(u)) => Some(*u),
            _ => None,
        }
    }

    /// `Value::as_i64`.
    pub fn as_i64(&self) -> (r: Option<i64>)
        ensures
            r == as_i64(self@),
    {
        match self {
            JsonValue::Number(JsonNumber::PosInt(u)) => if *u <= i64::MAX as u64 {
                Some(*u as i64)
            } else {
                None
            },
            JsonValue::Number(JsonNumber::NegInt(i)) => Some(*i),
            _ => None,
        }
    }

    /// The number this value holds, if it is one.
    pub fn as_number(&self) -> (r: Option<&JsonNumber>)
        ensures
            r matches Some(n) ==> as_number(self@) == Some(n@),
            r is None ==> as_number(self@) is None,
    {
        match self {
            JsonValue::Number(n) => Some(n),
            _ => None,
        }
    }

    /// `Value::is_null`.
    pub fn is_null(&self) -> (r: bool)
        ensures
            r == (self@ is Null),
    {
        match self {
            JsonValue::Null => true,
            _ => false,
        }
    }

    /// `Value::as_object`.
    pub fn as_object(&self) -> (r: Option<&Vec<(String, JsonValue)>>)
        ensures
            r matches Some(ms) ==> as_object(self@) == Some(members_view(ms@)),
            r is None ==> as_object(self@) is None,
    {
        match self {
            JsonValue::Object(members) => {
                proof {
                    lemma_object_view(*members);
                }
                Some(members)
            },
            _ => None,
        }
    }

    /// `Value::as_array`.
    pub fn as_array(&self) -> (r: Option<&Vec<JsonValue>>)
        ensures
            r matches Some(items) ==> as_array(self@) == Some(items_view(items@)),
            r is None ==> as_array(self@) is None,
    {
        match self {
            JsonValue::Array(items) => {
                proof {
                    lemma_array_view(*items);
                }
                Some(items)
            },
            _ => None,
        }
    }

    /// `value[key] = new`: on null, the value becomes an object first.
    pub fn set(&mut self, key: &str, new: JsonValue)
        requires
            is_object_or_null(old(self)@),
        ensures
            final(self)@ == with_member(old(self)@, key@, new@),
    {
        let mut members: Vec<(String, JsonValue)> = Vec::new();
        match self {
            JsonValue::Object(ms) => {
                proof {
                    lemma_object_view(*ms);
                }
                std::mem::swap(&mut members, ms);
            },
            _ => {},
        }
        let ghost ms = members_view(members@);
        assert(ms == object_members(old(self)@)) by {
            if !(old(self)@ is Object) {
                assert(ms =~= Seq::<(Seq<char>, JsonView)>::empty());
            }
        }
        proof {
            assert(ms.skip(0) =~= ms);
            lemma_member_index(ms, key@);
        }
        let mut i: usize = 0;
        while i < members.len()
            invariant
                i <= members@.len(),
                ms == members_view(members@),
                ms == object_members(old(self)@),
                member_index(ms, key@) matches Some(k) ==> member_index(ms.skip(i as int), key@)
                    == Some(k - i),
                member_index(ms, key@) is None ==> member_index(ms.skip(i as int), key@) is None,
            decreases members@.len() - i,
        {
            if crate::text::str_eq(members[i].0.as_str(), key) {
                proof {
                    lemma_member_found(ms, key@, i as int);
                    assert(member_index(ms, key@) == Some(i as int));
                }
                let ghost new_view = new@;
                members.set(i, (crate::text::owned(key), new));
                proof {
                    assert(members_view(members@) =~= ms.update(i as int, (key@, new_view)));
                    lemma_object_view(members);
                }
                *self = JsonValue::Object(members);
                return;
            }
            proof {
                lemma_member_skip(ms, key@, i as int);
            }
            i += 1;
        }
        proof {
            lemma_member_none(ms, key@);
        }
        let ghost new_view = new@;
        members.push((crate::text::owned(key), new));
        proof {
            assert(members_view(members@) =~= ms.push((key@, new_view)));
            lemma_object_view(members);
        }
        *self = JsonValue::Object(members);
    }
}

/// An object with one member.
pub fn single_member(key: &str, value: JsonValue) -> (r: JsonValue)
    ensures
        r@ == JsonView::Object(seq![(key@, value@)]),
{
    let ghost v = value@;
    let mut members: Vec<(String, JsonValue)> = Vec::new();
    members.push((crate::text::owned(key), value));
    proof {
        lemma_object_view(members);
        assert(members_view(members@) =~= seq![(key@, v)]);
    }
    JsonValue::Object(members)
}

/// A string value.
pub fn string_value(s: &str) -> (r: JsonValue)
    ensures
        r@ == JsonView::Str(s@),
{
    JsonValue::Str(crate::text::owned(s))
}

/// What `serde_json::from_str::<Value>` makes of `text`: the document, or the `Display` text
/// of its error.
pub uninterp spec fn json_text(text: Seq<char>) -> Result<JsonView, Seq<char>>;

/// The value of a parse outcome.
pub open spec fn parsed_view(r: Result<JsonValue, String>) -> Result<JsonView, Seq<char>> {
    match r {
        Ok(v) => Ok(v@),
        Err(e) => Err(e@),
    }
}

/// `serde_json::from_str::<serde_json::Value>`: the contract names the outcome (the document,
/// or the message of the parse error) and says no more of it.
#[verifier::external_body]
pub(crate) fn parse(text: &str) -> (r: Result<JsonValue, String>)
    ensures
        parsed_view(r) == json_text(text@),
{
    serde_json::from_str::<serde_json::Value>(text).map(from_serde).map_err(|e| e.to_string())
}

/// The text that `serde_json::to_string_pretty` writes for a document (two-space indent).
pub uninterp spec fn pretty_text(value: JsonView) -> Seq<char>;

/// A value that serde_json writes as a plain scalar and reads back as the same value: null, a
/// boolean, a string, or an integer in the variant serde_json reads it into (floats are left
/// out).
pub open spec fn plain_scalar(value: JsonView) -> bool {
    match value {
        JsonView::Null => true,
        JsonView::Bool(_) => true,
        JsonView::Str(_) => true,
        JsonView::Number(NumberView::PosInt(_)) => true,
        JsonView::Number(NumberView::NegInt(i)) => i < 0,
        _ => false,
    }
}

/// A one-level object as serde_json keeps one: its keys in strictly increasing order (its map
/// is sorted and has no duplicate key), each value a plain scalar.
pub open spec fn flat_object(value: JsonView) -> bool {
    match value {
        JsonView::Object(ms) => (forall|i: int, j: int|
            0 <= i < j < ms.len() ==> crate::text::lex_lt(#[trigger] ms[i].0, #[trigger] ms[j].0))
            && forall|i: int| 0 <= i < ms.len() ==> plain_scalar(#[trigger] ms[i].1),
        _ => false,
    }
}

/// Whether `serde_json::from_str` reads `text` as `value`.
pub open spec fn reads_back(text: Seq<char>, value: JsonView) -> bool {
    json_text(text) == Ok::<JsonView, Seq<char>>(value)
}

/// `serde_json::to_string_pretty` on the document; the contract names the text. Serialising a
/// `serde_json::Value` cannot fail (its keys are strings). Of a one-level object of plain
/// scalars it also states that `serde_json::from_str` reads the text back, alone or followed by
/// a newline (trailing whitespace is allowed), as the same document; of other documents it
/// states no more.
#[verifier::external_body]
pub(crate) fn to_pretty(value: &JsonValue) -> (r: String)
    ensures
        r@ == pretty_text(value@),
        flat_object(value@) ==> reads_back(r@, value@),
        flat_object(value@) ==> reads_back(r@ + "\n"@, value@),
{
    serde_json::to_string_pretty(&to_serde(value)).unwrap_or_default()
}

/// The text that `format!("{:?}", value)` writes for a `serde_json::Value`, such as
/// `Number(1)` or `String("x")`.
pub uninterp spec fn debug_text(value: JsonView) -> Seq<char>;

/// `format!("{:?}", value)` on the document as a `serde_json::Value`; the contract names the
/// text and says no more of it.
#[verifier::external_body]
pub(crate) fn to_debug(value: &JsonValue) -> (r: String)
    ensures
        r@ == debug_text(value@),
{
    format!("{:?}", to_serde(value))
}

/// serde_json's document type, carried opaquely through the converters below.
#[verifier::external_type_specification]
#[verifier::external_body]
pub struct ExSerdeValue(serde_json::Value);

/// serde_json's number type, carried opaquely through the converter below.
#[verifier::external_type_specification]
#[verifier::external_body]
pub struct ExSerdeNumber(serde_json::Number);

/// Converts a `serde_json::Number` into a [`JsonNumber`]: a `u64` when it is one, else an
/// `i64`, else the float's text.
#[verifier::external_body]
fn from_serde_number(n: serde_json::Number) -> JsonNumber {
    match (n.as_u64(), n.as_i64()) {
        (Some(u), _) => JsonNumber::PosInt(u),
        (None, Some(i)) => JsonNumber::NegInt(i),
        (None, None) => JsonNumber::Float(n.to_string()),
    }
}

/// Converts a [`JsonNumber`] into a `serde_json::Value` (a float's text that does not read
/// as a number becomes null).
#[verifier::external_body]
fn to_serde_number(n: &JsonNumber) -> serde_json::Value {
    match n {
        JsonNumber::PosInt(u) => serde_json::Value::from(*u),
        JsonNumber::NegInt(i) => serde_json::Value::from(*i),
        JsonNumber::Float(t) => t.parse::<serde_json::Number>().map(serde_json::Value::Number).unwrap_or(serde_json::Value::Null),
    }
}

/// Converts a `serde_json::Value` into a [`JsonValue`], member for member and item for item.
#[verifier::external_body]
fn from_serde(value: serde_json::Value) -> JsonValue {
    match value {
        serde_json::Value::Null => JsonValue::Null,
        serde_json::Value::Bool(b) => JsonValue::Bool(b),
        serde_json::Value::Number(n) => JsonValue::Number(from_serde_number(n)),
        serde_json::Value::String(s) => JsonValue::Str(s),
        serde_json::Value::Array(items) => JsonValue::Array(items.into_iter().map(from_serde).collect()),
        serde_json::Value::Object(map) => JsonValue::Object(map.into_iter().map(|(k, v)| (k, from_serde(v))).collect()),
    }
}

/// Converts a [`JsonValue`] into a `serde_json::Value`, member for member and item for item.
#[verifier::external_body]
fn to_serde(value: &JsonValue) -> serde_json::Value {
    match value {
        JsonValue::Null => serde_json::Value::Null,
        JsonValue::Bool(b) => serde_json::Value::Bool(*b),
        JsonValue::Number(n) => to_serde_number(n),
        JsonValue::Str(s) => serde_json::Value::String(s.clone()),
        JsonValue::Array(items) => serde_json::Value::Array(items.iter().map(to_serde).collect()),
        JsonValue::Object(members) => serde_json::Value::Object(members.iter().map(|(k, v)| (k.clone(), to_serde(v))).collect()),
    }
}

} // verus!
