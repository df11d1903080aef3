//! JSON values as the rest of the library reads and builds them.
//!
//! A value is seen as a [`JsonValue`]: the same tree over sequences. An object
//! is a list of fields in the order they are written; looking a key up finds
//! the first field of that name.
use vstd::prelude::*;
use vstd::string::*;

use crate::text;

verus! {

/// A JSON number.
#[derive(Debug, PartialEq)]
pub struct Number {
    /// The literal, as JSON writes it: `1280.0`.
    pub literal: String,
    /// The number as a person writes it: `1280`.
    pub plain: String,
    /// The literal of the number in single precision, which is how sizes are
    /// kept: `1280.0999755859375` for `1280.1`. `None` for a number that did
    /// not come from outside.
    pub single: Option<String>,
}

/// What a [`Number`] holds.
pub struct NumberValue {
    pub literal: Seq<char>,
    pub plain: Seq<char>,
    pub single: Option<Seq<char>>,
}

/// A JSON value.
#[derive(Debug, PartialEq)]
pub enum Json {
    Null,
    Bool(bool),
    Number(Number),
    Text(String),
    Array(Vec<Json>),
    Object(Vec<(String, Json)>),
}

/// What a [`Json`] holds.
pub enum JsonValue {
    Null,
    Bool(bool),
    Number(NumberValue),
    Text(Seq<char>),
    Array(Seq<JsonValue>),
    Object(Seq<(Seq<char>, JsonValue)>),
}

impl View for Number {
    type V = NumberValue;

    open spec fn view(&self) -> NumberValue {
        NumberValue {
            literal: self.literal@,
            plain: self.plain@,
            single: text::maybe_owned(self.single),
        }
    }
}

impl View for Json {
    type V = JsonValue;

    open spec fn view(&self) -> JsonValue {
        value_of(*self)
    }
}

/// What a value holds.
pub open spec fn value_of(json: Json) -> JsonValue
    decreases json, 0int,
{
    match json {
        Json::Null => JsonValue::Null,
        Json::Bool(b) => JsonValue::Bool(b),
        Json::Number(n) => JsonValue::Number(n@),
        Json::Text(s) => JsonValue::Text(s@),
        Json::Array(items) => JsonValue::Array(values_of(items@)),
        Json::Object(fields) => JsonValue::Object(fields_of(fields@)),
    }
}

/// What the items of an array hold.
pub open spec fn values_of(items: Seq<Json>) -> Seq<JsonValue>
    decreases items, 1int,
{
    Seq::new(
        items.len(),
        |i: int|
            if 0 <= i < items.len() {
                value_of(items[i])
            } else {
                JsonValue::Null
            },
    )
}

/// What the fields of an object hold.
pub open spec fn fields_of(fields: Seq<(String, Json)>) -> Seq<(Seq<char>, JsonValue)>
    decreases fields, 1int,
{
    Seq::new(
        fields.len(),
        |i: int|
            if 0 <= i < fields.len() {
                (fields[i].0@, value_of(fields[i].1))
            } else {
                (Seq::empty(), JsonValue::Null)
            },
    )
}

/// The position of the first field named `key`, from `from` on; past the end
/// when there is none.
pub open spec fn key_position(fields: Seq<(Seq<char>, JsonValue)>, key: Seq<char>, from: int) -> int
    decreases fields.len() - from,
{
    if 0 <= from < fields.len() && fields[from].0 != key {
        key_position(fields, key, from + 1)
    } else {
        from
    }
}

/// The value of a field, where `value` is an object that has it.
pub open spec fn field(value: JsonValue, key: Seq<char>) -> Option<JsonValue> {
    match value {
        JsonValue::Object(fields) => {
            let i = key_position(fields, key, 0);
            if i < fields.len() {
                Some(fields[i].1)
            } else {
                None
            }
        },
        _ => None,
    }
}

/// The value of a field; null where there is none.
pub open spec fn field_or_null(value: JsonValue, key: Seq<char>) -> JsonValue {
    match field(value, key) {
        Some(found) => found,
        None => JsonValue::Null,
    }
}

/// What a string value holds.
pub open spec fn text_in(value: JsonValue) -> Option<Seq<char>> {
    match value {
        JsonValue::Text(s) => Some(s),
        _ => None,
    }
}

/// The text of a field, where there is one and it is a string.
pub open spec fn field_text(value: JsonValue, key: Seq<char>) -> Option<Seq<char>> {
    match field(value, key) {
        Some(found) => text_in(found),
        None => None,
    }
}

/// The truth value of a field, where there is one and it is a boolean.
pub open spec fn field_bool(value: JsonValue, key: Seq<char>) -> Option<bool> {
    match field(value, key) {
        Some(JsonValue::Bool(b)) => Some(b),
        _ => None,
    }
}

/// Fields with the one named `key` set to `value`: in its place where it
/// stands, at the end where it does not.
pub open spec fn with_field(
    fields: Seq<(Seq<char>, JsonValue)>,
    key: Seq<char>,
    value: JsonValue,
) -> Seq<(Seq<char>, JsonValue)> {
    let i = key_position(fields, key, 0);
    if i < fields.len() {
        fields.update(i, (key, value))
    } else {
        fields.push((key, value))
    }
}

/// `value` with a field set, where it is an object.
pub open spec fn set_field(value: JsonValue, key: Seq<char>, new: JsonValue) -> JsonValue {
    match value {
        JsonValue::Object(fields) => JsonValue::Object(with_field(fields, key, new)),
        other => other,
    }
}

/// `key_position` is in order, points at the key where it is in range, and no
/// earlier field has the key.
pub proof fn lemma_key_position(fields: Seq<(Seq<char>, JsonValue)>, key: Seq<char>, from: int)
    requires
        0 <= from <= fields.len(),
    ensures
        from <= key_position(fields, key, from) <= fields.len(),
        key_position(fields, key, from) < fields.len() ==> fields[key_position(
            fields,
            key,
            from,
        )].0 == key,
        forall|j: int| from <= j < key_position(fields, key, from) ==> fields[j].0 != key,
    decreases fields.len() - from,
{
    if from < fields.len() && fields[from].0 != key {
        lemma_key_position(fields, key, from + 1);
    }
}

/// A position in range, holding the key and with no earlier one holding it, is
/// the one `key_position` finds.
proof fn lemma_key_position_is(
    fields: Seq<(Seq<char>, JsonValue)>,
    key: Seq<char>,
    from: int,
    i: int,
)
    requires
        0 <= from <= i <= fields.len(),
        i < fields.len() ==> fields[i].0 == key,
        forall|j: int| from <= j < i ==> fields[j].0 != key,
    ensures
        key_position(fields, key, from) == i,
    decreases i - from,
{
    if from < i {
        lemma_key_position_is(fields, key, from + 1, i);
    }
}

/// A field that was set reads back as what it was set to, and every other key
/// reads as before.
pub proof fn lemma_set_then_get(value: JsonValue, key: Seq<char>, new: JsonValue)
    requires
        value is Object,
    ensures
        field(set_field(value, key, new), key) == Some(new),
        forall|other: Seq<char>|
            other != key ==> #[trigger] field(set_field(value, key, new), other) == field(
                value,
                other,
            ),
{
    let fields = value->Object_0;
    let after = with_field(fields, key, new);
    let i = key_position(fields, key, 0);
    lemma_key_position(fields, key, 0);
    lemma_key_position_is(after, key, 0, i);
    assert forall|other: Seq<char>| other != key implies #[trigger] field(
        set_field(value, key, new),
        other,
    ) == field(value, other) by {
        let k = key_position(fields, other, 0);
        lemma_key_position(fields, other, 0);
        if k < fields.len() {
            lemma_key_position_is(after, other, 0, k);
        } else {
            lemma_key_position_is(after, other, 0, after.len() as int);
        }
    }
}

/// The escape that JSON writes for a character inside a string.
pub open spec fn escaped(c: char) -> Seq<char> {
    if c == '"' {
        seq!['\\', '"']
    } else if c == '\\' {
        seq!['\\', '\\']
    } else if c == '\n' {
        seq!['\\', 'n']
    } else if c == '\r' {
        seq!['\\', 'r']
    } else if c == '\t' {
        seq!['\\', 't']
    } else if c as int == 0x08 {
        seq!['\\', 'b']
    } else if c as int == 0x0c {
        seq!['\\', 'f']
    } else if (c as int) < 0x20 {
        seq!['\\', 'u', '0', '0', hex_digit(c as int / 16), hex_digit(c as int % 16)]
    } else {
        seq![c]
    }
}

/// The lower-case hexadecimal digit for `n`.
pub open spec fn hex_digit(n: int) -> char {
    if n < 10 {
        (('0' as int) + n) as char
    } else {
        (('a' as int) + n - 10) as char
    }
}

/// Every character of `s`, escaped.
pub open spec fn escaped_text(s: Seq<char>) -> Seq<char>
    decreases s.len(),
{
    if s.len() == 0 {
        Seq::empty()
    } else {
        escaped_text(s.drop_last()) + escaped(s.last())
    }
}

/// `s` as a JSON string literal.
pub open spec fn quoted_text(s: Seq<char>) -> Seq<char> {
    seq!['"'] + escaped_text(s) + seq!['"']
}

/// `serde_json::to_string` on a string: the string literal, between double
/// quotes. The quote, the backslash and the characters below U+0020 are
/// escaped — five of those with a letter, the others with four hexadecimal
/// digits — and every other character stands for itself.
#[verifier::external_body]
fn quoted(s: &str) -> (r: String)
    ensures
        r@ == quoted_text(s@),
{
    serde_json::to_string(s).unwrap_or_default()
}

/// A value on one line, without spaces: how it reads inside a message.
pub open spec fn compact_text(value: JsonValue) -> Seq<char>
    decreases value, 0int,
{
    match value {
        JsonValue::Null => "null"@,
        JsonValue::Bool(b) => if b {
            "true"@
        } else {
            "false"@
        },
        JsonValue::Number(n) => n.literal,
        JsonValue::Text(s) => quoted_text(s),
        JsonValue::Array(items) => "["@ + compact_items(items) + "]"@,
        JsonValue::Object(fields) => "{"@ + compact_fields(fields) + "}"@,
    }
}

/// The items of an array, with commas between them.
pub open spec fn compact_items(items: Seq<JsonValue>) -> Seq<char>
    decreases items, items.len(),
{
    if items.len() == 0 {
        Seq::empty()
    } else if items.len() == 1 {
        compact_text(items[0])
    } else {
        compact_items(items.drop_last()) + ","@ + compact_text(items.last())
    }
}

/// The fields of an object, with commas between them.
pub open spec fn compact_fields(fields: Seq<(Seq<char>, JsonValue)>) -> Seq<char>
    decreases fields, fields.len(),
{
    if fields.len() == 0 {
        Seq::empty()
    } else if fields.len() == 1 {
        quoted_text(fields[0].0) + ":"@ + compact_text(fields[0].1)
    } else {
        compact_fields(fields.drop_last()) + ","@ + (quoted_text(fields.last().0) + ":"@
            + compact_text(fields.last().1))
    }
}

impl Clone for Number {
    fn clone(&self) -> (r: Self)
        ensures
            r@ == self@,
    {
        let single: Option<String> = match &self.single {
            Some(literal) => Some(literal.clone()),
            None => None,
        };
        Number { literal: self.literal.clone(), plain: self.plain.clone(), single }
    }
}

impl Number {
    /// The number in single precision.
    pub fn narrow(&self) -> (r: Self)
        ensures
            r@ == narrowed(self@),
    {
        let mut number: Number = self.clone();
        match &self.single {
            Some(literal) => {
                number.literal = literal.clone();
            },
            None => {},
        }
        number
    }

    /// A whole number.
    pub fn whole(n: u64) -> (r: Number)
        ensures
            r@ == whole_number(n as nat),
    {
        Number { literal: text::decimal(n), plain: text::decimal(n), single: None }
    }
}

/// The number that is written with the digits of `n`.
pub open spec fn whole_number(n: nat) -> NumberValue {
    NumberValue { literal: text::decimal_of(n), plain: text::decimal_of(n), single: None }
}

/// A number in single precision.
pub open spec fn narrowed(n: NumberValue) -> NumberValue {
    NumberValue {
        literal: match n.single {
            Some(literal) => literal,
            None => n.literal,
        },
        ..n
    }
}

impl Clone for Json {
    fn clone(&self) -> (r: Self)
        ensures
            r@ == self@,
        decreases self,
    {
        match self {
            Json::Null => Json::Null,
            Json::Bool(b) => Json::Bool(*b),
            Json::Number(n) => Json::Number(n.clone()),
            Json::Text(s) => Json::Text(s.clone()),
            Json::Array(items) => {
                let mut out: Vec<Json> = Vec::new();
                let mut i: usize = 0;
                while i < items.len()
                    invariant
                        i <= items@.len(),
                        *self == Json::Array(*items),
                        values_of(out@) == values_of(items@).take(i as int),
                    decreases items@.len() - i,
                {
                    proof {
                        assert(decreases_to!(*self => self->Array_0));
                        assert(decreases_to!(self->Array_0 => self->Array_0@));
                        assert(decreases_to!(items@ => items@[i as int]));
                    }
                    let item: Json = items[i].clone();
                    let ghost before = out@;
                    out.push(item);
                    proof {
                        assert(values_of(out@) =~= values_of(before).push(item@));
                        assert(values_of(items@).take(i + 1) =~= values_of(items@).take(
                            i as int,
                        ).push(items@[i as int]@));
                    }
                    i += 1;
                }
                proof {
                    assert(values_of(items@).take(i as int) =~= values_of(items@));
                }
                Json::Array(out)
            },
            Json::Object(fields) => {
                let mut out: Vec<(String, Json)> = Vec::new();
                let mut i: usize = 0;
                while i < fields.len()
                    invariant
                        i <= fields@.len(),
                        *self == Json::Object(*fields),
                        fields_of(out@) == fields_of(fields@).take(i as int),
                    decreases fields@.len() - i,
                {
                    proof {
                        assert(decreases_to!(*self => self->Object_0));
                        assert(decreases_to!(self->Object_0 => self->Object_0@));
                        assert(decreases_to!(fields@ => fields@[i as int]));
                        assert(decreases_to!(fields@[i as int] => fields@[i as int].1));
                    }
                    let key: String = fields[i].0.clone();
                    let value: Json = fields[i].1.clone();
                    let ghost before = out@;
                    let ghost pair = (key@, value@);
                    out.push((key, value));
                    proof {
                        assert(fields_of(out@) =~= fields_of(before).push(pair));
                        assert(fields_of(fields@).take(i + 1) =~= fields_of(fields@).take(
                            i as int,
                        ).push(pair));
                    }
                    i += 1;
                }
                proof {
                    assert(fields_of(fields@).take(i as int) =~= fields_of(fields@));
                }
                Json::Object(out)
            },
        }
    }
}

fn position(fields: &Vec<(String, Json)>, key: &str) -> (r: usize)
    ensures
        r <= fields@.len(),
        r == key_position(fields_of(fields@), key@, 0),
{
    let mut i: usize = 0;
    while i < fields.len()
        invariant
            i <= fields@.len(),
            key_position(fields_of(fields@), key@, 0) == key_position(
                fields_of(fields@),
                key@,
                i as int,
            ),
        decreases fields@.len() - i,
    {
        if text::same_text(fields[i].0.as_str(), key) {
            return i;
        }
        i += 1;
    }
    i
}

impl Json {
    /// A string value.
    pub fn text(s: &str) -> (r: Json)
        ensures
            r@ == JsonValue::Text(s@),
    {
        Json::Text(s.to_owned())
    }

    /// A whole number.
    pub fn whole(n: u64) -> (r: Json)
        ensures
            r@ == JsonValue::Number(whole_number(n as nat)),
    {
        Json::Number(Number::whole(n))
    }

    /// An object without fields.
    pub fn empty_object() -> (r: Json)
        ensures
            r@ == JsonValue::Object(Seq::empty()),
    {
        let r: Json = Json::Object(Vec::new());
        proof {
            assert(r@->Object_0 =~= Seq::empty());
        }
        r
    }

    /// The value of the field named `key`, where this is an object that has it.
    pub fn get(&self, key: &str) -> (r: Option<&Json>)
        ensures
            match r {
                Some(value) => field(self@, key@) == Some(value@),
                None => field(self@, key@) is None,
            },
    {
        match self {
            Json::Object(fields) => {
                let i: usize = position(fields, key);
                if i < fields.len() {
                    Some(&fields[i].1)
                } else {
                    None
                }
            },
            _ => None,
        }
    }

    /// The text of a string value.
    pub fn as_str(&self) -> (r: Option<&str>)
        ensures
            match r {
                Some(s) => text_in(self@) == Some(s@),
                None => text_in(self@) is None,
            },
    {
        match self {
            Json::Text(s) => Some(s.as_str()),
            _ => None,
        }
    }

    /// The text of the field named `key`, where there is one and it is a
    /// string.
    pub fn get_text(&self, key: &str) -> (r: Option<&str>)
        ensures
            match r {
                Some(s) => field_text(self@, key@) == Some(s@),
                None => field_text(self@, key@) is None,
            },
    {
        match self.get(key) {
            Some(value) => value.as_str(),
            None => None,
        }
    }

    /// The truth value of the field named `key`, where there is one and it is
    /// a boolean.
    pub fn get_bool(&self, key: &str) -> (r: Option<bool>)
        ensures
            r == field_bool(self@, key@),
    {
        match self.get(key) {
            Some(Json::Bool(b)) => Some(*b),
            _ => None,
        }
    }

    /// A copy of the field named `key`; null where there is none.
    pub fn get_or_null(&self, key: &str) -> (r: Json)
        ensures
            r@ == field_or_null(self@, key@),
    {
        match self.get(key) {
            Some(value) => value.clone(),
            None => Json::Null,
        }
    }

    /// Set the field named `key`, where this is an object; any other value is
    /// left as it is.
    pub fn set(&mut self, key: &str, value: Json)
        ensures
            final(self)@ == set_field(old(self)@, key@, value@),
    {
        match self {
            Json::Object(fields) => {
                let ghost before = fields_of(fields@);
                let i: usize = position(fields, key);
                if i < fields.len() {
                    fields.set(i, (key.to_owned(), value));
                } else {
                    fields.push((key.to_owned(), value));
                }
                proof {
                    assert(fields_of(fields@) =~= with_field(before, key@, value@));
                }
            },
            _ => {},
        }
    }

    /// The value on one line, without spaces.
    pub fn compact(&self) -> (r: String)
        ensures
            r@ == compact_text(self@),
        decreases self,
    {
        match self {
            Json::Null => "null".to_owned(),
            Json::Bool(b) => if *b {
                "true".to_owned()
            } else {
                "false".to_owned()
            },
            Json::Number(n) => n.literal.clone(),
            Json::Text(s) => quoted(s.as_str()),
            Json::Array(items) => {
                let mut out: String = String::new();
                let mut i: usize = 0;
                while i < items.len()
                    invariant
                        i <= items@.len(),
                        *self == Json::Array(*items),
                        out@ == compact_items(values_of(items@).take(i as int)),
                    decreases items@.len() - i,
                {
                    let ghost longer = values_of(items@).take(i + 1);
                    proof {
                        assert(longer.drop_last() =~= values_of(items@).take(i as int));
                    }
                    proof {
                        assert(decreases_to!(*self => self->Array_0));
                        assert(decreases_to!(self->Array_0 => self->Array_0@));
                        assert(decreases_to!(items@ => items@[i as int]));
                    }
                    if i > 0 {
                        out.append(",");
                    }
                    out.append(items[i].compact().as_str());
                    proof {
                        assert(i == 0 ==> out@ =~= compact_text(longer[0]));
                    }
                    i += 1;
                }
                proof {
                    assert(values_of(items@).take(i as int) =~= values_of(items@));
                }
                let mut r: String = "[".to_owned();
                r.append(out.as_str());
                r.append("]");
                r
            },
            Json::Object(fields) => {
                let mut out: String = String::new();
                let mut i: usize = 0;
                while i < fields.len()
                    invariant
                        i <= fields@.len(),
                        *self == Json::Object(*fields),
                        out@ == compact_fields(fields_of(fields@).take(i as int)),
                    decreases fields@.len() - i,
                {
                    let ghost longer = fields_of(fields@).take(i + 1);
                    proof {
                        assert(longer.drop_last() =~= fields_of(fields@).take(i as int));
                    }
                    proof {
                        assert(decreases_to!(*self => self->Object_0));
                        assert(decreases_to!(self->Object_0 => self->Object_0@));
                        assert(decreases_to!(fields@ => fields@[i as int]));
                        assert(decreases_to!(fields@[i as int] => fields@[i as int].1));
                    }
                    let mut part: String = quoted(fields[i].0.as_str());
                    part.append(":");
                    part.append(fields[i].1.compact().as_str());
                    if i > 0 {
                        out.append(",");
                    }
                    out.append(part.as_str());
                    proof {
                        assert(i == 0 ==> out@ =~= part@);
                    }
                    i += 1;
                }
                proof {
                    assert(fields_of(fields@).take(i as int) =~= fields_of(fields@));
                }
                let mut r: String = "{".to_owned();
                r.append(out.as_str());
                r.append("}");
                r
            },
        }
    }
}

/// The fields of an empty object.
pub open spec fn no_fields() -> Seq<(Seq<char>, JsonValue)> {
    Seq::empty()
}

/// The items of an empty array.
pub open spec fn no_items() -> Seq<JsonValue> {
    Seq::empty()
}

/// An object being built, field by field.
pub struct Fields {
    list: Vec<(String, Json)>,
}

impl View for Fields {
    type V = Seq<(Seq<char>, JsonValue)>;

    closed spec fn view(&self) -> Seq<(Seq<char>, JsonValue)> {
        fields_of(self.list@)
    }
}

impl Fields {
    /// No fields yet.
    pub fn new() -> (r: Fields)
        ensures
            r@ == no_fields(),
    {
        Fields { list: Vec::new() }
    }

    /// One more field, at the end.
    pub fn with(self, key: &str, value: Json) -> (r: Fields)
        ensures
            r@ == self@.push((key@, value@)),
    {
        let mut list: Vec<(String, Json)> = self.list;
        let ghost before = list@;
        list.push((key.to_owned(), value));
        proof {
            assert(fields_of(list@) =~= fields_of(before).push((key@, value@)));
        }
        Fields { list }
    }

    /// The object.
    pub fn object(self) -> (r: Json)
        ensures
            r@ == JsonValue::Object(self@),
    {
        Json::Object(self.list)
    }
}

/// An array being built, item by item.
pub struct Items {
    list: Vec<Json>,
}

impl View for Items {
    type V = Seq<JsonValue>;

    closed spec fn view(&self) -> Seq<JsonValue> {
        values_of(self.list@)
    }
}

impl Items {
    /// No items yet.
    pub fn new() -> (r: Items)
        ensures
            r@ == no_items(),
    {
        Items { list: Vec::new() }
    }

    /// One more item, at the end.
    pub fn with(self, value: Json) -> (r: Items)
        ensures
            r@ == self@.push(value@),
    {
        let mut list: Vec<Json> = self.list;
        let ghost before = list@;
        list.push(value);
        proof {
            assert(values_of(list@) =~= values_of(before).push(value@));
        }
        Items { list }
    }

    /// The array.
    pub fn array(self) -> (r: Json)
        ensures
            r@ == JsonValue::Array(self@),
    {
        Json::Array(self.list)
    }
}

/// An object gives for a key what its first field of that name holds, and
/// nothing where no field has the name.
pub proof fn lemma_field_at(fields: Seq<(Seq<char>, JsonValue)>, i: int)
    requires
        0 <= i < fields.len(),
        forall|j: int| 0 <= j < i ==> (#[trigger] fields[j]).0 != fields[i].0,
    ensures
        field(JsonValue::Object(fields), fields[i].0) == Some(fields[i].1),
{
    lemma_key_position_is(fields, fields[i].0, 0, i);
}

/// An object without a field of that name gives nothing for it.
pub proof fn lemma_no_such_field(fields: Seq<(Seq<char>, JsonValue)>, key: Seq<char>)
    requires
        forall|j: int| 0 <= j < fields.len() ==> (#[trigger] fields[j]).0 != key,
    ensures
        field(JsonValue::Object(fields), key) is None,
{
    lemma_key_position_is(fields, key, 0, fields.len() as int);
}

/// What a field holds is told by its type: a string is text, a boolean is a
/// truth value, and nothing else is either; what is not there is null.
pub proof fn lemma_what_a_field_holds(value: JsonValue, key: Seq<char>, s: Seq<char>, b: bool)
    ensures
        field_text(value, key) == Some(s) <==> field(value, key) == Some(JsonValue::Text(s)),
        field_bool(value, key) == Some(b) <==> field(value, key) == Some(JsonValue::Bool(b)),
        field(value, key) matches Some(held) ==> field_or_null(value, key) == held,
        field(value, key) is None ==> field_or_null(value, key) == JsonValue::Null,
        !(value is Object) ==> field(value, key) is None,
{
}

/// Setting a field of what is no object changes nothing; setting one of an
/// object moves no field, and adds one only where it was not there.
pub proof fn lemma_where_a_field_is_set(value: JsonValue, key: Seq<char>, new: JsonValue)
    ensures
        !(value is Object) ==> set_field(value, key, new) == value,
        value matches JsonValue::Object(fields) ==> (set_field(value, key, new) matches
            JsonValue::Object(after) && {
            &&& field(value, key) is Some ==> after.len() == fields.len()
            &&& field(value, key) is None ==> after == fields.push((key, new))
            &&& forall|i: int| 0 <= i < fields.len() ==> (#[trigger] after[i]).0 == fields[i].0
        }),
{
    if let JsonValue::Object(fields) = value {
        lemma_key_position(fields, key, 0);
    }
}

/// A whole number is written in its digits, exactly.
pub proof fn lemma_a_whole_number_is_written_in_digits(n: nat)
    ensures
        text::number_in(whole_number(n).literal, n) == Some(n),
        text::all_digits(whole_number(n).literal),
        whole_number(n).plain == whole_number(n).literal,
        narrowed(whole_number(n)) == whole_number(n),
{
    text::lemma_decimal_round_trip(n);
    text::lemma_number_in(n, n, whole_number(n).literal);
}

/// A number that single precision writes otherwise is written so once it is
/// narrowed, and only its literal changes; narrowing twice is narrowing once.
pub proof fn lemma_how_a_number_is_narrowed(n: NumberValue)
    ensures
        n.single matches Some(literal) ==> narrowed(n).literal == literal,
        n.single is None ==> narrowed(n) == n,
        narrowed(n).plain == n.plain,
        narrowed(narrowed(n)) == narrowed(n),
{
}

/// On one line, the items of an array stand in brackets with commas between
/// them, and the fields of an object in braces, each behind its name.
pub proof fn lemma_how_a_line_is_written(items: Seq<JsonValue>, fields: Seq<(Seq<char>, JsonValue)>)
    ensures
        compact_text(JsonValue::Array(items)) == "["@ + text::joined(
            items.map_values(|item: JsonValue| compact_text(item)),
            ","@,
        ) + "]"@,
        compact_text(JsonValue::Object(fields)) == "{"@ + text::joined(
            fields.map_values(
                |field: (Seq<char>, JsonValue)|
                    quoted_text(field.0) + ":"@ + compact_text(field.1),
            ),
            ","@,
        ) + "}"@,
{
    lemma_compact_items(items);
    lemma_compact_fields(fields);
}

proof fn lemma_compact_items(items: Seq<JsonValue>)
    ensures
        compact_items(items) == text::joined(
            items.map_values(|item: JsonValue| compact_text(item)),
            ","@,
        ),
    decreases items.len(),
{
    let written = items.map_values(|item: JsonValue| compact_text(item));
    if items.len() > 1 {
        let before = items.drop_last();
        lemma_compact_items(before);
        assert(written.drop_last() =~= before.map_values(|item: JsonValue| compact_text(item)));
    }
}

proof fn lemma_compact_fields(fields: Seq<(Seq<char>, JsonValue)>)
    ensures
        compact_fields(fields) == text::joined(
            fields.map_values(
                |field: (Seq<char>, JsonValue)|
                    quoted_text(field.0) + ":"@ + compact_text(field.1),
            ),
            ","@,
        ),
    decreases fields.len(),
{
    let one = |field: (Seq<char>, JsonValue)| quoted_text(field.0) + ":"@ + compact_text(field.1);
    let written = fields.map_values(one);
    if fields.len() > 1 {
        let before = fields.drop_last();
        lemma_compact_fields(before);
        assert(written.drop_last() =~= before.map_values(one));
    }
}

/// On one line, null and the truth values are their names, and a number is its
/// literal.
pub proof fn lemma_how_plain_values_are_written(b: bool, n: NumberValue)
    ensures
        compact_text(JsonValue::Null) == "null"@,
        compact_text(JsonValue::Bool(b)) == (if b {
            "true"@
        } else {
            "false"@
        }),
        compact_text(JsonValue::Number(n)) == n.literal,
{
}

/// The number that a lower-case hexadecimal digit writes.
pub open spec fn hex_value(c: char) -> int {
    if '0' <= c <= '9' {
        c as int - '0' as int
    } else {
        c as int - 'a' as int + 10
    }
}

/// What the inside of a string literal stands for.
pub open spec fn unescaped(s: Seq<char>) -> Seq<char>
    decreases s.len(),
{
    if s.len() == 0 {
        Seq::empty()
    } else if s[0] != '\\' {
        seq![s[0]] + unescaped(s.skip(1))
    } else if s.len() == 1 {
        Seq::empty()
    } else if s[1] == 'u' && s.len() >= 6 {
        seq![
            (hex_value(s[2]) * 4096 + hex_value(s[3]) * 256 + hex_value(s[4]) * 16 + hex_value(
                s[5],
            )) as char,
        ] + unescaped(s.skip(6))
    } else {
        seq![
            if s[1] == 'n' {
                '\n'
            } else if s[1] == 'r' {
                '\r'
            } else if s[1] == 't' {
                '\t'
            } else if s[1] == 'b' {
                8int as char
            } else if s[1] == 'f' {
                12int as char
            } else {
                s[1]
            },
        ] + unescaped(s.skip(2))
    }
}

proof fn lemma_unescaped(c: char, rest: Seq<char>)
    ensures
        unescaped(escaped(c) + rest) == seq![c] + unescaped(rest),
{
    let s = escaped(c) + rest;
    if s[0] != '\\' {
        assert(s.skip(1) =~= rest);
    } else if s[1] == 'u' {
        assert(s.skip(6) =~= rest);
    } else {
        assert(s.skip(2) =~= rest);
    }
}

proof fn lemma_escaped_from_the_front(s: Seq<char>)
    requires
        s.len() > 0,
    ensures
        escaped_text(s) == escaped(s[0]) + escaped_text(s.skip(1)),
    decreases s.len(),
{
    if s.len() == 1 {
        assert(s.drop_last() =~= Seq::empty());
        assert(s.skip(1) =~= Seq::empty());
        assert(escaped_text(s) =~= escaped(s[0]) + escaped_text(s.skip(1)));
    } else {
        let rest = s.skip(1);
        lemma_escaped_from_the_front(s.drop_last());
        assert(s.drop_last().skip(1) =~= rest.drop_last());
        assert(rest.last() == s.last());
        assert(escaped_text(s) =~= escaped(s[0]) + escaped_text(rest));
    }
}

proof fn lemma_escaped_reads_back(s: Seq<char>)
    ensures
        unescaped(escaped_text(s)) == s,
    decreases s.len(),
{
    if s.len() > 0 {
        lemma_escaped_from_the_front(s);
        lemma_unescaped(s[0], escaped_text(s.skip(1)));
        lemma_escaped_reads_back(s.skip(1));
        assert(seq![s[0]] + s.skip(1) =~= s);
    } else {
        assert(s =~= Seq::empty());
    }
}

/// A string literal stands between quotes, and what is between them stands for
/// the string.
pub proof fn lemma_a_literal_reads_back(s: Seq<char>)
    ensures
        ({
            let literal = compact_text(JsonValue::Text(s));
            &&& literal.len() >= 2
            &&& literal[0] == '"'
            &&& literal.last() == '"'
            &&& unescaped(literal.subrange(1, literal.len() - 1)) == s
        }),
{
    let literal = quoted_text(s);
    lemma_escaped_reads_back(s);
    assert(literal.subrange(1, literal.len() - 1) =~= escaped_text(s));
}

} // verus!
