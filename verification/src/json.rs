//! A JSON document as plain values, with the reads that the sites'
//! answers need (a member of an object, an element of an array, an
//! unsigned integer) and its compact JSON text, strings being written by
//! the JSON library.

use vstd::prelude::*;
use vstd::string::*;
use crate::text::{decimal, lemma_decimal_denotes, numeral_value, push_decimal};

verus! {

/// A JSON number, as the JSON library keeps it: a non-negative integer, a
/// negative integer, or any other number, held by its shortest decimal text.
#[derive(Clone, Debug, PartialEq)]
pub enum JsonNumber {
    PosInt(u64),
    NegInt(i64),
    Float(String),
}

/// A JSON value. An object lists its members in order.
#[derive(Debug)]
pub enum JsonValue {
    Null,
    Bool(bool),
    Number(JsonNumber),
    Str(String),
    Array(Vec<JsonValue>),
    Object(Vec<(String, JsonValue)>),
}

/// The mathematical form of a JSON number.
pub enum NumberModel {
    PosInt(u64),
    NegInt(i64),
    Float(Seq<char>),
}

/// The mathematical form of a JSON value: text as sequences of characters.
pub enum JsonModel {
    Null,
    Bool(bool),
    Number(NumberModel),
    Str(Seq<char>),
    Array(Seq<JsonModel>),
    Object(Seq<(Seq<char>, JsonModel)>),
}

impl JsonNumber {
    /// The number in mathematical terms.
    pub open spec fn model(self) -> NumberModel {
        match self {
            JsonNumber::PosInt(n) => NumberModel::PosInt(n),
            JsonNumber::NegInt(n) => NumberModel::NegInt(n),
            JsonNumber::Float(t) => NumberModel::Float(t@),
        }
    }
}

impl JsonValue {
    /// The value in mathematical terms, member by member and element by
    /// element.
    pub open spec fn model(self) -> JsonModel
        decreases self,
    {
        match self {
            JsonValue::Null => JsonModel::Null,
            JsonValue::Bool(b) => JsonModel::Bool(b),
            JsonValue::Number(n) => JsonModel::Number(n.model()),
            JsonValue::Str(s) => JsonModel::Str(s@),
            JsonValue::Array(items) => JsonModel::Array(
                Seq::new(items@.len(), |i: int| if 0 <= i < items@.len() { items@[i].model() } else { JsonModel::Null }),
            ),
            JsonValue::Object(members) => JsonModel::Object(
                Seq::new(members@.len(), |i: int| if 0 <= i < members@.len() {
                    (members@[i].0@, members@[i].1.model())
                } else {
                    (Seq::empty(), JsonModel::Null)
                }),
            ),
        }
    }
}


/// The value of the first member named `key` in a list of members.
pub open spec fn lookup(members: Seq<(Seq<char>, JsonModel)>, key: Seq<char>) -> Option<JsonModel>
    decreases members.len(),
{
    if members.len() == 0 {
        None
    } else if members[0].0 == key {
        Some(members[0].1)
    } else {
        lookup(members.drop_first(), key)
    }
}

/// The member named `key` of an object; `None` when `v` is no object or has
/// no such member (where the JSON library's index gives `null`).
pub open spec fn member(v: JsonModel, key: Seq<char>) -> Option<JsonModel> {
    match v {
        JsonModel::Object(members) => lookup(members, key),
        _ => None,
    }
}

/// The element at position `i` of an array; `None` when `v` is no array or
/// is too short (where the JSON library's index gives `null`).
pub open spec fn element(v: JsonModel, i: int) -> Option<JsonModel> {
    match v {
        JsonModel::Array(items) => if 0 <= i < items.len() { Some(items[i]) } else { None },
        _ => None,
    }
}

/// The value as an unsigned 64-bit integer, when it is one.
pub open spec fn unsigned(v: JsonModel) -> Option<u64> {
    match v {
        JsonModel::Number(NumberModel::PosInt(n)) => Some(n),
        _ => None,
    }
}

/// Looking a key up finds the first member with that key: when member
/// `i` has the key and none before it does, the lookup gives member `i`'s
/// value; when no member has the key, it gives nothing.
pub proof fn lemma_lookup_first(members: Seq<(Seq<char>, JsonModel)>, key: Seq<char>, i: int)
    requires
        0 <= i <= members.len(),
        i < members.len() ==> members[i].0 == key,
        forall|j: int| 0 <= j < i ==> #[trigger] members[j].0 != key,
    ensures
        i < members.len() ==> lookup(members, key) == Some(members[i].1),
        i == members.len() ==> lookup(members, key) is None,
    decreases i,
{
    if i > 0 {
        let rest = members.drop_first();
        assert forall|j: int| 0 <= j < i - 1 implies #[trigger] rest[j].0 != key by {
            assert(rest[j] == members[j + 1]);
        }
        if i < members.len() {
            assert(rest[i - 1] == members[i]);
        }
        lemma_lookup_first(rest, key, i - 1);
        assert(members[0].0 != key);
    }
}

/// The model of an optional reference to a value.
pub open spec fn model_of(r: Option<&JsonValue>) -> Option<JsonModel> {
    match r {
        Some(v) => Some(v.model()),
        None => None,
    }
}

impl JsonValue {
    /// The member named `key`, when this is an object that has one.
    pub fn get(&self, key: &str) -> (r: Option<&JsonValue>)
        ensures
            model_of(r) == member(self.model(), key@),
            !(self.model() is Object) ==> r is None,
            self.model() is Object ==> model_of(r) == lookup(self.model()->Object_0, key@),
    {
        match self {
            JsonValue::Object(members) => {
                let wanted = String::from_str(key);
                let ghost ms = self.model()->Object_0;
                let mut i: usize = 0;
                assert(ms.skip(0) =~= ms);
                while i < members.len()
                    invariant
                        0 <= i <= members@.len(),
                        ms.len() == members@.len(),
                        forall|j: int| 0 <= j < members@.len() ==> #[trigger] ms[j] == (members@[j].0@, members@[j].1.model()),
                        wanted@ == key@,
                        member(self.model(), key@) == lookup(ms, key@),
                        lookup(ms, key@) == lookup(ms.skip(i as int), key@),
                    decreases members@.len() - i,
                {
                    assert(ms.skip(i as int).drop_first() =~= ms.skip(i + 1));
                    assert(ms.skip(i as int)[0] == ms[i as int]);
                    if members[i].0 == wanted {
                        assert(lookup(ms.skip(i as int), key@) == Some(ms[i as int].1));
                        return Some(&members[i].1);
                    }
                    i = i + 1;
                }
                assert(ms.skip(i as int).len() == 0);
                None
            },
            _ => None,
        }
    }

    /// The element at position `i`, when this is an array that long.
    pub fn at(&self, i: usize) -> (r: Option<&JsonValue>)
        ensures
            model_of(r) == element(self.model(), i as int),
            r is Some <==> (self.model() is Array && i < self.model()->Array_0.len()),
            r matches Some(e) ==> e.model() == self.model()->Array_0[i as int],
    {
        match self {
            JsonValue::Array(items) => {
                if i < items.len() {
                    Some(&items[i])
                } else {
                    None
                }
            },
            _ => None,
        }
    }

    /// The value as an unsigned 64-bit integer, when it is one.
    pub fn as_u64(&self) -> (r: Option<u64>)
        ensures
            r == unsigned(self.model()),
            forall|n: u64| r == Some(n) <==> self.model() == JsonModel::Number(NumberModel::PosInt(n)),
    {
        match self {
            JsonValue::Number(JsonNumber::PosInt(n)) => Some(*n),
            _ => None,
        }
    }
}


/// The text that `serde_json::to_string` writes for the string `s`: the
/// string in double quotes, with the characters that JSON requires escaped.
pub uninterp spec fn json_quoted(s: Seq<char>) -> Seq<char>;

/// `serde_json::to_string` on a string slice. Its serializer writes into a
/// byte vector, which cannot fail, so the error arm is never taken; the
/// text is named by `json_quoted` and nothing more is claimed of it.
#[verifier::external_body]
fn quote_json(s: &str) -> (quoted: String)
    ensures
        quoted@ == json_quoted(s@),
{
    match serde_json::to_string(s) {
        Ok(text) => text,
        Err(_) => String::new(),
    }
}

/// The text of a number: integers in decimal, a negative one after a minus
/// sign, any other number by the text it was given with.
pub open spec fn number_text(n: NumberModel) -> Seq<char> {
    match n {
        NumberModel::PosInt(u) => decimal(u as nat),
        NumberModel::NegInt(i) => if i < 0 {
            seq!['-'] + decimal((-i) as nat)
        } else {
            decimal(i as nat)
        },
        NumberModel::Float(text) => text,
    }
}

/// The compact JSON text of a value, as `Value::to_string` writes it: no
/// spaces, elements and members separated by commas, members in their order
/// (for a value read from JSON text, the JSON library's key order), strings
/// and keys written by the JSON library.
pub open spec fn json_text(v: JsonModel) -> Seq<char>
    decreases v,
{
    match v {
        JsonModel::Null => "null"@,
        JsonModel::Bool(b) => if b { "true"@ } else { "false"@ },
        JsonModel::Number(n) => number_text(n),
        JsonModel::Str(s) => json_quoted(s),
        JsonModel::Array(items) => seq!['['] + items_text(items) + seq![']'],
        JsonModel::Object(members) => seq!['{'] + members_text(members) + seq!['}'],
    }
}

/// What the JSON text of a value spells out: `null`, `true` and `false`
/// for those literals, a numeral denoting a non-negative integer, a minus
/// sign before a numeral denoting the magnitude of a negative one, and an
/// array or object between its brackets or braces.
pub proof fn lemma_json_text_meaning(v: JsonModel)
    ensures
        v is Null ==> json_text(v) == seq!['n', 'u', 'l', 'l'],
        v == JsonModel::Bool(true) ==> json_text(v) == seq!['t', 'r', 'u', 'e'],
        v == JsonModel::Bool(false) ==> json_text(v) == seq!['f', 'a', 'l', 's', 'e'],
        forall|n: u64| v == JsonModel::Number(NumberModel::PosInt(n))
            ==> numeral_value(json_text(v)) == n && json_text(v).len() >= 1,
        forall|i: i64| v == JsonModel::Number(NumberModel::NegInt(i)) && i < 0 ==> {
            &&& json_text(v)[0] == '-'
            &&& numeral_value(json_text(v).drop_first()) == -i
        },
        v is Array ==> json_text(v)[0] == '[' && json_text(v).last() == ']',
        v is Object ==> json_text(v)[0] == '{' && json_text(v).last() == '}',
{
    reveal_strlit("null");
    reveal_strlit("true");
    reveal_strlit("false");
    assert("null"@ =~= seq!['n', 'u', 'l', 'l']);
    assert("true"@ =~= seq!['t', 'r', 'u', 'e']);
    assert("false"@ =~= seq!['f', 'a', 'l', 's', 'e']);
    match v {
        JsonModel::Number(NumberModel::PosInt(n)) => {
            lemma_decimal_denotes(n as nat);
        },
        JsonModel::Number(NumberModel::NegInt(i)) => {
            if i < 0 {
                lemma_decimal_denotes((-i) as nat);
                assert((seq!['-'] + decimal((-i) as nat)).drop_first() =~= decimal((-i) as nat));
            }
        },
        _ => {},
    }
}

/// The texts of `items`, separated by commas.
pub open spec fn items_text(items: Seq<JsonModel>) -> Seq<char>
    decreases items,
{
    if items.len() == 0 {
        Seq::empty()
    } else {
        let rest = items.drop_last();
        (if rest.len() == 0 { Seq::empty() } else { items_text(rest) + seq![','] })
            + json_text(items[items.len() - 1])
    }
}

/// The texts of `members`, each as key, colon and value, separated by commas.
pub open spec fn members_text(members: Seq<(Seq<char>, JsonModel)>) -> Seq<char>
    decreases members,
{
    if members.len() == 0 {
        Seq::empty()
    } else {
        let rest = members.drop_last();
        let last = members[members.len() - 1];
        (if rest.len() == 0 { Seq::empty() } else { members_text(rest) + seq![','] })
            + json_quoted(last.0) + seq![':'] + json_text(last.1)
    }
}

/// The models of a list of values.
pub open spec fn models_of(items: Seq<JsonValue>) -> Seq<JsonModel> {
    Seq::new(items.len(), |i: int| items[i].model())
}

/// The models of a list of members.
pub open spec fn member_models_of(members: Seq<(String, JsonValue)>) -> Seq<(Seq<char>, JsonModel)> {
    Seq::new(members.len(), |i: int| (members[i].0@, members[i].1.model()))
}

/// Appends the texts of `items`, separated by commas, to `out`.
fn write_items(items: &Vec<JsonValue>, out: &mut String)
    ensures
        final(out)@ == old(out)@ + items_text(models_of(items@)),
    decreases items,
{
    proof {
        reveal_strlit(",");
    }
    let ghost start = out@;
    let ghost models = models_of(items@);
    let mut i: usize = 0;
    while i < items.len()
        invariant
            0 <= i <= items@.len(),
            models == models_of(items@),
            out@ == start + items_text(models.take(i as int)),
        decreases items@.len() - i,
    {
        proof {
            reveal_strlit(",");
        }
        if i > 0 {
            out.append(",");
        }
        let ghost mid = out@;
        proof {
            assert(decreases_to!(*items => items@));
            assert(decreases_to!(items@ => items@[i as int]));
        }
        items[i].write_text(out);
        proof {
            let t = models.take(i + 1);
            assert(t.drop_last() =~= models.take(i as int));
            assert(t[t.len() - 1] == models[i as int]);
            assert(out@ =~= start + items_text(t));
        }
        i = i + 1;
    }
    assert(models.take(items@.len() as int) =~= models);
}

/// Appends the members, each as key, colon and value, separated by commas,
/// to `out`.
fn write_members(members: &Vec<(String, JsonValue)>, out: &mut String)
    ensures
        final(out)@ == old(out)@ + members_text(member_models_of(members@)),
    decreases members,
{
    let ghost start = out@;
    let ghost models = member_models_of(members@);
    let mut i: usize = 0;
    while i < members.len()
        invariant
            0 <= i <= members@.len(),
            models == member_models_of(members@),
            out@ == start + members_text(models.take(i as int)),
        decreases members@.len() - i,
    {
        proof {
            reveal_strlit(",");
            reveal_strlit(":");
        }
        if i > 0 {
            out.append(",");
        }
        let quoted = quote_json(members[i].0.as_str());
        out.append(quoted.as_str());
        out.append(":");
        let ghost mid = out@;
        proof {
            assert(decreases_to!(*members => members@));
            assert(decreases_to!(members@ => members@[i as int]));
            assert(decreases_to!(members@[i as int] => members@[i as int].1));
        }
        members[i].1.write_text(out);
        proof {
            let t = models.take(i + 1);
            assert(t.drop_last() =~= models.take(i as int));
            assert(t[t.len() - 1] == models[i as int]);
            assert(out@ =~= start + members_text(t));
        }
        i = i + 1;
    }
    assert(models.take(members@.len() as int) =~= models);
}

impl JsonValue {
    /// Appends the compact JSON text of this value to `out`.
    pub fn write_text(&self, out: &mut String)
        ensures
            final(out)@ == old(out)@ + json_text(self.model()),
        decreases self,
    {
        proof {
            reveal_strlit("null");
            reveal_strlit("true");
            reveal_strlit("false");
            reveal_strlit("-");
            reveal_strlit("[");
            reveal_strlit("]");
            reveal_strlit("{");
            reveal_strlit("}");
        }
        match self {
            JsonValue::Null => out.append("null"),
            JsonValue::Bool(b) => out.append(if *b { "true" } else { "false" }),
            JsonValue::Number(JsonNumber::PosInt(n)) => push_decimal(out, *n),
            JsonValue::Number(JsonNumber::NegInt(n)) => {
                if *n < 0 {
                    out.append("-");
                    let magnitude: u64 = (0i128 - (*n as i128)) as u64;
                    push_decimal(out, magnitude);
                } else {
                    push_decimal(out, *n as u64);
                }
            },
            JsonValue::Number(JsonNumber::Float(text)) => out.append(text.as_str()),
            JsonValue::Str(text) => {
                let quoted = quote_json(text.as_str());
                out.append(quoted.as_str());
            },
            JsonValue::Array(items) => {
                proof {
                    assert(self.model()->Array_0 =~= models_of(items@));
                    assert(decreases_to!(*self => (*self)->Array_0));
                }
                out.append("[");
                write_items(items, out);
                out.append("]");
            },
            JsonValue::Object(members) => {
                proof {
                    assert(self.model()->Object_0 =~= member_models_of(members@));
                    assert(decreases_to!(*self => (*self)->Object_0));
                }
                out.append("{");
                write_members(members, out);
                out.append("}");
            },
        }
    }

    /// The compact JSON text of this value, as `Value::to_string` writes it.
    pub fn to_text(&self) -> (text: String)
        ensures
            text@ == json_text(self.model()),
    {
        let mut text = String::new();
        self.write_text(&mut text);
        text
    }
}

} // verus!
