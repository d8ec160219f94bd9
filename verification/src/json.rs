//! JSON values, as the parts of the panel that talk to compositors read them.

use vstd::prelude::*;
use crate::text;

verus! {

/// A number: what it is as an unsigned integer, as a signed integer, and as the bit pattern of
/// a double.
#[derive(Clone, Copy, Debug, PartialEq, Eq, Structural)]
pub struct JsonNumber {
    pub unsigned: Option<u64>,
    pub signed: Option<i64>,
    pub bits: Option<u64>,
}

/// A JSON value.
#[derive(Debug)]
pub enum Json {
    Null,
    Bool(bool),
    Number(JsonNumber),
    Text(String),
    Array(Vec<Json>),
    Object(Vec<Member>),
}

/// A member of an object.
#[derive(Debug)]
pub struct Member {
    pub key: String,
    pub value: Json,
}

/// What a [`Json`] value holds.
pub enum Tree {
    Null,
    Bool(bool),
    Number(JsonNumber),
    Text(Seq<char>),
    Array(Seq<Tree>),
    Object(Seq<(Seq<char>, Tree)>),
}

impl Json {
    /// What the value holds.
    pub open spec fn tree(self) -> Tree
        decreases self,
    {
        match self {
            Json::Null => Tree::Null,
            Json::Bool(b) => Tree::Bool(b),
            Json::Number(n) => Tree::Number(n),
            Json::Text(t) => Tree::Text(t@),
            Json::Array(items) => Tree::Array(
                Seq::new(
                    items@.len(),
                    |i: int|
                        if 0 <= i < items@.len() {
                            items@[i].tree()
                        } else {
                            Tree::Null
                        },
                ),
            ),
            Json::Object(members) => Tree::Object(
                Seq::new(
                    members@.len(),
                    |i: int|
                        if 0 <= i < members@.len() {
                            (members@[i].key@, members@[i].value.tree())
                        } else {
                            (Seq::empty(), Tree::Null)
                        },
                ),
            ),
        }
    }
}

impl View for Json {
    type V = Tree;

    open spec fn view(&self) -> Tree {
        self.tree()
    }
}

impl Tree {
    /// The value under `key`, if this is an object that has it.
    pub open spec fn get(self, key: Seq<char>) -> Option<Tree> {
        match self {
            Tree::Object(members) => find(members, key),
            _ => None,
        }
    }

    pub open spec fn as_array(self) -> Option<Seq<Tree>> {
        match self {
            Tree::Array(items) => Some(items),
            _ => None,
        }
    }

    pub open spec fn as_str(self) -> Option<Seq<char>> {
        match self {
            Tree::Text(t) => Some(t),
            _ => None,
        }
    }

    pub open spec fn as_bool(self) -> Option<bool> {
        match self {
            Tree::Bool(b) => Some(b),
            _ => None,
        }
    }

    pub open spec fn as_i64(self) -> Option<i64> {
        match self {
            Tree::Number(n) => n.signed,
            _ => None,
        }
    }

    pub open spec fn as_u64(self) -> Option<u64> {
        match self {
            Tree::Number(n) => n.unsigned,
            _ => None,
        }
    }

    /// The bit pattern of the number as a double.
    pub open spec fn as_bits(self) -> Option<u64> {
        match self {
            Tree::Number(n) => n.bits,
            _ => None,
        }
    }

    /// The item at a place of an array.
    pub open spec fn at(self, i: int) -> Option<Tree> {
        match self {
            Tree::Array(items) => if 0 <= i < items.len() { Some(items[i]) } else { None },
            _ => None,
        }
    }

    /// The bit pattern of the number under `key`.
    pub open spec fn bits(self, key: Seq<char>) -> Option<u64> {
        match self.get(key) {
            Some(v) => v.as_bits(),
            None => None,
        }
    }

    /// The value under `key`, `Null` where there is none.
    pub open spec fn member(self, key: Seq<char>) -> Tree {
        match self.get(key) {
            Some(v) => v,
            None => Tree::Null,
        }
    }

    /// The array under `key`.
    pub open spec fn array(self, key: Seq<char>) -> Option<Seq<Tree>> {
        match self.get(key) {
            Some(v) => v.as_array(),
            None => None,
        }
    }

    /// The text under `key`.
    pub open spec fn str(self, key: Seq<char>) -> Option<Seq<char>> {
        match self.get(key) {
            Some(v) => v.as_str(),
            None => None,
        }
    }

    /// The signed integer under `key`.
    pub open spec fn i64(self, key: Seq<char>) -> Option<i64> {
        match self.get(key) {
            Some(v) => v.as_i64(),
            None => None,
        }
    }

    /// The unsigned integer under `key`.
    pub open spec fn u64(self, key: Seq<char>) -> Option<u64> {
        match self.get(key) {
            Some(v) => v.as_u64(),
            None => None,
        }
    }

    /// The flag under `key`.
    pub open spec fn bool(self, key: Seq<char>) -> Option<bool> {
        match self.get(key) {
            Some(v) => v.as_bool(),
            None => None,
        }
    }

    /// Whether the flag under `key` is set.
    pub open spec fn flag(self, key: Seq<char>) -> bool {
        self.bool(key) == Some(true)
    }
}

/// The value of the first member with that key.
pub open spec fn find(members: Seq<(Seq<char>, Tree)>, key: Seq<char>) -> Option<Tree>
    decreases members.len(),
{
    if members.len() == 0 {
        None
    } else if members[0].0 == key {
        Some(members[0].1)
    } else {
        find(members.drop_first(), key)
    }
}

/// What stands under a key is smaller than what holds it.
pub proof fn found_is_smaller(members: Seq<(Seq<char>, Tree)>, key: Seq<char>)
    ensures
        find(members, key) is Some ==> decreases_to!(members => find(members, key)->0),
    decreases members.len(),
{
    if members.len() > 0 {
        if members[0].0 == key {
            assert(decreases_to!(members => members[0]));
            assert(decreases_to!(members[0] => members[0].1));
        } else {
            found_is_smaller(members.drop_first(), key);
            assert(decreases_to!(members => members.drop_first()));
        }
    }
}

/// The items of an array under a key are smaller than what holds them.
pub proof fn items_are_smaller(t: Tree, key: Seq<char>)
    ensures
        t.array(key) is Some ==> decreases_to!(t => t.array(key)->0),
{
    match t {
        Tree::Object(members) => {
            found_is_smaller(members, key);
            match find(members, key) {
                Some(Tree::Array(items)) => {
                    assert(decreases_to!(t => members));
                    assert(decreases_to!(Tree::Array(items) => items));
                },
                _ => {},
            }
        },
        _ => {},
    }
}

impl Json {
    /// The value under `key`, if this is an object that has it.
    pub fn get(&self, key: &str) -> (found: Option<&Json>)
        ensures
            match found {
                Some(v) => self@.get(key@) == Some(v@),
                None => self@.get(key@) is None,
            },
    {
        match self {
            Json::Object(members) => {
                let ghost all = self@->Object_0;
                let mut i: usize = 0;
                proof {
                    assert(all.skip(0) =~= all);
                }
                while i < members.len()
                    invariant
                        i <= members@.len(),
                        *self == Json::Object(*members),
                        all == self@->Object_0,
                        all.len() == members@.len(),
                        find(all, key@) == find(all.skip(i as int), key@),
                    decreases members@.len() - i,
                {
                    proof {
                        assert(all.skip(i as int)[0] == all[i as int]);
                        assert(all[i as int] == (members@[i as int].key@, members@[i as int].value@));
                        assert(all.skip(i as int).drop_first() =~= all.skip(i + 1));
                    }
                    if text::str_eq(members[i].key.as_str(), key) {
                        return Some(&members[i].value);
                    }
                    i += 1;
                }
                None
            }
            _ => None,
        }
    }

    pub fn as_array(&self) -> (items: Option<&Vec<Json>>)
        ensures
            match items {
                Some(v) => self@.as_array() == Some(trees(v@)),
                None => self@.as_array() is None,
            },
    {
        match self {
            Json::Array(items) => {
                proof {
                    assert(self@->Array_0 =~= trees(items@));
                }
                Some(items)
            }
            _ => None,
        }
    }

    pub fn as_str(&self) -> (text: Option<&str>)
        ensures
            match text {
                Some(t) => self@.as_str() == Some(t@),
                None => self@.as_str() is None,
            },
    {
        match self {
            Json::Text(t) => Some(t.as_str()),
            _ => None,
        }
    }

    pub fn as_bool(&self) -> (flag: Option<bool>)
        ensures
            flag == self@.as_bool(),
    {
        match self {
            Json::Bool(b) => Some(*b),
            _ => None,
        }
    }

    pub fn as_i64(&self) -> (number: Option<i64>)
        ensures
            number == self@.as_i64(),
    {
        match self {
            Json::Number(n) => n.signed,
            _ => None,
        }
    }

    pub fn as_u64(&self) -> (number: Option<u64>)
        ensures
            number == self@.as_u64(),
    {
        match self {
            Json::Number(n) => n.unsigned,
            _ => None,
        }
    }

    /// The bit pattern of a number as a double.
    pub fn as_bits(&self) -> (bits: Option<u64>)
        ensures
            bits == self@.as_bits(),
    {
        match self {
            Json::Number(n) => n.bits,
            _ => None,
        }
    }

    /// The item at a place of an array.
    pub fn at(&self, i: usize) -> (item: Option<&Json>)
        ensures
            match item {
                Some(v) => self@.at(i as int) == Some(v@),
                None => self@.at(i as int) is None,
            },
    {
        match self.as_array() {
            Some(items) => if i < items.len() { Some(&items[i]) } else { None },
            None => None,
        }
    }

    /// The bit pattern of the number under `key`.
    pub fn get_bits(&self, key: &str) -> (bits: Option<u64>)
        ensures
            bits == self@.bits(key@),
    {
        match self.get(key) {
            Some(v) => v.as_bits(),
            None => None,
        }
    }

    /// The value under `key`, `Null` where there is none.
    pub fn member(&self, key: &str) -> (value: &Json)
        ensures
            value@ == self@.member(key@),
    {
        match self.get(key) {
            Some(v) => v,
            None => &Json::Null,
        }
    }

    pub fn get_array(&self, key: &str) -> (items: Option<&Vec<Json>>)
        ensures
            match items {
                Some(v) => self@.array(key@) == Some(trees(v@)),
                None => self@.array(key@) is None,
            },
    {
        match self.get(key) {
            Some(v) => v.as_array(),
            None => None,
        }
    }

    /// The text under `key`.
    pub fn get_str(&self, key: &str) -> (text: Option<&str>)
        ensures
            match text {
                Some(t) => self@.str(key@) == Some(t@),
                None => self@.str(key@) is None,
            },
    {
        match self.get(key) {
            Some(v) => v.as_str(),
            None => None,
        }
    }

    /// The signed integer under `key`.
    pub fn get_i64(&self, key: &str) -> (number: Option<i64>)
        ensures
            number == self@.i64(key@),
    {
        match self.get(key) {
            Some(v) => v.as_i64(),
            None => None,
        }
    }

    /// The unsigned integer under `key`.
    pub fn get_u64(&self, key: &str) -> (number: Option<u64>)
        ensures
            number == self@.u64(key@),
    {
        match self.get(key) {
            Some(v) => v.as_u64(),
            None => None,
        }
    }

    /// The flag under `key`.
    pub fn get_bool(&self, key: &str) -> (flag: Option<bool>)
        ensures
            flag == self@.bool(key@),
    {
        match self.get(key) {
            Some(v) => v.as_bool(),
            None => None,
        }
    }

    /// Whether the flag under `key` is set.
    pub fn has_flag(&self, key: &str) -> (yes: bool)
        ensures
            yes == self@.flag(key@),
    {
        match self.get_bool(key) {
            Some(b) => b,
            None => false,
        }
    }
}

/// What the values of a sequence hold.
pub open spec fn trees(items: Seq<Json>) -> Seq<Tree> {
    items.map_values(|j: Json| j@)
}

/// `serde_json::Value`, a parsed JSON document.
#[verifier::external_type_specification]
#[verifier::external_body]
pub struct ExValue(serde_json::Value);

/// What a `serde_json::Value` holds.
pub uninterp spec fn contents(value: serde_json::Value) -> Tree;

/// The document that `serde_json` parses a text to, if it is one.
pub uninterp spec fn document(text: Seq<char>) -> Option<Tree>;

/// The document that `serde_json` parses bytes to, if they are one.
pub uninterp spec fn byte_document(bytes: Seq<u8>) -> Option<Tree>;

/// One level of a `serde_json::Value`.
#[derive(Debug)]
pub enum Node {
    Null,
    Bool(bool),
    Number(JsonNumber),
    Text(String),
    Array(Vec<serde_json::Value>),
    Object(Vec<(String, serde_json::Value)>),
}

/// What the values of a sequence hold.
pub open spec fn all_contents(values: Seq<serde_json::Value>) -> Seq<Tree> {
    values.map_values(|v: serde_json::Value| contents(v))
}

/// What the members of a sequence hold.
pub open spec fn member_contents(members: Seq<(String, serde_json::Value)>) -> Seq<(Seq<char>, Tree)> {
    members.map_values(|m: (String, serde_json::Value)| (m.0@, contents(m.1)))
}

/// What a level holds.
pub open spec fn node_contents(node: Node) -> Tree {
    match node {
        Node::Null => Tree::Null,
        Node::Bool(b) => Tree::Bool(b),
        Node::Number(n) => Tree::Number(n),
        Node::Text(t) => Tree::Text(t@),
        Node::Array(items) => Tree::Array(all_contents(items@)),
        Node::Object(members) => Tree::Object(member_contents(members@)),
    }
}

/// Takes a `serde_json::Value` apart by its variant, with `Number::as_u64`, `as_i64` and
/// `as_f64` for a number: the level holds what the value holds.
#[verifier::external_body]
fn take_apart(value: serde_json::Value) -> (node: Node)
    ensures
        node_contents(node) == contents(value),
{
    match value {
        serde_json::Value::Null => Node::Null,
        serde_json::Value::Bool(b) => Node::Bool(b),
        serde_json::Value::Number(n) => Node::Number(
            JsonNumber { unsigned: n.as_u64(), signed: n.as_i64(), bits: n.as_f64().map(|x| x.to_bits()) },
        ),
        serde_json::Value::String(s) => Node::Text(s),
        serde_json::Value::Array(items) => Node::Array(items),
        serde_json::Value::Object(members) => Node::Object(members.into_iter().collect()),
    }
}

/// `serde_json::from_str`: parses a text; the outcome depends on the text alone.
#[verifier::external_body]
fn parse_str(text: &str) -> (value: Option<serde_json::Value>)
    ensures
        match value {
            Some(v) => document(text@) == Some(contents(v)),
            None => document(text@) is None,
        },
{
    serde_json::from_str(text).ok()
}

/// `serde_json::from_slice`: parses bytes; the outcome depends on the bytes alone.
#[verifier::external_body]
fn parse_slice(bytes: &[u8]) -> (value: Option<serde_json::Value>)
    ensures
        match value {
            Some(v) => byte_document(bytes@) == Some(contents(v)),
            None => byte_document(bytes@) is None,
        },
{
    serde_json::from_slice(bytes).ok()
}

/// The JSON value that holds what `value` holds.
pub fn from_value(value: serde_json::Value) -> (json: Json)
    ensures
        json@ == contents(value),
    decreases contents(value),
{
    let ghost whole = contents(value);
    match take_apart(value) {
        Node::Null => Json::Null,
        Node::Bool(b) => Json::Bool(b),
        Node::Number(n) => Json::Number(n),
        Node::Text(t) => Json::Text(t),
        Node::Array(values) => {
            let ghost all = values@;
            let mut rest = values;
            let mut backwards: Vec<Json> = Vec::new();
            while rest.len() > 0
                invariant
                    rest@ == all.take(rest@.len() as int),
                    rest@.len() + backwards@.len() == all.len(),
                    whole == contents(value),
                    whole == Tree::Array(all_contents(all)),
                    forall|k: int|
                        0 <= k < backwards@.len() ==> (#[trigger] backwards@[k])@ == contents(all[all.len() - 1 - k]),
                decreases rest@.len(),
            {
                let ghost n = rest@.len() as int;
                let last = rest.pop().unwrap();
                proof {
                    assert(last == all[n - 1]);
                    assert(whole->Array_0[n - 1] == contents(last));
                    assert(decreases_to!(whole => whole->Array_0));
                    assert(decreases_to!(whole->Array_0 => whole->Array_0[n - 1]));
                    assert(rest@ =~= all.take(n - 1));
                }
                backwards.push(from_value(last));
            }
            let mut items: Vec<Json> = Vec::new();
            while backwards.len() > 0
                invariant
                    items@.len() + backwards@.len() == all.len(),
                    forall|k: int|
                        0 <= k < backwards@.len() ==> (#[trigger] backwards@[k])@ == contents(all[all.len() - 1 - k]),
                    forall|k: int| 0 <= k < items@.len() ==> (#[trigger] items@[k])@ == contents(all[k]),
                decreases backwards@.len(),
            {
                items.push(backwards.pop().unwrap());
            }
            let json = Json::Array(items);
            proof {
                assert(json@->Array_0 =~= all_contents(all));
            }
            json
        }
        Node::Object(pairs) => {
            let ghost all = pairs@;
            let mut rest = pairs;
            let mut backwards: Vec<Member> = Vec::new();
            while rest.len() > 0
                invariant
                    rest@ == all.take(rest@.len() as int),
                    rest@.len() + backwards@.len() == all.len(),
                    whole == contents(value),
                    whole == Tree::Object(member_contents(all)),
                    forall|k: int|
                        0 <= k < backwards@.len() ==> (#[trigger] backwards@[k]).key@ == all[all.len() - 1 - k].0@
                            && backwards@[k].value@ == contents(all[all.len() - 1 - k].1),
                decreases rest@.len(),
            {
                let ghost n = rest@.len() as int;
                let (key, last) = rest.pop().unwrap();
                proof {
                    assert(last == all[n - 1].1);
                    assert(whole->Object_0[n - 1].1 == contents(last));
                    assert(decreases_to!(whole => whole->Object_0));
                    assert(decreases_to!(whole->Object_0 => whole->Object_0[n - 1]));
                    assert(decreases_to!(whole->Object_0[n - 1] => whole->Object_0[n - 1].1));
                    assert(rest@ =~= all.take(n - 1));
                }
                let value = from_value(last);
                backwards.push(Member { key, value });
            }
            let mut members: Vec<Member> = Vec::new();
            while backwards.len() > 0
                invariant
                    members@.len() + backwards@.len() == all.len(),
                    forall|k: int|
                        0 <= k < backwards@.len() ==> (#[trigger] backwards@[k]).key@ == all[all.len() - 1 - k].0@
                            && backwards@[k].value@ == contents(all[all.len() - 1 - k].1),
                    forall|k: int|
                        0 <= k < members@.len() ==> (#[trigger] members@[k]).key@ == all[k].0@ && members@[k].value@
                            == contents(all[k].1),
                decreases backwards@.len(),
            {
                members.push(backwards.pop().unwrap());
            }
            let json = Json::Object(members);
            proof {
                assert(json@->Object_0 =~= member_contents(all));
            }
            json
        }
    }
}

/// Parses a JSON text.
pub fn parse(text: &str) -> (json: Option<Json>)
    ensures
        match json {
            Some(j) => document(text@) == Some(j@),
            None => document(text@) is None,
        },
{
    match parse_str(text) {
        Some(value) => Some(from_value(value)),
        None => None,
    }
}

/// Parses a JSON text given as bytes.
pub fn parse_bytes(bytes: &[u8]) -> (json: Option<Json>)
    ensures
        match json {
            Some(j) => byte_document(bytes@) == Some(j@),
            None => byte_document(bytes@) is None,
        },
{
    match parse_slice(bytes) {
        Some(value) => Some(from_value(value)),
        None => None,
    }
}

/// Parses one line of a line-delimited stream. White space around it does not count, and an
/// empty line holds no document.
pub fn parse_json_line(line: &str) -> (json: Option<Json>)
    ensures
        match json {
            Some(j) => text::trim(line@).len() > 0 && document(text::trim(line@)) == Some(j@),
            None => text::trim(line@).len() == 0 || document(text::trim(line@)) is None,
        },
{
    let line = text::trimmed(line);
    if line.as_str().is_empty() {
        return None;
    }
    parse(line.as_str())
}

/// What stands under a key is the value of the first member with that key, and nothing does where no member has it.
pub proof fn the_first_member_is_found(members: Seq<(Seq<char>, Tree)>, key: Seq<char>, i: int)
    ensures
        0 <= i < members.len() && members[i].0 == key && (forall|k: int| 0 <= k < i ==> (#[trigger] members[k]).0 != key)
            ==> Tree::Object(members).get(key) == Some(members[i].1),
        (forall|k: int| 0 <= k < members.len() ==> (#[trigger] members[k]).0 != key) ==> Tree::Object(members).get(
            key,
        ) is None,
    decreases members.len(),
{
    if members.len() > 0 {
        let rest = members.drop_first();
        the_first_member_is_found(rest, key, i - 1);
        if 0 < i < members.len() && members[i].0 == key && (forall|k: int| 0 <= k < i ==> (#[trigger] members[k]).0 != key) {
            assert(members[0].0 != key);
            assert forall|k: int| 0 <= k < i - 1 implies (#[trigger] rest[k]).0 != key by {
                assert(rest[k] == members[k + 1]);
            }
            assert(rest[i - 1] == members[i]);
        }
        if forall|k: int| 0 <= k < members.len() ==> (#[trigger] members[k]).0 != key {
            assert(members[0].0 != key);
            assert forall|k: int| 0 <= k < rest.len() implies (#[trigger] rest[k]).0 != key by {
                assert(rest[k] == members[k + 1]);
            }
        }
    }
}

/// Values are read as what they are: a text is no number and a number no flag.
pub proof fn values_are_read_as_what_they_are(t: Tree, key: Seq<char>)
    ensures
        ({
            let v = t.get(key);
            &&& t.str(key) matches Some(s) ==> v == Some(Tree::Text(s))
            &&& t.bool(key) matches Some(b) ==> v == Some(Tree::Bool(b))
            &&& t.array(key) matches Some(items) ==> v == Some(Tree::Array(items))
            &&& t.i64(key) matches Some(n) ==> v is Some && v->0 is Number && v->0->Number_0.signed == Some(n)
            &&& t.u64(key) matches Some(n) ==> v is Some && v->0 is Number && v->0->Number_0.unsigned == Some(n)
            &&& t.bits(key) matches Some(n) ==> v is Some && v->0 is Number && v->0->Number_0.bits == Some(n)
            &&& v matches Some(Tree::Text(s)) ==> t.str(key) == Some(s)
            &&& v matches Some(Tree::Bool(b)) ==> t.bool(key) == Some(b) && t.flag(key) == b
            &&& v matches Some(Tree::Array(items)) ==> t.array(key) == Some(items)
            &&& v matches Some(Tree::Number(n)) ==> t.i64(key) == n.signed && t.u64(key) == n.unsigned && t.bits(key)
                == n.bits
            &&& v is None ==> t.member(key) == Tree::Null && !t.flag(key)
            &&& v matches Some(value) ==> t.member(key) == value
            &&& t.flag(key) ==> v == Some(Tree::Bool(true))
        }),
{
}

/// Items are found at their places, and nothing elsewhere or in what is no array.
pub proof fn items_are_found_at_their_places(items: Seq<Tree>, value: Tree, i: int)
    ensures
        0 <= i < items.len() ==> Tree::Array(items).at(i) == Some(items[i]),
        i < 0 || i >= items.len() ==> Tree::Array(items).at(i) is None,
        !(value is Array) ==> value.at(i) is None,
{
}

} // verus!
