//! Values of options, as a configuration file holds them.

use vstd::prelude::*;

verus! {

/// The value of an option. A double is kept as its bit pattern, and a date as a text that tells it
/// exactly. The members of a table are in the order of their keys.
#[derive(Debug)]
pub enum OptionValue {
    Text(String),
    Integer(i64),
    Float(u64),
    Boolean(bool),
    Datetime(String),
    Array(Vec<OptionValue>),
    Table(Vec<OptionMember>),
}

/// A member of a table.
#[derive(Debug)]
pub struct OptionMember {
    pub key: String,
    pub value: OptionValue,
}

/// What an [`OptionValue`] holds.
pub enum OptionTree {
    Text(Seq<char>),
    Integer(i64),
    Float(u64),
    Boolean(bool),
    Datetime(Seq<char>),
    Array(Seq<OptionTree>),
    Table(Seq<(Seq<char>, OptionTree)>),
}

impl OptionValue {
    /// What the value holds.
    pub open spec fn tree(self) -> OptionTree
        decreases self,
    {
        match self {
            OptionValue::Text(t) => OptionTree::Text(t@),
            OptionValue::Integer(n) => OptionTree::Integer(n),
            OptionValue::Float(bits) => OptionTree::Float(bits),
            OptionValue::Boolean(b) => OptionTree::Boolean(b),
            OptionValue::Datetime(t) => OptionTree::Datetime(t@),
            OptionValue::Array(items) => OptionTree::Array(
                Seq::new(
                    items@.len(),
                    |i: int|
                        if 0 <= i < items@.len() {
                            items@[i].tree()
                        } else {
                            OptionTree::Integer(0)
                        },
                ),
            ),
            OptionValue::Table(members) => OptionTree::Table(
                Seq::new(
                    members@.len(),
                    |i: int|
                        if 0 <= i < members@.len() {
                            (members@[i].key@, members@[i].value.tree())
                        } else {
                            (Seq::empty(), OptionTree::Integer(0))
                        },
                ),
            ),
        }
    }
}

impl View for OptionValue {
    type V = OptionTree;

    open spec fn view(&self) -> OptionTree {
        self.tree()
    }
}

/// Whether a bit pattern is that of a double that is not a number.
pub open spec fn not_a_number(bits: u64) -> bool {
    bits % 0x8000_0000_0000_0000 > 0x7ff0_0000_0000_0000
}

/// Whether two doubles are equal: zeros of either sign are, and what is not a number equals
/// nothing.
pub open spec fn equal_doubles(a: u64, b: u64) -> bool {
    (a == b && !not_a_number(a)) || (a % 0x8000_0000_0000_0000 == 0 && b % 0x8000_0000_0000_0000 == 0)
}

/// Whether two optional doubles are equal.
pub open spec fn equal_optional_doubles(a: Option<u64>, b: Option<u64>) -> bool {
    match (a, b) {
        (Some(x), Some(y)) => equal_doubles(x, y),
        (None, None) => true,
        _ => false,
    }
}

fn is_not_a_number(bits: u64) -> (yes: bool)
    ensures
        yes == not_a_number(bits),
{
    bits % 0x8000_0000_0000_0000 > 0x7ff0_0000_0000_0000
}

/// Whether two doubles are equal.
pub fn same_double(a: u64, b: u64) -> (yes: bool)
    ensures
        yes == equal_doubles(a, b),
{
    let x: u64 = a % 0x8000_0000_0000_0000;
    let y: u64 = b % 0x8000_0000_0000_0000;
    (a == b && x <= 0x7ff0_0000_0000_0000) || (x == 0 && y == 0)
}

/// Whether two optional doubles are equal.
pub fn same_optional_double(a: Option<u64>, b: Option<u64>) -> (yes: bool)
    ensures
        yes == equal_optional_doubles(a, b),
{
    match (a, b) {
        (Some(x), Some(y)) => same_double(x, y),
        (None, None) => true,
        _ => false,
    }
}

/// How two values are compared.
#[derive(Clone, Copy, Debug, PartialEq, Eq, Structural)]
pub enum Sameness {
    /// Doubles are compared as numbers.
    Equal,
    /// Doubles are compared as they are written.
    Identical,
}

/// Whether two doubles are the same.
pub open spec fn alike_doubles(how: Sameness, a: u64, b: u64) -> bool {
    match how {
        Sameness::Equal => equal_doubles(a, b),
        Sameness::Identical => a == b || (not_a_number(a) && not_a_number(b)),
    }
}

/// Whether two values are the same.
pub open spec fn alike(how: Sameness, a: OptionTree, b: OptionTree) -> bool
    decreases a,
{
    match (a, b) {
        (OptionTree::Float(x), OptionTree::Float(y)) => alike_doubles(how, x, y),
        (OptionTree::Array(x), OptionTree::Array(y)) => x.len() == y.len() && forall|i: int|
            0 <= i < x.len() ==> alike(how, #[trigger] x[i], y[i]),
        (OptionTree::Table(x), OptionTree::Table(y)) => x.len() == y.len() && forall|i: int|
            0 <= i < x.len() ==> (#[trigger] x[i]).0 == y[i].0 && alike(how, x[i].1, y[i].1),
        _ => a == b,
    }
}

/// A value is identical to itself.
pub proof fn alike_itself(a: OptionTree)
    ensures
        alike(Sameness::Identical, a, a),
    decreases a,
{
    match a {
        OptionTree::Array(x) => {
            assert forall|i: int| 0 <= i < x.len() implies alike(Sameness::Identical, #[trigger] x[i], x[i]) by {
                assert(decreases_to!(a => x));
                alike_itself(x[i]);
            }
        },
        OptionTree::Table(x) => {
            assert forall|i: int| 0 <= i < x.len() implies (#[trigger] x[i]).0 == x[i].0 && alike(
                Sameness::Identical,
                x[i].1,
                x[i].1,
            ) by {
                assert(decreases_to!(a => x));
                assert(decreases_to!(x => x[i]));
                assert(decreases_to!(x[i] => x[i].1));
                alike_itself(x[i].1);
            }
        },
        _ => {},
    }
}

impl OptionValue {
    /// Whether two values are the same.
    pub fn same(&self, other: &OptionValue, how: Sameness) -> (yes: bool)
        ensures
            yes == alike(how, self@, other@),
        decreases self,
    {
        match (self, other) {
            (OptionValue::Text(a), OptionValue::Text(b)) => *a == *b,
            (OptionValue::Integer(a), OptionValue::Integer(b)) => *a == *b,
            (OptionValue::Float(a), OptionValue::Float(b)) => match how {
                Sameness::Equal => same_double(*a, *b),
                Sameness::Identical => *a == *b || (is_not_a_number(*a) && is_not_a_number(*b)),
            },
            (OptionValue::Boolean(a), OptionValue::Boolean(b)) => *a == *b,
            (OptionValue::Datetime(a), OptionValue::Datetime(b)) => *a == *b,
            (OptionValue::Array(a), OptionValue::Array(b)) => OptionValue::same_items(a, b, how),
            (OptionValue::Table(a), OptionValue::Table(b)) => OptionValue::same_members(a, b, how),
            _ => false,
        }
    }

    fn same_items(a: &Vec<OptionValue>, b: &Vec<OptionValue>, how: Sameness) -> (yes: bool)
        ensures
            yes == alike(how, OptionValue::Array(*a)@, OptionValue::Array(*b)@),
        decreases a,
    {
        let ghost x = OptionValue::Array(*a)@->Array_0;
        let ghost y = OptionValue::Array(*b)@->Array_0;
        if a.len() != b.len() {
            assert(x.len() != y.len());
            return false;
        }
        let mut i: usize = 0;
        while i < a.len()
            invariant
                i <= a@.len(),
                a@.len() == b@.len(),
                x == OptionValue::Array(*a)@->Array_0,
                y == OptionValue::Array(*b)@->Array_0,
                forall|j: int| 0 <= j < i ==> alike(how, #[trigger] x[j], y[j]),
            decreases a@.len() - i,
        {
            assert(x[i as int] == a@[i as int]@);
            assert(y[i as int] == b@[i as int]@);
            assert(decreases_to!(a => a@[i as int]));
            if !a[i].same(&b[i], how) {
                assert(!alike(how, x[i as int], y[i as int]));
                return false;
            }
            i += 1;
        }
        true
    }

    fn same_members(a: &Vec<OptionMember>, b: &Vec<OptionMember>, how: Sameness) -> (yes: bool)
        ensures
            yes == alike(how, OptionValue::Table(*a)@, OptionValue::Table(*b)@),
        decreases a,
    {
        let ghost x = OptionValue::Table(*a)@->Table_0;
        let ghost y = OptionValue::Table(*b)@->Table_0;
        if a.len() != b.len() {
            assert(x.len() != y.len());
            return false;
        }
        let mut i: usize = 0;
        while i < a.len()
            invariant
                i <= a@.len(),
                a@.len() == b@.len(),
                x == OptionValue::Table(*a)@->Table_0,
                y == OptionValue::Table(*b)@->Table_0,
                forall|j: int| 0 <= j < i ==> (#[trigger] x[j]).0 == y[j].0 && alike(how, x[j].1, y[j].1),
            decreases a@.len() - i,
        {
            assert(x[i as int] == (a@[i as int].key@, a@[i as int].value@));
            assert(y[i as int] == (b@[i as int].key@, b@[i as int].value@));
            assert(decreases_to!(a => a@[i as int]));
            if a[i].key != b[i].key || !a[i].value.same(&b[i].value, how) {
                assert(x[i as int].0 != y[i as int].0 || !alike(how, x[i as int].1, y[i as int].1));
                return false;
            }
            i += 1;
        }
        true
    }

    /// The value as a flag.
    pub fn as_bool(&self) -> (flag: Option<bool>)
        ensures
            flag == flag_of(self@),
    {
        match self {
            OptionValue::Boolean(b) => Some(*b),
            _ => None,
        }
    }

    /// The value as an integer.
    pub fn as_integer(&self) -> (number: Option<i64>)
        ensures
            number == integer_of(self@),
    {
        match self {
            OptionValue::Integer(n) => Some(*n),
            _ => None,
        }
    }
}

/// A value as a flag.
pub open spec fn flag_of(t: OptionTree) -> Option<bool> {
    match t {
        OptionTree::Boolean(b) => Some(b),
        _ => None,
    }
}

/// A value as an integer.
pub open spec fn integer_of(t: OptionTree) -> Option<i64> {
    match t {
        OptionTree::Integer(n) => Some(n),
        _ => None,
    }
}

/// `toml::Value`, a value of a configuration file.
#[verifier::external_type_specification]
#[verifier::external_body]
pub struct ExTomlValue(toml::Value);

/// What a `toml::Value` holds.
pub uninterp spec fn toml_contents(value: toml::Value) -> OptionTree;

/// One level of a `toml::Value`.
#[derive(Debug)]
pub enum TomlNode {
    Text(String),
    Integer(i64),
    Float(u64),
    Boolean(bool),
    Datetime(String),
    Array(Vec<toml::Value>),
    Table(Vec<(String, toml::Value)>),
}

/// What the values of a sequence hold.
pub open spec fn all_toml_contents(values: Seq<toml::Value>) -> Seq<OptionTree> {
    values.map_values(|v: toml::Value| toml_contents(v))
}

/// What the members of a sequence hold.
pub open spec fn member_toml_contents(members: Seq<(String, toml::Value)>) -> Seq<(Seq<char>, OptionTree)> {
    members.map_values(|m: (String, toml::Value)| (m.0@, toml_contents(m.1)))
}

/// What a level holds.
pub open spec fn toml_node_contents(node: TomlNode) -> OptionTree {
    match node {
        TomlNode::Text(t) => OptionTree::Text(t@),
        TomlNode::Integer(n) => OptionTree::Integer(n),
        TomlNode::Float(bits) => OptionTree::Float(bits),
        TomlNode::Boolean(b) => OptionTree::Boolean(b),
        TomlNode::Datetime(t) => OptionTree::Datetime(t@),
        TomlNode::Array(items) => OptionTree::Array(all_toml_contents(items@)),
        TomlNode::Table(members) => OptionTree::Table(member_toml_contents(members@)),
    }
}

/// Takes a `toml::Value` apart by its variant: the level holds what the value holds. A date is
/// written out with all its fields, and the members of a table come in the order of their keys.
#[verifier::external_body]
fn take_toml_apart(value: toml::Value) -> (node: TomlNode)
    ensures
        toml_node_contents(node) == toml_contents(value),
{
    match value {
        toml::Value::String(t) => TomlNode::Text(t),
        toml::Value::Integer(n) => TomlNode::Integer(n),
        toml::Value::Float(x) => TomlNode::Float(x.to_bits()),
        toml::Value::Boolean(b) => TomlNode::Boolean(b),
        toml::Value::Datetime(d) => TomlNode::Datetime(format!("{:?}", d)),
        toml::Value::Array(items) => TomlNode::Array(items),
        toml::Value::Table(members) => TomlNode::Table(members.into_iter().collect()),
    }
}

/// The value that holds what a `toml::Value` holds.
pub fn from_toml(value: toml::Value) -> (option: OptionValue)
    ensures
        option@ == toml_contents(value),
    decreases toml_contents(value),
{
    let ghost whole = toml_contents(value);
    match take_toml_apart(value) {
        TomlNode::Text(t) => OptionValue::Text(t),
        TomlNode::Integer(n) => OptionValue::Integer(n),
        TomlNode::Float(bits) => OptionValue::Float(bits),
        TomlNode::Boolean(b) => OptionValue::Boolean(b),
        TomlNode::Datetime(t) => OptionValue::Datetime(t),
        TomlNode::Array(values) => {
            let ghost all = values@;
            let mut rest = values;
            let mut backwards: Vec<OptionValue> = Vec::new();
            while rest.len() > 0
                invariant
                    rest@ == all.take(rest@.len() as int),
                    rest@.len() + backwards@.len() == all.len(),
                    whole == toml_contents(value),
                    whole == OptionTree::Array(all_toml_contents(all)),
                    forall|k: int|
                        0 <= k < backwards@.len() ==> (#[trigger] backwards@[k])@ == toml_contents(
                            all[all.len() - 1 - k],
                        ),
                decreases rest@.len(),
            {
                let ghost n = rest@.len() as int;
                let last = rest.pop().unwrap();
                proof {
                    assert(last == all[n - 1]);
                    assert(whole->Array_0[n - 1] == toml_contents(last));
                    assert(decreases_to!(whole => whole->Array_0));
                    assert(decreases_to!(whole->Array_0 => whole->Array_0[n - 1]));
                    assert(rest@ =~= all.take(n - 1));
                }
                backwards.push(from_toml(last));
            }
            let mut items: Vec<OptionValue> = Vec::new();
            while backwards.len() > 0
                invariant
                    items@.len() + backwards@.len() == all.len(),
                    forall|k: int|
                        0 <= k < backwards@.len() ==> (#[trigger] backwards@[k])@ == toml_contents(
                            all[all.len() - 1 - k],
                        ),
                    forall|k: int| 0 <= k < items@.len() ==> (#[trigger] items@[k])@ == toml_contents(all[k]),
                decreases backwards@.len(),
            {
                items.push(backwards.pop().unwrap());
            }
            let option = OptionValue::Array(items);
            proof {
                assert(option@->Array_0 =~= all_toml_contents(all));
            }
            option
        }
        TomlNode::Table(pairs) => {
            let ghost all = pairs@;
            let mut rest = pairs;
            let mut backwards: Vec<OptionMember> = Vec::new();
            while rest.len() > 0
                invariant
                    rest@ == all.take(rest@.len() as int),
                    rest@.len() + backwards@.len() == all.len(),
                    whole == toml_contents(value),
                    whole == OptionTree::Table(member_toml_contents(all)),
                    forall|k: int|
                        0 <= k < backwards@.len() ==> (#[trigger] backwards@[k]).key@ == all[all.len() - 1 - k].0@
                            && backwards@[k].value@ == toml_contents(all[all.len() - 1 - k].1),
                decreases rest@.len(),
            {
                let ghost n = rest@.len() as int;
                let (key, last) = rest.pop().unwrap();
                proof {
                    assert(last == all[n - 1].1);
                    assert(whole->Table_0[n - 1].1 == toml_contents(last));
                    assert(decreases_to!(whole => whole->Table_0));
                    assert(decreases_to!(whole->Table_0 => whole->Table_0[n - 1]));
                    assert(decreases_to!(whole->Table_0[n - 1] => whole->Table_0[n - 1].1));
                    assert(rest@ =~= all.take(n - 1));
                }
                let value = from_toml(last);
                backwards.push(OptionMember { key, value });
            }
            let mut members: Vec<OptionMember> = Vec::new();
            while backwards.len() > 0
                invariant
                    members@.len() + backwards@.len() == all.len(),
                    forall|k: int|
                        0 <= k < backwards@.len() ==> (#[trigger] backwards@[k]).key@ == all[all.len() - 1 - k].0@
                            && backwards@[k].value@ == toml_contents(all[all.len() - 1 - k].1),
                    forall|k: int|
                        0 <= k < members@.len() ==> (#[trigger] members@[k]).key@ == all[k].0@ && members@[k].value@
                            == toml_contents(all[k].1),
                decreases backwards@.len(),
            {
                members.push(backwards.pop().unwrap());
            }
            let option = OptionValue::Table(members);
            proof {
                assert(option@->Table_0 =~= member_toml_contents(all));
            }
            option
        }
    }
}

/// What `{:?}` writes of a `toml::Value`, by what the value holds.
pub uninterp spec fn toml_text(tree: OptionTree) -> Seq<char>;

/// `format!` with `{:?}`: the value as the `Debug` of `toml::Value` writes it. The text depends on
/// what the value holds alone; how it looks is not said.
#[verifier::external_body]
fn write_toml(value: &toml::Value) -> (s: String)
    ensures
        s@ == toml_text(toml_contents(*value)),
{
    format!("{:?}", value)
}

/// The value of an option as a configuration file sets it, with the text that stands for it where
/// settings are listed.
#[derive(Debug)]
pub struct ConfigOption {
    value: OptionValue,
    text: String,
}

impl View for ConfigOption {
    type V = OptionTree;

    closed spec fn view(&self) -> OptionTree {
        self.value@
    }
}

impl ConfigOption {
    #[verifier::type_invariant]
    spec fn wf(self) -> bool {
        self.text@ == toml_text(self.value@)
    }

    /// The option that holds what a `toml::Value` holds.
    pub fn from_toml(value: toml::Value) -> (option: ConfigOption)
        ensures
            option@ == toml_contents(value),
    {
        let text = write_toml(&value);
        ConfigOption { value: from_toml(value), text }
    }

    /// The value.
    pub fn value(&self) -> (value: &OptionValue)
        ensures
            value@ == self@,
    {
        &self.value
    }

    /// How the value is written.
    pub fn text(&self) -> (text: &str)
        ensures
            text@ == toml_text(self@),
    {
        proof {
            use_type_invariant(self);
        }
        self.text.as_str()
    }
}

/// Doubles are equal as numbers exactly if their bits are and they are numbers, or both are zero. As they are written,
/// zeros of different signs differ and what is no number is the same.
pub proof fn doubles_are_compared_as_numbers_or_as_written(a: u64, b: u64)
    ensures
        alike_doubles(Sameness::Equal, a, b) <==> (a == b && !((a / 0x10_0000_0000_0000) % 0x800 == 0x7ff && a
            % 0x10_0000_0000_0000 != 0)) || (a % 0x8000_0000_0000_0000 == 0 && b % 0x8000_0000_0000_0000 == 0),
        alike_doubles(Sameness::Identical, a, b) <==> a == b || ((a / 0x10_0000_0000_0000) % 0x800 == 0x7ff && a
            % 0x10_0000_0000_0000 != 0 && (b / 0x10_0000_0000_0000) % 0x800 == 0x7ff && b % 0x10_0000_0000_0000 != 0),
{
    assert(a % 0x8000_0000_0000_0000u64 > 0x7ff0_0000_0000_0000u64 <==> ((a / 0x10_0000_0000_0000u64) % 0x800u64
        == 0x7ffu64 && a % 0x10_0000_0000_0000u64 != 0)) by (bit_vector);
    assert(b % 0x8000_0000_0000_0000u64 > 0x7ff0_0000_0000_0000u64 <==> ((b / 0x10_0000_0000_0000u64) % 0x800u64
        == 0x7ffu64 && b % 0x10_0000_0000_0000u64 != 0)) by (bit_vector);
}

/// Values without doubles are the same exactly if they are equal. Values of different kinds are never the same, nor are
/// lists of different lengths or tables whose keys differ.
pub proof fn values_are_the_same_by_what_they_hold(how: Sameness, a: OptionTree, b: OptionTree, i: int)
    ensures
        a is Text || a is Integer || a is Boolean || a is Datetime ==> (alike(how, a, b) <==> a == b),
        alike(how, a, b) ==> (a is Float <==> b is Float) && (a is Array <==> b is Array) && (a is Table <==> b is Table),
        a is Array && alike(how, a, b) ==> a->Array_0.len() == b->Array_0.len() && (0 <= i < a->Array_0.len() ==> alike(
            how,
            a->Array_0[i],
            b->Array_0[i],
        )),
        a is Table && alike(how, a, b) ==> a->Table_0.len() == b->Table_0.len() && (0 <= i < a->Table_0.len()
            ==> a->Table_0[i].0 == b->Table_0[i].0 && alike(how, a->Table_0[i].1, b->Table_0[i].1)),
        flag_of(a) matches Some(f) ==> a == OptionTree::Boolean(f),
        integer_of(a) matches Some(n) ==> a == OptionTree::Integer(n),
        a is Boolean ==> flag_of(a) is Some,
        a is Integer ==> integer_of(a) is Some,
{
}

/// Numbers that may be missing are equal when both are missing, or both are there and equal.
pub proof fn missing_doubles_equal_only_each_other(a: u64, b: u64)
    ensures
        equal_optional_doubles(None, None),
        !equal_optional_doubles(None, Some(b)),
        !equal_optional_doubles(Some(a), None),
        a == b && a < 0x7ff0_0000_0000_0000 ==> equal_optional_doubles(Some(a), Some(b)),
        a != b && (a % 0x8000_0000_0000_0000 != 0 || b % 0x8000_0000_0000_0000 != 0) ==> !equal_optional_doubles(
            Some(a),
            Some(b),
        ),
{
}

} // verus!
