//! A KDL document as the configuration reader sees it: nodes with a name, entries
//! (positional arguments and named properties) and an optional block of children.
use vstd::prelude::*;
use crate::seqs::{first_where, lemma_first_where_at, lemma_first_where_none};
use crate::text::str_eq;

verus! {

/// A value of an entry. A float keeps the decimal text it is displayed with.
#[derive(Debug, PartialEq)]
pub enum ConfigValue {
    Str(String),
    Int(i128),
    Float(String),
    Bool(bool),
    Null,
}

/// An entry of a node: a positional argument (no name) or a property.
#[derive(Debug, PartialEq)]
pub struct ConfigEntry {
    pub name: Option<String>,
    pub value: ConfigValue,
}

#[derive(Debug, PartialEq)]
pub struct ConfigNode {
    pub name: String,
    pub entries: Vec<ConfigEntry>,
    pub children: Option<ConfigDoc>,
}

#[derive(Debug, PartialEq)]
pub struct ConfigDoc {
    pub nodes: Vec<ConfigNode>,
}

/// Positional argument `i` (counting only entries without a name).
pub open spec fn arg_at(es: Seq<ConfigEntry>, i: int) -> Option<ConfigValue>
    decreases es.len(),
{
    if es.len() == 0 {
        None
    } else if es[0].name is None {
        if i == 0 {
            Some(es[0].value)
        } else {
            arg_at(es.drop_first(), i - 1)
        }
    } else {
        arg_at(es.drop_first(), i)
    }
}

/// The last property named `key`.
pub open spec fn prop_of(es: Seq<ConfigEntry>, key: Seq<char>) -> Option<ConfigValue>
    decreases es.len(),
{
    if es.len() == 0 {
        None
    } else if es.last().name matches Some(n) && n@ == key {
        Some(es.last().value)
    } else {
        prop_of(es.drop_last(), key)
    }
}

/// The string values of the positional arguments, in order (other values skipped).
pub open spec fn string_args_of(es: Seq<ConfigEntry>) -> Seq<Seq<char>>
    decreases es.len(),
{
    if es.len() == 0 {
        Seq::empty()
    } else {
        let prev = string_args_of(es.drop_last());
        match es.last() {
            ConfigEntry { name: None, value: ConfigValue::Str(s) } => prev.push(s@),
            _ => prev,
        }
    }
}

/// Nodes named `name`.
pub open spec fn named(name: Seq<char>) -> spec_fn(ConfigNode) -> bool {
    |n: ConfigNode| n.name@ == name
}

/// The first node named `name`.
pub open spec fn doc_node(d: ConfigDoc, name: Seq<char>) -> Option<ConfigNode> {
    match first_where(d.nodes@, named(name)) {
        Some(i) => Some(d.nodes@[i]),
        None => None,
    }
}

/// The first argument of the first node named `name`.
pub open spec fn doc_arg(d: ConfigDoc, name: Seq<char>) -> Option<ConfigValue> {
    match doc_node(d, name) {
        Some(n) => arg_at(n.entries@, 0),
        None => None,
    }
}

/// A string value.
pub open spec fn value_str(v: Option<ConfigValue>) -> Option<Seq<char>> {
    match v {
        Some(ConfigValue::Str(s)) => Some(s@),
        _ => None,
    }
}

/// A boolean value.
pub open spec fn value_bool(v: Option<ConfigValue>) -> Option<bool> {
    match v {
        Some(ConfigValue::Bool(b)) => Some(b),
        _ => None,
    }
}

/// The first argument of a node as a string.
pub open spec fn first_string(n: ConfigNode) -> Option<Seq<char>> {
    value_str(arg_at(n.entries@, 0))
}

/// A number of the configuration: an integer, or a decimal kept as its text.
#[derive(Debug, PartialEq)]
pub enum Number {
    Int(i128),
    Float(String),
}

/// The view of a [`Number`].
pub enum NumberView {
    Int(int),
    Float(Seq<char>),
}

impl View for Number {
    type V = NumberView;

    open spec fn view(&self) -> NumberView {
        match self {
            Number::Int(i) => NumberView::Int(*i as int),
            Number::Float(s) => NumberView::Float(s@),
        }
    }
}

/// The view of an optional number.
pub open spec fn opt_number(o: Option<Number>) -> Option<NumberView> {
    match o {
        Some(n) => Some(n@),
        None => None,
    }
}

/// The number a value stands for: an integer or a decimal; other values are none.
pub open spec fn number_value(v: Option<ConfigValue>) -> Option<NumberView> {
    match v {
        Some(ConfigValue::Int(i)) => Some(NumberView::Int(i as int)),
        Some(ConfigValue::Float(s)) => Some(NumberView::Float(s@)),
        _ => None,
    }
}

/// An integer value cut to 32 bits, as `as i32` cuts it.
pub open spec fn small_int_value(v: Option<ConfigValue>) -> Option<i32> {
    match v {
        Some(ConfigValue::Int(i)) => Some(i as i32),
        _ => None,
    }
}

/// The number an optional value stands for (see [`number_value`]).
pub fn number_of(v: Option<&ConfigValue>) -> (res: Option<Number>)
    ensures
        opt_number(res) == number_value(crate::json::deref_opt(v)),
{
    match v {
        Some(ConfigValue::Int(i)) => Some(Number::Int(*i)),
        Some(ConfigValue::Float(s)) => Some(Number::Float(s.clone())),
        _ => None,
    }
}

/// An optional integer value cut to 32 bits (see [`small_int_value`]).
pub fn small_int_of(v: Option<&ConfigValue>) -> (res: Option<i32>)
    ensures
        res == small_int_value(crate::json::deref_opt(v)),
{
    match v {
        Some(ConfigValue::Int(i)) => Some(*i as i32),
        _ => None,
    }
}

impl ConfigValue {
    pub fn as_string(&self) -> (res: Option<&str>)
        ensures
            match res {
                Some(s) => value_str(Some(*self)) == Some(s@),
                None => value_str(Some(*self)) is None,
            },
    {
        match self {
            ConfigValue::Str(s) => Some(s.as_str()),
            _ => None,
        }
    }

    pub fn as_bool(&self) -> (res: Option<bool>)
        ensures
            res == value_bool(Some(*self)),
    {
        match self {
            ConfigValue::Bool(b) => Some(*b),
            _ => None,
        }
    }
}

/// A string value of an optional value.
pub fn opt_string(v: Option<&ConfigValue>) -> (res: Option<&str>)
    ensures
        match res {
            Some(s) => value_str(crate::json::deref_opt(v)) == Some(s@),
            None => value_str(crate::json::deref_opt(v)) is None,
        },
{
    match v {
        Some(x) => x.as_string(),
        None => None,
    }
}

impl ConfigNode {
    /// Positional argument `i`.
    pub fn arg(&self, i: usize) -> (res: Option<&ConfigValue>)
        ensures
            crate::json::deref_opt(res) == arg_at(self.entries@, i as int),
    {
        let mut k: usize = 0;
        let mut seen: usize = 0;
        assert(self.entries@.skip(0) =~= self.entries@);
        while k < self.entries.len()
            invariant
                k <= self.entries@.len(),
                seen <= k,
                seen <= i,
                arg_at(self.entries@, i as int) == arg_at(self.entries@.skip(k as int), i - seen),
            decreases self.entries@.len() - k,
        {
            assert(self.entries@.skip(k as int).drop_first() =~= self.entries@.skip(k + 1));
            assert(self.entries@.skip(k as int)[0] == self.entries@[k as int]);
            if self.entries[k].name.is_none() {
                if seen == i {
                    return Some(&self.entries[k].value);
                }
                seen = seen + 1;
            }
            k = k + 1;
        }
        assert(self.entries@.skip(k as int).len() == 0);
        None
    }

    /// The last property named `key`.
    pub fn prop(&self, key: &str) -> (res: Option<&ConfigValue>)
        ensures
            crate::json::deref_opt(res) == prop_of(self.entries@, key@),
    {
        let mut k: usize = self.entries.len();
        assert(self.entries@.take(k as int) =~= self.entries@);
        while k > 0
            invariant
                k <= self.entries@.len(),
                prop_of(self.entries@, key@) == prop_of(self.entries@.take(k as int), key@),
            decreases k,
        {
            let e = &self.entries[k - 1];
            assert(self.entries@.take(k as int).last() == self.entries@[k - 1]);
            assert(self.entries@.take(k as int).drop_last() =~= self.entries@.take(k - 1));
            match &e.name {
                Some(n) => {
                    if str_eq(n.as_str(), key) {
                        return Some(&e.value);
                    }
                },
                None => {},
            }
            k = k - 1;
        }
        None
    }

    /// The string values of the positional arguments, in order.
    pub fn string_args(&self) -> (res: Vec<String>)
        ensures
            res@.map_values(|s: String| s@) == string_args_of(self.entries@),
    {
        let mut out: Vec<String> = Vec::new();
        let mut k: usize = 0;
        while k < self.entries.len()
            invariant
                k <= self.entries@.len(),
                out@.map_values(|s: String| s@) == string_args_of(self.entries@.take(k as int)),
            decreases self.entries@.len() - k,
        {
            assert(self.entries@.take(k + 1).last() == self.entries@[k as int]);
            assert(self.entries@.take(k + 1).drop_last() =~= self.entries@.take(k as int));
            let e = &self.entries[k];
            if e.name.is_none() {
                match &e.value {
                    ConfigValue::Str(s) => {
                        out.push(s.clone());
                        assert(out@.map_values(|s: String| s@) =~= string_args_of(
                            self.entries@.take(k as int),
                        ).push(s@));
                    },
                    _ => {},
                }
            }
            k = k + 1;
        }
        assert(self.entries@.take(self.entries@.len() as int) =~= self.entries@);
        out
    }

    /// The first argument as a string.
    pub fn first_string(&self) -> (res: Option<&str>)
        ensures
            match res {
                Some(s) => first_string(*self) == Some(s@),
                None => first_string(*self) is None,
            },
    {
        opt_string(self.arg(0))
    }
}

impl ConfigDoc {
    /// The first node named `name`.
    pub fn get(&self, name: &str) -> (res: Option<&ConfigNode>)
        ensures
            crate::json::deref_opt(res) == doc_node(*self, name@),
    {
        let mut i: usize = 0;
        while i < self.nodes.len()
            invariant
                i <= self.nodes@.len(),
                forall|j: int| 0 <= j < i ==> !named(name@)(#[trigger] self.nodes@[j]),
            decreases self.nodes@.len() - i,
        {
            if str_eq(self.nodes[i].name.as_str(), name) {
                proof {
                    assert(named(name@)(self.nodes@[i as int]));
                    lemma_first_where_at(self.nodes@, named(name@), i as int);
                }
                return Some(&self.nodes[i]);
            }
            i = i + 1;
        }
        proof {
            lemma_first_where_none(self.nodes@, named(name@));
        }
        None
    }

    /// The first argument of the first node named `name`.
    pub fn get_arg(&self, name: &str) -> (res: Option<&ConfigValue>)
        ensures
            crate::json::deref_opt(res) == doc_arg(*self, name@),
    {
        match self.get(name) {
            Some(n) => n.arg(0),
            None => None,
        }
    }
}

#[verifier::external_type_specification]
#[verifier::external_body]
pub struct ExKdlDocument(kdl::KdlDocument);

/// What `str::parse::<kdl::KdlDocument>` reads from `text`, in the library's terms
/// (`None` when the text is not a KDL document).
pub uninterp spec fn kdl_document(text: Seq<char>) -> Option<ConfigDoc>;

/// Parses `text` with `kdl::KdlDocument`'s `FromStr` and converts the document; an
/// error becomes its message. The contract ties the document to the text through
/// [`kdl_document`]; it says nothing of the message.
#[verifier::external_body]
pub(crate) fn read_kdl(text: &str) -> (res: Result<ConfigDoc, String>)
    ensures
        match res {
            Ok(d) => kdl_document(text@) == Some(d),
            Err(_) => kdl_document(text@) is None,
        },
{
    match text.parse::<kdl::KdlDocument>() {
        Ok(doc) => Ok(from_kdl(&doc)),
        Err(e) => Err(e.to_string()),
    }
}

/// Converts a `kdl::KdlDocument` node by node.
#[verifier::external_body]
fn from_kdl(doc: &kdl::KdlDocument) -> ConfigDoc {
    let node = |n: &kdl::KdlNode| ConfigNode {
        name: n.name().value().to_string(),
        entries: n.entries().iter().map(from_kdl_entry).collect(),
        children: n.children().map(from_kdl),
    };
    ConfigDoc { nodes: doc.nodes().iter().map(node).collect() }
}

#[verifier::external_type_specification]
#[verifier::external_body]
pub struct ExKdlEntry(kdl::KdlEntry);

/// Converts one `kdl::KdlEntry`: its name, and its value variant by variant (a float
/// by its `Display` text).
#[verifier::external_body]
fn from_kdl_entry(e: &kdl::KdlEntry) -> ConfigEntry {
    ConfigEntry {
        name: e.name().map(|i| i.value().to_string()),
        value: match e.value() {
            kdl::KdlValue::String(s) => ConfigValue::Str(s.clone()),
            kdl::KdlValue::Integer(i) => ConfigValue::Int(*i),
            kdl::KdlValue::Float(x) => ConfigValue::Float(x.to_string()),
            kdl::KdlValue::Bool(b) => ConfigValue::Bool(*b),
            kdl::KdlValue::Null => ConfigValue::Null,
        },
    }
}

} // verus!
