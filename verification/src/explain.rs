//! Entries that describe plan nodes in EXPLAIN output.

use vstd::prelude::*;
use crate::expr::{Expression, SpecExpr, TableRef, view_exprs};
use crate::scalar::DataType;

verus! {

/// How much detail to explain.
#[derive(Clone, Copy, Debug, PartialEq, Eq, Structural)]
pub struct ExplainConfig {
    pub verbose: bool,
}

/// A value shown under a key of an entry.
#[derive(Debug)]
pub enum ExplainValue {
    Count(usize),
    TableRef(TableRef),
    Expressions(Vec<Expression>),
    DataTypes(Vec<DataType>),
}

/// The model of an [`ExplainValue`].
pub enum SpecExplainValue {
    Count(nat),
    TableRef(TableRef),
    Expressions(Seq<SpecExpr>),
    DataTypes(Seq<DataType>),
}

impl View for ExplainValue {
    type V = SpecExplainValue;

    open spec fn view(&self) -> SpecExplainValue {
        match self {
            ExplainValue::Count(n) => SpecExplainValue::Count(*n as nat),
            ExplainValue::TableRef(t) => SpecExplainValue::TableRef(*t),
            ExplainValue::Expressions(v) => SpecExplainValue::Expressions(view_exprs(v@)),
            ExplainValue::DataTypes(v) => SpecExplainValue::DataTypes(v@),
        }
    }
}

/// A keyed value of an entry.
#[derive(Debug)]
pub struct ExplainItem {
    pub key: String,
    pub value: ExplainValue,
}

/// The description of one plan node: its name and its keyed values, in order.
#[derive(Debug)]
pub struct ExplainEntry {
    pub name: String,
    pub items: Vec<ExplainItem>,
}

/// The keys and models of the values of an entry's items.
pub open spec fn items_view(items: Seq<ExplainItem>) -> Seq<(Seq<char>, SpecExplainValue)> {
    items.map_values(|it: ExplainItem| (it.key@, it.value@))
}

/// Builds an entry item by item.
pub struct EntryBuilder {
    pub conf: ExplainConfig,
    pub entry: ExplainEntry,
}

impl EntryBuilder {
    /// A builder for an entry named `name`, with no items yet.
    pub fn new(name: &str, conf: ExplainConfig) -> (r: EntryBuilder)
        ensures
            r.conf == conf,
            r.entry.name@ == name@,
            r.entry.items@.len() == 0,
    {
        EntryBuilder { conf, entry: ExplainEntry { name: String::from_str(name), items: Vec::new() } }
    }

    /// Adds the item `key`: `value`.
    pub fn with_value(self, key: &str, value: ExplainValue) -> (r: EntryBuilder)
        ensures
            r.conf == self.conf,
            r.entry.name == self.entry.name,
            items_view(r.entry.items@) == items_view(self.entry.items@).push((key@, value@)),
    {
        let mut b = self;
        let ghost before = b.entry.items@;
        b.entry.items.push(ExplainItem { key: String::from_str(key), value });
        assert(items_view(b.entry.items@) =~= items_view(before).push((key@, value@)));
        b
    }

    /// Adds the item `key`: `value` when the entry is verbose.
    pub fn with_value_if_verbose(self, key: &str, value: ExplainValue) -> (r: EntryBuilder)
        ensures
            r.conf == self.conf,
            r.entry.name == self.entry.name,
            items_view(r.entry.items@) == if self.conf.verbose {
                items_view(self.entry.items@).push((key@, value@))
            } else {
                items_view(self.entry.items@)
            },
    {
        if self.conf.verbose {
            self.with_value(key, value)
        } else {
            self
        }
    }

    /// Adds the item `key`: `value` when there is a value.
    pub fn with_value_opt(self, key: &str, value: Option<ExplainValue>) -> (r: EntryBuilder)
        ensures
            r.conf == self.conf,
            r.entry.name == self.entry.name,
            items_view(r.entry.items@) == match value {
                Some(v) => items_view(self.entry.items@).push((key@, v@)),
                None => items_view(self.entry.items@),
            },
    {
        match value {
            Some(v) => self.with_value(key, v),
            None => self,
        }
    }

    /// The finished entry.
    pub fn build(self) -> (r: ExplainEntry)
        ensures
            r == self.entry,
    {
        self.entry
    }
}

} // verus!
