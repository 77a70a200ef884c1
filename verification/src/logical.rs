//! Logical plan nodes: aggregates and literal expression lists.

use vstd::prelude::*;
use std::collections::BTreeSet;
use crate::explain::{EntryBuilder, ExplainConfig, ExplainEntry, ExplainValue, SpecExplainValue, items_view};
use crate::expr::{Expression, TableRef, duplicate_all, view_exprs};
use crate::scalar::DataType;

verus! {

/// An instance of a GROUPING function.
///
/// A GROUPING function returns a i64 value denoting the null bitmask for that
/// group.
#[derive(Debug, Clone, PartialEq, Eq)]
pub struct GroupingFunction {
    /// Indices pointing to expressions in the GROUP BY.
    pub group_exprs: Vec<usize>,
}

/// An aggregate, optionally grouped.
#[derive(Debug, PartialEq, Eq)]
pub struct LogicalAggregate {
    /// Table ref that represents output of aggregate expressions.
    pub aggregates_table: TableRef,
    /// Aggregate expressions.
    pub aggregates: Vec<Expression>,
    /// Table ref representing output of the group by expressions.
    ///
    /// Will be None if this aggregate does not have an associated GROUP BY.
    pub group_table: Option<TableRef>,
    /// Expressions to group on.
    pub group_exprs: Vec<Expression>,
    /// Grouping set referencing group exprs.
    pub grouping_sets: Option<Vec<BTreeSet<usize>>>,
    /// Table reference for getting the GROUPING value for a group.
    ///
    /// This is Some if there's an explicit GROUPING function call in the query.
    pub grouping_functions_table: Option<TableRef>,
    /// Grouping function calls.
    ///
    /// Empty if `grouping_functions_table` is None.
    pub grouping_functions: Vec<GroupingFunction>,
}

/// A list of rows of expressions, all rows with the same column types.
#[derive(Debug, PartialEq, Eq)]
pub struct LogicalExpressionList {
    /// Table ref for the output of this list.
    pub table_ref: TableRef,
    /// Types for each "column" in the expression list.
    pub types: Vec<DataType>,
    /// "Rows" in the expression list.
    pub rows: Vec<Vec<Expression>>,
}

/// A node of a logical plan.
#[derive(Debug)]
pub struct Node<T> {
    pub node: T,
}

/// The table ref held by an option, as a sequence of zero or one.
pub open spec fn opt_ref(t: Option<TableRef>) -> Seq<TableRef> {
    match t {
        Some(r) => seq![r],
        None => Seq::empty(),
    }
}

/// An aggregate's output columns start with the group table's when it is
/// grouped, then come the aggregates table's, and end with the GROUPING
/// table's when there is one; no other table ref appears.
pub proof fn lemma_aggregate_output_order(group: Option<TableRef>, aggs: TableRef, grouping: Option<TableRef>)
    ensures
        ({
            let refs = opt_ref(group) + seq![aggs] + opt_ref(grouping);
            let a: int = if group is Some { 1 } else { 0 };
            &&& refs.len() == a + 1 + if grouping is Some { 1int } else { 0int }
            &&& group matches Some(g) ==> refs[0] == g
            &&& refs[a] == aggs
            &&& grouping matches Some(f) ==> refs[refs.len() - 1] == f
        }),
{
}

/// The items that explain an aggregate: its aggregate expressions; its
/// table ref when verbose; the GROUPING table ref when there is one; the
/// group expressions and the group table ref when there is a GROUP BY.
pub open spec fn aggregate_explain_items(agg: LogicalAggregate, conf: ExplainConfig) -> Seq<(Seq<char>, SpecExplainValue)> {
    seq![("aggregates"@, SpecExplainValue::Expressions(view_exprs(agg.aggregates@)))]
    + (if conf.verbose { seq![("table_ref"@, SpecExplainValue::TableRef(agg.aggregates_table))] } else { Seq::empty() })
    + match agg.grouping_functions_table {
        Some(t) => seq![("grouping_set_table_ref"@, SpecExplainValue::TableRef(t))],
        None => Seq::empty(),
    }
    + match agg.group_table {
        Some(_) => seq![("group_expressions"@, SpecExplainValue::Expressions(view_exprs(agg.group_exprs@)))],
        None => Seq::empty(),
    }
    + match agg.group_table {
        Some(t) => seq![("group_table_ref"@, SpecExplainValue::TableRef(t))],
        None => Seq::empty(),
    }
}

/// What each item of an aggregate's EXPLAIN entry shows, by its key: the
/// entry opens with the aggregate expressions; it shows the group
/// expressions, and the group table ref, exactly when there is a GROUP BY;
/// the GROUPING table ref exactly when there is one; and the aggregates'
/// table ref exactly when verbose.
pub proof fn lemma_aggregate_explain_keys(agg: LogicalAggregate, conf: ExplainConfig)
    ensures
        ({
            let items = aggregate_explain_items(agg, conf);
            &&& items.len() > 0
            &&& items[0] == ("aggregates"@, SpecExplainValue::Expressions(view_exprs(agg.aggregates@)))
            &&& agg.group_table is Some <==> exists|j: int| 0 <= j < items.len() && (#[trigger] items[j]).0 == "group_expressions"@
            &&& forall|j: int| 0 <= j < items.len() && (#[trigger] items[j]).0 == "group_expressions"@ ==>
                items[j].1 == SpecExplainValue::Expressions(view_exprs(agg.group_exprs@))
            &&& agg.group_table is Some <==> exists|j: int| 0 <= j < items.len() && (#[trigger] items[j]).0 == "group_table_ref"@
            &&& forall|j: int| 0 <= j < items.len() && (#[trigger] items[j]).0 == "group_table_ref"@ ==>
                items[j].1 == SpecExplainValue::TableRef(agg.group_table->Some_0)
            &&& agg.grouping_functions_table is Some <==> exists|j: int| 0 <= j < items.len() && (#[trigger] items[j]).0 == "grouping_set_table_ref"@
            &&& forall|j: int| 0 <= j < items.len() && (#[trigger] items[j]).0 == "grouping_set_table_ref"@ ==>
                items[j].1 == SpecExplainValue::TableRef(agg.grouping_functions_table->Some_0)
            &&& conf.verbose <==> exists|j: int| 0 <= j < items.len() && (#[trigger] items[j]).0 == "table_ref"@
            &&& forall|j: int| 0 <= j < items.len() && (#[trigger] items[j]).0 == "table_ref"@ ==>
                items[j].1 == SpecExplainValue::TableRef(agg.aggregates_table)
        }),
{
    reveal_strlit("aggregates");
    reveal_strlit("table_ref");
    reveal_strlit("grouping_set_table_ref");
    reveal_strlit("group_expressions");
    reveal_strlit("group_table_ref");
    let items = aggregate_explain_items(agg, conf);
    let a = ("aggregates"@, SpecExplainValue::Expressions(view_exprs(agg.aggregates@)));
    let v: Seq<(Seq<char>, SpecExplainValue)> = if conf.verbose {
        seq![("table_ref"@, SpecExplainValue::TableRef(agg.aggregates_table))]
    } else {
        Seq::empty()
    };
    let gs: Seq<(Seq<char>, SpecExplainValue)> = match agg.grouping_functions_table {
        Some(t) => seq![("grouping_set_table_ref"@, SpecExplainValue::TableRef(t))],
        None => Seq::empty(),
    };
    let ge: Seq<(Seq<char>, SpecExplainValue)> = match agg.group_table {
        Some(_) => seq![("group_expressions"@, SpecExplainValue::Expressions(view_exprs(agg.group_exprs@)))],
        None => Seq::empty(),
    };
    let gt: Seq<(Seq<char>, SpecExplainValue)> = match agg.group_table {
        Some(t) => seq![("group_table_ref"@, SpecExplainValue::TableRef(t))],
        None => Seq::empty(),
    };
    assert(items == seq![a] + v + gs + ge + gt);
    let n0: int = 1;
    let n1: int = n0 + v.len();
    let n2: int = n1 + gs.len();
    let n3: int = n2 + ge.len();
    assert forall|j: int| 0 <= j < items.len() implies
        (0 <= j < n0 ==> #[trigger] items[j] == a)
        && (n0 <= j < n1 ==> items[j] == v[j - n0])
        && (n1 <= j < n2 ==> items[j] == gs[j - n1])
        && (n2 <= j < n3 ==> items[j] == ge[j - n2])
        && (n3 <= j ==> items[j] == gt[j - n3]) by {}
    if conf.verbose {
        assert(items[n0].0 == "table_ref"@);
    }
    if agg.grouping_functions_table is Some {
        assert(items[n1].0 == "grouping_set_table_ref"@);
    }
    if agg.group_table is Some {
        assert(items[n2].0 == "group_expressions"@);
        assert(items[n3].0 == "group_table_ref"@);
    }
    assert(("aggregates"@).len() == 10);
    assert(("table_ref"@).len() == 9);
    assert(("grouping_set_table_ref"@).len() == 22);
    assert(("group_expressions"@).len() == 17);
    assert(("group_table_ref"@).len() == 15);
}

impl LogicalAggregate {
    /// Describes this aggregate for EXPLAIN; see [`aggregate_explain_items`].
    pub fn explain_entry(&self, conf: ExplainConfig) -> (r: ExplainEntry)
        ensures
            r.name@ == "Aggregate"@,
            items_view(r.items@) == aggregate_explain_items(*self, conf),
    {
        let group_exprs = match self.group_table {
            Some(_) => Some(ExplainValue::Expressions(duplicate_all(&self.group_exprs))),
            None => None,
        };
        let grouping_set_ref = match self.grouping_functions_table {
            Some(t) => Some(ExplainValue::TableRef(t)),
            None => None,
        };
        let group_ref = match self.group_table {
            Some(t) => Some(ExplainValue::TableRef(t)),
            None => None,
        };
        let entry = EntryBuilder::new("Aggregate", conf)
            .with_value("aggregates", ExplainValue::Expressions(duplicate_all(&self.aggregates)))
            .with_value_if_verbose("table_ref", ExplainValue::TableRef(self.aggregates_table))
            .with_value_opt("grouping_set_table_ref", grouping_set_ref)
            .with_value_opt("group_expressions", group_exprs)
            .with_value_opt("group_table_ref", group_ref)
            .build();
        assert(items_view(entry.items@) =~= aggregate_explain_items(*self, conf));
        entry
    }
}

/// The outcome of calling `func` on each of `exprs` in order, stopping at the
/// first error: `Ok` when every call could have succeeded, else an error that
/// the call on some expression could have returned after every earlier call
/// could have succeeded.
pub open spec fn visit_outcome<E, F: Fn(&Expression) -> Result<(), E>>(
    exprs: Seq<Expression>,
    func: F,
    r: Result<(), E>,
) -> bool {
    match r {
        Ok(_) => forall|i: int| 0 <= i < exprs.len() ==> func.ensures((&exprs[i],), Ok(())),
        Err(err) => exists|i: int|
            0 <= i < exprs.len() && func.ensures((&#[trigger] exprs[i],), Err(err)) && forall|j: int|
                0 <= j < i ==> func.ensures((&exprs[j],), Ok(())),
    }
}

/// Calls `func` on each of `exprs` in order, stopping at the first error.
fn visit_exprs<E, F: Fn(&Expression) -> Result<(), E>>(exprs: &Vec<Expression>, func: &F) -> (r: Result<(), E>)
    requires
        forall|e: &Expression| func.requires((e,)),
    ensures
        visit_outcome(exprs@, *func, r),
{
    let mut i: usize = 0;
    while i < exprs.len()
        invariant
            i <= exprs@.len(),
            forall|e: &Expression| func.requires((e,)),
            forall|j: int| 0 <= j < i ==> func.ensures((&exprs@[j],), Ok(())),
        decreases exprs@.len() - i,
    {
        let e = &exprs[i];
        assert(*e == exprs@[i as int]);
        let res = (*func)(e);
        match res {
            Ok(u) => {
                assert(u == ());
            },
            Err(err) => {
                return Err(err);
            },
        }
        i = i + 1;
    }
    Ok(())
}

/// The references `ms` that witness a run of calls over `n` expressions
/// hold one reference for each expression, and the failing call `k` is one
/// of their positions (or `n`).
pub open spec fn calls_witnessed(ms: Seq<&mut Expression>, k: int, n: nat) -> bool {
    ms.len() == n && 0 <= k <= n
}

/// The references that witness a visit of two lists, of `na` aggregates and
/// `ng` group expressions, hold one reference for each expression of each
/// list, and the failing call `k` is a position in one of them (or its end).
pub open spec fn visits_witnessed(ma: Seq<&mut Expression>, mg: Seq<&mut Expression>, k: int, na: nat, ng: nat) -> bool {
    &&& ma.len() == na
    &&& mg.len() == ng
    &&& 0 <= k <= na + ng
}

/// Calls `func` on each of `exprs` from index `i` on, in order, letting it
/// change them, and stops at the first error. The calls are witnessed by
/// mutable references `ms`: call `j` took `ms[j]` from the old expression `j`
/// to the new one; on an error, `k` is the call that failed and later
/// expressions are unchanged.
fn visit_exprs_mut<E, F: Fn(&mut Expression) -> Result<(), E>>(exprs: &mut Vec<Expression>, func: F, i: usize) -> (r: (Result<(), E>, F))
    requires
        forall|e: &mut Expression| func.requires((e,)),
        i <= old(exprs)@.len(),
    ensures
        r.1 == func,
        final(exprs)@.len() == old(exprs)@.len(),
        forall|j: int| 0 <= j < i ==> final(exprs)@[j] == old(exprs)@[j],
        exists|ms: Seq<&mut Expression>, k: int|
            #![trigger calls_witnessed(ms, k, old(exprs)@.len())]
            {
                &&& calls_witnessed(ms, k, old(exprs)@.len())
                &&& r.0 is Ok ==> forall|j: int| i <= j < old(exprs)@.len() ==> {
                    &&& *#[trigger] ms[j] == old(exprs)@[j]
                    &&& *final(ms[j]) == final(exprs)@[j]
                    &&& func.ensures((ms[j],), Ok(()))
                }
                &&& r.0 is Err ==> {
                    &&& i <= k < old(exprs)@.len()
                    &&& *ms[k] == old(exprs)@[k]
                    &&& *final(ms[k]) == final(exprs)@[k]
                    &&& func.ensures((ms[k],), r.0)
                    &&& forall|j: int| i <= j < k ==> {
                        &&& *#[trigger] ms[j] == old(exprs)@[j]
                        &&& *final(ms[j]) == final(exprs)@[j]
                        &&& func.ensures((ms[j],), Ok(()))
                    }
                    &&& forall|j: int| k < j < old(exprs)@.len() ==> #[trigger] final(exprs)@[j] == old(exprs)@[j]
                }
            },
    decreases old(exprs)@.len() - i,
{
    if i >= exprs.len() {
        proof {
            let ms: Seq<&mut Expression> = Seq::new(exprs@.len(), |j: int| vstd::pervasive::arbitrary());
            let k: int = 0;
            assert(calls_witnessed(ms, k, exprs@.len()));
        }
        return (Ok(()), func);
    }
    let ghost before = exprs@[i as int];
    let ghost prev = exprs@;
    let mut e = exprs.remove(i);
    let res = func(&mut e);
    let ghost after = e;
    assert(exists|m: &mut Expression| *m == before && *final(m) == after && #[trigger] func.ensures((m,), res));
    exprs.insert(i, e);
    assert forall|j: int| 0 <= j < exprs@.len() && j != i implies exprs@[j] == prev[j] by {}
    assert(exprs@[i as int] == after);
    let ghost m0 = choose|m: &mut Expression| *m == before && *final(m) == after && #[trigger] func.ensures((m,), res);
    match res {
        Ok(u) => {
            assert(u == ());
            let ghost mid = exprs@;
            let r = visit_exprs_mut(exprs, func, i + 1);
            proof {
                let (ms1, k1) = choose|ms: Seq<&mut Expression>, k: int|
                    #![trigger calls_witnessed(ms, k, mid.len())]
                    {
                        &&& calls_witnessed(ms, k, mid.len())
                        &&& r.0 is Ok ==> forall|j: int| i + 1 <= j < mid.len() ==> {
                            &&& *#[trigger] ms[j] == mid[j]
                            &&& *final(ms[j]) == exprs@[j]
                            &&& func.ensures((ms[j],), Ok(()))
                        }
                        &&& r.0 is Err ==> {
                            &&& i + 1 <= k < mid.len()
                            &&& *ms[k] == mid[k]
                            &&& *final(ms[k]) == exprs@[k]
                            &&& func.ensures((ms[k],), r.0)
                            &&& forall|j: int| i + 1 <= j < k ==> {
                                &&& *#[trigger] ms[j] == mid[j]
                                &&& *final(ms[j]) == exprs@[j]
                                &&& func.ensures((ms[j],), Ok(()))
                            }
                            &&& forall|j: int| k < j < mid.len() ==> #[trigger] exprs@[j] == mid[j]
                        }
                    };
                let ms = Seq::new(prev.len(), |j: int| if j == i { m0 } else { ms1[j] });
                let k = k1;
                assert(ms[i as int] == m0);
                assert(exprs@[i as int] == after);
                assert(func.ensures((m0,), Ok::<(), E>(())));
                assert(calls_witnessed(ms, k, prev.len()));
                if r.0 is Ok {
                    assert forall|j: int| i <= j < prev.len() implies {
                        &&& *#[trigger] ms[j] == prev[j]
                        &&& *final(ms[j]) == exprs@[j]
                        &&& func.ensures((ms[j],), Ok(()))
                    } by {
                        if j > i {
                            assert(ms[j] == ms1[j]);
                            assert(mid[j] == prev[j]);
                            assert(*ms1[j] == mid[j]);
                            assert(*final(ms1[j]) == exprs@[j]);
                            assert(func.ensures((ms1[j],), Ok(())));
                        } else {
                            assert(j == i);
                        }
                    }
                } else {
                    assert(ms[k1] == ms1[k1]);
                    assert(mid[k1] == prev[k1]);
                    assert forall|j: int| i <= j < k1 implies {
                        &&& *#[trigger] ms[j] == prev[j]
                        &&& *final(ms[j]) == exprs@[j]
                        &&& func.ensures((ms[j],), Ok(()))
                    } by {
                        if j > i {
                            assert(ms[j] == ms1[j]);
                            assert(mid[j] == prev[j]);
                        }
                    }
                    assert forall|j: int| k1 < j < prev.len() implies #[trigger] exprs@[j] == prev[j] by {
                        assert(mid[j] == prev[j]);
                    }
                }
            }
            r
        },
        Err(err) => {
            proof {
                let ms = Seq::new(prev.len(), |j: int| m0);
                let k = i as int;
                assert(ms[k] == m0);
                assert(calls_witnessed(ms, k, prev.len()));
                assert(exprs@[k] == after);
                assert forall|j: int| k < j < prev.len() implies #[trigger] exprs@[j] == prev[j] by {}
            }
            (Err(err), func)
        },
    }
}

impl Node<LogicalAggregate> {
    /// The name of the node.
    pub fn name(&self) -> (r: &'static str)
        ensures
            r@ == "Aggregate"@,
    {
        "Aggregate"
    }

    /// The table refs of the node's output, in the order of the output
    /// columns: the group table (when grouped), the aggregates table, then the
    /// GROUPING table (when there is one).
    pub fn get_output_table_refs(&self) -> (r: Vec<TableRef>)
        ensures
            r@ == opt_ref(self.node.group_table) + seq![self.node.aggregates_table] + opt_ref(
                self.node.grouping_functions_table,
            ),
    {
        // Order of refs here need to match physical output ordering of the
        // aggregate operators.
        //
        // Grouped aggregates: [GROUPS, AGG_RESULTS, GROUPING_FUNCS]
        let mut refs: Vec<TableRef> = Vec::new();
        if let Some(group_table) = self.node.group_table {
            refs.push(group_table);
        }
        refs.push(self.node.aggregates_table);
        if let Some(grouping_set_table) = self.node.grouping_functions_table {
            refs.push(grouping_set_table);
        }
        assert(refs@ =~= opt_ref(self.node.group_table) + seq![self.node.aggregates_table] + opt_ref(
            self.node.grouping_functions_table,
        ));
        refs
    }

    /// Calls `func` on the aggregate expressions, then on the group
    /// expressions, stopping at the first error.
    pub fn for_each_expr<E, F: Fn(&Expression) -> Result<(), E>>(&self, func: F) -> (r: Result<(), E>)
        requires
            forall|e: &Expression| func.requires((e,)),
        ensures
            visit_outcome(self.node.aggregates@ + self.node.group_exprs@, func, r),
    {
        let ghost exprs = self.node.aggregates@ + self.node.group_exprs@;
        match visit_exprs(&self.node.aggregates, &func) {
            Ok(()) => {},
            Err(err) => {
                proof {
                    let i = choose|i: int|
                        0 <= i < self.node.aggregates@.len() && func.ensures((&#[trigger] self.node.aggregates@[i],), Err(err))
                            && forall|j: int| 0 <= j < i ==> func.ensures((&self.node.aggregates@[j],), Ok(()));
                    assert(exprs[i] == self.node.aggregates@[i]);
                    assert forall|j: int| 0 <= j < i implies func.ensures((&exprs[j],), Ok(())) by {
                        assert(exprs[j] == self.node.aggregates@[j]);
                    }
                }
                return Err(err);
            },
        }
        let r = visit_exprs(&self.node.group_exprs, &func);
        let ghost rg = r;
        proof {
            let n = self.node.aggregates@.len();
            match rg {
                Ok(_) => {
                    assert forall|i: int| 0 <= i < exprs.len() implies func.ensures((&exprs[i],), Ok(())) by {
                        if i < n {
                            assert(exprs[i] == self.node.aggregates@[i]);
                        } else {
                            assert(exprs[i] == self.node.group_exprs@[i - n]);
                        }
                    }
                },
                Err(err) => {
                    let i = choose|i: int|
                        0 <= i < self.node.group_exprs@.len() && func.ensures((&#[trigger] self.node.group_exprs@[i],), Err(err))
                            && forall|j: int| 0 <= j < i ==> func.ensures((&self.node.group_exprs@[j],), Ok(()));
                    assert(exprs[n + i] == self.node.group_exprs@[i]);
                    assert forall|j: int| 0 <= j < n + i implies func.ensures((&exprs[j],), Ok(())) by {
                        if j < n {
                            assert(exprs[j] == self.node.aggregates@[j]);
                        } else {
                            assert(exprs[j] == self.node.group_exprs@[j - n]);
                        }
                    }
                },
            }
        }
        r
    }

    /// Calls `func` on the aggregate expressions, then on the group
    /// expressions, letting it change them, and stops at the first error.
    /// The calls are witnessed by the mutable references `ma` (aggregates)
    /// and `mg` (group expressions): each call took its reference from the
    /// old expression to the new one; on an error, `k` is the call that
    /// failed, in the aggregates or else in the group expressions, and the
    /// expressions after it are unchanged.
    pub fn for_each_expr_mut<E, F: Fn(&mut Expression) -> Result<(), E>>(&mut self, func: F) -> (r: Result<(), E>)
        requires
            forall|e: &mut Expression| func.requires((e,)),
        ensures
            final(self).node.aggregates_table == old(self).node.aggregates_table,
            final(self).node.group_table == old(self).node.group_table,
            final(self).node.grouping_sets == old(self).node.grouping_sets,
            final(self).node.grouping_functions_table == old(self).node.grouping_functions_table,
            final(self).node.grouping_functions == old(self).node.grouping_functions,
            final(self).node.aggregates@.len() == old(self).node.aggregates@.len(),
            final(self).node.group_exprs@.len() == old(self).node.group_exprs@.len(),
            exists|ma: Seq<&mut Expression>, mg: Seq<&mut Expression>, k: int|
                #![trigger visits_witnessed(ma, mg, k, old(self).node.aggregates@.len(), old(self).node.group_exprs@.len())]
                {
                    &&& visits_witnessed(ma, mg, k, old(self).node.aggregates@.len(), old(self).node.group_exprs@.len())
                    &&& r is Ok ==> {
                        &&& forall|j: int| 0 <= j < old(self).node.aggregates@.len() ==> {
                            &&& *#[trigger] ma[j] == old(self).node.aggregates@[j]
                            &&& *final(ma[j]) == final(self).node.aggregates@[j]
                            &&& func.ensures((ma[j],), Ok(()))
                        }
                        &&& forall|j: int| 0 <= j < old(self).node.group_exprs@.len() ==> {
                            &&& *#[trigger] mg[j] == old(self).node.group_exprs@[j]
                            &&& *final(mg[j]) == final(self).node.group_exprs@[j]
                            &&& func.ensures((mg[j],), Ok(()))
                        }
                    }
                    &&& r is Err ==> {
                        ||| {
                            &&& {
                                &&& 0 <= k < old(self).node.aggregates@.len()
                                &&& *ma[k] == old(self).node.aggregates@[k]
                                &&& *final(ma[k]) == final(self).node.aggregates@[k]
                                &&& func.ensures((ma[k],), r)
                                &&& forall|j: int| 0 <= j < k ==> {
                                    &&& *#[trigger] ma[j] == old(self).node.aggregates@[j]
                                    &&& *final(ma[j]) == final(self).node.aggregates@[j]
                                    &&& func.ensures((ma[j],), Ok(()))
                                }
                                &&& forall|j: int| k < j < old(self).node.aggregates@.len() ==> #[trigger] final(self).node.aggregates@[j] == old(self).node.aggregates@[j]
                            }
                            &&& final(self).node.group_exprs@ == old(self).node.group_exprs@
                        }
                        ||| {
                            &&& forall|j: int| 0 <= j < old(self).node.aggregates@.len() ==> {
                                &&& *#[trigger] ma[j] == old(self).node.aggregates@[j]
                                &&& *final(ma[j]) == final(self).node.aggregates@[j]
                                &&& func.ensures((ma[j],), Ok(()))
                            }
                            &&& {
                                &&& 0 <= k < old(self).node.group_exprs@.len()
                                &&& *mg[k] == old(self).node.group_exprs@[k]
                                &&& *final(mg[k]) == final(self).node.group_exprs@[k]
                                &&& func.ensures((mg[k],), r)
                                &&& forall|j: int| 0 <= j < k ==> {
                                    &&& *#[trigger] mg[j] == old(self).node.group_exprs@[j]
                                    &&& *final(mg[j]) == final(self).node.group_exprs@[j]
                                    &&& func.ensures((mg[j],), Ok(()))
                                }
                                &&& forall|j: int| k < j < old(self).node.group_exprs@.len() ==> #[trigger] final(self).node.group_exprs@[j] == old(self).node.group_exprs@[j]
                            }
                        }
                    }
                },
    {
        let ghost a_old = self.node.aggregates@;
        let ghost g_old = self.node.group_exprs@;
        let mut aggs: Vec<Expression> = Vec::new();
        std::mem::swap(&mut aggs, &mut self.node.aggregates);
        let (r1, func) = visit_exprs_mut(&mut aggs, func, 0);
        let ghost a_new = aggs@;
        std::mem::swap(&mut aggs, &mut self.node.aggregates);
        let ghost ma = choose|ms: Seq<&mut Expression>, k: int|
            #![trigger calls_witnessed(ms, k, a_old.len())]
            {
                &&& calls_witnessed(ms, k, a_old.len())
                &&& r1 is Ok ==> forall|j: int| 0 <= j < a_old.len() ==> {
                    &&& *#[trigger] ms[j] == a_old[j]
                    &&& *final(ms[j]) == a_new[j]
                    &&& func.ensures((ms[j],), Ok(()))
                }
                &&& r1 is Err ==> {
                    &&& 0 <= k < a_old.len()
                    &&& *ms[k] == a_old[k]
                    &&& *final(ms[k]) == a_new[k]
                    &&& func.ensures((ms[k],), r1)
                    &&& forall|j: int| 0 <= j < k ==> {
                        &&& *#[trigger] ms[j] == a_old[j]
                        &&& *final(ms[j]) == a_new[j]
                        &&& func.ensures((ms[j],), Ok(()))
                    }
                    &&& forall|j: int| k < j < a_old.len() ==> #[trigger] a_new[j] == a_old[j]
                }
            };
        match r1 {
            Ok(u) => {
                assert(u == ());
            },
            Err(err) => {
                proof {
                    let mg: Seq<&mut Expression> = Seq::new(g_old.len(), |j: int| vstd::pervasive::arbitrary());
                    let k = ma.1;
                    assert(visits_witnessed(ma.0, mg, k, a_old.len(), g_old.len()));
                    assert(self.node.aggregates@ == a_new);
                    assert(self.node.group_exprs@ == g_old);
                }
                return Err(err);
            },
        }
        let mut groups: Vec<Expression> = Vec::new();
        std::mem::swap(&mut groups, &mut self.node.group_exprs);
        let (r2, _func) = visit_exprs_mut(&mut groups, func, 0);
        let ghost g_new = groups@;
        std::mem::swap(&mut groups, &mut self.node.group_exprs);
        proof {
            let mg = choose|ms: Seq<&mut Expression>, k: int|
                #![trigger calls_witnessed(ms, k, g_old.len())]
                {
                    &&& calls_witnessed(ms, k, g_old.len())
                    &&& r2 is Ok ==> forall|j: int| 0 <= j < g_old.len() ==> {
                        &&& *#[trigger] ms[j] == g_old[j]
                        &&& *final(ms[j]) == g_new[j]
                        &&& func.ensures((ms[j],), Ok(()))
                    }
                    &&& r2 is Err ==> {
                        &&& 0 <= k < g_old.len()
                        &&& *ms[k] == g_old[k]
                        &&& *final(ms[k]) == g_new[k]
                        &&& func.ensures((ms[k],), r2)
                        &&& forall|j: int| 0 <= j < k ==> {
                            &&& *#[trigger] ms[j] == g_old[j]
                            &&& *final(ms[j]) == g_new[j]
                            &&& func.ensures((ms[j],), Ok(()))
                        }
                        &&& forall|j: int| k < j < g_old.len() ==> #[trigger] g_new[j] == g_old[j]
                    }
                };
            let k = mg.1;
            assert(visits_witnessed(ma.0, mg.0, k, a_old.len(), g_old.len()));
            assert(self.node.aggregates@ == a_new);
            assert(self.node.group_exprs@ == g_new);
        }
        r2
    }
}

/// The expressions of all rows, row after row.
pub open spec fn flatten_rows(rows: Seq<Vec<Expression>>) -> Seq<Expression>
    decreases rows.len(),
{
    if rows.len() == 0 {
        Seq::empty()
    } else {
        flatten_rows(rows.drop_last()) + rows.last()@
    }
}

proof fn lemma_flatten_prefix(rows: Seq<Vec<Expression>>, k: int)
    requires
        0 <= k <= rows.len(),
    ensures
        flatten_rows(rows.take(k)).len() <= flatten_rows(rows).len(),
        forall|i: int| 0 <= i < flatten_rows(rows.take(k)).len() ==>
            #[trigger] flatten_rows(rows.take(k))[i] == flatten_rows(rows)[i],
    decreases rows.len(),
{
    if k < rows.len() {
        assert(rows.drop_last().take(k) =~= rows.take(k));
        lemma_flatten_prefix(rows.drop_last(), k);
    } else {
        assert(rows.take(k) =~= rows);
    }
}

/// The copies of a list of data types.
fn copy_types(v: &Vec<DataType>) -> (r: Vec<DataType>)
    ensures
        r@ == v@,
{
    let mut out: Vec<DataType> = Vec::new();
    let mut i: usize = 0;
    while i < v.len()
        invariant
            i <= v@.len(),
            out@ == v@.take(i as int),
        decreases v@.len() - i,
    {
        out.push(v[i]);
        i = i + 1;
        assert(out@ =~= v@.take(i as int));
    }
    assert(v@.take(v@.len() as int) =~= v@);
    out
}

/// The items that explain an expression list: its row count and column
/// types, and its table ref when verbose.
pub open spec fn expression_list_explain_items(list: LogicalExpressionList, conf: ExplainConfig) -> Seq<(Seq<char>, SpecExplainValue)> {
    seq![
        ("num_rows"@, SpecExplainValue::Count(list.rows@.len())),
        ("datatypes"@, SpecExplainValue::DataTypes(list.types@)),
    ] + if conf.verbose {
        seq![("table_ref"@, SpecExplainValue::TableRef(list.table_ref))]
    } else {
        Seq::empty()
    }
}

/// An expression list's EXPLAIN entry shows the number of rows of the list,
/// then its column types, then, when verbose, its table ref, and nothing
/// else.
pub proof fn lemma_expression_list_explain_items(list: LogicalExpressionList, conf: ExplainConfig)
    ensures
        ({
            let items = expression_list_explain_items(list, conf);
            &&& items.len() == if conf.verbose { 3int } else { 2int }
            &&& items[0] == ("num_rows"@, SpecExplainValue::Count(list.rows@.len()))
            &&& items[1] == ("datatypes"@, SpecExplainValue::DataTypes(list.types@))
            &&& conf.verbose ==> items[2] == ("table_ref"@, SpecExplainValue::TableRef(list.table_ref))
        }),
{
}

impl LogicalExpressionList {
    /// Describes this list for EXPLAIN; see [`expression_list_explain_items`].
    pub fn explain_entry(&self, conf: ExplainConfig) -> (r: ExplainEntry)
        ensures
            r.name@ == "ExpressionList"@,
            items_view(r.items@) == expression_list_explain_items(*self, conf),
    {
        let entry = EntryBuilder::new("ExpressionList", conf)
            .with_value("num_rows", ExplainValue::Count(self.rows.len()))
            .with_value("datatypes", ExplainValue::DataTypes(copy_types(&self.types)))
            .with_value_if_verbose("table_ref", ExplainValue::TableRef(self.table_ref))
            .build();
        assert(items_view(entry.items@) =~= expression_list_explain_items(*self, conf));
        entry
    }
}

/// The references that witness a visit of `n` rows hold one sequence of
/// references for each row, and the failing call, expression `ki` of row
/// `kr`, is at a position of them (or at their end).
pub open spec fn rows_witnessed(ms: Seq<Seq<&mut Expression>>, kr: int, ki: int, n: nat) -> bool {
    &&& ms.len() == n
    &&& 0 <= kr <= n
    &&& 0 <= ki
}

/// Calls `func` on the expressions of each row from row `k` on, row after
/// row, letting it change them, and stops at the first error; see
/// [`Node::<LogicalExpressionList>::for_each_expr_mut`].
fn visit_rows_mut<E, F: Fn(&mut Expression) -> Result<(), E>>(rows: &mut Vec<Vec<Expression>>, func: F, k: usize) -> (r: (Result<(), E>, F))
    requires
        forall|e: &mut Expression| func.requires((e,)),
        k <= old(rows)@.len(),
    ensures
        r.1 == func,
        final(rows)@.len() == old(rows)@.len(),
        forall|a: int| 0 <= a < old(rows)@.len() ==> #[trigger] final(rows)@[a]@.len() == old(rows)@[a]@.len(),
        forall|a: int| 0 <= a < k ==> #[trigger] final(rows)@[a] == old(rows)@[a],
        exists|ms: Seq<Seq<&mut Expression>>, kr: int, ki: int|
            #![trigger rows_witnessed(ms, kr, ki, old(rows)@.len())]
            {
                &&& rows_witnessed(ms, kr, ki, old(rows)@.len())
                &&& r.0 is Ok ==> forall|a: int, j: int| k <= a < old(rows)@.len() && 0 <= j < old(rows)@[a]@.len() ==> {
                    &&& *#[trigger] ms[a][j] == old(rows)@[a]@[j]
                    &&& *final(ms[a][j]) == final(rows)@[a]@[j]
                    &&& func.ensures((ms[a][j],), Ok(()))
                }
                &&& r.0 is Err ==> {
                    &&& k <= kr < old(rows)@.len()
                    &&& forall|a: int, j: int| k <= a < kr && 0 <= j < old(rows)@[a]@.len() ==> {
                        &&& *#[trigger] ms[a][j] == old(rows)@[a]@[j]
                        &&& *final(ms[a][j]) == final(rows)@[a]@[j]
                        &&& func.ensures((ms[a][j],), Ok(()))
                    }
                    &&& {
                        &&& 0 <= ki < old(rows)@[kr]@.len()
                        &&& *ms[kr][ki] == old(rows)@[kr]@[ki]
                        &&& *final(ms[kr][ki]) == final(rows)@[kr]@[ki]
                        &&& func.ensures((ms[kr][ki],), r.0)
                        &&& forall|j: int| 0 <= j < ki ==> {
                            &&& *#[trigger] ms[kr][j] == old(rows)@[kr]@[j]
                            &&& *final(ms[kr][j]) == final(rows)@[kr]@[j]
                            &&& func.ensures((ms[kr][j],), Ok(()))
                        }
                        &&& forall|j: int| ki < j < old(rows)@[kr]@.len() ==> #[trigger] final(rows)@[kr]@[j] == old(rows)@[kr]@[j]
                    }
                    &&& forall|a: int| kr < a < old(rows)@.len() ==> #[trigger] final(rows)@[a] == old(rows)@[a]
                }
            },
    decreases old(rows)@.len() - k,
{
    if k >= rows.len() {
        proof {
            let ms: Seq<Seq<&mut Expression>> = Seq::new(rows@.len(), |a: int| Seq::empty());
            assert(rows_witnessed(ms, 0, 0, rows@.len()));
        }
        return (Ok(()), func);
    }
    let ghost prev = rows@;
    let mut row = rows.remove(k);
    let ghost row_old = row@;
    let (res, f) = visit_exprs_mut(&mut row, func, 0);
    let ghost row_new = row@;
    rows.insert(k, row);
    assert forall|a: int| 0 <= a < rows@.len() && a != k implies rows@[a] == prev[a] by {}
    assert(rows@[k as int]@ == row_new);
    let ghost w = choose|ms: Seq<&mut Expression>, k: int|
        #![trigger calls_witnessed(ms, k, row_old.len())]
        {
            &&& calls_witnessed(ms, k, row_old.len())
            &&& res is Ok ==> forall|j: int| 0 <= j < row_old.len() ==> {
                &&& *#[trigger] ms[j] == row_old[j]
                &&& *final(ms[j]) == row_new[j]
                &&& func.ensures((ms[j],), Ok(()))
            }
            &&& res is Err ==> {
                &&& 0 <= k < row_old.len()
                &&& *ms[k] == row_old[k]
                &&& *final(ms[k]) == row_new[k]
                &&& func.ensures((ms[k],), res)
                &&& forall|j: int| 0 <= j < k ==> {
                    &&& *#[trigger] ms[j] == row_old[j]
                    &&& *final(ms[j]) == row_new[j]
                    &&& func.ensures((ms[j],), Ok(()))
                }
                &&& forall|j: int| k < j < row_old.len() ==> #[trigger] row_new[j] == row_old[j]
            }
        };
    match res {
        Ok(u) => {
            assert(u == ());
            let ghost mid = rows@;
            let r = visit_rows_mut(rows, f, k + 1);
            proof {
                let w1 = choose|ms: Seq<Seq<&mut Expression>>, kr: int, ki: int|
                    #![trigger rows_witnessed(ms, kr, ki, mid.len())]
                    {
                        &&& rows_witnessed(ms, kr, ki, mid.len())
                        &&& r.0 is Ok ==> forall|a: int, j: int| k + 1 <= a < mid.len() && 0 <= j < mid[a]@.len() ==> {
                            &&& *#[trigger] ms[a][j] == mid[a]@[j]
                            &&& *final(ms[a][j]) == rows@[a]@[j]
                            &&& func.ensures((ms[a][j],), Ok(()))
                        }
                        &&& r.0 is Err ==> {
                            &&& k + 1 <= kr < mid.len()
                            &&& forall|a: int, j: int| k + 1 <= a < kr && 0 <= j < mid[a]@.len() ==> {
                                &&& *#[trigger] ms[a][j] == mid[a]@[j]
                                &&& *final(ms[a][j]) == rows@[a]@[j]
                                &&& func.ensures((ms[a][j],), Ok(()))
                            }
                            &&& {
                                &&& 0 <= ki < mid[kr]@.len()
                                &&& *ms[kr][ki] == mid[kr]@[ki]
                                &&& *final(ms[kr][ki]) == rows@[kr]@[ki]
                                &&& func.ensures((ms[kr][ki],), r.0)
                                &&& forall|j: int| 0 <= j < ki ==> {
                                    &&& *#[trigger] ms[kr][j] == mid[kr]@[j]
                                    &&& *final(ms[kr][j]) == rows@[kr]@[j]
                                    &&& func.ensures((ms[kr][j],), Ok(()))
                                }
                                &&& forall|j: int| ki < j < mid[kr]@.len() ==> #[trigger] rows@[kr]@[j] == mid[kr]@[j]
                            }
                            &&& forall|a: int| kr < a < mid.len() ==> #[trigger] rows@[a] == mid[a]
                        }
                    };
                let ms = Seq::new(prev.len(), |a: int| if a == k { w.0 } else { w1.0[a] });
                assert(rows_witnessed(ms, w1.1, w1.2, prev.len()));
                assert(ms[k as int] == w.0);
                assert(rows@[k as int] == mid[k as int]);
                assert(forall|a: int| k < a < prev.len() ==> mid[a] == prev[a] && #[trigger] ms[a] == w1.0[a]);
            }
            r
        },
        Err(err) => {
            proof {
                let ms = Seq::new(prev.len(), |a: int| w.0);
                assert(ms[k as int] == w.0);
                assert(rows_witnessed(ms, k as int, w.1, prev.len()));
            }
            (Err(err), f)
        },
    }
}

impl Node<LogicalExpressionList> {
    /// The name of the node.
    pub fn name(&self) -> (r: &'static str)
        ensures
            r@ == "ExpressionList"@,
    {
        "ExpressionList"
    }

    /// The table refs of the node's output: its own table ref alone.
    pub fn get_output_table_refs(&self) -> (r: Vec<TableRef>)
        ensures
            r@ == seq![self.node.table_ref],
    {
        let r = vec![self.node.table_ref];
        assert(r@ =~= seq![self.node.table_ref]);
        r
    }

    /// Calls `func` on the expressions of each row, row after row, stopping
    /// at the first error.
    pub fn for_each_expr<E, F: Fn(&Expression) -> Result<(), E>>(&self, func: F) -> (r: Result<(), E>)
        requires
            forall|e: &Expression| func.requires((e,)),
        ensures
            visit_outcome(flatten_rows(self.node.rows@), func, r),
    {
        let ghost rows = self.node.rows@;
        let mut k: usize = 0;
        assert(rows.take(0) =~= Seq::<Vec<Expression>>::empty());
        while k < self.node.rows.len()
            invariant
                rows == self.node.rows@,
                k <= rows.len(),
                forall|e: &Expression| func.requires((e,)),
                forall|j: int| 0 <= j < flatten_rows(rows.take(k as int)).len() ==>
                    func.ensures((&#[trigger] flatten_rows(rows.take(k as int))[j],), Ok(())),
            decreases rows.len() - k,
        {
            let ghost prefix = flatten_rows(rows.take(k as int));
            proof {
                assert(rows.take(k + 1).drop_last() =~= rows.take(k as int));
                assert(flatten_rows(rows.take(k + 1)) == prefix + rows[k as int]@);
                lemma_flatten_prefix(rows, k + 1);
            }
            let row_result = visit_exprs(&self.node.rows[k], &func);
            match row_result {
                Ok(u) => {
                    assert(u == ());
                    let ghost next = flatten_rows(rows.take(k + 1));
                    assert forall|j: int| 0 <= j < next.len() implies func.ensures((&#[trigger] next[j],), Ok(())) by {
                        if j < prefix.len() {
                            assert(next[j] == prefix[j]);
                        } else {
                            assert(next[j] == rows[k as int]@[j - prefix.len()]);
                        }
                    }
                },
                Err(err) => {
                    proof {
                        let row = rows[k as int]@;
                        let whole = flatten_rows(rows);
                        let i = choose|i: int|
                            0 <= i < row.len() && func.ensures((&#[trigger] row[i],), Err(err))
                                && forall|j: int| 0 <= j < i ==> func.ensures((&row[j],), Ok(()));
                        let p = prefix.len() + i;
                        assert(flatten_rows(rows.take(k + 1))[p] == row[i]);
                        assert(whole[p] == row[i]);
                        assert forall|j: int| 0 <= j < p implies func.ensures((&whole[j],), Ok(())) by {
                            assert(whole[j] == flatten_rows(rows.take(k + 1))[j]);
                            if j < prefix.len() {
                                assert(flatten_rows(rows.take(k + 1))[j] == prefix[j]);
                            } else {
                                assert(flatten_rows(rows.take(k + 1))[j] == row[j - prefix.len()]);
                            }
                        }
                    }
                    return Err(err);
                },
            }
            k = k + 1;
        }
        assert(rows.take(rows.len() as int) =~= rows);
        Ok(())
    }

    /// Calls `func` on the expressions of each row, row after row, letting
    /// it change them, and stops at the first error. The table ref, the
    /// column types, the number of rows and their lengths stay as they were.
    /// The calls are witnessed by the mutable references `ms`: the call on
    /// expression `j` of row `a` took `ms[a][j]` from the old expression to
    /// the new one; on an error, `ki` of row `kr` is the call that failed,
    /// and the expressions after it are unchanged.
    pub fn for_each_expr_mut<E, F: Fn(&mut Expression) -> Result<(), E>>(&mut self, func: F) -> (r: Result<(), E>)
        requires
            forall|e: &mut Expression| func.requires((e,)),
        ensures
            final(self).node.table_ref == old(self).node.table_ref,
            final(self).node.types@ == old(self).node.types@,
            final(self).node.rows@.len() == old(self).node.rows@.len(),
            forall|k: int| 0 <= k < old(self).node.rows@.len() ==>
                #[trigger] final(self).node.rows@[k]@.len() == old(self).node.rows@[k]@.len(),
            exists|ms: Seq<Seq<&mut Expression>>, kr: int, ki: int|
                #![trigger rows_witnessed(ms, kr, ki, old(self).node.rows@.len())]
                {
                    &&& rows_witnessed(ms, kr, ki, old(self).node.rows@.len())
                    &&& r is Ok ==> forall|a: int, j: int| 0 <= a < old(self).node.rows@.len() && 0 <= j < old(self).node.rows@[a]@.len() ==> {
                        &&& *#[trigger] ms[a][j] == old(self).node.rows@[a]@[j]
                        &&& *final(ms[a][j]) == final(self).node.rows@[a]@[j]
                        &&& func.ensures((ms[a][j],), Ok(()))
                    }
                    &&& r is Err ==> {
                        &&& 0 <= kr < old(self).node.rows@.len()
                        &&& forall|a: int, j: int| 0 <= a < kr && 0 <= j < old(self).node.rows@[a]@.len() ==> {
                            &&& *#[trigger] ms[a][j] == old(self).node.rows@[a]@[j]
                            &&& *final(ms[a][j]) == final(self).node.rows@[a]@[j]
                            &&& func.ensures((ms[a][j],), Ok(()))
                        }
                        &&& {
                            &&& 0 <= ki < old(self).node.rows@[kr]@.len()
                            &&& *ms[kr][ki] == old(self).node.rows@[kr]@[ki]
                            &&& *final(ms[kr][ki]) == final(self).node.rows@[kr]@[ki]
                            &&& func.ensures((ms[kr][ki],), r)
                            &&& forall|j: int| 0 <= j < ki ==> {
                                &&& *#[trigger] ms[kr][j] == old(self).node.rows@[kr]@[j]
                                &&& *final(ms[kr][j]) == final(self).node.rows@[kr]@[j]
                                &&& func.ensures((ms[kr][j],), Ok(()))
                            }
                            &&& forall|j: int| ki < j < old(self).node.rows@[kr]@.len() ==> #[trigger] final(self).node.rows@[kr]@[j] == old(self).node.rows@[kr]@[j]
                        }
                        &&& forall|a: int| kr < a < old(self).node.rows@.len() ==> #[trigger] final(self).node.rows@[a] == old(self).node.rows@[a]
                    }
                },
    {
        let ghost rows_old = self.node.rows@;
        let mut rows: Vec<Vec<Expression>> = Vec::new();
        std::mem::swap(&mut rows, &mut self.node.rows);
        let (r, _func) = visit_rows_mut(&mut rows, func, 0);
        let ghost rows_new = rows@;
        std::mem::swap(&mut rows, &mut self.node.rows);
        proof {
            let w = choose|ms: Seq<Seq<&mut Expression>>, kr: int, ki: int|
                #![trigger rows_witnessed(ms, kr, ki, rows_old.len())]
                {
                    &&& rows_witnessed(ms, kr, ki, rows_old.len())
                    &&& r is Ok ==> forall|a: int, j: int| 0 <= a < rows_old.len() && 0 <= j < rows_old[a]@.len() ==> {
                        &&& *#[trigger] ms[a][j] == rows_old[a]@[j]
                        &&& *final(ms[a][j]) == rows_new[a]@[j]
                        &&& func.ensures((ms[a][j],), Ok(()))
                    }
                    &&& r is Err ==> {
                        &&& 0 <= kr < rows_old.len()
                        &&& forall|a: int, j: int| 0 <= a < kr && 0 <= j < rows_old[a]@.len() ==> {
                            &&& *#[trigger] ms[a][j] == rows_old[a]@[j]
                            &&& *final(ms[a][j]) == rows_new[a]@[j]
                            &&& func.ensures((ms[a][j],), Ok(()))
                        }
                        &&& {
                            &&& 0 <= ki < rows_old[kr]@.len()
                            &&& *ms[kr][ki] == rows_old[kr]@[ki]
                            &&& *final(ms[kr][ki]) == rows_new[kr]@[ki]
                            &&& func.ensures((ms[kr][ki],), r)
                            &&& forall|j: int| 0 <= j < ki ==> {
                                &&& *#[trigger] ms[kr][j] == rows_old[kr]@[j]
                                &&& *final(ms[kr][j]) == rows_new[kr]@[j]
                                &&& func.ensures((ms[kr][j],), Ok(()))
                            }
                            &&& forall|j: int| ki < j < rows_old[kr]@.len() ==> #[trigger] rows_new[kr]@[j] == rows_old[kr]@[j]
                        }
                        &&& forall|a: int| kr < a < rows_old.len() ==> #[trigger] rows_new[a] == rows_old[a]
                    }
                };
            assert(rows_witnessed(w.0, w.1, w.2, rows_old.len()));
            assert(self.node.rows@ == rows_new);
        }
        r
    }
}

} // verus!
