//! A model of the store's dimension tables, as sets of natural keys, and the
//! effect of one ingestion on them.
use crate::loader::{batch_facts, table_facts, FactModel};
use crate::resolver::{dimension_plan, BatchModel, DimKey};
use crate::table::TableModel;
use vstd::prelude::*;

verus! {

/// The natural keys present in each dimension table.
pub struct DimensionRows {
    pub terms: Set<Seq<char>>,
    pub colleges: Set<Seq<char>>,
    pub majors: Set<(Seq<char>, Seq<char>)>,
    pub classes: Set<(Seq<char>, Seq<char>, Seq<char>)>,
    pub students: Set<Seq<char>>,
}

/// An upsert inserts the key's natural key where it is absent. A college is
/// identified by its number; its name is not part of the key.
pub open spec fn upsert(rows: DimensionRows, key: DimKey) -> DimensionRows {
    match key {
        DimKey::Term(l) => DimensionRows { terms: rows.terms.insert(l), ..rows },
        DimKey::College(n, _) => DimensionRows { colleges: rows.colleges.insert(n), ..rows },
        DimKey::Major(n, m) => DimensionRows { majors: rows.majors.insert((n, m)), ..rows },
        DimKey::Class(n, m, c) => DimensionRows { classes: rows.classes.insert((n, m, c)), ..rows },
    }
}

pub open spec fn present(rows: DimensionRows, key: DimKey) -> bool {
    match key {
        DimKey::Term(l) => rows.terms.contains(l),
        DimKey::College(n, _) => rows.colleges.contains(n),
        DimKey::Major(n, m) => rows.majors.contains((n, m)),
        DimKey::Class(n, m, c) => rows.classes.contains((n, m, c)),
    }
}

/// The upserts of a plan, run in order.
pub open spec fn apply_plan(rows: DimensionRows, plan: Seq<DimKey>) -> DimensionRows
    decreases plan.len(),
{
    if plan.len() == 0 {
        rows
    } else {
        upsert(apply_plan(rows, plan.drop_last()), plan.last())
    }
}

/// The student upserts of a sequence of student numbers, run in order.
pub open spec fn apply_students(rows: DimensionRows, numbers: Seq<Seq<char>>) -> DimensionRows
    decreases numbers.len(),
{
    if numbers.len() == 0 {
        rows
    } else {
        let r = apply_students(rows, numbers.drop_last());
        DimensionRows { students: r.students.insert(numbers.last()), ..r }
    }
}

pub open spec fn table_students(t: TableModel) -> Seq<Seq<char>> {
    t.2.map_values(|r: (Seq<char>, Seq<char>, Option<Seq<char>>)| r.0)
}

pub open spec fn tables_students(ts: Seq<TableModel>) -> Seq<Seq<char>>
    decreases ts.len(),
{
    if ts.len() == 0 {
        seq![]
    } else {
        tables_students(ts.drop_last()) + table_students(ts.last())
    }
}

/// The student number of every row of every table, in loading order.
pub open spec fn batch_students(bs: Seq<BatchModel>) -> Seq<Seq<char>>
    decreases bs.len(),
{
    if bs.len() == 0 {
        seq![]
    } else {
        batch_students(bs.drop_last()) + tables_students(bs.last().3)
    }
}

/// The dimension tables after ingesting `bs`: the plan's upserts, then one
/// student upsert per fact row.
pub open spec fn ingest(rows: DimensionRows, bs: Seq<BatchModel>) -> DimensionRows {
    apply_students(apply_plan(rows, dimension_plan(bs)), batch_students(bs))
}

pub open spec fn same_but_students(a: DimensionRows, b: DimensionRows) -> bool {
    a.terms == b.terms && a.colleges == b.colleges && a.majors == b.majors && a.classes == b.classes
}

proof fn lemma_plan_present(rows: DimensionRows, plan: Seq<DimKey>)
    ensures
        forall|i: int| 0 <= i < plan.len() ==> present(apply_plan(rows, plan), #[trigger] plan[i]),
        forall|k: DimKey| present(rows, k) ==> present(apply_plan(rows, plan), k),
        apply_plan(rows, plan).students == rows.students,
    decreases plan.len(),
{
    if plan.len() > 0 {
        let prev = plan.drop_last();
        lemma_plan_present(rows, prev);
        assert forall|i: int| 0 <= i < plan.len() implies present(apply_plan(rows, plan), #[trigger] plan[i]) by {
            if i < plan.len() - 1 {
                assert(plan[i] == prev[i]);
            }
        }
    }
}

proof fn lemma_plan_noop(rows: DimensionRows, plan: Seq<DimKey>)
    requires
        forall|i: int| 0 <= i < plan.len() ==> present(rows, #[trigger] plan[i]),
    ensures
        apply_plan(rows, plan) == rows,
    decreases plan.len(),
{
    if plan.len() > 0 {
        let prev = plan.drop_last();
        assert forall|i: int| 0 <= i < prev.len() implies present(rows, #[trigger] prev[i]) by {
            assert(prev[i] == plan[i]);
        }
        lemma_plan_noop(rows, prev);
        assert(present(rows, plan[plan.len() - 1]));
        match plan.last() {
            DimKey::Term(l) => assert(rows.terms.insert(l) =~= rows.terms),
            DimKey::College(n, _) => assert(rows.colleges.insert(n) =~= rows.colleges),
            DimKey::Major(n, m) => assert(rows.majors.insert((n, m)) =~= rows.majors),
            DimKey::Class(n, m, c) => assert(rows.classes.insert((n, m, c)) =~= rows.classes),
        }
    }
}

proof fn lemma_students_present(rows: DimensionRows, numbers: Seq<Seq<char>>)
    ensures
        forall|i: int| 0 <= i < numbers.len() ==> apply_students(rows, numbers).students.contains(
            #[trigger] numbers[i],
        ),
        rows.students.subset_of(apply_students(rows, numbers).students),
        same_but_students(apply_students(rows, numbers), rows),
    decreases numbers.len(),
{
    if numbers.len() > 0 {
        let prev = numbers.drop_last();
        lemma_students_present(rows, prev);
        assert forall|i: int| 0 <= i < numbers.len() implies apply_students(rows, numbers).students.contains(
            #[trigger] numbers[i],
        ) by {
            if i < numbers.len() - 1 {
                assert(numbers[i] == prev[i]);
            }
        }
    }
}

proof fn lemma_students_noop(rows: DimensionRows, numbers: Seq<Seq<char>>)
    requires
        forall|i: int| 0 <= i < numbers.len() ==> rows.students.contains(#[trigger] numbers[i]),
    ensures
        apply_students(rows, numbers) == rows,
    decreases numbers.len(),
{
    if numbers.len() > 0 {
        let prev = numbers.drop_last();
        assert forall|i: int| 0 <= i < prev.len() implies rows.students.contains(#[trigger] prev[i]) by {
            assert(prev[i] == numbers[i]);
        }
        lemma_students_noop(rows, prev);
        assert(rows.students.contains(numbers[numbers.len() - 1]));
        assert(rows.students.insert(numbers.last()) =~= rows.students);
    }
}

/// Ingesting the same batches a second time leaves every dimension table as
/// the first ingestion left it, so its row count too: each upsert inserts a
/// natural key only where it is absent, and the keys depend on the batches alone.
pub proof fn lemma_ingest_idempotent(rows: DimensionRows, bs: Seq<BatchModel>)
    ensures
        ingest(ingest(rows, bs), bs) == ingest(rows, bs),
        ingest(ingest(rows, bs), bs).terms.len() == ingest(rows, bs).terms.len(),
        ingest(ingest(rows, bs), bs).colleges.len() == ingest(rows, bs).colleges.len(),
        ingest(ingest(rows, bs), bs).majors.len() == ingest(rows, bs).majors.len(),
        ingest(ingest(rows, bs), bs).classes.len() == ingest(rows, bs).classes.len(),
        ingest(ingest(rows, bs), bs).students.len() == ingest(rows, bs).students.len(),
{
    let plan = dimension_plan(bs);
    let numbers = batch_students(bs);
    let after_plan = apply_plan(rows, plan);
    let once = apply_students(after_plan, numbers);
    lemma_plan_present(rows, plan);
    lemma_students_present(after_plan, numbers);
    assert forall|i: int| 0 <= i < plan.len() implies present(once, #[trigger] plan[i]) by {
        assert(present(after_plan, plan[i]));
    }
    lemma_plan_noop(once, plan);
    assert forall|i: int| 0 <= i < numbers.len() implies once.students.contains(#[trigger] numbers[i]) by {
    }
    lemma_students_noop(once, numbers);
}


/// The fact rows of a batch's tables carry, in order, the student number of
/// every row of those tables, whatever the ids: these are the student upserts
/// that loading the batch issues.
pub proof fn lemma_fact_students(ts: Seq<TableModel>, term_id: i64, class_ids: Seq<i64>)
    ensures
        batch_facts(ts, term_id, class_ids).map_values(|f: FactModel| f.0) == tables_students(ts),
    decreases ts.len(),
{
    if ts.len() > 0 {
        let prev = ts.drop_last();
        let t = ts.last();
        lemma_fact_students(prev, term_id, class_ids);
        let a = batch_facts(prev, term_id, class_ids);
        let b = table_facts(t, term_id, class_ids[ts.len() - 1]);
        assert(b.map_values(|f: FactModel| f.0) =~= table_students(t));
        assert((a + b).map_values(|f: FactModel| f.0) =~= a.map_values(|f: FactModel| f.0)
            + b.map_values(|f: FactModel| f.0));
    }
}

} // verus!
