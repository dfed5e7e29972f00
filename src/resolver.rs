//! Dimension resolution: every distinct term, college, major and class of a
//! batch is upserted once, in the order first seen, and its id recorded.
use crate::college::CollegeData;
use crate::sql::{
    binds_model, text_value, SqlModel, SqlValue, Statement, CLASS_LOOKUP, CLASS_UPSERT,
    COLLEGE_LOOKUP, COLLEGE_UPSERT, MAJOR_LOOKUP, MAJOR_UPSERT, TERM_LOOKUP, TERM_UPSERT,
};
use crate::table::TableModel;
use vstd::prelude::*;

verus! {

/// The natural key of a dimension row. Majors are scoped to a college number,
/// classes to a college number and a major.
pub enum DimKey {
    Term(Seq<char>),
    College(Seq<char>, Seq<char>),
    Major(Seq<char>, Seq<char>),
    Class(Seq<char>, Seq<char>, Seq<char>),
}

/// A batch as plain sequences: term, college number, college name, tables.
pub type BatchModel = (Seq<char>, Seq<char>, Seq<char>, Seq<TableModel>);

pub open spec fn batches_model(v: Seq<CollegeData>) -> Seq<BatchModel> {
    v.map_values(|d: CollegeData| d.model())
}

pub open spec fn table_keys(number: Seq<char>, t: TableModel) -> Seq<DimKey> {
    seq![DimKey::Major(number, t.0), DimKey::Class(number, t.0, t.1)]
}

pub open spec fn tables_keys(number: Seq<char>, ts: Seq<TableModel>) -> Seq<DimKey>
    decreases ts.len(),
{
    if ts.len() == 0 {
        seq![]
    } else {
        tables_keys(number, ts.drop_last()) + table_keys(number, ts.last())
    }
}

/// The keys one batch mentions, in order: its term, its college, then the
/// major and class of each table.
pub open spec fn batch_keys(b: BatchModel) -> Seq<DimKey> {
    seq![DimKey::Term(b.0), DimKey::College(b.1, b.2)] + tables_keys(b.1, b.3)
}

pub open spec fn all_keys(bs: Seq<BatchModel>) -> Seq<DimKey>
    decreases bs.len(),
{
    if bs.len() == 0 {
        seq![]
    } else {
        all_keys(bs.drop_last()) + batch_keys(bs.last())
    }
}

/// The first occurrence of each key, in order.
pub open spec fn distinct_keys(s: Seq<DimKey>) -> Seq<DimKey>
    decreases s.len(),
{
    if s.len() == 0 {
        seq![]
    } else {
        let d = distinct_keys(s.drop_last());
        if d.contains(s.last()) {
            d
        } else {
            d.push(s.last())
        }
    }
}

/// The upserts of a batch sequence, in the order they are issued.
pub open spec fn dimension_plan(bs: Seq<BatchModel>) -> Seq<DimKey> {
    distinct_keys(all_keys(bs))
}

pub open spec fn is_college_of(k: DimKey, number: Seq<char>) -> bool {
    match k {
        DimKey::College(n, _) => n == number,
        _ => false,
    }
}

/// One upsert of the plan. A major names the step of its college, a class the
/// step of its major, so that their parents' ids are known when they run.
#[derive(Clone, Debug)]
pub enum DimensionStep {
    Term { label: String },
    College { number: String, name: String },
    Major { college_number: String, name: String, college: usize },
    Class { college_number: String, major_name: String, name: String, major: usize },
}

impl DimensionStep {
    pub open spec fn key(&self) -> DimKey {
        match self {
            DimensionStep::Term { label } => DimKey::Term(label@),
            DimensionStep::College { number, name } => DimKey::College(number@, name@),
            DimensionStep::Major { college_number, name, .. } => DimKey::Major(
                college_number@,
                name@,
            ),
            DimensionStep::Class { college_number, major_name, name, .. } => DimKey::Class(
                college_number@,
                major_name@,
                name@,
            ),
        }
    }

    fn same_key(&self, other: &DimensionStep) -> (r: bool)
        ensures
            r == (self.key() == other.key()),
    {
        match (self, other) {
            (DimensionStep::Term { label: a }, DimensionStep::Term { label: b }) => a.eq(b),
            (
                DimensionStep::College { number: a, name: x },
                DimensionStep::College { number: b, name: y },
            ) => a.eq(b) && x.eq(y),
            (
                DimensionStep::Major { college_number: a, name: x, .. },
                DimensionStep::Major { college_number: b, name: y, .. },
            ) => a.eq(b) && x.eq(y),
            (
                DimensionStep::Class { college_number: a, major_name: x, name: p, .. },
                DimensionStep::Class { college_number: b, major_name: y, name: q, .. },
            ) => a.eq(b) && x.eq(y) && p.eq(q),
            _ => false,
        }
    }
}

pub open spec fn steps_keys(steps: Seq<DimensionStep>) -> Seq<DimKey> {
    steps.map_values(|s: DimensionStep| s.key())
}

/// Each major's and class's parent step comes before it and holds its parent's key.
pub open spec fn parents_ok(steps: Seq<DimensionStep>) -> bool {
    forall|i: int|
        0 <= i < steps.len() ==> match #[trigger] steps[i] {
            DimensionStep::Major { college_number, college, .. } => college < i
                && is_college_of(steps[college as int].key(), college_number@),
            DimensionStep::Class { college_number, major_name, major, .. } => major < i
                && steps[major as int].key() == DimKey::Major(college_number@, major_name@),
            _ => true,
        }
}

/// The upserts of a batch sequence, and where each batch's term and each
/// table's class stand among them.
#[derive(Clone, Debug)]
pub struct DimensionPlan {
    pub steps: Vec<DimensionStep>,
    /// For each batch, the step of its term.
    pub term_step: Vec<usize>,
    /// For each batch and each of its tables, the step of the table's class.
    pub class_step: Vec<Vec<usize>>,
}

pub open spec fn step_has_key(steps: Seq<DimensionStep>, idx: usize, key: DimKey) -> bool {
    idx < steps.len() && steps[idx as int].key() == key
}

/// `ti` is the step of the batch's term and `classes` the steps of its tables' classes.
pub open spec fn batch_fits(
    steps: Seq<DimensionStep>,
    ti: usize,
    classes: Seq<usize>,
    b: BatchModel,
) -> bool {
    &&& step_has_key(steps, ti, DimKey::Term(b.0))
    &&& classes.len() == b.3.len()
    &&& forall|t: int|
        0 <= t < classes.len() ==> step_has_key(
            steps,
            #[trigger] classes[t],
            DimKey::Class(b.1, b.3[t].0, b.3[t].1),
        )
}

pub open spec fn extends(longer: Seq<DimensionStep>, shorter: Seq<DimensionStep>) -> bool {
    shorter.len() <= longer.len() && forall|j: int| 0 <= j < shorter.len() ==> #[trigger] longer[j]
        == shorter[j]
}

proof fn lemma_batch_fits_extends(
    s1: Seq<DimensionStep>,
    s2: Seq<DimensionStep>,
    ti: usize,
    classes: Seq<usize>,
    b: BatchModel,
)
    requires
        batch_fits(s1, ti, classes, b),
        extends(s2, s1),
    ensures
        batch_fits(s2, ti, classes, b),
{
    assert(s2[ti as int] == s1[ti as int]);
    assert forall|t: int| 0 <= t < classes.len() implies step_has_key(
        s2,
        #[trigger] classes[t],
        DimKey::Class(b.1, b.3[t].0, b.3[t].1),
    ) by {
        assert(step_has_key(s1, classes[t], DimKey::Class(b.1, b.3[t].0, b.3[t].1)));
        assert(s2[classes[t] as int] == s1[classes[t] as int]);
    }
}

impl DimensionPlan {
    /// The plan fits `bs`: its steps are the distinct keys of `bs` in order,
    /// and every index points at the matching step.
    pub open spec fn fits(&self, bs: Seq<BatchModel>) -> bool {
        &&& steps_keys(self.steps@) == dimension_plan(bs)
        &&& parents_ok(self.steps@)
        &&& self.term_step@.len() == bs.len()
        &&& self.class_step@.len() == bs.len()
        &&& forall|b: int|
            0 <= b < bs.len() ==> batch_fits(
                self.steps@,
                #[trigger] self.term_step@[b],
                self.class_step@[b]@,
                bs[b],
            )
    }
}

/// Adds `step` to `steps` unless a step with its key is there; returns the
/// index of the step with that key.
fn add_step(steps: &mut Vec<DimensionStep>, step: DimensionStep) -> (r: usize)
    requires
        parents_ok(old(steps)@),
        match step {
            DimensionStep::Major { college_number, college, .. } => college < old(steps)@.len()
                && is_college_of(old(steps)@[college as int].key(), college_number@),
            DimensionStep::Class { college_number, major_name, major, .. } => major < old(
                steps,
            )@.len() && old(steps)@[major as int].key() == DimKey::Major(
                college_number@,
                major_name@,
            ),
            _ => true,
        },
    ensures
        steps_keys(old(steps)@).contains(step.key()) ==> final(steps)@ == old(steps)@,
        !steps_keys(old(steps)@).contains(step.key()) ==> final(steps)@ == old(steps)@.push(step),
        parents_ok(final(steps)@),
        extends(final(steps)@, old(steps)@),
        r < final(steps)@.len(),
        final(steps)@[r as int].key() == step.key(),
{
    let mut i: usize = 0;
    while i < steps.len()
        invariant
            i <= steps@.len(),
            steps@ == old(steps)@,
            parents_ok(steps@),
            forall|j: int| 0 <= j < i ==> #[trigger] steps@[j].key() != step.key(),
        decreases steps@.len() - i,
    {
        if steps[i].same_key(&step) {
            proof {
                assert(steps_keys(steps@)[i as int] == step.key());
            }
            return i;
        }
        i = i + 1;
    }
    proof {
        if steps_keys(steps@).contains(step.key()) {
            let j = choose|j: int| 0 <= j < steps_keys(steps@).len() && steps_keys(steps@)[j] == step.key();
            assert(steps@[j].key() == step.key());
        }
    }
    let ghost before = steps@;
    steps.push(step);
    proof {
        assert forall|k: int| 0 <= k < steps@.len() implies match #[trigger] steps@[k] {
            DimensionStep::Major { college_number, college, .. } => college < k
                && is_college_of(steps@[college as int].key(), college_number@),
            DimensionStep::Class { college_number, major_name, major, .. } => major < k
                && steps@[major as int].key() == DimKey::Major(college_number@, major_name@),
            _ => true,
        } by {
            if k < before.len() {
                assert(steps@[k] == before[k]);
            }
        }
    }
    i
}


proof fn lemma_distinct_push(s: Seq<DimKey>, k: DimKey)
    ensures
        distinct_keys(s.push(k)) == if distinct_keys(s).contains(k) {
            distinct_keys(s)
        } else {
            distinct_keys(s).push(k)
        },
{
    assert(s.push(k).drop_last() =~= s);
}

proof fn lemma_add_key(steps0: Seq<DimensionStep>, steps1: Seq<DimensionStep>, keys: Seq<DimKey>, step: DimensionStep)
    requires
        steps_keys(steps0) == distinct_keys(keys),
        steps_keys(steps0).contains(step.key()) ==> steps1 == steps0,
        !steps_keys(steps0).contains(step.key()) ==> steps1 == steps0.push(step),
    ensures
        steps_keys(steps1) == distinct_keys(keys.push(step.key())),
{
    lemma_distinct_push(keys, step.key());
    if !steps_keys(steps0).contains(step.key()) {
        assert(steps_keys(steps1) =~= steps_keys(steps0).push(step.key()));
    }
}

impl DimensionPlan {
    /// The plan of a batch sequence.
    pub fn new(data: &Vec<CollegeData>) -> (r: Self)
        ensures
            r.fits(batches_model(data@)),
    {
        let ghost bs = batches_model(data@);
        let mut steps: Vec<DimensionStep> = Vec::new();
        let mut term_step: Vec<usize> = Vec::new();
        let mut class_step: Vec<Vec<usize>> = Vec::new();
        proof {
            assert(steps_keys(steps@) =~= distinct_keys(all_keys(bs.subrange(0, 0))));
        }
        let mut b: usize = 0;
        while b < data.len()
            invariant
                b <= data@.len(),
                bs == batches_model(data@),
                steps_keys(steps@) == distinct_keys(all_keys(bs.subrange(0, b as int))),
                parents_ok(steps@),
                term_step@.len() == b,
                class_step@.len() == b,
                forall|c: int|
                    0 <= c < b ==> batch_fits(steps@, #[trigger] term_step@[c], class_step@[c]@, bs[c]),
            decreases data@.len() - b,
        {
            let batch = &data[b];
            let ghost number = batch.college_number@;
            let ghost ts = bs[b as int].3;
            let ghost keys0 = all_keys(bs.subrange(0, b as int));
            let ghost steps0 = steps@;
            let term = DimensionStep::Term { label: batch.term_name.clone() };
            let ti = add_step(&mut steps, term);
            proof {
                lemma_add_key(steps0, steps@, keys0, term);
            }
            let ghost steps1 = steps@;
            let college = DimensionStep::College {
                number: batch.college_number.clone(),
                name: batch.college_name.clone(),
            };
            let ci = add_step(&mut steps, college);
            proof {
                lemma_add_key(steps1, steps@, keys0.push(term.key()), college);
                assert(keys0.push(term.key()).push(college.key()) =~= keys0 + seq![
                    DimKey::Term(bs[b as int].0),
                    DimKey::College(bs[b as int].1, bs[b as int].2),
                ] + tables_keys(number, ts.subrange(0, 0)));
            }
            let mut classes: Vec<usize> = Vec::new();
            let mut t: usize = 0;
            while t < batch.data.len()
                invariant
                    b < data@.len(),
                    batch == data@[b as int],
                    bs == batches_model(data@),
                    number == batch.college_number@,
                    ts == bs[b as int].3,
                    keys0 == all_keys(bs.subrange(0, b as int)),
                    t <= batch.data@.len(),
                    steps_keys(steps@) == distinct_keys(keys0 + seq![
                        DimKey::Term(bs[b as int].0),
                        DimKey::College(bs[b as int].1, bs[b as int].2),
                    ] + tables_keys(number, ts.subrange(0, t as int))),
                    parents_ok(steps@),
                    extends(steps@, steps0),
                    step_has_key(steps@, ti, DimKey::Term(bs[b as int].0)),
                    ci < steps@.len(),
                    is_college_of(steps@[ci as int].key(), number),
                    classes@.len() == t,
                    forall|u: int|
                        0 <= u < t ==> step_has_key(
                            steps@,
                            #[trigger] classes@[u],
                            DimKey::Class(number, ts[u].0, ts[u].1),
                        ),
                decreases batch.data@.len() - t,
            {
                let table = &batch.data[t];
                let ghost prefix = keys0 + seq![
                    DimKey::Term(bs[b as int].0),
                    DimKey::College(bs[b as int].1, bs[b as int].2),
                ] + tables_keys(number, ts.subrange(0, t as int));
                let ghost steps2 = steps@;
                let major = DimensionStep::Major {
                    college_number: batch.college_number.clone(),
                    name: table.major_name.clone(),
                    college: ci,
                };
                let mi = add_step(&mut steps, major);
                proof {
                    lemma_add_key(steps2, steps@, prefix, major);
                }
                let ghost steps3 = steps@;
                let class = DimensionStep::Class {
                    college_number: batch.college_number.clone(),
                    major_name: table.major_name.clone(),
                    name: table.class_name.clone(),
                    major: mi,
                };
                let ki = add_step(&mut steps, class);
                proof {
                    lemma_add_key(steps3, steps@, prefix.push(major.key()), class);
                    assert(ts[t as int] == table.model());
                    assert(ts.subrange(0, t + 1).drop_last() =~= ts.subrange(0, t as int));
                    assert(prefix.push(major.key()).push(class.key()) =~= keys0 + seq![
                        DimKey::Term(bs[b as int].0),
                        DimKey::College(bs[b as int].1, bs[b as int].2),
                    ] + tables_keys(number, ts.subrange(0, t + 1)));
                    assert(steps@[ci as int] == steps2[ci as int]);
                    assert(steps@[ti as int] == steps2[ti as int]);
                    assert forall|u: int| 0 <= u < t implies step_has_key(
                        steps@,
                        #[trigger] classes@[u],
                        DimKey::Class(number, ts[u].0, ts[u].1),
                    ) by {
                        assert(steps@[classes@[u] as int] == steps2[classes@[u] as int]);
                    }
                }
                classes.push(ki);
                t = t + 1;
            }
            proof {
                assert(ts.subrange(0, t as int) =~= ts);
                assert(bs.subrange(0, b + 1).drop_last() =~= bs.subrange(0, b as int));
                assert(keys0 + seq![
                    DimKey::Term(bs[b as int].0),
                    DimKey::College(bs[b as int].1, bs[b as int].2),
                ] + tables_keys(number, ts) =~= all_keys(bs.subrange(0, b + 1)));
                assert forall|c: int| 0 <= c < b implies batch_fits(
                    steps@,
                    #[trigger] term_step@[c],
                    class_step@[c]@,
                    bs[c],
                ) by {
                    lemma_batch_fits_extends(steps0, steps@, term_step@[c], class_step@[c]@, bs[c]);
                }
            }
            term_step.push(ti);
            class_step.push(classes);
            b = b + 1;
        }
        proof {
            assert(bs.subrange(0, b as int) =~= bs);
        }
        DimensionPlan { steps, term_step, class_step }
    }
}


/// The statements of one step: an upsert, then a lookup of the row's id.
#[derive(Debug)]
pub struct DimensionAction {
    pub upsert: Statement,
    pub lookup: Statement,
}

/// The statements that step `i` runs, given the ids of the steps before it.
pub open spec fn action_fits(a: DimensionAction, steps: Seq<DimensionStep>, i: int, ids: Seq<i64>) -> bool {
    match steps[i] {
        DimensionStep::Term { label } => {
            &&& a.upsert.sql == TERM_UPSERT
            &&& binds_model(a.upsert.binds@) == seq![SqlModel::Text(label@)]
            &&& a.lookup.sql == TERM_LOOKUP
            &&& binds_model(a.lookup.binds@) == seq![SqlModel::Text(label@)]
        },
        DimensionStep::College { number, name } => {
            &&& a.upsert.sql == COLLEGE_UPSERT
            &&& binds_model(a.upsert.binds@) == seq![SqlModel::Text(name@), SqlModel::Text(number@)]
            &&& a.lookup.sql == COLLEGE_LOOKUP
            &&& binds_model(a.lookup.binds@) == seq![SqlModel::Text(number@)]
        },
        DimensionStep::Major { name, college, .. } => {
            &&& a.upsert.sql == MAJOR_UPSERT
            &&& binds_model(a.upsert.binds@) == seq![SqlModel::Text(name@), SqlModel::Int(ids[college as int])]
            &&& a.lookup.sql == MAJOR_LOOKUP
            &&& binds_model(a.lookup.binds@) == seq![SqlModel::Text(name@), SqlModel::Int(ids[college as int])]
        },
        DimensionStep::Class { name, major, .. } => {
            &&& a.upsert.sql == CLASS_UPSERT
            &&& binds_model(a.upsert.binds@) == seq![SqlModel::Text(name@), SqlModel::Int(ids[major as int])]
            &&& a.lookup.sql == CLASS_LOOKUP
            &&& binds_model(a.lookup.binds@) == seq![SqlModel::Text(name@), SqlModel::Int(ids[major as int])]
        },
    }
}

fn pair(a: SqlValue, b: SqlValue) -> (r: Vec<SqlValue>)
    ensures
        binds_model(r@) == seq![a.model(), b.model()],
{
    let r = vec![a, b];
    assert(binds_model(r@) =~= seq![a.model(), b.model()]);
    r
}

fn single(a: SqlValue) -> (r: Vec<SqlValue>)
    ensures
        binds_model(r@) == seq![a.model()],
{
    let r = vec![a];
    assert(binds_model(r@) =~= seq![a.model()]);
    r
}

/// The statements of step `i`, given the ids of steps `0..i`.
pub fn dimension_action(steps: &Vec<DimensionStep>, i: usize, ids: &Vec<i64>) -> (r: DimensionAction)
    requires
        i < steps@.len(),
        ids@.len() == i,
        parents_ok(steps@),
    ensures
        action_fits(r, steps@, i as int, ids@),
{
    match &steps[i] {
        DimensionStep::Term { label } => DimensionAction {
            upsert: Statement { sql: TERM_UPSERT, binds: single(text_value(label)) },
            lookup: Statement { sql: TERM_LOOKUP, binds: single(text_value(label)) },
        },
        DimensionStep::College { number, name } => DimensionAction {
            upsert: Statement {
                sql: COLLEGE_UPSERT,
                binds: pair(text_value(name), text_value(number)),
            },
            lookup: Statement { sql: COLLEGE_LOOKUP, binds: single(text_value(number)) },
        },
        DimensionStep::Major { name, college, .. } => {
            let id = ids[*college];
            DimensionAction {
                upsert: Statement {
                    sql: MAJOR_UPSERT,
                    binds: pair(text_value(name), SqlValue::Int(id)),
                },
                lookup: Statement {
                    sql: MAJOR_LOOKUP,
                    binds: pair(text_value(name), SqlValue::Int(id)),
                },
            }
        },
        DimensionStep::Class { name, major, .. } => {
            let id = ids[*major];
            DimensionAction {
                upsert: Statement {
                    sql: CLASS_UPSERT,
                    binds: pair(text_value(name), SqlValue::Int(id)),
                },
                lookup: Statement {
                    sql: CLASS_LOOKUP,
                    binds: pair(text_value(name), SqlValue::Int(id)),
                },
            }
        },
    }
}

/// Every index of the plan points at one of its steps.
pub open spec fn indices_ok(plan: DimensionPlan) -> bool {
    &&& plan.term_step@.len() == plan.class_step@.len()
    &&& forall|b: int| 0 <= b < plan.term_step@.len() ==> #[trigger] plan.term_step@[b] < plan.steps@.len()
    &&& forall|b: int, t: int|
        0 <= b < plan.class_step@.len() && 0 <= t < plan.class_step@[b]@.len()
            ==> #[trigger] plan.class_step@[b]@[t] < plan.steps@.len()
}

/// The ids that fact loading needs: each batch's term id, and the class id of
/// each of its tables.
#[derive(Clone, Debug)]
pub struct ResolvedIds {
    pub term_ids: Vec<i64>,
    pub class_ids: Vec<Vec<i64>>,
}

/// Resolution walks the plan one step at a time: the caller runs each action
/// against the store and hands back the id that its lookup returned.
pub struct DimensionResolver {
    plan: DimensionPlan,
    ids: Vec<i64>,
}

impl DimensionResolver {
    pub closed spec fn plan(&self) -> DimensionPlan {
        self.plan
    }

    /// The ids recorded so far, one per step already run.
    pub closed spec fn ids(&self) -> Seq<i64> {
        self.ids@
    }

    pub closed spec fn wf(&self) -> bool {
        &&& parents_ok(self.plan.steps@)
        &&& indices_ok(self.plan)
        &&& self.ids@.len() <= self.plan.steps@.len()
    }

    pub fn new(data: &Vec<CollegeData>) -> (r: Self)
        ensures
            r.wf(),
            r.plan().fits(batches_model(data@)),
            r.ids() == Seq::<i64>::empty(),
    {
        let plan = DimensionPlan::new(data);
        proof {
            let bs = batches_model(data@);
            assert forall|b: int, t: int|
                0 <= b < plan.class_step@.len() && 0 <= t < plan.class_step@[b]@.len()
                    implies #[trigger] plan.class_step@[b]@[t] < plan.steps@.len() by {
                assert(batch_fits(plan.steps@, plan.term_step@[b], plan.class_step@[b]@, bs[b]));
            }
            assert forall|b: int| 0 <= b < plan.term_step@.len()
                implies #[trigger] plan.term_step@[b] < plan.steps@.len() by {
                assert(batch_fits(plan.steps@, plan.term_step@[b], plan.class_step@[b]@, bs[b]));
            }
        }
        DimensionResolver { plan, ids: Vec::new() }
    }

    /// The statements of the next step, or `None` once every step has run.
    pub fn next_action(&self) -> (r: Option<DimensionAction>)
        requires
            self.wf(),
        ensures
            r is None <==> self.ids().len() == self.plan().steps@.len(),
            r matches Some(a) ==> action_fits(
                a,
                self.plan().steps@,
                self.ids().len() as int,
                self.ids(),
            ),
    {
        if self.ids.len() < self.plan.steps.len() {
            Some(dimension_action(&self.plan.steps, self.ids.len(), &self.ids))
        } else {
            None
        }
    }

    /// Records the id that the current step's lookup returned.
    pub fn record_id(&mut self, id: i64)
        requires
            old(self).wf(),
            old(self).ids().len() < old(self).plan().steps@.len(),
        ensures
            final(self).wf(),
            final(self).plan() == old(self).plan(),
            final(self).ids() == old(self).ids().push(id),
    {
        self.ids.push(id);
    }

    /// The ids of each batch's term and each table's class, once every step has run.
    pub fn finish(&self) -> (r: Option<ResolvedIds>)
        requires
            self.wf(),
        ensures
            r is Some <==> self.ids().len() == self.plan().steps@.len(),
            r matches Some(res) ==> resolved_fits(res, self.plan(), self.ids()),
    {
        if self.ids.len() < self.plan.steps.len() {
            return None;
        }
        Some(resolve_ids(&self.plan, &self.ids))
    }
}

/// `res` holds, for each batch and table, the id of its term's and class's step.
pub open spec fn resolved_fits(res: ResolvedIds, plan: DimensionPlan, ids: Seq<i64>) -> bool {
    &&& res.term_ids@.len() == plan.term_step@.len()
    &&& res.class_ids@.len() == plan.class_step@.len()
    &&& forall|b: int|
        0 <= b < res.term_ids@.len() ==> #[trigger] res.term_ids@[b] == ids[plan.term_step@[b] as int]
    &&& forall|b: int|
        0 <= b < res.class_ids@.len() ==> {
            &&& (#[trigger] res.class_ids@[b])@.len() == plan.class_step@[b]@.len()
            &&& forall|t: int|
                0 <= t < res.class_ids@[b]@.len() ==> #[trigger] res.class_ids@[b]@[t]
                    == ids[plan.class_step@[b]@[t] as int]
        }
}

/// The ids of each batch's term and each table's class, picked out of the
/// ids of the plan's steps.
pub fn resolve_ids(plan: &DimensionPlan, ids: &Vec<i64>) -> (r: ResolvedIds)
    requires
        ids@.len() == plan.steps@.len(),
        indices_ok(*plan),
    ensures
        resolved_fits(r, *plan, ids@),
{
    let mut term_ids: Vec<i64> = Vec::new();
    let mut class_ids: Vec<Vec<i64>> = Vec::new();
    let mut b: usize = 0;
    while b < plan.term_step.len()
        invariant
            b <= plan.term_step@.len() == plan.class_step@.len(),
            ids@.len() == plan.steps@.len(),
            forall|c: int| 0 <= c < plan.term_step@.len() ==> #[trigger] plan.term_step@[c] < ids@.len(),
            forall|c: int, t: int|
                0 <= c < plan.class_step@.len() && 0 <= t < plan.class_step@[c]@.len()
                    ==> #[trigger] plan.class_step@[c]@[t] < ids@.len(),
            term_ids@.len() == b,
            class_ids@.len() == b,
            forall|c: int| 0 <= c < b ==> #[trigger] term_ids@[c] == ids@[plan.term_step@[c] as int],
            forall|c: int|
                0 <= c < b ==> {
                    &&& (#[trigger] class_ids@[c])@.len() == plan.class_step@[c]@.len()
                    &&& forall|t: int|
                        0 <= t < class_ids@[c]@.len() ==> #[trigger] class_ids@[c]@[t]
                            == ids@[plan.class_step@[c]@[t] as int]
                },
        decreases plan.term_step@.len() - b,
    {
        term_ids.push(ids[plan.term_step[b]]);
        let steps_of_batch = &plan.class_step[b];
        let mut row: Vec<i64> = Vec::new();
        let mut t: usize = 0;
        while t < steps_of_batch.len()
            invariant
                b < plan.class_step@.len(),
                steps_of_batch == plan.class_step@[b as int],
                ids@.len() == plan.steps@.len(),
                forall|c: int, u: int|
                    0 <= c < plan.class_step@.len() && 0 <= u < plan.class_step@[c]@.len()
                        ==> #[trigger] plan.class_step@[c]@[u] < ids@.len(),
                t <= steps_of_batch@.len(),
                row@.len() == t,
                forall|u: int| 0 <= u < t ==> #[trigger] row@[u] == ids@[steps_of_batch@[u] as int],
            decreases steps_of_batch@.len() - t,
        {
            assert(plan.class_step@[b as int]@[t as int] < ids@.len());
            row.push(ids[steps_of_batch[t]]);
            t = t + 1;
        }
        class_ids.push(row);
        b = b + 1;
    }
    ResolvedIds { term_ids, class_ids }
}

} // verus!
