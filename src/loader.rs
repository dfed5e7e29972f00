//! Fact loading: the fact rows of each batch, how batches are grouped across
//! workers, and when a busy store is tried again.
use crate::college::CollegeData;
use crate::names::chars_of;
use crate::sql::{
    binds_model, text_value, SqlModel, SqlValue, Statement, RECORD_INSERT, STUDENT_LOOKUP,
    STUDENT_UPSERT,
};
use crate::table::{RowModel, TableModel};
use vstd::prelude::*;

verus! {

/// One academic record to store, with the student it belongs to.
#[derive(Clone, Debug)]
pub struct FactRow {
    pub student_number: String,
    pub student_name: String,
    /// The GPA's decimal text, or `None` for a null GPA.
    pub gpa: Option<String>,
    pub term_id: i64,
    pub class_id: i64,
}

/// A fact row as plain values: student number, name, GPA text, term id, class id.
pub type FactModel = (Seq<char>, Seq<char>, Option<Seq<char>>, i64, i64);

impl FactRow {
    pub open spec fn model(&self) -> FactModel {
        (
            self.student_number@,
            self.student_name@,
            match self.gpa {
                Some(g) => Some(g@),
                None => None,
            },
            self.term_id,
            self.class_id,
        )
    }

    /// Creates the student, or refreshes the name of the student with this number.
    pub fn student_upsert(&self) -> (r: Statement)
        ensures
            r.sql == STUDENT_UPSERT,
            binds_model(r.binds@) == seq![
                SqlModel::Text(self.student_number@),
                SqlModel::Text(self.student_name@),
            ],
    {
        let binds = vec![text_value(&self.student_number), text_value(&self.student_name)];
        assert(binds_model(binds@) =~= seq![
            SqlModel::Text(self.student_number@),
            SqlModel::Text(self.student_name@),
        ]);
        Statement { sql: STUDENT_UPSERT, binds }
    }

    /// Looks up the id of the student with this number.
    pub fn student_lookup(&self) -> (r: Statement)
        ensures
            r.sql == STUDENT_LOOKUP,
            binds_model(r.binds@) == seq![SqlModel::Text(self.student_number@)],
    {
        let binds = vec![text_value(&self.student_number)];
        assert(binds_model(binds@) =~= seq![SqlModel::Text(self.student_number@)]);
        Statement { sql: STUDENT_LOOKUP, binds }
    }

    /// Inserts the record for the student whose id is `student_id`; a missing
    /// GPA is stored as null.
    pub fn record_insert(&self, student_id: i64) -> (r: Statement)
        ensures
            r.sql == RECORD_INSERT,
            binds_model(r.binds@) == seq![
                match self.gpa {
                    Some(g) => SqlModel::Real(g@),
                    None => SqlModel::Null,
                },
                SqlModel::Int(self.term_id),
                SqlModel::Int(self.class_id),
                SqlModel::Int(student_id),
            ],
    {
        let gpa = match &self.gpa {
            Some(g) => SqlValue::Real(g.clone()),
            None => SqlValue::Null,
        };
        let binds = vec![
            gpa,
            SqlValue::Int(self.term_id),
            SqlValue::Int(self.class_id),
            SqlValue::Int(student_id),
        ];
        assert(binds_model(binds@) =~= seq![
            match self.gpa {
                Some(g) => SqlModel::Real(g@),
                None => SqlModel::Null,
            },
            SqlModel::Int(self.term_id),
            SqlModel::Int(self.class_id),
            SqlModel::Int(student_id),
        ]);
        Statement { sql: RECORD_INSERT, binds }
    }
}

pub open spec fn facts_model(v: Seq<FactRow>) -> Seq<FactModel> {
    v.map_values(|f: FactRow| f.model())
}

pub open spec fn row_fact(r: RowModel, term_id: i64, class_id: i64) -> FactModel {
    (r.0, r.1, r.2, term_id, class_id)
}

/// One fact per student row of a table.
pub open spec fn table_facts(t: TableModel, term_id: i64, class_id: i64) -> Seq<FactModel> {
    t.2.map_values(|r: RowModel| row_fact(r, term_id, class_id))
}

/// The facts of a batch's tables, table by table, each with its class id.
pub open spec fn batch_facts(ts: Seq<TableModel>, term_id: i64, class_ids: Seq<i64>) -> Seq<FactModel>
    decreases ts.len(),
{
    if ts.len() == 0 {
        seq![]
    } else {
        batch_facts(ts.drop_last(), term_id, class_ids) + table_facts(
            ts.last(),
            term_id,
            class_ids[ts.len() - 1],
        )
    }
}

/// The fact rows of one batch: one per student row of each table, with the
/// batch's term id and the table's class id.
pub fn batch_fact_rows(batch: &CollegeData, term_id: i64, class_ids: &Vec<i64>) -> (r: Vec<FactRow>)
    requires
        class_ids@.len() == batch.data@.len(),
    ensures
        facts_model(r@) == batch_facts(batch.model().3, term_id, class_ids@),
{
    let ghost ts = batch.model().3;
    let mut facts: Vec<FactRow> = Vec::new();
    let mut t: usize = 0;
    while t < batch.data.len()
        invariant
            ts == batch.model().3,
            class_ids@.len() == batch.data@.len(),
            t <= batch.data@.len(),
            facts_model(facts@) == batch_facts(ts.subrange(0, t as int), term_id, class_ids@),
        decreases batch.data@.len() - t,
    {
        let table = &batch.data[t];
        let class_id = class_ids[t];
        let ghost base = facts@;
        let ghost rows = ts[t as int].2;
        assert(rows == crate::table::records_model(table.records@));
        let mut k: usize = 0;
        while k < table.records.len()
            invariant
                k <= table.records@.len(),
                rows == crate::table::records_model(table.records@),
                facts@.len() == base.len() + k,
                forall|j: int| 0 <= j < base.len() ==> #[trigger] facts@[j] == base[j],
                forall|j: int|
                    0 <= j < k ==> #[trigger] facts@[base.len() + j].model() == row_fact(
                        rows[j],
                        term_id,
                        class_id,
                    ),
            decreases table.records@.len() - k,
        {
            let rec = &table.records[k];
            let fact = FactRow {
                student_number: rec.sid.clone(),
                student_name: rec.name.clone(),
                gpa: match &rec.gpa {
                    Some(g) => Some(g.clone()),
                    None => None,
                },
                term_id,
                class_id,
            };
            assert(fact.model() == row_fact(rows[k as int], term_id, class_id));
            facts.push(fact);
            k = k + 1;
        }
        proof {
            let prev = ts.subrange(0, t as int);
            let next = ts.subrange(0, t + 1);
            assert(next.drop_last() =~= prev);
            assert(facts_model(facts@) =~= facts_model(base) + table_facts(ts[t as int], term_id, class_id)) by {
                assert forall|j: int| 0 <= j < facts@.len() implies #[trigger] facts_model(facts@)[j] == (facts_model(base) + table_facts(ts[t as int], term_id, class_id))[j] by {
                    if j >= base.len() {
                        assert(facts@[base.len() + (j - base.len())].model() == row_fact(rows[j - base.len()], term_id, class_id));
                    }
                }
            }
        }
        t = t + 1;
    }
    proof {
        assert(ts.subrange(0, t as int) =~= ts);
    }
    facts
}

pub open spec fn sum_counts(s: Seq<usize>) -> int
    decreases s.len(),
{
    if s.len() == 0 {
        0
    } else {
        sum_counts(s.drop_last()) + s.last()
    }
}

/// `groups` splits `0..counts.len()` into consecutive non-empty ranges; a range
/// closes at the first batch that brings its table count to `size` (so a range
/// of two or more batches is short of `size` without its last one), and the
/// last range may close short of it at the end.
pub open spec fn groups_fit(groups: Seq<(usize, usize)>, counts: Seq<usize>, size: usize) -> bool {
    &&& groups.len() == 0 <==> counts.len() == 0
    &&& groups.len() > 0 ==> groups[0].0 == 0 && groups.last().1 == counts.len()
    &&& forall|g: int| 0 <= g < groups.len() ==> (#[trigger] groups[g]).0 < groups[g].1
    &&& forall|g: int| 0 <= g < groups.len() - 1 ==> (#[trigger] groups[g]).1 == groups[g + 1].0
    &&& forall|g: int|
        0 <= g < groups.len() ==> (#[trigger] groups[g]).1 - 1 == groups[g].0 || sum_counts(
            counts.subrange(groups[g].0 as int, groups[g].1 - 1),
        ) < size
    &&& forall|g: int|
        0 <= g < groups.len() - 1 ==> sum_counts(
            counts.subrange((#[trigger] groups[g]).0 as int, groups[g].1 as int),
        ) >= size
}

proof fn lemma_sum_push(s: Seq<usize>, lo: int, hi: int)
    requires
        0 <= lo <= hi < s.len(),
    ensures
        sum_counts(s.subrange(lo, hi + 1)) == sum_counts(s.subrange(lo, hi)) + s[hi],
{
    assert(s.subrange(lo, hi + 1).drop_last() =~= s.subrange(lo, hi));
}

/// Groups batches, given the number of tables of each, into the ranges that
/// one worker each loads: a range takes batches until it holds `size` tables.
pub fn partition_batches(counts: &Vec<usize>, size: usize) -> (r: Vec<(usize, usize)>)
    ensures
        groups_fit(r@, counts@, size),
{
    let mut groups: Vec<(usize, usize)> = Vec::new();
    let n = counts.len();
    let mut start: usize = 0;
    let mut acc: usize = 0;
    let mut i: usize = 0;
    while i < n
        invariant
            n == counts@.len(),
            start <= i <= n,
            acc as int == sum_counts(counts@.subrange(start as int, i as int)),
            acc < size || start == i,
            start == i ==> acc == 0,
            groups@.len() == 0 <==> start == 0,
            groups@.len() > 0 ==> groups@[0].0 == 0 && groups@.last().1 == start,
            forall|g: int| 0 <= g < groups@.len() ==> (#[trigger] groups@[g]).0 < groups@[g].1,
            forall|g: int| 0 <= g < groups@.len() - 1 ==> (#[trigger] groups@[g]).1 == groups@[g + 1].0,
            forall|g: int|
                0 <= g < groups@.len() ==> (#[trigger] groups@[g]).1 - 1 == groups@[g].0 || sum_counts(
                    counts@.subrange(groups@[g].0 as int, groups@[g].1 - 1),
                ) < size,
            forall|g: int|
                0 <= g < groups@.len() ==> sum_counts(
                    counts@.subrange((#[trigger] groups@[g]).0 as int, groups@[g].1 as int),
                ) >= size,
        decreases n - i,
    {
        proof {
            lemma_sum_push(counts@, start as int, i as int);
            if start == i {
                assert(counts@.subrange(start as int, i as int) =~= Seq::<usize>::empty());
            }
        }
        if counts[i] >= size - acc {
            groups.push((start, i + 1));
            start = i + 1;
            acc = 0;
            proof {
                assert(counts@.subrange(start as int, i + 1) =~= Seq::<usize>::empty());
            }
        } else {
            acc = acc + counts[i];
        }
        i = i + 1;
    }
    if start < n {
        proof {
            if start > 0 {
                assert(acc < size);
                lemma_sum_push(counts@, start as int, (n - 1) as int);
            }
            lemma_sum_push(counts@, start as int, (n - 1) as int);
        }
        groups.push((start, n));
    }
    groups
}


/// How a store write is retried while the store is busy.
#[derive(Clone, Copy, Debug, PartialEq, Eq, Structural)]
pub struct RetryPolicy {
    /// Attempts made at most, the first one included.
    pub max_attempts: u32,
    /// The pause before each new attempt.
    pub delay_ms: u64,
}

/// What one attempt of a store write came to.
#[derive(Clone, Copy, Debug, PartialEq, Eq, Structural)]
pub enum AttemptOutcome {
    Succeeded,
    /// The store was busy or locked.
    Busy,
    /// Any other failure.
    Failed,
}

/// What to do after an attempt.
#[derive(Clone, Copy, Debug, PartialEq, Eq, Structural)]
pub enum RetryDecision {
    /// The write is done.
    Finish,
    /// Try again after this many milliseconds.
    RetryAfter(u64),
    /// Report the failure.
    GiveUp,
}

impl RetryPolicy {
    pub fn new(max_attempts: u32, delay_ms: u64) -> (r: Self)
        ensures
            r.max_attempts == max_attempts,
            r.delay_ms == delay_ms,
    {
        RetryPolicy { max_attempts, delay_ms }
    }

    /// Twenty attempts, a tenth of a second apart.
    pub fn standard() -> (r: Self)
        ensures
            r.max_attempts == 20,
            r.delay_ms == 100,
    {
        RetryPolicy { max_attempts: 20, delay_ms: 100 }
    }

    /// The decision after attempt number `attempts` (counted from one) came to `outcome`.
    pub fn decide(&self, attempts: u32, outcome: AttemptOutcome) -> (r: RetryDecision)
        ensures
            outcome == AttemptOutcome::Succeeded ==> r == RetryDecision::Finish,
            outcome == AttemptOutcome::Failed ==> r == RetryDecision::GiveUp,
            outcome == AttemptOutcome::Busy && attempts < self.max_attempts ==> r
                == RetryDecision::RetryAfter(self.delay_ms),
            outcome == AttemptOutcome::Busy && attempts >= self.max_attempts ==> r
                == RetryDecision::GiveUp,
    {
        match outcome {
            AttemptOutcome::Succeeded => RetryDecision::Finish,
            AttemptOutcome::Failed => RetryDecision::GiveUp,
            AttemptOutcome::Busy => if attempts < self.max_attempts {
                RetryDecision::RetryAfter(self.delay_ms)
            } else {
                RetryDecision::GiveUp
            },
        }
    }
}

/// The text by which the store reports lock contention.
pub open spec fn lock_text() -> Seq<char> {
    seq!['d', 'a', 't', 'a', 'b', 'a', 's', 'e', ' ', 'i', 's', ' ', 'l', 'o', 'c', 'k', 'e', 'd']
}

pub open spec fn occurs_at(s: Seq<char>, pat: Seq<char>, i: int) -> bool {
    0 <= i && i + pat.len() <= s.len() && s.subrange(i, i + pat.len()) == pat
}

/// Whether an error message reports that the store is locked.
pub fn is_lock_contention(message: &str) -> (r: bool)
    ensures
        r == exists|i: int| occurs_at(message@, lock_text(), i),
{
    let cs = chars_of(message);
    let pat = vec!['d', 'a', 't', 'a', 'b', 'a', 's', 'e', ' ', 'i', 's', ' ', 'l', 'o', 'c', 'k', 'e', 'd'];
    assert(pat@ =~= lock_text());
    let m = pat.len();
    if cs.len() < m {
        proof {
            assert forall|i: int| !occurs_at(message@, lock_text(), i) by {
                assert(lock_text().len() == 18);
            }
        }
        return false;
    }
    let mut i: usize = 0;
    while i <= cs.len() - m
        invariant
            cs@ == message@,
            pat@ == lock_text(),
            m == pat@.len(),
            m <= cs@.len(),
            i <= cs@.len() - m + 1,
            forall|j: int| 0 <= j < i ==> !occurs_at(message@, lock_text(), j),
        decreases cs@.len() - i,
    {
        let mut k: usize = 0;
        while k < m && cs[i + k] == pat[k]
            invariant
                i + m <= cs.len(),
                cs@ == message@,
                m == pat@.len(),
                k <= m,
                forall|q: int| 0 <= q < k ==> cs@[i + q] == pat@[q],
            decreases m - k,
        {
            k = k + 1;
        }
        if k == m {
            assert(cs@.subrange(i as int, i + m) =~= pat@);
            assert(occurs_at(message@, lock_text(), i as int));
            return true;
        }
        proof {
            if occurs_at(message@, lock_text(), i as int) {
                assert(cs@.subrange(i as int, i + m)[k as int] == cs@[i + k]);
            }
        }
        i = i + 1;
    }
    proof {
        assert forall|j: int| !occurs_at(message@, lock_text(), j) by {
            if j >= i {
                assert(j + m > cs@.len());
            }
        }
    }
    false
}

pub open spec fn count_true(s: Seq<bool>) -> nat
    decreases s.len(),
{
    if s.len() == 0 {
        0
    } else {
        count_true(s.drop_last()) + if s.last() {
            1nat
        } else {
            0nat
        }
    }
}

/// How many load units succeeded and how many failed.
#[derive(Clone, Copy, Debug, PartialEq, Eq, Structural)]
pub struct IngestSummary {
    pub succeeded: usize,
    pub failed: usize,
}

/// Counts the units whose result is `true` and those whose result is `false`.
pub fn summarize(results: &Vec<bool>) -> (r: IngestSummary)
    ensures
        r.succeeded == count_true(results@),
        r.succeeded + r.failed == results@.len(),
{
    let mut succeeded: usize = 0;
    let mut failed: usize = 0;
    let mut i: usize = 0;
    while i < results.len()
        invariant
            i <= results@.len(),
            succeeded == count_true(results@.subrange(0, i as int)),
            succeeded + failed == i,
        decreases results@.len() - i,
    {
        proof {
            assert(results@.subrange(0, i + 1).drop_last() =~= results@.subrange(0, i as int));
        }
        if results[i] {
            succeeded = succeeded + 1;
        } else {
            failed = failed + 1;
        }
        i = i + 1;
    }
    proof {
        assert(results@.subrange(0, i as int) =~= results@);
    }
    IngestSummary { succeeded, failed }
}

} // verus!
