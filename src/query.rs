//! The read side: listing queries and the GPA query in its two shapes.
use crate::error::CustomError;
use crate::sql::{binds_model, text_value, SqlModel, SqlValue};
use vstd::prelude::*;

verus! {

/// A statement whose text depends on the request, with its parameters.
#[derive(Debug)]
pub struct Query {
    pub sql: String,
    pub binds: Vec<SqlValue>,
}

#[derive(Clone, Debug)]
pub struct TermInfo {
    pub term_id: i64,
    pub term_name: String,
}

#[derive(Clone, Debug)]
pub struct CollegeInfo {
    pub college_id: i64,
    pub college_name: String,
}

#[derive(Clone, Debug)]
pub struct MajorInfo {
    pub major_id: i64,
    pub major_name: String,
}

#[derive(Clone, Debug)]
pub struct ClassInfo {
    pub class_id: i64,
    pub class_name: String,
}

pub const TERMS_QUERY: &'static str = "SELECT term_id, term_name FROM terms;";

pub const COLLEGES_QUERY: &'static str = "SELECT college_id, college_name FROM colleges;";

pub const MAJORS_QUERY: &'static str = "SELECT major_id, major_name FROM majors WHERE college_id = ?;";

pub const CLASSES_QUERY: &'static str = "SELECT class_id, class_name FROM classes WHERE major_id = ? AND class_name LIKE ?;";

/// One term: every student of the major's cohort with that term's GPA.
pub const SINGLE_TERM_GPA: &'static str = "SELECT classes.class_name AS class, students.student_number AS sno, students.name AS name, academic_records.gpa AS gpa FROM academic_records JOIN students ON academic_records.student_id = students.student_id JOIN terms ON academic_records.term_id = terms.term_id JOIN classes ON academic_records.class_id = classes.class_id JOIN majors ON majors.major_id = classes.major_id JOIN colleges ON colleges.college_id = majors.college_id WHERE terms.term_id = ? AND majors.major_id = ? AND classes.class_name LIKE ?";

/// Several terms: the cohort is taken from the last requested term, which is
/// bound first, and each member's GPAs over the terms listed after `IN (` are summed.
pub const MULTI_TERM_GPA_HEAD: &'static str = "SELECT s.cname AS class, s.sno AS sno, s.sname AS name, SUM(academic_records.gpa) AS gpa FROM academic_records JOIN (SELECT students.student_id AS sid, students.student_number AS sno, students.name AS sname, classes.class_id AS cid, classes.class_name AS cname FROM students JOIN academic_records ON academic_records.student_id = students.student_id AND academic_records.term_id = ? JOIN classes ON classes.class_id = academic_records.class_id AND classes.major_id = ? AND classes.class_name LIKE ? GROUP BY students.student_id) AS s ON academic_records.student_id = s.sid AND academic_records.term_id IN (";

pub const MULTI_TERM_GPA_WHERE: &'static str = ") WHERE 1 = 1";

pub const CLASS_FILTER: &'static str = " AND academic_records.class_id = ?";

pub const GROUP_BY_STUDENT: &'static str = " GROUP BY s.sid";

pub const PLACEHOLDER: &'static str = "?";

pub const NEXT_PLACEHOLDER: &'static str = ", ?";

pub const END: &'static str = ";";

/// `n` parameter markers separated by commas.
pub open spec fn placeholders(n: nat) -> Seq<char>
    decreases n,
{
    if n <= 1 {
        PLACEHOLDER@
    } else {
        placeholders((n - 1) as nat) + NEXT_PLACEHOLDER@
    }
}

/// The cohort pattern: class names that end in the grade and two more characters.
pub open spec fn grade_pattern_spec(grade: Seq<char>) -> Seq<char> {
    seq!['%'] + grade + seq!['_', '_']
}

pub open spec fn class_filter_sql(class_id: Option<i64>) -> Seq<char> {
    if class_id is Some {
        CLASS_FILTER@
    } else {
        Seq::empty()
    }
}

pub open spec fn class_filter_binds(class_id: Option<i64>) -> Seq<SqlModel> {
    match class_id {
        Some(c) => seq![SqlModel::Int(c)],
        None => Seq::empty(),
    }
}

/// The text of the GPA query over `n` terms.
pub open spec fn gpa_sql(n: nat, class_id: Option<i64>) -> Seq<char> {
    if n == 1 {
        SINGLE_TERM_GPA@ + class_filter_sql(class_id) + END@
    } else {
        MULTI_TERM_GPA_HEAD@ + placeholders(n) + MULTI_TERM_GPA_WHERE@ + class_filter_sql(class_id)
            + GROUP_BY_STUDENT@ + END@
    }
}

pub open spec fn ints(v: Seq<i64>) -> Seq<SqlModel> {
    v.map_values(|x: i64| SqlModel::Int(x))
}

/// The parameters of the GPA query. With one term: the term, the major, the
/// cohort pattern. With several: the last term, which fixes the cohort, the
/// major, the pattern, then every term. The class filter's id comes last.
pub open spec fn gpa_binds(terms: Seq<i64>, major_id: i64, grade: Seq<char>, class_id: Option<i64>) -> Seq<
    SqlModel,
> {
    if terms.len() == 1 {
        seq![
            SqlModel::Int(terms[0]),
            SqlModel::Int(major_id),
            SqlModel::Text(grade_pattern_spec(grade)),
        ] + class_filter_binds(class_id)
    } else {
        seq![
            SqlModel::Int(terms.last()),
            SqlModel::Int(major_id),
            SqlModel::Text(grade_pattern_spec(grade)),
        ] + ints(terms) + class_filter_binds(class_id)
    }
}

/// The cohort pattern of a grade such as `19`.
pub fn grade_pattern(grade: &str) -> (r: String)
    ensures
        r@ == grade_pattern_spec(grade@),
{
    let mut r = String::from_str("%");
    r.append(grade);
    r.append("__");
    proof {
        reveal_strlit("%");
        reveal_strlit("__");
        assert(r@ =~= grade_pattern_spec(grade@));
    }
    r
}

/// The classes of a major whose names place them in the grade's cohort.
pub fn classes_query(major_id: i64, grade: &str) -> (r: Query)
    ensures
        r.sql@ == CLASSES_QUERY@,
        binds_model(r.binds@) == seq![
            SqlModel::Int(major_id),
            SqlModel::Text(grade_pattern_spec(grade@)),
        ],
{
    let binds = vec![SqlValue::Int(major_id), SqlValue::Text(grade_pattern(grade))];
    assert(binds_model(binds@) =~= seq![
        SqlModel::Int(major_id),
        SqlModel::Text(grade_pattern_spec(grade@)),
    ]);
    Query { sql: String::from_str(CLASSES_QUERY), binds }
}

/// The majors of a college.
pub fn majors_query(college_id: i64) -> (r: Query)
    ensures
        r.sql@ == MAJORS_QUERY@,
        binds_model(r.binds@) == seq![SqlModel::Int(college_id)],
{
    let binds = vec![SqlValue::Int(college_id)];
    assert(binds_model(binds@) =~= seq![SqlModel::Int(college_id)]);
    Query { sql: String::from_str(MAJORS_QUERY), binds }
}

/// The GPA query: for one term, each cohort member's GPA in it; for several,
/// each member's GPAs summed over them, the cohort being fixed by the last.
pub fn build_gpa_query(terms: &Vec<i64>, major_id: i64, grade: &str, class_id: Option<i64>) -> (r: Result<
    Query,
    CustomError,
>)
    ensures
        terms@.len() == 0 ==> (r matches Err(CustomError::NoTermsRequested)),
        terms@.len() > 0 ==> (r matches Ok(q) && q.sql@ == gpa_sql(terms@.len(), class_id)
            && binds_model(q.binds@) == gpa_binds(terms@, major_id, grade@, class_id)),
{
    let n = terms.len();
    if n == 0 {
        return Err(CustomError::NoTermsRequested);
    }
    let mut sql: String;
    let mut binds: Vec<SqlValue> = Vec::new();
    let anchor = if n == 1 {
        terms[0]
    } else {
        terms[n - 1]
    };
    binds.push(SqlValue::Int(anchor));
    binds.push(SqlValue::Int(major_id));
    binds.push(text_value(&grade_pattern(grade)));
    if n == 1 {
        sql = String::from_str(SINGLE_TERM_GPA);
    } else {
        sql = String::from_str(MULTI_TERM_GPA_HEAD);
        sql.append(PLACEHOLDER);
        let ghost head = binds@;
        binds.push(SqlValue::Int(terms[0]));
        let mut i: usize = 1;
        while i < n
            invariant
                n == terms@.len(),
                1 <= i <= n,
                sql@ == MULTI_TERM_GPA_HEAD@ + placeholders(i as nat),
                binds@.len() == head.len() + i,
                forall|j: int| 0 <= j < head.len() ==> #[trigger] binds@[j] == head[j],
                forall|j: int| 0 <= j < i ==> #[trigger] binds@[head.len() + j].model() == SqlModel::Int(terms@[j]),
            decreases n - i,
        {
            sql.append(NEXT_PLACEHOLDER);
            binds.push(SqlValue::Int(terms[i]));
            i = i + 1;
        }
        sql.append(MULTI_TERM_GPA_WHERE);
        proof {
            assert(binds_model(binds@) =~= binds_model(head) + ints(terms@)) by {
                assert forall|j: int| 0 <= j < binds@.len() implies #[trigger] binds_model(binds@)[j] == (binds_model(head) + ints(terms@))[j] by {
                    if j >= head.len() {
                        assert(binds@[head.len() + (j - head.len())].model() == SqlModel::Int(terms@[j - head.len()]));
                    }
                }
            }
        }
    }
    let ghost before_filter = binds@;
    let ghost sql_before = sql@;
    if let Some(c) = class_id {
        sql.append(CLASS_FILTER);
        binds.push(SqlValue::Int(c));
    }
    proof {
        assert(binds_model(binds@) =~= binds_model(before_filter) + class_filter_binds(class_id));
        assert(sql@ =~= sql_before + class_filter_sql(class_id));
    }
    if n > 1 {
        sql.append(GROUP_BY_STUDENT);
    }
    sql.append(END);
    proof {
        if n == 1 {
            assert(sql@ =~= gpa_sql(terms@.len(), class_id));
            assert(binds_model(binds@) =~= gpa_binds(terms@, major_id, grade@, class_id));
        } else {
            assert(sql@ =~= gpa_sql(terms@.len(), class_id));
            assert(binds_model(binds@) =~= gpa_binds(terms@, major_id, grade@, class_id));
        }
    }
    Ok(Query { sql, binds })
}

} // verus!
