//! The store's schema and statements. Every variable value is bound as a
//! parameter; no statement text is built from data.
use vstd::prelude::*;

verus! {

/// A parameter of a statement.
#[derive(Debug)]
pub enum SqlValue {
    Int(i64),
    Text(String),
    /// A real number, given as its decimal text.
    Real(String),
    Null,
}

/// A parameter as plain values.
pub enum SqlModel {
    Int(i64),
    Text(Seq<char>),
    Real(Seq<char>),
    Null,
}

impl SqlValue {
    pub open spec fn model(&self) -> SqlModel {
        match self {
            SqlValue::Int(i) => SqlModel::Int(*i),
            SqlValue::Text(s) => SqlModel::Text(s@),
            SqlValue::Real(s) => SqlModel::Real(s@),
            SqlValue::Null => SqlModel::Null,
        }
    }
}

pub open spec fn binds_model(v: Seq<SqlValue>) -> Seq<SqlModel> {
    v.map_values(|x: SqlValue| x.model())
}

/// A statement text and the values bound to its parameters, in order.
#[derive(Debug)]
pub struct Statement {
    pub sql: &'static str,
    pub binds: Vec<SqlValue>,
}

pub fn text_value(s: &String) -> (r: SqlValue)
    ensures
        r.model() == SqlModel::Text(s@),
{
    SqlValue::Text(s.clone())
}

/// The tables of the store, created when missing.
pub const SCHEMA: &'static str = "CREATE TABLE IF NOT EXISTS terms (term_id INTEGER PRIMARY KEY AUTOINCREMENT, term_name TEXT NOT NULL UNIQUE); CREATE TABLE IF NOT EXISTS colleges (college_id INTEGER PRIMARY KEY AUTOINCREMENT, college_number TEXT NOT NULL UNIQUE, college_name TEXT NOT NULL); CREATE TABLE IF NOT EXISTS majors (major_id INTEGER PRIMARY KEY AUTOINCREMENT, major_name TEXT NOT NULL, college_id INTEGER NOT NULL REFERENCES colleges(college_id), UNIQUE (college_id, major_name)); CREATE TABLE IF NOT EXISTS classes (class_id INTEGER PRIMARY KEY AUTOINCREMENT, class_name TEXT NOT NULL, major_id INTEGER NOT NULL REFERENCES majors(major_id), UNIQUE (major_id, class_name)); CREATE TABLE IF NOT EXISTS students (student_id INTEGER PRIMARY KEY AUTOINCREMENT, student_number TEXT NOT NULL UNIQUE, name TEXT NOT NULL); CREATE TABLE IF NOT EXISTS academic_records (record_id INTEGER PRIMARY KEY AUTOINCREMENT, student_id INTEGER NOT NULL REFERENCES students(student_id), term_id INTEGER NOT NULL REFERENCES terms(term_id), class_id INTEGER NOT NULL REFERENCES classes(class_id), gpa REAL);";

pub const TERM_UPSERT: &'static str = "INSERT OR IGNORE INTO terms (term_name) VALUES (?1);";

pub const TERM_LOOKUP: &'static str = "SELECT term_id FROM terms WHERE term_name = ?1;";

/// A college's name follows its latest sighting; its number is its identity.
pub const COLLEGE_UPSERT: &'static str = "INSERT INTO colleges (college_name, college_number) VALUES (?1, ?2) ON CONFLICT(college_number) DO UPDATE SET college_name = excluded.college_name;";

pub const COLLEGE_LOOKUP: &'static str = "SELECT college_id FROM colleges WHERE college_number = ?1;";

pub const MAJOR_UPSERT: &'static str = "INSERT OR IGNORE INTO majors (major_name, college_id) VALUES (?1, ?2);";

pub const MAJOR_LOOKUP: &'static str = "SELECT major_id FROM majors WHERE major_name = ?1 AND college_id = ?2;";

pub const CLASS_UPSERT: &'static str = "INSERT OR IGNORE INTO classes (class_name, major_id) VALUES (?1, ?2);";

pub const CLASS_LOOKUP: &'static str = "SELECT class_id FROM classes WHERE class_name = ?1 AND major_id = ?2;";

/// A student's name follows its latest sighting; the student number is its identity.
pub const STUDENT_UPSERT: &'static str = "INSERT INTO students (student_number, name) VALUES (?1, ?2) ON CONFLICT(student_number) DO UPDATE SET name = excluded.name;";

pub const STUDENT_LOOKUP: &'static str = "SELECT student_id FROM students WHERE student_number = ?1;";

pub const RECORD_INSERT: &'static str = "INSERT INTO academic_records (gpa, term_id, class_id, student_id) VALUES (?1, ?2, ?3, ?4);";

} // verus!
