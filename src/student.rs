//! Plain records of students and of where a record belongs.
use std::sync::Arc;
use vstd::prelude::*;

verus! {

#[derive(Clone, Debug)]
pub struct Student {
    /// Student number.
    pub id: String,
    /// Student name.
    pub name: String,
}

impl Student {
    pub fn new(id: String, name: String) -> (r: Self)
        ensures
            r.id == id,
            r.name == name,
    {
        Self { id, name }
    }
}

/// The term, college, class and major that a table belongs to.
#[derive(Clone)]
pub struct AcademicInfo {
    pub term: Arc<String>,
    pub college: Arc<String>,
    pub class: Arc<String>,
    pub major: Arc<String>,
}

impl AcademicInfo {
    pub fn new(term: Arc<String>, college: Arc<String>, class: Arc<String>, major: Arc<String>) -> (r: Self)
        ensures
            r.term == term,
            r.college == college,
            r.class == class,
            r.major == major,
    {
        Self { term, college, class, major }
    }
}

/// The ids of a record's term, college, major and class.
#[derive(Clone, Debug)]
pub struct AcademicRecordId {
    pub term_id: i32,
    pub college_id: i32,
    pub major_id: i32,
    pub class_id: i32,
}

} // verus!
