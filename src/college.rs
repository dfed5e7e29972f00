//! One unit of ingestion work: the tables of one college directory in one term.
use crate::error::CustomError;
use crate::layout::parent_of;
use crate::names::{
    chars_of, college_of, component_bounds, get_file_name, has_file_name, is_college_dir_name,
    is_term_dir_name, last_component, term_label_of,
};
use crate::table::{build_error, built_table, CsvTable, CsvTableBuilder, TableModel};
use vstd::prelude::*;

verus! {

/// The tables of one college directory in one term.
#[derive(Clone, Debug)]
pub struct CollegeData {
    /// The term label, such as `2022-2023-1`.
    pub term_name: String,
    /// The college name, without its number.
    pub college_name: String,
    /// The two-digit college number.
    pub college_number: String,
    pub data: Vec<CsvTable>,
}

/// A data file as read from disk.
#[derive(Clone, Debug)]
pub struct DataFile {
    pub path: String,
    pub contents: Vec<u8>,
}

pub open spec fn tables_model(v: Seq<CsvTable>) -> Seq<TableModel> {
    v.map_values(|t: CsvTable| t.model())
}

/// The term label and college name that a college directory's path gives:
/// the directory's name without its two-digit number, and the first eleven
/// characters of the term directory that holds it.
pub open spec fn term_and_college(college_path: Seq<char>) -> Option<(Seq<char>, Seq<char>)> {
    let college = last_component(college_path);
    let term_path = parent_of(college_path);
    let term = last_component(term_path);
    if has_file_name(college_path) && has_file_name(term_path) && is_term_dir_name(term) {
        Some(
            (
                term.subrange(0, 11),
                if college.len() >= 2 {
                    college.subrange(2, college.len() as int)
                } else {
                    seq![]
                },
            ),
        )
    } else {
        None
    }
}

/// The error that a college directory path outside a term directory gives:
/// a path naming no directory, a parent naming none, or a parent that is no
/// term directory, which the error names.
pub open spec fn term_and_college_error(college_path: Seq<char>, e: CustomError) -> bool {
    let term_path = parent_of(college_path);
    if !has_file_name(college_path) {
        e matches CustomError::IllegalFileError(p) && p@ == college_path
    } else if !has_file_name(term_path) {
        e matches CustomError::IllegalFileError(p) && p@ == term_path
    } else {
        e matches CustomError::UnexpectedFileError(f) && f@ == last_component(term_path)
    }
}

/// The term label and college name of the college directory at `college_path`.
pub fn parse_term_and_college_info(college_path: &str) -> (r: Result<(String, String), CustomError>)
    ensures
        match term_and_college(college_path@) {
            Some((term, college)) => (r matches Ok((t, c)) && t@ == term && c@ == college),
            None => (r matches Err(e) && term_and_college_error(college_path@, e)),
        },
{
    let college_dir = get_file_name(college_path)?;
    let n = college_dir.as_str().unicode_len();
    let college_name = if n >= 2 {
        String::from_str(college_dir.as_str().substring_char(2, n))
    } else {
        String::new()
    };
    let cs = chars_of(college_path);
    let (a, _b) = component_bounds(&cs);
    let term_path = college_path.substring_char(0, a);
    let term_dir = get_file_name(term_path)?;
    let term = match term_label_of(term_dir.as_str()) {
        Some(label) => label,
        None => {
            return Err(CustomError::UnexpectedFileError(term_dir));
        },
    };
    proof {
        assert(term_path@ == parent_of(college_path@));
        if n < 2 {
            assert(college_name@ =~= seq![]);
        }
    }
    Ok((term, college_name))
}

/// The unit of work of one college directory: its term and college, and the
/// table of each of its data files, in order.
pub open spec fn college_data_of(college_path: Seq<char>, files: Seq<DataFile>) -> Option<
    (Seq<char>, Seq<char>, Seq<char>, Seq<TableModel>),
> {
    match term_and_college(college_path) {
        Some((term, college)) => if is_college_dir_name(last_component(college_path))
            && forall|i: int| 0 <= i < files.len() ==> (#[trigger] built_table(files[i].path@, files[i].contents@)) is Some {
            Some(
                (
                    term,
                    last_component(college_path).subrange(0, 2),
                    college,
                    files.map_values(|f: DataFile| built_table(f.path@, f.contents@)->0),
                ),
            )
        } else {
            None
        },
        None => None,
    }
}

/// The error of a college unit that fails: that of its path, that of a
/// directory name without a college number, or that of its first failing file.
pub open spec fn college_data_error(college_path: Seq<char>, files: Seq<DataFile>, e: CustomError) -> bool {
    if term_and_college(college_path) is None {
        term_and_college_error(college_path, e)
    } else if !is_college_dir_name(last_component(college_path)) {
        e matches CustomError::UnexpectedFileError(f) && f@ == last_component(college_path)
    } else {
        exists|k: int|
            0 <= k < files.len() && (#[trigger] built_table(files[k].path@, files[k].contents@)) is None
                && (forall|j: int| 0 <= j < k ==> (#[trigger] built_table(files[j].path@, files[j].contents@)) is Some)
                && build_error(files[k].path@, files[k].contents@, e)
    }
}

impl CollegeData {
    pub open spec fn model(&self) -> (Seq<char>, Seq<char>, Seq<char>, Seq<TableModel>) {
        (self.term_name@, self.college_number@, self.college_name@, tables_model(self.data@))
    }
}

/// Parses every data file of one college directory; the first failure ends the unit.
pub fn build_college_data(college_path: &str, files: &Vec<DataFile>) -> (r: Result<
    CollegeData,
    CustomError,
>)
    ensures
        match college_data_of(college_path@, files@) {
            Some(m) => (r matches Ok(d) && d.model() == m),
            None => (r matches Err(e) && college_data_error(college_path@, files@, e)),
        },
{
    let (term_name, college_name) = parse_term_and_college_info(college_path)?;
    let college_dir = get_file_name(college_path)?;
    let college_number = match college_of(college_dir.as_str()) {
        Some((number, _name)) => number,
        None => {
            return Err(CustomError::UnexpectedFileError(college_dir));
        },
    };
    let ghost f = |f: DataFile| built_table(f.path@, f.contents@)->0;
    let mut data: Vec<CsvTable> = Vec::new();
    let mut i: usize = 0;
    while i < files.len()
        invariant
            i <= files@.len(),
            term_and_college(college_path@) is Some,
            is_college_dir_name(last_component(college_path@)),
            f == (|f: DataFile| built_table(f.path@, f.contents@)->0),
            forall|j: int| 0 <= j < i ==> (#[trigger] built_table(files@[j].path@, files@[j].contents@)) is Some,
            tables_model(data@) == files@.subrange(0, i as int).map_values(f),
        decreases files@.len() - i,
    {
        let file = &files[i];
        let builder = CsvTableBuilder::new(file.path.as_str());
        let table = match builder.build(file.contents.as_slice()) {
            Ok(t) => t,
            Err(e) => {
                assert(built_table(files@[i as int].path@, files@[i as int].contents@) is None);
                assert(build_error(files@[i as int].path@, files@[i as int].contents@, e));
                assert(college_data_error(college_path@, files@, e));
                return Err(e);
            },
        };
        assert(table.model() == f(files@[i as int]));
        let ghost before = data@;
        data.push(table);
        proof {
            let prev = files@.subrange(0, i as int);
            let next = files@.subrange(0, i + 1);
            assert(next =~= prev.push(files@[i as int]));
            assert(tables_model(data@) =~= tables_model(before).push(table.model()));
            assert(next.map_values(f) =~= prev.map_values(f).push(f(files@[i as int])));
        }
        i = i + 1;
    }
    proof {
        assert(files@.subrange(0, i as int) =~= files@);
    }
    Ok(CollegeData { term_name, college_name, college_number, data })
}

} // verus!
