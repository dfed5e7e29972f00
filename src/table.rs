//! One data file: its major and class from the file name, its rows from the CSV text.
use crate::error::CustomError;
use crate::names::{
    data_file_class, data_file_major, get_file_name, has_file_name, is_data_file_name,
    is_gpa_marker, is_gpa_marker_text, last_component, parse_data_file_name,
};
use crate::names::is_digit;
use crate::number::{is_decimal, is_exp_mark, is_exponent, is_mantissa, is_number_cell, is_number_text};
use vstd::prelude::*;

verus! {

/// The rows of a CSV text, header row included, each as its fields;
/// `None` where the text is no valid CSV.
pub uninterp spec fn csv_records_of(data: Seq<u8>) -> Option<Seq<Seq<Seq<char>>>>;

/// Relies on csv::Reader with its default settings, the header row read as a
/// record: the UTF-8 fields of every record of `data`, or the first error met.
#[verifier::external_body]
fn read_csv_records(data: &[u8]) -> (r: Result<Vec<Vec<String>>, csv::Error>)
    ensures
        match r {
            Ok(rows) => csv_records_of(data@) == Some(rows.deep_view()),
            Err(_) => csv_records_of(data@) is None,
        },
{
    let mut reader = csv::ReaderBuilder::new().has_headers(false).from_reader(data);
    let mut rows = Vec::new();
    for record in reader.records() {
        rows.push(record?.iter().map(|field| field.to_string()).collect());
    }
    Ok(rows)
}

/// One student row of a table.
#[derive(Clone, Debug)]
pub struct RowRecord {
    /// Student number.
    pub sid: String,
    /// Student name.
    pub name: String,
    /// The GPA cell's text where it holds a number.
    pub gpa: Option<String>,
}

pub type CsvRecords = Vec<RowRecord>;

/// A row as plain sequences: student number, name, GPA text.
pub type RowModel = (Seq<char>, Seq<char>, Option<Seq<char>>);

impl RowRecord {
    pub open spec fn model(&self) -> RowModel {
        (
            self.sid@,
            self.name@,
            match self.gpa {
                Some(g) => Some(g@),
                None => None,
            },
        )
    }
}

pub open spec fn records_model(v: Seq<RowRecord>) -> Seq<RowModel> {
    v.map_values(|r: RowRecord| r.model())
}

/// One parsed data file.
#[derive(Clone, Debug)]
pub struct CsvTable {
    pub records: CsvRecords,
    pub major_name: String,
    pub class_name: String,
}

/// The two column layouts of a table.
#[derive(Clone, Copy, Debug, PartialEq, Eq, Structural)]
pub enum TableSchema {
    /// The third column holds the GPA.
    WithGpa,
    /// Only student number and name are usable.
    WithoutGpa,
}

/// The layout that the first data row announces.
pub open spec fn schema_of(first_row: Seq<Seq<char>>) -> TableSchema {
    if first_row.len() >= 3 && is_gpa_marker(first_row[2]) {
        TableSchema::WithGpa
    } else {
        TableSchema::WithoutGpa
    }
}

pub open spec fn min_columns(schema: TableSchema) -> nat {
    match schema {
        TableSchema::WithGpa => 3,
        TableSchema::WithoutGpa => 2,
    }
}

/// A GPA cell holds a value only where it is the text of a number.
pub open spec fn decode_gpa(cell: Seq<char>) -> Option<Seq<char>> {
    if is_number_text(cell) {
        Some(cell)
    } else {
        None
    }
}

pub open spec fn decode_row(row: Seq<Seq<char>>, schema: TableSchema) -> RowModel {
    (
        row[0],
        row[1],
        match schema {
            TableSchema::WithGpa => decode_gpa(row[2]),
            TableSchema::WithoutGpa => None,
        },
    )
}

/// The student rows of a table: row 0 is the header and row 1 the marker row,
/// which chooses the layout; every later row is a student. `None` where the
/// table has no marker row or a student row is too short for its layout.
pub open spec fn table_records(rows: Seq<Seq<Seq<char>>>) -> Option<Seq<RowModel>> {
    if rows.len() < 2 {
        None
    } else {
        let schema = schema_of(rows[1]);
        let data = rows.subrange(2, rows.len() as int);
        if forall|i: int| 0 <= i < data.len() ==> #[trigger] data[i].len() >= min_columns(schema) {
            Some(data.map_values(|row: Seq<Seq<char>>| decode_row(row, schema)))
        } else {
            None
        }
    }
}

/// In a table whose marker row carries the GPA marker, a student row with a
/// blank GPA cell decodes to a row without a GPA, and is still a row.
pub proof fn lemma_blank_gpa_is_null(rows: Seq<Seq<Seq<char>>>, i: int)
    requires
        2 <= i < rows.len(),
        schema_of(rows[1]) == TableSchema::WithGpa,
        table_records(rows) is Some,
        rows[i].len() >= 3,
        rows[i][2].len() == 0,
    ensures
        table_records(rows)->0.len() == rows.len() - 2,
        table_records(rows)->0[i - 2] == (rows[i][0], rows[i][1], None::<Seq<char>>),
{
    let data = rows.subrange(2, rows.len() as int);
    assert(data[i - 2] == rows[i]);
    let m = rows[i][2];
    if is_decimal(m) {
        let k = choose|k: int|
            0 <= k <= m.len() && #[trigger] is_mantissa(m.subrange(0, k)) && (k == m.len() || (
            is_exp_mark(m[k]) && is_exponent(m.subrange(k + 1, m.len() as int))));
        let w = choose|w: int| 0 <= w < m.subrange(0, k).len() && is_digit(#[trigger] m.subrange(0, k)[w]);
    }
}

/// In a table whose marker row carries the GPA marker, there is one row per
/// student row, holding its student number, its name, and its GPA cell's text
/// where that text is a number (none otherwise).
pub proof fn lemma_gpa_table_rows(rows: Seq<Seq<Seq<char>>>)
    requires
        rows.len() >= 2,
        schema_of(rows[1]) == TableSchema::WithGpa,
        table_records(rows) is Some,
    ensures
        table_records(rows)->0.len() == rows.len() - 2,
        forall|i: int|
            2 <= i < rows.len() ==> table_records(rows)->0[i - 2] == (
                rows[i][0],
                rows[i][1],
                decode_gpa(#[trigger] rows[i][2]),
            ),
{
    let data = rows.subrange(2, rows.len() as int);
    assert forall|i: int| 2 <= i < rows.len() implies table_records(rows)->0[i - 2] == (
        rows[i][0],
        rows[i][1],
        decode_gpa(#[trigger] rows[i][2]),
    ) by {
        assert(data[i - 2] == rows[i]);
    }
}

/// In a table whose marker row lacks the GPA marker, no row has a GPA,
/// whatever its other cells hold.
pub proof fn lemma_no_marker_no_gpa(rows: Seq<Seq<Seq<char>>>)
    requires
        rows.len() >= 2,
        schema_of(rows[1]) == TableSchema::WithoutGpa,
        table_records(rows) is Some,
    ensures
        forall|i: int|
            0 <= i < table_records(rows)->0.len() ==> (#[trigger] table_records(rows)->0[i]).2 is None,
{
}

/// Whether a row's third cell is the GPA marker.
pub fn check_gpa_column(record: &Vec<String>) -> (r: bool)
    ensures
        r == (schema_of(record.deep_view()) == TableSchema::WithGpa),
{
    if record.len() < 3 {
        return false;
    }
    is_gpa_marker_text(record[2].as_str())
}

/// The value of a GPA cell.
pub fn decode_gpa_cell(cell: &String) -> (r: Option<String>)
    ensures
        match r {
            Some(g) => decode_gpa(cell@) == Some(g@),
            None => decode_gpa(cell@) is None,
        },
{
    if is_number_cell(cell.as_str()) {
        Some(cell.clone())
    } else {
        None
    }
}

/// The student rows of a table given as its CSV rows; a missing marker row or
/// a short student row is a data error naming `csv_path`.
pub fn decode_csv_rows(csv_path: &str, rows: &Vec<Vec<String>>) -> (r: Result<
    CsvRecords,
    CustomError,
>)
    ensures
        match table_records(rows.deep_view()) {
            Some(recs) => (r matches Ok(v) && records_model(v@) == recs),
            None => (r matches Err(CustomError::CsvDataError(p)) && p@ == csv_path@),
        },
{
    let ghost all = rows.deep_view();
    if rows.len() < 2 {
        return Err(CustomError::CsvDataError(String::from_str(csv_path)));
    }
    let with_gpa = check_gpa_column(&rows[1]);
    proof {
        assert(rows[1].deep_view() == all[1]);
    }
    let ghost schema = schema_of(all[1]);
    let need: usize = if with_gpa {
        3
    } else {
        2
    };
    let ghost data = all.subrange(2, all.len() as int);
    let mut records: CsvRecords = Vec::new();
    let mut i: usize = 2;
    while i < rows.len()
        invariant
            2 <= i <= rows@.len(),
            all == rows.deep_view(),
            data == all.subrange(2, all.len() as int),
            schema == schema_of(all[1]),
            with_gpa == (schema == TableSchema::WithGpa),
            need == min_columns(schema),
            forall|j: int| 0 <= j < i - 2 ==> #[trigger] data[j].len() >= min_columns(schema),
            records_model(records@) == data.subrange(0, i - 2).map_values(
                |row: Seq<Seq<char>>| decode_row(row, schema),
            ),
        decreases rows@.len() - i,
    {
        let row = &rows[i];
        proof {
            assert(row.deep_view() == data[i - 2]);
        }
        if row.len() < need {
            assert(data[i - 2].len() < min_columns(schema));
            return Err(CustomError::CsvDataError(String::from_str(csv_path)));
        }
        let gpa = if with_gpa {
            decode_gpa_cell(&row[2])
        } else {
            None
        };
        let rec = RowRecord { sid: row[0].clone(), name: row[1].clone(), gpa };
        proof {
            let d = data[i - 2];
            assert(row.deep_view()[0] == row@[0]@);
            assert(row.deep_view()[1] == row@[1]@);
            if with_gpa {
                assert(row.deep_view()[2] == row@[2]@);
            }
            assert(rec.model() == decode_row(d, schema));
        }
        let ghost before = records@;
        records.push(rec);
        proof {
            let f = |row: Seq<Seq<char>>| decode_row(row, schema);
            let prev = data.subrange(0, i - 2);
            let next = data.subrange(0, i - 1);
            assert(next =~= prev.push(data[i - 2]));
            assert(records@ == before.push(rec));
            assert(records_model(records@) =~= records_model(before).push(rec.model()));
            assert(next.map_values(f) =~= prev.map_values(f).push(f(data[i - 2])));
        }
        i = i + 1;
    }
    proof {
        assert(data.subrange(0, i - 2) =~= data);
    }
    Ok(records)
}

/// A table as plain sequences: major name, class name, student rows.
pub type TableModel = (Seq<char>, Seq<char>, Seq<RowModel>);

impl CsvTable {
    pub open spec fn model(&self) -> TableModel {
        (self.major_name@, self.class_name@, records_model(self.records@))
    }
}

/// The table that a data file at `path` holding `contents` gives, if any.
pub open spec fn built_table(path: Seq<char>, contents: Seq<u8>) -> Option<TableModel> {
    if has_file_name(path) && is_data_file_name(last_component(path)) {
        match csv_records_of(contents) {
            Some(rows) => match table_records(rows) {
                Some(recs) => Some(
                    (
                        data_file_major(last_component(path)),
                        data_file_class(last_component(path)),
                        recs,
                    ),
                ),
                None => None,
            },
            None => None,
        }
    } else {
        None
    }
}

/// The error that building the table of the file at `path` holding
/// `contents` gives: the file name is checked first, then the CSV text, then
/// the rows.
pub open spec fn build_error(path: Seq<char>, contents: Seq<u8>, e: CustomError) -> bool {
    if !has_file_name(path) {
        e matches CustomError::IllegalFileError(p) && p@ == path
    } else if !is_data_file_name(last_component(path)) {
        e matches CustomError::UnexpectedFileError(f) && f@ == last_component(path)
    } else if csv_records_of(contents) is None {
        e matches CustomError::CsvParseError(p, _) && p@ == path
    } else {
        e matches CustomError::CsvDataError(p) && p@ == path
    }
}

/// Builds the table of one data file.
pub struct CsvTableBuilder<'builder> {
    csv_path: &'builder str,
}

impl<'builder> CsvTableBuilder<'builder> {
    pub closed spec fn path(&self) -> Seq<char> {
        self.csv_path@
    }

    pub fn new(csv_path: &'builder str) -> (r: Self)
        ensures
            r.path() == csv_path@,
    {
        Self { csv_path }
    }

    /// The major and class that the file name encodes.
    pub fn extract_major_and_class_info(&self) -> (r: Result<(String, String), CustomError>)
        ensures
            !has_file_name(self.path()) ==> (r matches Err(CustomError::IllegalFileError(p))
                && p@ == self.path()),
            has_file_name(self.path()) && !is_data_file_name(last_component(self.path())) ==> (r matches Err(
                CustomError::UnexpectedFileError(f),
            ) && f@ == last_component(self.path())),
            has_file_name(self.path()) && is_data_file_name(last_component(self.path())) ==> (r matches Ok(
                (major, class),
            ) && major@ == data_file_major(last_component(self.path())) && class@
                == data_file_class(last_component(self.path()))),
    {
        let file_name = get_file_name(self.csv_path)?;
        match parse_data_file_name(file_name.as_str()) {
            Some(names) => Ok(names),
            None => Err(CustomError::UnexpectedFileError(file_name)),
        }
    }

    /// The student rows of the file whose bytes are `contents`.
    pub fn build_csv_records(&self, contents: &[u8]) -> (r: Result<CsvRecords, CustomError>)
        ensures
            match csv_records_of(contents@) {
                None => (r matches Err(CustomError::CsvParseError(p, _)) && p@ == self.path()),
                Some(rows) => match table_records(rows) {
                    Some(recs) => (r matches Ok(v) && records_model(v@) == recs),
                    None => (r matches Err(CustomError::CsvDataError(p)) && p@ == self.path()),
                },
            },
    {
        match read_csv_records(contents) {
            Ok(rows) => decode_csv_rows(self.csv_path, &rows),
            Err(e) => Err(CustomError::CsvParseError(String::from_str(self.csv_path), e)),
        }
    }

    /// The table of the file whose bytes are `contents`: the file name is
    /// checked first, then the rows are read.
    pub fn build(&self, contents: &[u8]) -> (r: Result<CsvTable, CustomError>)
        ensures
            match built_table(self.path(), contents@) {
                Some(m) => (r matches Ok(t) && t.model() == m),
                None => (r matches Err(e) && build_error(self.path(), contents@, e)),
            },
    {
        let (major_name, class_name) = self.extract_major_and_class_info()?;
        let records = self.build_csv_records(contents)?;
        Ok(CsvTable { records, major_name, class_name })
    }
}

} // verus!
