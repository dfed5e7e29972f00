use gpa_getter::error::CustomError;
use gpa_getter::table::{check_gpa_column, decode_csv_rows, CsvTableBuilder};

fn strings(cells: &[&str]) -> Vec<String> {
    cells.iter().map(|c| c.to_string()).collect()
}

fn gpa_value(g: &Option<String>) -> Option<f64> {
    g.as_ref().map(|text| text.parse::<f64>().unwrap())
}

#[test]
fn test_extract_major_and_class_info_valid() {
    let path = "/tmp/work/a22major2012hz.csv";
    let builder = CsvTableBuilder::new(path);
    let (major, class) = builder.extract_major_and_class_info().unwrap();
    assert_eq!(major, "major");
    assert_eq!(class, "major2012");
}

#[test]
fn test_extract_major_and_class_info_invalid() {
    let path = "/tmp/work/invalid_filename.csv";
    let builder = CsvTableBuilder::new(path);
    let result = builder.extract_major_and_class_info();
    assert!(result.is_err());
}

#[test]
fn unexpected_file_name_is_named_in_the_error() {
    let builder = CsvTableBuilder::new("/data/term/01x/notes.txt");
    match builder.extract_major_and_class_info() {
        Err(CustomError::UnexpectedFileError(name)) => assert_eq!(name, "notes.txt"),
        other => panic!("unexpected result: {:?}", other),
    }
}

#[test]
fn path_without_file_name_is_illegal() {
    let builder = CsvTableBuilder::new("/data/..");
    match builder.extract_major_and_class_info() {
        Err(CustomError::IllegalFileError(path)) => assert_eq!(path, "/data/.."),
        other => panic!("unexpected result: {:?}", other),
    }
}

#[test]
fn test_build_csv_records_with_gpa() {
    let contents = "xh,xm,k101\n,,00231|0.0|2022-2023-1智育学分绩||\n12345,John Doe,3.5\n";
    let builder = CsvTableBuilder::new("test_with_gpa.csv");
    let records = builder.build_csv_records(contents.as_bytes()).unwrap();
    assert_eq!(records.len(), 1);
    assert_eq!(records[0].sid, "12345");
    assert_eq!(records[0].name, "John Doe");
    assert_eq!(gpa_value(&records[0].gpa), Some(3.5));
}

#[test]
fn test_build_csv_records_without_gpa() {
    let contents = "xh,xm,k101\n,,00231|0.0|2022-2023-1智育学分绩||\n12345,John Doe,\n";
    let builder = CsvTableBuilder::new("test_without_gpa.csv");
    let records = builder.build_csv_records(contents.as_bytes()).unwrap();
    assert_eq!(records.len(), 1);
    assert_eq!(records[0].sid, "12345");
    assert_eq!(records[0].name, "John Doe");
    assert_eq!(records[0].gpa, None);
}

#[test]
fn test_check_gpa_column_valid() {
    let record = strings(&["xh", "xm", "00101|3.5|2022-2023-1智育学分绩||"]);
    assert!(check_gpa_column(&record));
}

#[test]
fn test_check_gpa_column_invalid() {
    let record = strings(&["xh", "xm", "invalid_column"]);
    assert!(!check_gpa_column(&record));
}

#[test]
fn test_check_gpa_column_missing() {
    let record = strings(&["xh", "xm"]);
    assert!(!check_gpa_column(&record));
}

#[test]
fn test_build_csv_records_csv_parse_error() {
    let builder = CsvTableBuilder::new("test_invalid_csv.csv");
    let result = builder.build_csv_records("invalid_csv_content\n".as_bytes());
    assert!(matches!(result, Err(CustomError::CsvDataError(_))));
}

#[test]
fn empty_file_is_a_data_error_naming_the_file() {
    let builder = CsvTableBuilder::new("/d/a01x1901hz.csv");
    match builder.build_csv_records(b"") {
        Err(CustomError::CsvDataError(path)) => assert_eq!(path, "/d/a01x1901hz.csv"),
        other => panic!("unexpected result: {:?}", other),
    }
}

#[test]
fn unequal_rows_are_a_csv_error() {
    let builder = CsvTableBuilder::new("x.csv");
    let contents = "xh,xm,k101\n1,2,3\n4,5\n";
    match builder.build_csv_records(contents.as_bytes()) {
        Err(CustomError::CsvParseError(path, _)) => assert_eq!(path, "x.csv"),
        other => panic!("unexpected result: {:?}", other),
    }
}

#[test]
fn blank_and_non_numeric_gpa_cells_decode_to_null() {
    let rows = vec![
        strings(&["xh", "xm", "k101"]),
        strings(&["", "", "00231|0.0|2022-2023-1智育学分绩||"]),
        strings(&["1", "A", ""]),
        strings(&["2", "B", "n/a"]),
        strings(&["3", "C", "4.1400"]),
        strings(&["4", "D", "0"]),
    ];
    let records = decode_csv_rows("t.csv", &rows).unwrap();
    assert_eq!(records.len(), 4);
    assert_eq!(records[0].gpa, None);
    assert_eq!(records[1].gpa, None);
    assert_eq!(gpa_value(&records[2].gpa), Some(4.14));
    assert_eq!(gpa_value(&records[3].gpa), Some(0.0));
}

#[test]
fn without_marker_every_gpa_is_null() {
    let rows = vec![
        strings(&["xh", "xm", "k101"]),
        strings(&["A01190013", "赵瑞轩", "3.9"]),
        strings(&["A01190014", "钱", "4.2"]),
    ];
    let records = decode_csv_rows("t.csv", &rows).unwrap();
    assert_eq!(records.len(), 1);
    assert_eq!(records[0].sid, "A01190014");
    assert_eq!(records[0].gpa, None);
}

#[test]
fn without_marker_two_columns_suffice() {
    let rows = vec![strings(&["xh", "xm"]), strings(&["", ""]), strings(&["7", "G"])];
    let records = decode_csv_rows("t.csv", &rows).unwrap();
    assert_eq!(records.len(), 1);
    assert_eq!(records[0].name, "G");
}

#[test]
fn short_row_is_a_data_error() {
    let rows = vec![strings(&["xh"]), strings(&[""]), strings(&["7"])];
    match decode_csv_rows("short.csv", &rows) {
        Err(CustomError::CsvDataError(path)) => assert_eq!(path, "short.csv"),
        other => panic!("unexpected result: {:?}", other),
    }
}

#[test]
fn build_reads_names_then_rows() {
    let contents = "xh,xm,k101\n,,00101|3.5|2022-2023-1智育学分绩||\nA1,Li,3.25\n";
    let builder = CsvTableBuilder::new("/data/t/01农学/b01农学1901hz.csv");
    let table = builder.build(contents.as_bytes()).unwrap();
    assert_eq!(table.major_name, "农学");
    assert_eq!(table.class_name, "农学1901");
    assert_eq!(table.records.len(), 1);
    assert_eq!(gpa_value(&table.records[0].gpa), Some(3.25));
}

#[test]
fn build_reports_a_bad_file_name_before_reading() {
    let builder = CsvTableBuilder::new("/data/t/01农学/notes.csv");
    match builder.build(b"") {
        Err(CustomError::UnexpectedFileError(name)) => assert_eq!(name, "notes.csv"),
        other => panic!("unexpected result: {:?}", other),
    }
}
