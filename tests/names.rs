use gpa_getter::names::{
    college_of, get_file_name, is_college_dir_name_text, is_data_file_name_text,
    is_gpa_marker_text, is_term_dir_name_text, parse_data_file_name, term_label_of,
};
use gpa_getter::number::is_number_cell;

#[test]
fn term_directory_names() {
    assert!(is_term_dir_name_text("2022-2023-1学期智育学分绩"));
    assert!(!is_term_dir_name_text("2022-2023-1学期"));
    assert!(!is_term_dir_name_text("2022-2023-x学期智育学分绩"));
    assert_eq!(term_label_of("2030-2031-1学期智育学分绩"), Some("2030-2031-1".to_string()));
    assert_eq!(term_label_of("test"), None);
}

#[test]
fn college_directory_names() {
    assert!(is_college_dir_name_text("01农学"));
    assert!(!is_college_dir_name_text("01"));
    assert!(!is_college_dir_name_text("test"));
    assert_eq!(college_of("21College"), Some(("21".to_string(), "College".to_string())));
}

#[test]
fn data_file_names() {
    assert!(is_data_file_name_text("b01农学1901hz.csv"));
    assert!(!is_data_file_name_text("B01农学1901hz.csv"));
    assert!(!is_data_file_name_text("b01农学190hz.csv"));
    assert_eq!(
        parse_data_file_name("a21test2021hz.csv"),
        Some(("test".to_string(), "test2021".to_string()))
    );
    assert_eq!(parse_data_file_name("a211234hz.csv"), Some((String::new(), "1234".to_string())));
}

#[test]
fn gpa_marker_cells() {
    assert!(is_gpa_marker_text("00231|0.0|2022-2023-1智育学分绩||"));
    assert!(!is_gpa_marker_text("00231|0.0|2022-2023-1智育学分绩|"));
    assert!(!is_gpa_marker_text("k101"));
}

#[test]
fn number_cells() {
    for text in ["3.5", "4.1400", "0", "-1.", ".5", "1e3", "+2E-1", "inf", "NaN", "Infinity"] {
        assert!(is_number_cell(text), "{}", text);
        assert!(text.parse::<f64>().is_ok(), "{}", text);
    }
    for text in ["", ".", "e1", "1e", "3.5.1", " 3.5", "abc", "1,5", "infinit"] {
        assert!(!is_number_cell(text), "{}", text);
        assert!(text.parse::<f64>().is_err(), "{}", text);
    }
}

#[test]
fn file_names_of_paths() {
    assert_eq!(get_file_name("/a/b/c.csv").unwrap(), "c.csv");
    assert_eq!(get_file_name("/a/b/").unwrap(), "b");
    assert_eq!(get_file_name("c").unwrap(), "c");
    assert!(get_file_name("/").is_err());
    assert!(get_file_name("").is_err());
    assert!(get_file_name("a/..").is_err());
    assert_eq!(get_file_name("foo.txt/.").unwrap(), "foo.txt");
    assert_eq!(get_file_name("/a/b/././/").unwrap(), "b");
    assert_eq!(get_file_name("./c.csv").unwrap(), "c.csv");
    assert_eq!(get_file_name("a/.b").unwrap(), ".b");
    assert!(get_file_name(".").is_err());
    assert!(get_file_name("/.").is_err());
    assert!(get_file_name("..").is_err());
}
