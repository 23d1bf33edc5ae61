use std::io::Write;

use achievement_parser::parser::{collect_achievements, parse_file, parse_ini};

/// Writes `contents` to a fresh temporary file whose name ends in `suffix`
/// and returns the handle; the file lives until the handle is dropped.
fn write_temp(suffix: &str, contents: &str) -> tempfile::NamedTempFile {
    let mut file = tempfile::Builder::new()
        .prefix("achievements")
        .suffix(suffix)
        .tempfile()
        .unwrap();
    file.write_all(contents.as_bytes()).unwrap();
    file.flush().unwrap();
    file
}

const WELL_FORMED: &str = "\
global_key=1

[steamachievements]
Count=2

[ACH_ONE]
Name=one

[ACH_TWO]
Name=two
";

#[test]
fn ini_sections_filtered_in_order() {
    let file = write_temp(".ini", WELL_FORMED);
    let result = parse_file(file.path().to_str().unwrap());
    assert_eq!(
        result,
        Ok(vec!["ACH_ONE".to_string(), "ACH_TWO".to_string()])
    );
}

#[test]
fn reserved_and_default_only_gives_empty_list() {
    let contents = "\
global_key=1

[steamachievements]
Count=0
";
    let file = write_temp(".ini", contents);
    let result = parse_file(file.path().to_str().unwrap());
    assert_eq!(result, Ok(vec![]));
}

#[test]
fn json_extension_is_not_implemented() {
    let result = parse_file("achievements.json");
    assert_eq!(result, Err("JSON parsing not implemented yet".to_string()));
}

#[test]
fn json_extension_fails_even_for_existing_file() {
    let file = write_temp(".json", "{}");
    let result = parse_file(file.path().to_str().unwrap());
    assert_eq!(result, Err("JSON parsing not implemented yet".to_string()));
}

#[test]
fn unrecognized_extension_is_unsupported() {
    let result = parse_file("data.txt");
    assert_eq!(result, Err("Unsupported file format".to_string()));
}

#[test]
fn missing_extension_is_unsupported() {
    let result = parse_file("datafile");
    assert_eq!(result, Err("Unsupported file format".to_string()));
}

#[test]
fn trailing_dot_is_unsupported() {
    let result = parse_file("datafile.");
    assert_eq!(result, Err("Unsupported file format".to_string()));
}

#[test]
fn extension_match_is_case_sensitive() {
    let result = parse_file("DATA.INI");
    assert_eq!(result, Err("Unsupported file format".to_string()));
}

#[test]
fn missing_ini_file_reports_load_failure() {
    let dir = tempfile::tempdir().unwrap();
    let path = dir.path().join("absent.ini");
    let result = parse_file(path.to_str().unwrap());
    let message = result.unwrap_err();
    let prefix = "Failed to load INI file: ";
    assert!(message.starts_with(prefix));
    assert!(message.len() > prefix.len());
}

#[test]
fn malformed_ini_reports_load_failure() {
    let file = write_temp(".ini", "bad=\\x\n");
    let result = parse_file(file.path().to_str().unwrap());
    let message = result.unwrap_err();
    assert!(message.starts_with("Failed to load INI file: "));
}

#[test]
fn parse_file_is_idempotent_on_unchanged_file() {
    let file = write_temp(".ini", WELL_FORMED);
    let path = file.path().to_str().unwrap().to_string();
    let first = parse_file(&path);
    let second = parse_file(&path);
    assert_eq!(first, second);
}

#[test]
fn parse_file_is_idempotent_on_missing_file() {
    let dir = tempfile::tempdir().unwrap();
    let path = dir.path().join("absent.ini");
    let first = parse_file(path.to_str().unwrap());
    let second = parse_file(path.to_str().unwrap());
    assert_eq!(first, second);
}

#[test]
fn parse_ini_directly_filters_sections() {
    let file = write_temp(".ini", WELL_FORMED);
    let result = parse_ini(file.path().to_str().unwrap());
    assert_eq!(
        result,
        Ok(vec!["ACH_ONE".to_string(), "ACH_TWO".to_string()])
    );
}

#[test]
fn parse_ini_missing_file_reports_load_failure() {
    let dir = tempfile::tempdir().unwrap();
    let path = dir.path().join("absent.ini");
    let result = parse_ini(path.to_str().unwrap());
    assert!(result.unwrap_err().starts_with("Failed to load INI file: "));
}

#[test]
fn collect_achievements_filters_and_keeps_order() {
    let sections = vec![
        None,
        Some("steamachievements".to_string()),
        Some("ACH_ONE".to_string()),
        Some(String::new()),
        Some("ACH_TWO".to_string()),
    ];
    let names = collect_achievements(&sections);
    assert_eq!(names, vec!["ACH_ONE".to_string(), "ACH_TWO".to_string()]);
}

#[test]
fn collect_achievements_of_nothing_is_empty() {
    let names = collect_achievements(&vec![]);
    assert_eq!(names, Vec::<String>::new());
}
