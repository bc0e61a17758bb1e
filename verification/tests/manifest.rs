use xtask::error::XtaskError;
use xtask::manifest::CargoToml;

fn manifest(contents: &str) -> CargoToml {
    CargoToml::new("/work/xtask/Cargo.toml".to_string(), contents.to_string())
}

#[test]
fn version_reads_quoted_value() {
    let m = manifest("[package]\nname = \"xtask\"\nversion = \"0.1.0\"\nedition = \"2021\"\n");
    assert!(m.can_get("version"));
    assert_eq!(m.version().ok(), Some("0.1.0"));
}

#[test]
fn get_reads_other_fields() {
    let m = manifest("[package]\nname = \"xtask\"\nversion = \"0.1.0\"\n");
    assert_eq!(m.get("name").ok(), Some("xtask"));
}

#[test]
fn first_matching_line_wins() {
    let m = manifest("version = \"1.0.0\"\n[dependencies]\nversion = \"2.0.0\"\n");
    assert_eq!(m.version().ok(), Some("1.0.0"));
}

#[test]
fn missing_field_names_field_and_path() {
    let m = manifest("[package]\nname = \"xtask\"\n");
    assert!(m.can_get("version"));
    match m.version() {
        Err(e) => {
            assert_eq!(e.message(), "can't find `version` in /work/xtask/Cargo.toml");
            match e {
                XtaskError::FieldNotFound { field, path } => {
                    assert_eq!(field, "version");
                    assert_eq!(path, "/work/xtask/Cargo.toml");
                }
                _ => panic!("unexpected error"),
            }
        }
        Ok(v) => panic!("unexpected value {v}"),
    }
}

#[test]
fn pattern_needs_spaced_equals_sign() {
    let m = manifest("version=\"0.1.0\"\nversion =\"0.2.0\"\n");
    assert!(m.version().is_err());
}

#[test]
fn extra_words_after_value_are_ignored() {
    let m = manifest("version = \"0.3.0\" # the release\n");
    assert_eq!(m.version().ok(), Some("0.3.0"));
}

#[test]
fn indented_and_tabbed_lines_match() {
    let m = manifest("  \tversion\t=   \"0.4.0\"\r\n");
    assert_eq!(m.version().ok(), Some("0.4.0"));
}

#[test]
fn name_is_trimmed_of_unicode_whitespace() {
    let m = manifest("\u{a0}version\u{3000} = \"0.5.0\"\n");
    assert_eq!(m.version().ok(), Some("0.5.0"));
}

#[test]
fn prefix_of_field_does_not_match() {
    let m = manifest("versions = \"9\"\nrust-version = \"1.80\"\n");
    assert!(m.version().is_err());
}

#[test]
fn value_keeps_inner_text_exactly() {
    let m = manifest("description = \"a\"b\"\n");
    assert_eq!(m.get("description").ok(), Some("a\"b"));
}

#[test]
fn empty_quoted_value() {
    let m = manifest("version = \"\"\n");
    assert_eq!(m.version().ok(), Some(""));
}

#[test]
fn unquoted_value_cannot_be_read() {
    assert!(!manifest("version = 1\n").can_get("version"));
    assert!(!manifest("version = \"\n").can_get("version"));
    assert!(!manifest("version = \"1\n").can_get("version"));
    assert!(manifest("version = 1\nversion = \"2\"\n").can_get("name"));
}

#[test]
fn non_ascii_values_are_sliced_by_characters() {
    let m = manifest("authors = \"時雨堂\"\n");
    assert_eq!(m.get("authors").ok(), Some("時雨堂"));
}

#[test]
fn invalid_arguments_message() {
    assert_eq!(XtaskError::InvalidArguments.message(), "invalid arguments");
}
