use leadflow::logging::{
    default_command_tag, ensure_tagged_error, has_leading_tag, should_redact_log_key,
    summarize_payload, truncate_log_value,
};
use leadflow::tags::{tagged_error, ErrorTag};

#[test]
fn tags_render_as_bracketed_prefixes() {
    assert_eq!(ErrorTag::RestoreInvalidSqlite.as_str(), "RESTORE_INVALID_SQLITE");
    assert_eq!(ErrorTag::ImportEmptyCsv.as_str(), "IMPORT_EMPTY_CSV");
    assert_eq!(
        tagged_error(ErrorTag::RestoreCopyFailed, "algo falhou"),
        "[RESTORE_COPY_FAILED] algo falhou"
    );
}

#[test]
fn leading_tags_are_recognized() {
    assert!(has_leading_tag("[RESTORE_COPY_FAILED] x"));
    assert!(has_leading_tag("[CMD_9_OK] y"));
    assert!(!has_leading_tag("RESTORE_COPY_FAILED x"));
    assert!(!has_leading_tag("[] x"));
    assert!(!has_leading_tag("[x] y"));
    assert!(!has_leading_tag("[ABC]x"));
    assert!(!has_leading_tag(""));
}

#[test]
fn default_tags_are_synthesized_from_the_command() {
    assert_eq!(default_command_tag("backup_database"), "CMD_BACKUP_DATABASE_FAILED");
    assert_eq!(default_command_tag("import-csv"), "CMD_IMPORT_CSV_FAILED");
    assert_eq!(
        ensure_tagged_error("backup_database", "boom".to_string()),
        "[CMD_BACKUP_DATABASE_FAILED] boom"
    );
    assert_eq!(
        ensure_tagged_error("backup_database", "[RESTORE_COPY_FAILED] boom".to_string()),
        "[RESTORE_COPY_FAILED] boom"
    );
}

#[test]
fn long_log_values_are_truncated() {
    let short = "x".repeat(120);
    assert_eq!(truncate_log_value(&short), short);
    let long = "y".repeat(121);
    let t = truncate_log_value(&long);
    assert_eq!(t.chars().count(), 121);
    assert!(t.starts_with(&"y".repeat(120)));
    assert!(t.ends_with('…'));
    assert_eq!(summarize_payload("abc"), "abc");
}

#[test]
fn sensitive_keys_are_redacted() {
    assert!(should_redact_log_key("email"));
    assert!(should_redact_log_key("EMAIL"));
    assert!(should_redact_log_key("Csv_Content"));
    assert!(should_redact_log_key("backup_path"));
    assert!(!should_redact_log_key("status"));
    assert!(!should_redact_log_key("rating"));
}
