use remote::db::electric_role_password_statement;
use remote::db::projects::{JsonKind, ProjectRepository, StoredMetadata};
use remote::db::types::{TaskPriority, WorkspacePrStatus};

#[test]
fn empty_password_sets_nothing() {
    assert_eq!(electric_role_password_statement(""), None);
}

#[test]
fn password_is_quoted_as_a_literal() {
    assert_eq!(
        electric_role_password_statement("secret").as_deref(),
        Some("ALTER ROLE electric_sync WITH PASSWORD 'secret'")
    );
}

#[test]
fn quotes_in_the_password_are_doubled() {
    assert_eq!(
        electric_role_password_statement("it's").as_deref(),
        Some("ALTER ROLE electric_sync WITH PASSWORD 'it''s'")
    );
    assert_eq!(
        electric_role_password_statement("'; DROP ROLE x; --").as_deref(),
        Some("ALTER ROLE electric_sync WITH PASSWORD '''; DROP ROLE x; --'")
    );
    assert_eq!(
        electric_role_password_statement("''").as_deref(),
        Some("ALTER ROLE electric_sync WITH PASSWORD ''''''")
    );
}

#[test]
fn non_ascii_password_is_kept() {
    assert_eq!(
        electric_role_password_statement("pässwörd’").as_deref(),
        Some("ALTER ROLE electric_sync WITH PASSWORD 'pässwörd’'")
    );
}

#[test]
fn statement_matches_str_replace() {
    for p in ["a", "a'b'c", "'", "x''y", "\u{1F600}'"] {
        let expected = format!(
            "ALTER ROLE electric_sync WITH PASSWORD '{}'",
            p.replace('\'', "''")
        );
        assert_eq!(electric_role_password_statement(p), Some(expected));
    }
}

#[test]
fn null_metadata_becomes_an_empty_object() {
    assert_eq!(
        ProjectRepository::metadata_to_store(JsonKind::Null),
        Some(StoredMetadata::EmptyObject)
    );
}

#[test]
fn object_metadata_is_kept() {
    assert_eq!(
        ProjectRepository::metadata_to_store(JsonKind::Object),
        Some(StoredMetadata::AsGiven)
    );
}

#[test]
fn other_metadata_is_invalid() {
    for kind in [
        JsonKind::Bool,
        JsonKind::Number,
        JsonKind::String,
        JsonKind::Array,
    ] {
        assert_eq!(ProjectRepository::metadata_to_store(kind), None);
    }
}

#[test]
fn column_enums_compare_by_variant() {
    assert_eq!(TaskPriority::Urgent, TaskPriority::Urgent);
    assert_ne!(TaskPriority::High, TaskPriority::Low);
    assert_ne!(TaskPriority::Medium, TaskPriority::Low);
    assert_eq!(WorkspacePrStatus::Merged, WorkspacePrStatus::Merged);
    assert_ne!(WorkspacePrStatus::Open, WorkspacePrStatus::Closed);
}

#[test]
fn non_ascii_passwords_are_kept_whole() {
    assert_eq!(
        electric_role_password_statement("pä'sswörd✓").as_deref(),
        Some("ALTER ROLE electric_sync WITH PASSWORD 'pä''sswörd✓'")
    );
}
