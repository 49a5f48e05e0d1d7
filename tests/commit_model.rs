use retcon::commit::{CommitId, CommitModifications, EditableField, Person, Timestamp};

fn oid(hex: &str) -> CommitId {
    let high = u128::from_str_radix(&hex[..32], 16).unwrap();
    let low = u32::from_str_radix(&hex[32..], 16).unwrap();
    CommitId::new(high, low)
}

#[test]
fn test_commit_id_display() {
    let id = oid("1234567890abcdef1234567890abcdef12345678");
    assert_eq!(id.to_string(), "1234567");
}

#[test]
fn test_commit_id_equality() {
    let a = oid("1234567890abcdef1234567890abcdef12345678");
    let b = oid("1234567890abcdef1234567890abcdef12345678");
    let c = oid("abcdef1234567890abcdef1234567890abcdef12");
    assert_eq!(a, b);
    assert_ne!(a, c);
}

#[test]
fn test_person_creation() {
    let person = Person::new("John Doe", "john@example.com");
    assert_eq!(person.name, "John Doe");
    assert_eq!(person.email, "john@example.com");
}

#[test]
fn test_person_format_full() {
    let person = Person::new("Jane Smith", "jane@example.com");
    assert_eq!(person.format_full(), "Jane Smith <jane@example.com>");
}

#[test]
fn test_person_display() {
    let person = Person::new("Bob", "bob@example.com");
    assert_eq!(person.to_string(), "Bob");
}

#[test]
fn test_person_equality() {
    let p1 = Person::new("John", "john@example.com");
    let p2 = Person::new("John", "john@example.com");
    let p3 = Person::new("Jane", "jane@example.com");
    assert_eq!(p1, p2);
    assert_ne!(p1, p3);
}

#[test]
fn test_commit_modifications_is_empty() {
    let mods = CommitModifications::default();
    assert!(mods.is_empty());
    assert!(!mods.has_modifications());
}

#[test]
fn test_commit_modifications_with_author_name() {
    let mods = CommitModifications {
        author_name: Some("New Author".to_string()),
        ..Default::default()
    };
    assert!(!mods.is_empty());
    assert!(mods.has_modifications());
    assert_eq!(mods.modification_count(), 1);
}

#[test]
fn test_commit_modifications_with_multiple_fields() {
    let mods = CommitModifications {
        author_name: Some("New Author".to_string()),
        author_email: Some("new@example.com".to_string()),
        message: Some("New message".to_string()),
        ..Default::default()
    };
    assert_eq!(mods.modification_count(), 3);
    assert!(mods.has_modifications());
}

#[test]
fn test_commit_modifications_effective_values() {
    let mods = CommitModifications {
        author_name: Some("Modified".to_string()),
        ..Default::default()
    };
    assert_eq!(mods.effective_author_name("Original"), "Modified");
    assert_eq!(mods.effective_author_email("original@test.com"), "original@test.com");
}

#[test]
fn test_commit_modifications_effective_message() {
    let mods = CommitModifications {
        message: Some("New message\nSecond line".to_string()),
        ..Default::default()
    };
    assert_eq!(mods.effective_message("Old"), "New message\nSecond line");
    assert_eq!(mods.effective_summary("Old summary"), "New message");
}

#[test]
fn test_commit_modifications_effective_summary_empty_line() {
    let mods = CommitModifications {
        message: Some("\nSecond line".to_string()),
        ..Default::default()
    };
    assert_eq!(mods.effective_summary("Old summary"), "");
}

#[test]
fn effective_summary_strips_carriage_return_and_keeps_original() {
    let mods = CommitModifications {
        message: Some("Title\r\nBody".to_string()),
        ..Default::default()
    };
    assert_eq!(mods.effective_summary("Old"), "Title");
    let none = CommitModifications::default();
    assert_eq!(none.effective_summary("Old summary"), "Old summary");
    let committer = CommitModifications {
        committer_name: Some("C".to_string()),
        committer_email: Some("c@x.org".to_string()),
        ..Default::default()
    };
    assert_eq!(committer.effective_committer_name("orig"), "C");
    assert_eq!(committer.effective_committer_email("orig@x.org"), "c@x.org");
    assert_eq!(committer.modification_count(), 2);
}

#[test]
fn test_editable_field_display_name() {
    assert_eq!(EditableField::AuthorName.display_name(), "Author Name");
    assert_eq!(EditableField::AuthorEmail.display_name(), "Author Email");
    assert_eq!(EditableField::AuthorDate.display_name(), "Author Date");
    assert_eq!(EditableField::CommitterName.display_name(), "Committer Name");
    assert_eq!(EditableField::CommitterEmail.display_name(), "Committer Email");
    assert_eq!(EditableField::CommitterDate.display_name(), "Committer Date");
    assert_eq!(EditableField::Message.display_name(), "Commit Message");
}

#[test]
fn test_editable_field_short_label() {
    assert_eq!(EditableField::AuthorName.short_label(), "Author");
    assert_eq!(EditableField::AuthorEmail.short_label(), "Email");
    assert_eq!(EditableField::CommitterEmail.short_label(), "C.Email");
}

#[test]
fn test_editable_field_navigation() {
    let field = EditableField::AuthorName;
    assert_eq!(field.next(), EditableField::AuthorEmail);
    assert_eq!(field.next().next(), EditableField::AuthorDate);
    assert_eq!(field.prev(), EditableField::Message);
}

#[test]
fn test_editable_field_navigation_wraps() {
    assert_eq!(EditableField::Message.next(), EditableField::AuthorName);
    assert_eq!(EditableField::AuthorName.prev(), EditableField::Message);
}

#[test]
fn test_editable_field_is_date() {
    assert!(EditableField::AuthorDate.is_date());
    assert!(EditableField::CommitterDate.is_date());
    assert!(!EditableField::AuthorName.is_date());
    assert!(!EditableField::Message.is_date());
}

#[test]
fn test_editable_field_is_email() {
    assert!(EditableField::AuthorEmail.is_email());
    assert!(EditableField::CommitterEmail.is_email());
    assert!(!EditableField::AuthorName.is_email());
    assert!(!EditableField::Message.is_email());
}

#[test]
fn test_editable_field_is_multiline() {
    assert!(EditableField::Message.is_multiline());
    assert!(!EditableField::AuthorName.is_multiline());
    assert!(!EditableField::AuthorDate.is_multiline());
}

#[test]
fn test_editable_field_all() {
    let all = EditableField::all();
    assert_eq!(all.len(), 7);
    assert_eq!(all[0], EditableField::AuthorName);
    assert_eq!(all[6], EditableField::Message);
}

#[test]
fn test_datetime_to_git_time() {
    let t = Timestamp { seconds: 1_705_309_245, offset_seconds: 5 * 3600 + 30 * 60 };
    assert_eq!(t.seconds, 1_705_309_245);
    assert_eq!(t.offset_minutes(), 5 * 60 + 30);
}

#[test]
fn test_datetime_to_git_time_negative_offset() {
    let t = Timestamp { seconds: 1_705_357_845, offset_seconds: -8 * 3600 };
    assert_eq!(t.offset_minutes(), -(8 * 60));
}

#[test]
fn offset_minutes_truncates_towards_zero() {
    let t = Timestamp { seconds: 0, offset_seconds: -90 };
    assert_eq!(t.offset_minutes(), -1);
    let u = Timestamp { seconds: 0, offset_seconds: 90 };
    assert_eq!(u.offset_minutes(), 1);
}

#[test]
fn test_commit_data_format_dates() {
    let dt = Timestamp { seconds: 1_705_329_000, offset_seconds: 0 };
    let commit = retcon::commit::CommitData {
        id: oid("1234567890abcdef1234567890abcdef12345678"),
        short_hash: "1234567".to_string(),
        author: Person::new("Test Author", "test@example.com"),
        author_date: dt,
        committer: Person::new("Test Committer", "commit@example.com"),
        committer_date: dt,
        message: "Test commit".to_string(),
        summary: "Test commit".to_string(),
        parent_ids: vec![],
        tree_id: oid("abcdef1234567890abcdef1234567890abcdef12").0,
        is_merge: false,
    };
    assert_eq!(commit.format_author_date(), "2024-01-15 14:30");
    assert_eq!(commit.format_author_date_full(), "2024-01-15 14:30:00 +0000");
    assert_eq!(commit.format_committer_date_full(), "2024-01-15 14:30:00 +0000");
}

#[test]
fn test_commit_data_is_merge() {
    let id1 = oid("1111111111111111111111111111111111111111");
    let id2 = oid("2222222222222222222222222222222222222222");
    let dt = Timestamp { seconds: 1_705_329_000, offset_seconds: 0 };
    let make = |parents: Vec<CommitId>, is_merge: bool| retcon::commit::CommitData {
        id: id1,
        short_hash: "1111111".to_string(),
        author: Person::new("Test", "test@example.com"),
        author_date: dt,
        committer: Person::new("Test", "test@example.com"),
        committer_date: dt,
        message: "Test".to_string(),
        summary: "Test".to_string(),
        parent_ids: parents,
        tree_id: id2.0,
        is_merge,
    };
    let regular = make(vec![], false);
    assert!(!regular.is_merge);
    let merge = make(vec![id1, id2], true);
    assert!(merge.is_merge);
}
