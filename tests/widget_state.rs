use retcon::commit::{CommitData, CommitId, CommitModifications, EditableField, ObjectId, Person, Timestamp};
use retcon::state::{AppMode, VisualType};
use retcon::widgets::{
    get_column_value, get_keybindings, next_editable_column, prev_editable_column, Column,
    ConfirmDialogState, SearchState, VisualSelection,
};

#[test]
fn search_state_edits_at_the_cursor() {
    let mut s = SearchState::new();
    assert_eq!(s.query, "");
    s.insert('a');
    s.insert('c');
    s.move_left();
    s.insert('b');
    assert_eq!(s.query, "abc");
    assert_eq!(s.cursor, 2);
    s.backspace();
    assert_eq!(s.query, "ac");
    assert_eq!(s.cursor, 1);
    s.delete();
    assert_eq!(s.query, "a");
    s.delete();
    assert_eq!(s.query, "a");
    s.move_start();
    s.backspace();
    assert_eq!(s.cursor, 0);
    s.move_end();
    assert_eq!(s.cursor, 1);
    s.move_right();
    assert_eq!(s.cursor, 1);
    s.clear();
    assert_eq!((s.query.as_str(), s.cursor), ("", 0));
}

#[test]
fn search_state_word_motions() {
    let mut s = SearchState::from_query("foo bar  baz");
    assert_eq!(s.cursor, 12);
    s.move_word_left();
    assert_eq!(s.cursor, 9);
    s.move_word_left();
    assert_eq!(s.cursor, 4);
    s.move_word_right();
    assert_eq!(s.cursor, 9);
    s.move_start();
    s.move_word_right();
    assert_eq!(s.cursor, 4);
    s.delete_word_forward();
    assert_eq!(s.query, "foo baz");
    assert_eq!(s.cursor, 4);
    s.delete_word_backward();
    assert_eq!(s.query, "baz");
    assert_eq!(s.cursor, 0);
    s.move_end();
    s.delete_word_backward();
    assert_eq!(s.query, "");
}

#[test]
fn search_state_deletes_to_either_end() {
    let mut s = SearchState::from_query("hello world");
    s.cursor = 5;
    s.delete_to_end();
    assert_eq!(s.query, "hello");
    s.cursor = 2;
    s.delete_to_start();
    assert_eq!(s.query, "llo");
    assert_eq!(s.cursor, 0);
    let d = SearchState::default();
    assert_eq!(d.cursor, 0);
}

#[test]
fn confirm_dialog_defaults_to_no_and_toggles() {
    let mut d = ConfirmDialogState::default();
    assert!(!d.is_yes_selected());
    d.toggle();
    assert!(d.is_yes_selected());
    d.toggle();
    assert_eq!(d.selected_button, 1);
    d.select_yes();
    assert!(d.is_yes_selected());
    d.select_no();
    assert!(!d.is_yes_selected());
}

#[test]
fn columns_map_to_author_fields() {
    assert_eq!(Column::from_index(0), Some(Column::Selection));
    assert_eq!(Column::from_index(5), Some(Column::Message));
    assert_eq!(Column::from_index(6), None);
    assert!(!Column::Hash.is_editable());
    assert!(Column::Name.is_editable());
    assert_eq!(Column::Date.to_editable_field(), Some(EditableField::AuthorDate));
    assert_eq!(Column::Selection.to_editable_field(), None);
    assert_eq!(Column::Email.index(), 3);
    assert_eq!(next_editable_column(5), 2);
    assert_eq!(next_editable_column(0), 2);
    assert_eq!(next_editable_column(3), 4);
    assert_eq!(prev_editable_column(2), 5);
    assert_eq!(prev_editable_column(1), 5);
    assert_eq!(prev_editable_column(4), 3);
}

#[test]
fn visual_selection_cells() {
    let line = VisualSelection { visual_type: VisualType::Line, start_row: 1, end_row: 2, start_col: 3, end_col: 3 };
    assert!(line.contains_cell(1, 0));
    assert!(!line.contains_cell(3, 3));
    let block = VisualSelection { visual_type: VisualType::Block, ..line };
    assert!(block.contains_cell(2, 3));
    assert!(!block.contains_cell(2, 4));
}

#[test]
fn key_hints_follow_the_mode() {
    let normal = get_keybindings(&AppMode::Normal);
    assert_eq!(normal.len(), 8);
    assert_eq!(normal[0], ("h/j/k/l", "nav"));
    let block = get_keybindings(&AppMode::Visual { anchor: (0, 0), visual_type: VisualType::Block });
    assert_eq!(block[3], ("V", "line"));
    assert_eq!(get_keybindings(&AppMode::Help), vec![("q/Esc", "close")]);
}

#[test]
fn cell_values_prefer_the_overlay() {
    let c = CommitData {
        id: CommitId::new(1, 2),
        short_hash: "0000000".to_string(),
        author: Person::new("Ann", "ann@example.com"),
        author_date: Timestamp { seconds: 1_705_329_000, offset_seconds: 0 },
        committer: Person::new("Ann", "ann@example.com"),
        committer_date: Timestamp { seconds: 1_705_329_000, offset_seconds: 0 },
        message: "Msg".to_string(),
        summary: "Msg".to_string(),
        parent_ids: vec![],
        tree_id: ObjectId { high: 3, low: 4 },
        is_merge: false,
    };
    assert_eq!(get_column_value(&c, None, Column::Name), "Ann");
    assert_eq!(get_column_value(&c, None, Column::Date), "2024-01-15 14:30:00 +0000");
    assert_eq!(get_column_value(&c, None, Column::Hash), "0000000");
    let m = CommitModifications { author_email: Some("b@example.com".to_string()), ..Default::default() };
    assert_eq!(get_column_value(&c, Some(&m), Column::Email), "b@example.com");
    assert_eq!(get_column_value(&c, Some(&m), Column::Message), "Msg");
    assert_eq!(get_column_value(&c, Some(&m), Column::Selection), "");
}
