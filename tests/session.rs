use retcon::commit::{CommitData, CommitId, EditableField, ObjectId, Person, Timestamp};
use retcon::error::RetconError;
use retcon::state::{
    finish_apply, AppMode, AppState, ApplyOutcome, DeletionOutcome, EditStart, MoveOutcome, VisualType,
};

fn oid(hex: &str) -> CommitId {
    let high = u128::from_str_radix(&hex[..32], 16).unwrap();
    let low = u32::from_str_radix(&hex[32..], 16).unwrap();
    CommitId::new(high, low)
}

fn create_test_commit(id_str: &str, summary: &str) -> CommitData {
    let dt = Timestamp { seconds: 1_705_329_000, offset_seconds: 0 };
    CommitData {
        id: oid(id_str),
        short_hash: id_str[..7].to_string(),
        author: Person::new("Test Author", "test@example.com"),
        author_date: dt,
        committer: Person::new("Test Author", "test@example.com"),
        committer_date: dt,
        message: summary.to_string(),
        summary: summary.to_string(),
        parent_ids: vec![],
        tree_id: ObjectId { high: 0xabcdef1234567890abcdef1234567890, low: 0xabcdef12 },
        is_merge: false,
    }
}

fn create_test_state() -> AppState {
    let commits = vec![
        create_test_commit("1111111111111111111111111111111111111111", "First commit"),
        create_test_commit("2222222222222222222222222222222222222222", "Second commit"),
        create_test_commit("3333333333333333333333333333333333333333", "Third commit"),
    ];
    AppState::new(commits, "main".to_string(), false)
}

#[test]
fn test_app_state_creation() {
    let state = create_test_state();
    assert_eq!(state.commits.len(), 3);
    assert_eq!(state.cursor, 0);
    assert_eq!(state.branch_name, "main");
    assert!(!state.has_upstream);
    assert!(state.modifications.is_empty());
}

#[test]
fn test_cursor_movement() {
    let mut state = create_test_state();
    state.cursor_down();
    assert_eq!(state.cursor, 1);
    state.cursor_down();
    assert_eq!(state.cursor, 2);
    state.cursor_up();
    assert_eq!(state.cursor, 1);
    state.cursor_top();
    assert_eq!(state.cursor, 0);
    state.cursor_bottom();
    assert_eq!(state.cursor, 2);
}

#[test]
fn test_cursor_movement_bounds() {
    let mut state = create_test_state();
    state.cursor_up();
    assert_eq!(state.cursor, 0);
    state.cursor_bottom();
    state.cursor_down();
    assert_eq!(state.cursor, 2);
}

#[test]
fn test_column_navigation() {
    let mut state = create_test_state();
    assert_eq!(state.column_index, 0);
    state.column_right();
    assert_eq!(state.column_index, 1);
    state.column_left();
    assert_eq!(state.column_index, 0);
}

#[test]
fn test_column_navigation_wraps() {
    let mut state = create_test_state();
    state.column_index = AppState::NUM_COLUMNS - 1;
    state.column_right();
    assert_eq!(state.column_index, 0);
    state.column_index = 0;
    state.column_left();
    assert_eq!(state.column_index, AppState::NUM_COLUMNS - 1);
}

#[test]
fn test_selection() {
    let mut state = create_test_state();
    state.toggle_selection();
    let first_id = state.commits[0].id;
    assert!(state.is_selected(first_id));
    state.toggle_selection();
    assert!(!state.is_selected(first_id));
}

#[test]
fn test_select_all() {
    let mut state = create_test_state();
    state.select_all();
    assert_eq!(state.selected.len(), 3);
    for commit in &state.commits {
        assert!(state.is_selected(commit.id));
    }
}

#[test]
fn test_deselect_all() {
    let mut state = create_test_state();
    state.select_all();
    state.deselect_all();
    assert_eq!(state.selected.len(), 0);
}

#[test]
fn test_modifications() {
    let mut state = create_test_state();
    let commit_id = state.commits[0].id;
    assert!(!state.is_modified(commit_id));
    assert!(!state.is_dirty());
    let mods = state.get_or_create_modifications(commit_id);
    mods.author_name = Some("New Author".to_string());
    assert!(state.is_modified(commit_id));
    assert!(state.is_dirty());
    assert_eq!(state.modified_count(), 1);
}

#[test]
fn test_clear_modifications() {
    let mut state = create_test_state();
    let commit_id = state.commits[0].id;
    let mods = state.get_or_create_modifications(commit_id);
    mods.author_name = Some("New Author".to_string());
    assert!(state.is_dirty());
    state.clear_modifications();
    assert!(!state.is_dirty());
    assert_eq!(state.modified_count(), 0);
}

#[test]
fn test_undo_redo() {
    let mut state = create_test_state();
    let commit_id = state.commits[0].id;
    state.save_undo("Initial modification");
    let mods = state.get_or_create_modifications(commit_id);
    mods.author_name = Some("New Author".to_string());
    let undone = state.undo();
    assert!(undone);
    assert!(!state.is_modified(commit_id));
    let redone = state.redo();
    assert!(redone);
    assert!(state.is_modified(commit_id));
}

#[test]
fn test_undo_redo_empty() {
    let mut state = create_test_state();
    assert!(!state.undo());
    assert!(!state.redo());
}

#[test]
fn test_undo_redo_integration() {
    let mut state = create_test_state();
    let id = state.commits[0].id;
    state.save_undo("test modification");
    state.get_or_create_modifications(id).author_name = Some("New Name".to_string());
    assert!(state.is_modified(id));
    assert!(state.undo());
    assert!(!state.is_modified(id));
    assert!(state.redo());
    assert!(state.is_modified(id));
}

#[test]
fn undo_k_times_restores_the_state_before_k_operations() {
    let mut state = create_test_state();
    let before_order = state.current_order.clone();
    let (a, b) = (state.commits[0].id, state.commits[1].id);
    state.cursor = 1;
    assert_eq!(state.move_commit_up(), MoveOutcome::Moved);
    state.selected = vec![b];
    assert_eq!(state.toggle_deletion(), DeletionOutcome::Marked(1));
    state.selected.clear();
    state.cursor = 1;
    assert_eq!(state.confirm_edit(EditableField::AuthorName, "X", "Test Author"), Ok(1));
    assert!(state.is_dirty());
    assert!(state.undo());
    assert!(state.undo());
    assert!(state.undo());
    assert!(!state.undo());
    assert_eq!(state.current_order, before_order);
    assert!(state.deleted.is_empty());
    assert!(state.modifications.is_empty());
    assert_eq!(state.commits[0].id, a);
    assert!(!state.is_dirty());
    assert!(state.redo());
    assert_eq!(state.current_order, vec![b, a, state.current_order[2]]);
}

#[test]
fn redo_after_undo_restores_the_state_before_the_undo() {
    let mut state = create_test_state();
    let id = state.commits[2].id;
    state.cursor = 2;
    assert_eq!(state.toggle_deletion(), DeletionOutcome::Marked(1));
    let deleted = state.deleted.clone();
    assert!(state.undo());
    assert!(state.deleted.is_empty());
    assert!(state.redo());
    assert_eq!(state.deleted, deleted);
    assert!(state.is_deleted(id));
    assert_eq!(state.undo_stack.len(), 1);
    assert!(state.redo_stack.is_empty());
}

#[test]
fn test_search_filter() {
    let mut state = create_test_state();
    state.search_query = "Second".to_string();
    state.apply_filter();
    let visible = state.visible_commits();
    assert_eq!(visible.len(), 1);
    assert_eq!(visible[0].summary, "Second commit");
    state.clear_filter();
    let visible = state.visible_commits();
    assert_eq!(visible.len(), 3);
}

#[test]
fn test_search_filter_case_insensitive() {
    let mut state = create_test_state();
    state.search_query = "SECOND".to_string();
    state.apply_filter();
    let visible = state.visible_commits();
    assert_eq!(visible.len(), 1);
}

#[test]
fn test_search_filter_empty_result() {
    let mut state = create_test_state();
    state.search_query = "nonexistent".to_string();
    state.apply_filter();
    assert!(state.filtered_indices.is_none());
}

#[test]
fn search_matches_hash_and_email() {
    let mut state = create_test_state();
    state.search_query = "333".to_string();
    state.apply_filter();
    assert_eq!(state.filtered_indices, Some(vec![2]));
    state.search_query = "EXAMPLE.COM".to_string();
    state.apply_filter();
    assert_eq!(state.filtered_indices, Some(vec![0, 1, 2]));
    assert_eq!(state.move_commit_up(), MoveOutcome::Filtered);
}

#[test]
fn test_visual_mode() {
    let mut state = create_test_state();
    state.enter_visual_mode(VisualType::Line);
    assert!(matches!(state.mode, AppMode::Visual { .. }));
    let range = state.visual_range();
    assert!(range.is_some());
    state.exit_visual_mode();
    assert_eq!(state.mode, AppMode::Normal);
}

#[test]
fn test_visual_selection_line() {
    let mut state = create_test_state();
    state.enter_visual_mode(VisualType::Line);
    state.cursor_down();
    state.cursor_down();
    assert_eq!(state.visual_selection_count(), 3);
    assert!(state.is_row_in_visual_selection(0));
    assert!(state.is_row_in_visual_selection(1));
    assert!(state.is_row_in_visual_selection(2));
}

#[test]
fn test_visual_selection_block() {
    let mut state = create_test_state();
    state.enter_visual_mode(VisualType::Block);
    state.cursor_down();
    state.column_right();
    assert!(state.is_in_visual_selection(0, 0));
    assert!(state.is_in_visual_selection(0, 1));
    assert!(state.is_in_visual_selection(1, 0));
    assert!(state.is_in_visual_selection(1, 1));
    assert!(!state.is_in_visual_selection(2, 0));
}

#[test]
fn test_apply_visual_selection() {
    let mut state = create_test_state();
    state.enter_visual_mode(VisualType::Line);
    state.cursor_down();
    state.apply_visual_selection();
    assert_eq!(state.selected.len(), 2);
    assert_eq!(state.mode, AppMode::Normal);
}

#[test]
fn test_capture_visual_edit_targets() {
    let mut state = create_test_state();
    state.enter_visual_mode(VisualType::Line);
    state.cursor_down();
    let count = state.capture_visual_edit_targets();
    assert_eq!(count, 2);
    assert!(state.visual_edit_targets.is_some());
    assert_eq!(state.mode, AppMode::Normal);
}

#[test]
fn toggling_the_same_visual_kind_leaves_visual_mode() {
    let mut state = create_test_state();
    state.enter_visual_mode(VisualType::Line);
    state.toggle_visual_kind(VisualType::Block);
    assert_eq!(state.visual_type(), Some(VisualType::Block));
    state.toggle_visual_kind(VisualType::Block);
    assert_eq!(state.mode, AppMode::Normal);
}

#[test]
fn test_commits_to_edit_priority() {
    let mut state = create_test_state();
    let to_edit = state.commits_to_edit();
    assert_eq!(to_edit.len(), 1);
    assert_eq!(to_edit[0], state.commits[0].id);
    state.toggle_selection();
    let to_edit = state.commits_to_edit();
    assert_eq!(to_edit.len(), 1);
    state.visual_edit_targets = Some(vec![state.commits[1].id, state.commits[2].id]);
    let to_edit = state.commits_to_edit();
    assert_eq!(to_edit.len(), 2);
    assert_eq!(to_edit[0], state.commits[1].id);
}

#[test]
fn visual_targets_win_over_checkboxes_and_cursor() {
    let mut state = create_test_state();
    let ids: Vec<CommitId> = state.commits.iter().map(|c| c.id).collect();
    state.selected = vec![ids[0], ids[1]];
    state.cursor = 1;
    state.visual_edit_targets = Some(vec![ids[2]]);
    assert_eq!(state.commits_to_edit(), vec![ids[2]]);
    state.visual_edit_targets = None;
    assert_eq!(state.commits_to_edit(), vec![ids[0], ids[1]]);
    state.selected.clear();
    assert_eq!(state.commits_to_edit(), vec![ids[1]]);
    let mut empty = AppState::new(vec![], "main".to_string(), false);
    assert!(empty.commits_to_edit().is_empty());
    assert_eq!(empty.toggle_deletion(), DeletionOutcome::NoTarget);
}

#[test]
fn test_cursor_position_queries() {
    let mut state = create_test_state();
    state.set_cursor_position(1, 2);
    assert_eq!(state.cursor_row(), 1);
    assert_eq!(state.cursor_column(), 2);
    assert_eq!(state.cursor_position(), (1, 2));
    assert!(state.is_cursor_on_row(1));
    assert!(state.is_cursor_on_column(2));
    assert!(state.is_cursor_on_cell(1, 2));
    assert!(!state.is_cursor_on_cell(0, 2));
}

#[test]
fn test_is_cursor_on_editable_column() {
    let mut state = create_test_state();
    state.set_cursor_column(0);
    assert!(!state.is_cursor_on_editable_column());
    state.set_cursor_column(1);
    assert!(!state.is_cursor_on_editable_column());
    state.set_cursor_column(2);
    assert!(state.is_cursor_on_editable_column());
}

#[test]
fn test_page_navigation() {
    let mut state = create_test_state();
    state.page_down(2);
    assert_eq!(state.cursor, 2);
    state.page_up(1);
    assert_eq!(state.cursor, 1);
    state.page_down(10);
    assert_eq!(state.cursor, 2);
    state.page_up(10);
    assert_eq!(state.cursor, 0);
}

#[test]
fn test_detail_scroll() {
    let mut state = create_test_state();
    state.detail_max_scroll = 10;
    state.detail_scroll_down(5);
    assert_eq!(state.detail_scroll, 5);
    state.detail_scroll_up(2);
    assert_eq!(state.detail_scroll, 3);
    state.detail_scroll_down(20);
    assert_eq!(state.detail_scroll, 10);
    state.detail_scroll_up(100);
    assert_eq!(state.detail_scroll, 0);
}

#[test]
fn test_reset_detail_scroll() {
    let mut state = create_test_state();
    state.detail_scroll = 5;
    state.reset_detail_scroll();
    assert_eq!(state.detail_scroll, 0);
}

#[test]
fn help_and_table_scrolling_clamp() {
    let mut state = create_test_state();
    state.help_scroll_down(7, 5);
    assert_eq!(state.help_scroll, 5);
    state.help_scroll_up(2);
    assert_eq!(state.help_scroll, 3);
    state.reset_help_scroll();
    assert_eq!(state.help_scroll, 0);
    state.scroll_right(4, 3);
    assert_eq!(state.h_scroll_offset, 3);
    state.scroll_left(10);
    assert_eq!(state.h_scroll_offset, 0);
    state.cursor = 30;
    state.update_scroll_for_height(10);
    assert_eq!(state.scroll_offset, 21);
}

#[test]
fn test_cursor_commit() {
    let mut state = create_test_state();
    let commit = state.cursor_commit();
    assert!(commit.is_some());
    assert_eq!(commit.unwrap().summary, "First commit");
    state.cursor_down();
    let commit = state.cursor_commit();
    assert_eq!(commit.unwrap().summary, "Second commit");
}

#[test]
fn test_cursor_commit_id() {
    let state = create_test_state();
    let id = state.cursor_commit_id();
    assert!(id.is_some());
    assert_eq!(id.unwrap(), state.commits[0].id);
}

#[test]
fn test_messages() {
    let mut state = create_test_state();
    state.set_error("Test error");
    assert!(state.error_message.is_some());
    assert!(state.success_message.is_none());
    state.set_success("Test success");
    assert!(state.success_message.is_some());
    assert!(state.error_message.is_none());
    state.clear_messages();
    assert!(state.error_message.is_none());
    assert!(state.success_message.is_none());
}

#[test]
fn test_move_commit_up() {
    let mut state = create_test_state();
    let first_id = state.commits[0].id;
    let second_id = state.commits[1].id;
    state.cursor = 1;
    state.move_commit_up();
    assert_eq!(state.commits[0].id, second_id);
    assert_eq!(state.commits[1].id, first_id);
    assert_eq!(state.cursor, 0);
    assert!(state.is_dirty());
}

#[test]
fn test_move_commit_down() {
    let mut state = create_test_state();
    let first_id = state.commits[0].id;
    let second_id = state.commits[1].id;
    state.cursor = 0;
    state.move_commit_down();
    assert_eq!(state.commits[0].id, second_id);
    assert_eq!(state.commits[1].id, first_id);
    assert_eq!(state.cursor, 1);
}

#[test]
fn reordering_is_refused_at_the_edges_and_on_merges() {
    let mut state = create_test_state();
    assert_eq!(state.move_commit_up(), MoveOutcome::AtEdge);
    state.cursor = 2;
    assert_eq!(state.move_commit_down(), MoveOutcome::AtEdge);
    state.commits[2].is_merge = true;
    assert_eq!(state.move_commit_up(), MoveOutcome::MergeCommit);
    assert!(state.undo_stack.is_empty());
}

#[test]
fn test_visual_type() {
    let mut state = create_test_state();
    assert!(state.visual_type().is_none());
    state.enter_visual_mode(VisualType::Line);
    assert_eq!(state.visual_type(), Some(VisualType::Line));
    state.exit_visual_mode();
    assert!(state.visual_type().is_none());
}

#[test]
fn test_sync_author_to_committer_default() {
    let state = create_test_state();
    assert!(state.sync_author_to_committer);
}

#[test]
fn test_set_sync_author_to_committer() {
    let mut state = create_test_state();
    assert!(state.sync_author_to_committer);
    state.set_sync_author_to_committer(false);
    assert!(!state.sync_author_to_committer);
    state.set_sync_author_to_committer(true);
    assert!(state.sync_author_to_committer);
}

#[test]
fn test_commit_selection() {
    let mut state = create_test_state();
    state.toggle_selection();
    state.cursor_down();
    state.toggle_selection();
    assert_eq!(state.selected.len(), 2);
    assert_eq!(state.commits_to_edit().len(), 2);
    state.deselect_all();
    assert!(state.selected.is_empty());
}

#[test]
fn deleting_every_remaining_commit_is_refused() {
    let mut state = create_test_state();
    state.select_all();
    assert_eq!(state.toggle_deletion(), DeletionOutcome::WouldDeleteAll);
    assert!(state.deleted.is_empty());
    assert!(state.undo_stack.is_empty());
    state.deselect_all();
    state.cursor = 0;
    assert_eq!(state.toggle_deletion(), DeletionOutcome::Marked(1));
    state.selected = vec![state.commits[1].id, state.commits[2].id];
    assert_eq!(state.toggle_deletion(), DeletionOutcome::WouldDeleteAll);
    assert_eq!(state.deleted.len(), 1);
}

#[test]
fn mixed_toggle_follows_the_first_target() {
    let mut state = create_test_state();
    let ids: Vec<CommitId> = state.commits.iter().map(|c| c.id).collect();
    state.mark_deleted(ids[0]);
    assert_eq!(state.deleted_count(), 1);
    state.selected = vec![ids[0], ids[1]];
    assert_eq!(state.toggle_deletion(), DeletionOutcome::Restored(2));
    assert!(state.deleted.is_empty());
    state.selected = vec![ids[1], ids[0]];
    state.mark_deleted(ids[0]);
    // Two targets against two commits not yet deleted: refused.
    assert_eq!(state.toggle_deletion(), DeletionOutcome::WouldDeleteAll);
    assert!(state.is_deleted(ids[0]) && !state.is_deleted(ids[1]));
    state.selected = vec![ids[1]];
    assert_eq!(state.toggle_deletion(), DeletionOutcome::Marked(1));
    assert!(state.is_deleted(ids[0]) && state.is_deleted(ids[1]));
    state.unmark_deleted(ids[0]);
    assert!(!state.is_deleted(ids[0]));
    state.clear_deletions();
    assert_eq!(state.deleted_count(), 0);
}

#[test]
fn dirty_detection_covers_all_three_overlays() {
    let mut state = create_test_state();
    assert!(!state.is_dirty());
    state.mark_deleted(state.commits[0].id);
    assert!(state.is_dirty());
    state.clear_modifications();
    assert!(!state.is_dirty());
    state.cursor = 1;
    state.move_commit_up();
    assert!(state.is_dirty());
    state.clear_modifications();
    assert!(!state.is_dirty());
    assert_eq!(state.commits[0].summary, "First commit");
    let id = state.commits[0].id;
    state.get_or_create_modifications(id);
    assert!(!state.is_dirty());
    state.reset_to(vec![create_test_commit("4444444444444444444444444444444444444444", "New")]);
    assert!(!state.is_dirty());
    assert_eq!(state.original_order.len(), 1);
}

#[test]
fn edits_sync_author_to_committer() {
    let mut state = create_test_state();
    let id = state.commits[2].id;
    state.cursor = 2;
    assert_eq!(state.confirm_edit(EditableField::AuthorEmail, "new@example.com", "test@example.com"), Ok(1));
    let m = &state.modifications[0].1;
    assert_eq!(m.author_email.as_deref(), Some("new@example.com"));
    assert_eq!(m.committer_email.as_deref(), Some("new@example.com"));
    assert_eq!(state.modifications[0].0, id);
    state.set_sync_author_to_committer(false);
    assert_eq!(state.confirm_edit(EditableField::AuthorName, "Solo", "Test Author"), Ok(1));
    let m = &state.modifications[0].1;
    assert_eq!(m.author_name.as_deref(), Some("Solo"));
    assert_eq!(m.committer_name, None);
    assert_eq!(state.confirm_edit(EditableField::AuthorDate, "2024-01-15", "x"), Ok(1));
    let m = &state.modifications[0].1;
    assert_eq!(m.author_date, Some(Timestamp { seconds: 1_705_276_800, offset_seconds: 0 }));
    assert_eq!(m.committer_date, None);
}

#[test]
fn invalid_edits_change_nothing() {
    let mut state = create_test_state();
    state.mode = AppMode::Editing { commit_idx: 0, field: EditableField::AuthorEmail };
    assert_eq!(
        state.confirm_edit(EditableField::AuthorEmail, "bad", "test@example.com"),
        Err(RetconError::InvalidEmail("bad".to_string()))
    );
    assert!(matches!(
        state.confirm_edit(EditableField::CommitterDate, "soon", "x"),
        Err(RetconError::InvalidDate(_))
    ));
    assert!(state.modifications.is_empty());
    assert!(state.undo_stack.is_empty());
    assert!(matches!(state.mode, AppMode::Editing { .. }));
    assert_eq!(state.confirm_edit(EditableField::Message, "same", "same"), Ok(0));
    assert!(state.undo_stack.is_empty());
    assert_eq!(state.mode, AppMode::Normal);
}

#[test]
fn begin_edit_respects_merges_and_columns() {
    let mut state = create_test_state();
    state.column_index = 1;
    assert_eq!(state.begin_edit(), EditStart::NotEditable);
    state.column_index = 2;
    assert_eq!(state.begin_edit(), EditStart::Inline(EditableField::AuthorName));
    assert_eq!(state.edit_buffer, "Test Author");
    assert_eq!(state.edit_cursor, 11);
    state.mode = AppMode::Normal;
    state.column_index = 5;
    assert_eq!(
        state.begin_edit(),
        EditStart::External(EditableField::Message, "First commit".to_string())
    );
    state.commits[0].is_merge = true;
    assert_eq!(state.begin_edit(), EditStart::MergeCommit);
}

#[test]
fn test_app_state_workflow() {
    let mut state = create_test_state();
    let id = state.commits[0].id;
    state.get_or_create_modifications(id).author_name = Some("New Author".to_string());
    assert!(state.is_modified(id));
    assert!(state.is_dirty());
}

#[test]
fn test_filter_commits() {
    let commits = vec![
        create_test_commit("1111111111111111111111111111111111111111", "Add authentication"),
        create_test_commit("2222222222222222222222222222222222222222", "Fix bug in parser"),
        create_test_commit("3333333333333333333333333333333333333333", "Add tests for authentication"),
    ];
    let mut state = AppState::new(commits, "main".to_string(), false);
    state.search_query = "authentication".to_string();
    state.apply_filter();
    assert_eq!(state.visible_commits().len(), 2);
    assert_eq!(state.filtered_indices, Some(vec![0, 2]));
}

#[test]
fn space_in_visual_mode_flips_checkboxes() {
    let mut state = create_test_state();
    let ids: Vec<CommitId> = state.commits.iter().map(|c| c.id).collect();
    state.selected = vec![ids[1]];
    state.enter_visual_mode(VisualType::Line);
    state.cursor_down();
    state.toggle_visual_checkboxes();
    assert!(state.is_selected(ids[0]));
    assert!(!state.is_selected(ids[1]));
    assert!(!state.is_selected(ids[2]));
    assert!(matches!(state.mode, AppMode::Visual { .. }));
}

#[test]
fn apply_outcome_distinguishes_a_kept_stash() {
    assert_eq!(finish_apply(true, false, false), ApplyOutcome::Rewritten);
    assert_eq!(finish_apply(true, true, true), ApplyOutcome::Rewritten);
    assert_eq!(finish_apply(true, true, false), ApplyOutcome::RewrittenStashKept);
    assert_eq!(finish_apply(false, true, true), ApplyOutcome::Failed);
}

#[test]
fn session_transitions_follow_dirtiness() {
    let mut state = create_test_state();
    assert!(state.request_quit());
    assert_eq!(state.mode, AppMode::Normal);
    assert!(!state.request_confirmation(retcon::state::ConfirmAction::ApplyChanges));
    state.mark_deleted(state.commits[0].id);
    assert!(!state.request_quit());
    assert_eq!(state.mode, AppMode::Quitting);
    assert!(state.request_confirmation(retcon::state::ConfirmAction::DiscardChanges));
    assert!(!state.finish_confirmation(retcon::state::ConfirmAction::DiscardChanges));
    assert!(!state.is_dirty());
    assert_eq!(state.mode, AppMode::Normal);
    assert!(state.finish_confirmation(retcon::state::ConfirmAction::QuitWithChanges));
}

#[test]
fn search_and_edit_can_be_confirmed_or_cancelled() {
    let mut state = create_test_state();
    state.mode = AppMode::Search;
    state.confirm_search("third");
    assert_eq!(state.search_query, "third");
    assert_eq!(state.filtered_indices, Some(vec![2]));
    assert_eq!(state.mode, AppMode::Normal);
    state.mode = AppMode::Search;
    state.cancel_search();
    assert!(state.filtered_indices.is_none());
    assert_eq!(state.search_query, "");
    state.column_index = 2;
    state.begin_edit();
    state.visual_edit_targets = Some(vec![state.commits[0].id]);
    state.cancel_edit();
    assert_eq!(state.mode, AppMode::Normal);
    assert_eq!(state.edit_buffer, "");
    assert!(state.visual_edit_targets.is_none());
    assert!(state.modifications.is_empty());
}

#[test]
fn marking_never_removes_the_last_loaded_commit() {
    let mut state = create_test_state();
    let foreign = CommitId::new(9, 9);
    state.mark_deleted(state.commits[0].id);
    state.selected = vec![state.commits[1].id, foreign];
    state.visual_edit_targets = Some(vec![state.commits[1].id, state.commits[2].id]);
    assert_eq!(state.toggle_deletion(), DeletionOutcome::WouldDeleteAll);
    assert_eq!(state.deleted.len(), 1);
}
