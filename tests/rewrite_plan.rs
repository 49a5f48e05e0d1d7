use retcon::commit::{CommitData, CommitId, CommitModifications, EditableField, ObjectId, Person, Timestamp};
use retcon::error::RetconError;
use retcon::rewrite::{plan_rewrite, ParentRef};
use retcon::state::{count_modified_commits, has_modifications, order_changed, AppState};
use retcon::summary::generate_change_summary;

fn oid(hex: &str) -> CommitId {
    let high = u128::from_str_radix(&hex[..32], 16).unwrap();
    let low = u32::from_str_radix(&hex[32..], 16).unwrap();
    CommitId::new(high, low)
}

fn tree(n: u32) -> ObjectId {
    ObjectId { high: 0xabcdef1234567890abcdef1234567890, low: n }
}

fn commit(id: CommitId, short: &str, message: &str, parents: Vec<CommitId>, t: u32) -> CommitData {
    let dt = Timestamp { seconds: 1_705_329_000, offset_seconds: 0 };
    CommitData {
        id,
        short_hash: short.to_string(),
        author: Person::new("Test", "test@example.com"),
        author_date: dt,
        committer: Person::new("Test", "test@example.com"),
        committer_date: dt,
        message: message.to_string(),
        summary: message.to_string(),
        parent_ids: parents,
        tree_id: tree(t),
        is_merge: false,
    }
}

/// C1 <- C2 <- C3, newest first.
fn chain() -> (Vec<CommitData>, CommitId, CommitId, CommitId) {
    let c1 = oid("1111111111111111111111111111111111111111");
    let c2 = oid("2222222222222222222222222222222222222222");
    let c3 = oid("3333333333333333333333333333333333333333");
    let commits = vec![
        commit(c3, "3333333", "Third", vec![c2], 3),
        commit(c2, "2222222", "Second", vec![c1], 2),
        commit(c1, "1111111", "First", vec![], 1),
    ];
    (commits, c1, c2, c3)
}

#[test]
fn test_has_modifications_empty() {
    let mods: Vec<(CommitId, CommitModifications)> = Vec::new();
    assert!(!has_modifications(&mods));
}

#[test]
fn test_order_changed() {
    let id1 = oid("1111111111111111111111111111111111111111");
    let id2 = oid("2222222222222222222222222222222222222222");
    assert!(!order_changed(&vec![id1, id2], &vec![id1, id2]));
    assert!(order_changed(&vec![id1, id2], &vec![id2, id1]));
    assert!(order_changed(&vec![id1], &vec![id1, id2]));
}

#[test]
fn test_count_modified_commits() {
    let mut mods: Vec<(CommitId, CommitModifications)> = Vec::new();
    let id1 = oid("1111111111111111111111111111111111111111");
    let id2 = oid("2222222222222222222222222222222222222222");
    assert_eq!(count_modified_commits(&mods), 0);
    mods.push((id1, CommitModifications::default()));
    assert_eq!(count_modified_commits(&mods), 0);
    mods[0].1 = CommitModifications { author_name: Some("New Author".to_string()), ..Default::default() };
    assert_eq!(count_modified_commits(&mods), 1);
    mods.push((id2, CommitModifications { message: Some("New message".to_string()), ..Default::default() }));
    assert_eq!(count_modified_commits(&mods), 2);
    assert!(has_modifications(&mods));
}

#[test]
fn test_generate_change_summary_no_changes() {
    let summary = generate_change_summary(&vec![], &vec![], &vec![], &vec![], &vec![]);
    assert!(summary.is_empty());
}

#[test]
fn test_generate_change_summary_with_modifications() {
    let id1 = oid("1111111111111111111111111111111111111111");
    let c = commit(id1, "1111111", "Test", vec![], 1);
    let modifications = vec![(
        id1,
        CommitModifications {
            author_name: Some("New Author".to_string()),
            author_email: Some("new@example.com".to_string()),
            ..Default::default()
        },
    )];
    let summary = generate_change_summary(&vec![c], &modifications, &vec![], &vec![id1], &vec![id1]);
    assert!(summary.len() >= 2);
    assert!(summary[0].contains("1 commit(s) with modified metadata"));
    assert!(summary[1].contains("1111111"));
    assert!(summary[1].contains("author name"));
    assert!(summary[1].contains("author email"));
    assert_eq!(summary[1], "  1111111 - author name, author email");
}

#[test]
fn test_generate_change_summary_with_reorder() {
    let id1 = oid("1111111111111111111111111111111111111111");
    let id2 = oid("2222222222222222222222222222222222222222");
    let summary = generate_change_summary(&vec![], &vec![], &vec![], &vec![id1, id2], &vec![id2, id1]);
    assert_eq!(summary.len(), 1);
    assert!(summary[0].contains("Commit order has been changed"));
}

#[test]
fn test_generate_change_summary_many_commits() {
    let commits: Vec<CommitData> = (0..10)
        .map(|i| {
            let id_str = format!("{i}111111111111111111111111111111111111111");
            commit(oid(&id_str[..40]), &id_str[..7], &format!("Commit {i}"), vec![], 1)
        })
        .collect();
    let modifications: Vec<(CommitId, CommitModifications)> = commits
        .iter()
        .map(|c| (c.id, CommitModifications { message: Some("Modified".to_string()), ..Default::default() }))
        .collect();
    let order: Vec<CommitId> = commits.iter().map(|c| c.id).collect();
    let summary = generate_change_summary(&commits, &modifications, &vec![], &order, &order);
    assert!(summary.iter().any(|s| s.contains("... and 5 more")));
    assert_eq!(summary.len(), 1 + 5 + 1);
}

#[test]
fn summary_counts_deletions() {
    let (commits, c1, c2, c3) = chain();
    let summary = generate_change_summary(&commits, &vec![], &vec![c2], &vec![c3, c2, c1], &vec![c3, c2, c1]);
    assert_eq!(summary, vec!["1 commit(s) will be deleted".to_string()]);
}

#[test]
fn deleting_a_middle_commit_reparents_its_child() {
    let (commits, c1, c2, c3) = chain();
    let plan = plan_rewrite(&commits, &vec![], &vec![c2], &vec![c3, c2, c1]).unwrap();
    assert_eq!(plan.commits.len(), 1);
    let p = &plan.commits[0];
    assert_eq!(p.original, c3);
    assert_eq!(p.parents, vec![ParentRef::Existing(c1)]);
    assert_eq!(p.tree_id, tree(3));
    assert_eq!(plan.tip, ParentRef::Rewritten(0));
    let created = vec![oid("9999999999999999999999999999999999999999")];
    assert_eq!(plan.parents_of(0, &created), Some(vec![c1]));
    assert_eq!(plan.new_tip(&created), Some(created[0]));
    assert_eq!(plan.new_tip(&vec![]), None);
}

#[test]
fn editing_the_newest_commit_rewrites_only_it() {
    let (commits, c1, c2, c3) = chain();
    let mut state = AppState::new(commits, "main".to_string(), false);
    state.cursor = 0;
    assert_eq!(state.confirm_edit(EditableField::AuthorEmail, "new@example.com", "test@example.com"), Ok(1));
    let plan = plan_rewrite(&state.commits, &state.modifications, &state.deleted, &state.current_order).unwrap();
    assert_eq!(plan.commits.len(), 1);
    let p = &plan.commits[0];
    assert_eq!(p.original, c3);
    assert_eq!(p.author.email, "new@example.com");
    assert_eq!(p.committer.email, "new@example.com");
    assert_eq!(p.author.name, "Test");
    assert_eq!(p.parents, vec![ParentRef::Existing(c2)]);
    assert_eq!(plan.resolution[0].refs, vec![ParentRef::Existing(c1)]);
    assert_eq!(plan.resolution[1].refs, vec![ParentRef::Existing(c2)]);
}

#[test]
fn editing_an_older_commit_rewrites_its_descendants() {
    let (commits, c1, _c2, c3) = chain();
    let mods = vec![(c1, CommitModifications { message: Some("Root".to_string()), ..Default::default() })];
    let order: Vec<CommitId> = commits.iter().map(|c| c.id).collect();
    let plan = plan_rewrite(&commits, &mods, &vec![], &order).unwrap();
    assert_eq!(plan.commits.len(), 3);
    assert_eq!(plan.commits[0].message, "Root");
    assert_eq!(plan.commits[0].parents, vec![]);
    assert_eq!(plan.commits[1].parents, vec![ParentRef::Rewritten(0)]);
    assert_eq!(plan.commits[2].parents, vec![ParentRef::Rewritten(1)]);
    assert_eq!(plan.commits[2].original, c3);
    assert_eq!(plan.commits[2].message, "Third");
    assert_eq!(plan.tip, ParentRef::Rewritten(2));
    let created = vec![
        oid("aaaaaaaaaaaaaaaaaaaaaaaaaaaaaaaaaaaaaaaa"),
        oid("bbbbbbbbbbbbbbbbbbbbbbbbbbbbbbbbbbbbbbbb"),
    ];
    assert_eq!(plan.parents_of(2, &created), Some(vec![created[1]]));
    assert_eq!(plan.parents_of(2, &created[..1].to_vec()), None);
    assert_eq!(plan.parents_of(5, &created), None);
}

#[test]
fn deleting_consecutive_commits_skips_them_all() {
    let (mut commits, c1, c2, c3) = chain();
    let c4 = oid("4444444444444444444444444444444444444444");
    commits.insert(0, commit(c4, "4444444", "Fourth", vec![c3], 4));
    let plan = plan_rewrite(&commits, &vec![], &vec![c2, c3], &vec![c4, c3, c2, c1]).unwrap();
    assert_eq!(plan.commits.len(), 1);
    assert_eq!(plan.commits[0].original, c4);
    assert_eq!(plan.commits[0].parents, vec![ParentRef::Existing(c1)]);
}

#[test]
fn deleting_the_root_leaves_its_child_parentless() {
    let (commits, c1, c2, c3) = chain();
    let plan = plan_rewrite(&commits, &vec![], &vec![c1], &vec![c3, c2, c1]).unwrap();
    assert_eq!(plan.commits.len(), 2);
    assert_eq!(plan.commits[0].original, c2);
    assert!(plan.commits[0].parents.is_empty());
    assert_eq!(plan.commits[1].parents, vec![ParentRef::Rewritten(0)]);
}

#[test]
fn deleting_the_tip_moves_the_branch_to_its_parent() {
    let (commits, c1, c2, c3) = chain();
    let plan = plan_rewrite(&commits, &vec![], &vec![c3], &vec![c3, c2, c1]).unwrap();
    assert!(plan.commits.is_empty());
    assert_eq!(plan.tip_position, 1);
    assert_eq!(plan.tip, ParentRef::Existing(c2));
}

#[test]
fn rewrite_fails_when_everything_is_deleted_or_missing() {
    let (commits, c1, c2, c3) = chain();
    assert!(matches!(
        plan_rewrite(&commits, &vec![], &vec![c1, c2, c3], &vec![c3, c2, c1]),
        Err(RetconError::RewriteFailed(_))
    ));
    let stranger = oid("5555555555555555555555555555555555555555");
    assert_eq!(
        plan_rewrite(&commits, &vec![], &vec![], &vec![stranger, c3, c2, c1]).unwrap_err(),
        RetconError::CommitNotFound("5555555".to_string())
    );
    assert!(matches!(plan_rewrite(&commits, &vec![], &vec![], &vec![]), Err(RetconError::RewriteFailed(_))));
}

#[test]
fn overlay_values_replace_the_originals() {
    let (commits, c1, c2, c3) = chain();
    let d = Timestamp { seconds: 1_000, offset_seconds: 3600 };
    let mods = vec![(
        c2,
        CommitModifications {
            author_name: Some("A".to_string()),
            committer_name: Some("C".to_string()),
            committer_email: Some("c@x.org".to_string()),
            author_date: Some(d),
            committer_date: Some(d),
            ..Default::default()
        },
    )];
    let plan = plan_rewrite(&commits, &mods, &vec![], &vec![c3, c2, c1]).unwrap();
    let p = &plan.commits[0];
    assert_eq!(p.original, c2);
    assert_eq!(p.author, Person::new("A", "test@example.com"));
    assert_eq!(p.committer, Person::new("C", "c@x.org"));
    assert_eq!(p.author_date, d);
    assert_eq!(p.committer_date, d);
    assert_eq!(p.message, "Second");
    assert_eq!(p.tree_id, tree(2));
}
