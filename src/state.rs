use vstd::prelude::*;

use crate::commit::{CommitData, CommitId, CommitModifications, EditableField, Timestamp};
use crate::error::RetconError;
use crate::widgets::{column_value, get_column_value, Column};
use crate::text::{is_substring, lower_of, lowercase, matches_folded};
use crate::validation::{date_value, is_valid_email, validate_date, validate_email};
use crate::rewrite::{commit_for, contains_id, find_commit, find_modifications, mods_for, overlay};

verus! {

/// Kind of visual selection.
#[derive(Debug, Clone, Copy, PartialEq, Eq, Structural)]
pub enum VisualType {
    /// Whole rows.
    Line,
    /// A rectangle of cells.
    Block,
}

/// Actions that wait for a confirmation.
#[derive(Debug, Clone, Copy, PartialEq, Eq, Structural)]
pub enum ConfirmAction {
    ApplyChanges,
    DiscardChanges,
    QuitWithChanges,
}

/// The mode of the session; exactly one is active.
#[derive(Debug, Clone, Copy, PartialEq, Eq)]
pub enum AppMode {
    Normal,
    Visual { anchor: (usize, usize), visual_type: VisualType },
    Editing { commit_idx: usize, field: EditableField },
    Search,
    Reorder,
    Confirming(ConfirmAction),
    Help,
    Quitting,
}

/// The three overlays of a session: order, overlays per commit, deletions.
pub type OverlayView = (Seq<CommitId>, Seq<(CommitId, CommitModifications)>, Seq<CommitId>);

/// A saved state of the overlays with the description of the change that followed.
pub type SnapView = (OverlayView, Seq<char>);

/// The overlays with the undo and redo stacks (top last).
pub type HistoryView = (OverlayView, Seq<SnapView>, Seq<SnapView>);

/// A full copy of the overlays, taken before a change.
#[derive(Debug, Clone)]
pub struct UndoSnapshot {
    pub commit_order: Vec<CommitId>,
    pub modifications: Vec<(CommitId, CommitModifications)>,
    pub deleted: Vec<CommitId>,
    pub description: String,
}

impl UndoSnapshot {
    pub open spec fn view(self) -> SnapView {
        ((self.commit_order@, self.modifications@, self.deleted@), self.description@)
    }
}

pub open spec fn snaps(s: Seq<UndoSnapshot>) -> Seq<SnapView> {
    s.map_values(|x: UndoSnapshot| x.view())
}

/// Saving pushes the current overlays and empties the redo stack.
pub open spec fn save_spec(h: HistoryView, description: Seq<char>) -> HistoryView {
    (h.0, h.1.push((h.0, description)), Seq::empty())
}

/// Undo restores the top of the undo stack and pushes the current overlays,
/// under the same description, onto the redo stack.
pub open spec fn undo_spec(h: HistoryView) -> HistoryView {
    if h.1.len() == 0 {
        h
    } else {
        let top = h.1[h.1.len() - 1];
        (top.0, h.1.drop_last(), h.2.push((h.0, top.1)))
    }
}

/// Redo is the mirror image of undo.
pub open spec fn redo_spec(h: HistoryView) -> HistoryView {
    if h.2.len() == 0 {
        h
    } else {
        let top = h.2[h.2.len() - 1];
        (top.0, h.1.push((h.0, top.1)), h.2.drop_last())
    }
}

/// `k` undo steps.
pub open spec fn undo_n(h: HistoryView, k: nat) -> HistoryView
    decreases k,
{
    if k == 0 {
        h
    } else {
        undo_n(undo_spec(h), (k - 1) as nat)
    }
}

/// A run of operations, each a save followed by a change of the overlays to
/// the given value.
pub open spec fn apply_ops(h: HistoryView, ops: Seq<(Seq<char>, OverlayView)>) -> HistoryView
    decreases ops.len(),
{
    if ops.len() == 0 {
        h
    } else {
        let saved = save_spec(h, ops[0].0);
        apply_ops((ops[0].1, saved.1, saved.2), ops.drop_first())
    }
}

proof fn lemma_apply_ops_stack(h: HistoryView, ops: Seq<(Seq<char>, OverlayView)>)
    requires
        ops.len() > 0,
    ensures
        apply_ops(h, ops).1.len() == h.1.len() + ops.len(),
        apply_ops(h, ops).1.subrange(0, h.1.len() as int) == h.1,
        apply_ops(h, ops).1[h.1.len() as int].0 == h.0,
    decreases ops.len(),
{
    let saved = save_spec(h, ops[0].0);
    let h1 = (ops[0].1, saved.1, saved.2);
    assert(apply_ops(h, ops) == apply_ops(h1, ops.drop_first()));
    if ops.len() > 1 {
        lemma_apply_ops_stack(h1, ops.drop_first());
        let r = apply_ops(h1, ops.drop_first()).1;
        assert(r.subrange(0, h1.1.len() as int) == h1.1);
        assert(r.subrange(0, h.1.len() as int) =~= h1.1.subrange(0, h.1.len() as int));
        assert(h1.1.subrange(0, h.1.len() as int) =~= h.1);
        assert(r[h.1.len() as int] == r.subrange(0, h1.1.len() as int)[h.1.len() as int]);
    } else {
        assert(ops.drop_first().len() == 0);
        assert(apply_ops(h1, ops.drop_first()) == h1);
        assert(h1.1.subrange(0, h.1.len() as int) =~= h.1);
    }
}

proof fn lemma_undo_n_pops(h: HistoryView, k: nat)
    requires
        k <= h.1.len(),
    ensures
        undo_n(h, k).1 == h.1.subrange(0, h.1.len() - k),
        k > 0 ==> undo_n(h, k).0 == h.1[h.1.len() - k].0,
        k == 0 ==> undo_n(h, k).0 == h.0,
    decreases k,
{
    if k > 0 {
        let u = undo_spec(h);
        lemma_undo_n_pops(u, (k - 1) as nat);
        assert(u.1 =~= h.1.subrange(0, h.1.len() - 1));
        assert(u.1.subrange(0, u.1.len() - (k - 1)) =~= h.1.subrange(0, h.1.len() - k));
    }
}

/// Undoing `k` times after `k` saved operations restores the overlays as
/// they were before the first of them, and leaves the undo stack as it was.
pub proof fn lemma_undo_restores(h: HistoryView, ops: Seq<(Seq<char>, OverlayView)>)
    ensures
        undo_n(apply_ops(h, ops), ops.len()).0 == h.0,
        undo_n(apply_ops(h, ops), ops.len()).1 == h.1,
{
    if ops.len() == 0 {
        assert(undo_n(apply_ops(h, ops), 0) == h);
    } else {
        lemma_apply_ops_stack(h, ops);
        let a = apply_ops(h, ops);
        lemma_undo_n_pops(a, ops.len());
        assert(a.1.subrange(0, a.1.len() - ops.len()) =~= a.1.subrange(0, h.1.len() as int));
    }
}

/// One redo after one undo restores the overlays and both stacks as they
/// were before the undo.
pub proof fn lemma_redo_after_undo(h: HistoryView)
    requires
        h.1.len() > 0,
    ensures
        redo_spec(undo_spec(h)) == h,
{
    let u = undo_spec(h);
    assert(u.2.drop_last() =~= h.2);
    assert(h.1.drop_last().push(h.1[h.1.len() - 1]) =~= h.1);
}

/// Copies a list of ids.
pub fn copy_ids(v: &Vec<CommitId>) -> (r: Vec<CommitId>)
    ensures
        r@ == v@,
{
    let mut r: Vec<CommitId> = Vec::new();
    let mut i: usize = 0;
    while i < v.len()
        invariant
            i <= v@.len(),
            r@ == v@.subrange(0, i as int),
        decreases v.len() - i,
    {
        r.push(v[i]);
        i = i + 1;
        assert(r@ =~= v@.subrange(0, i as int));
    }
    assert(r@ =~= v@);
    r
}

/// Copies the overlay list.
pub fn copy_modifications(v: &Vec<(CommitId, CommitModifications)>) -> (r: Vec<
    (CommitId, CommitModifications),
>)
    ensures
        r@ == v@,
{
    let mut r: Vec<(CommitId, CommitModifications)> = Vec::new();
    let mut i: usize = 0;
    while i < v.len()
        invariant
            i <= v@.len(),
            r@ == v@.subrange(0, i as int),
        decreases v.len() - i,
    {
        r.push((v[i].0, v[i].1.duplicate()));
        i = i + 1;
        assert(r@ =~= v@.subrange(0, i as int));
    }
    assert(r@ =~= v@);
    r
}

/// Adds `id` to a list used as a set.
pub fn insert_id(v: &mut Vec<CommitId>, id: CommitId)
    ensures
        final(v)@.contains(id),
        forall|x: CommitId| x != id ==> (final(v)@.contains(x) <==> old(v)@.contains(x)),
        old(v)@.contains(id) ==> final(v)@ == old(v)@,
        !old(v)@.contains(id) ==> final(v)@ == old(v)@.push(id),
        old(v)@.no_duplicates() ==> final(v)@.no_duplicates(),
{
    let ghost old_v = v@;
    if !contains_id(v, id) {
        v.push(id);
        proof {
            assert(v@[old_v.len() as int] == id);
            assert forall|x: CommitId| x != id implies (v@.contains(x) <==> old_v.contains(x)) by {
                if old_v.contains(x) {
                    let k = choose|k: int| 0 <= k < old_v.len() && old_v[k] == x;
                    assert(v@[k] == x);
                }
                if v@.contains(x) {
                    let k = choose|k: int| 0 <= k < v@.len() && v@[k] == x;
                    assert(old_v[k] == x);
                }
            }
        }
    }
}

/// Removes every occurrence of `id` from a list used as a set.
pub fn remove_id(v: &mut Vec<CommitId>, id: CommitId)
    ensures
        !final(v)@.contains(id),
        forall|x: CommitId| x != id ==> (final(v)@.contains(x) <==> old(v)@.contains(x)),
        final(v)@ == old(v)@.filter(|x: CommitId| x != id),
        old(v)@.no_duplicates() ==> final(v)@.no_duplicates(),
{
    let ghost start = v@;
    let mut r: Vec<CommitId> = Vec::new();
    let mut i: usize = 0;
    while i < v.len()
        invariant
            v@ == start,
            i <= v@.len(),
            r@ == start.subrange(0, i as int).filter(|x: CommitId| x != id),
            forall|x: CommitId| r@.contains(x) ==> start.subrange(0, i as int).contains(x),
            start.no_duplicates() ==> r@.no_duplicates(),
        decreases v.len() - i,
    {
        assert(start.subrange(0, i + 1).drop_last() =~= start.subrange(0, i as int));
        proof {
            reveal(Seq::filter);
        }
        let ghost r0 = r@;
        if v[i] != id {
            r.push(v[i]);
        }
        proof {
            assert forall|x: CommitId| r@.contains(x) implies start.subrange(0, i + 1).contains(x) by {
                if r0.contains(x) {
                    let k = choose|k: int| 0 <= k < i && start.subrange(0, i as int)[k] == x;
                    assert(start.subrange(0, i + 1)[k] == x);
                } else {
                    assert(start.subrange(0, i + 1)[i as int] == x);
                }
            }
            if start.no_duplicates() && r@.len() > r0.len() {
                if r0.contains(start[i as int]) {
                    let k = choose|k: int| 0 <= k < i && start.subrange(0, i as int)[k] == start[i as int];
                    assert(start[k] == start[i as int]);
                }
                assert forall|a: int, b: int| 0 <= a < b < r@.len() implies r@[a] != r@[b] by {
                    if b == r0.len() {
                        assert(r0[a] == r@[a]);
                        assert(r0.contains(r@[a]));
                    } else {
                        assert(r0[a] == r@[a] && r0[b] == r@[b]);
                    }
                }
            }
        }
        i = i + 1;
    }
    assert(start.subrange(0, start.len() as int) =~= start);
    *v = r;
    proof {
        let p = |x: CommitId| x != id;
        assert forall|x: CommitId| x != id implies (v@.contains(x) <==> start.contains(x)) by {
            if start.contains(x) {
                let k = choose|k: int| 0 <= k < start.len() && start[k] == x;
                start.lemma_filter_contains(p, k);
            }
            if v@.contains(x) {
                start.lemma_filter_contains_rev(p, x);
            }
        }
        if v@.contains(id) {
            let k = choose|k: int| 0 <= k < v@.len() && v@[k] == id;
            start.lemma_filter_pred(p, k);
        }
    }
}

/// Whether some overlay in the list changes something.
pub open spec fn any_modified(m: Seq<(CommitId, CommitModifications)>) -> bool {
    exists|i: int| 0 <= i < m.len() && !(#[trigger] m[i]).1.is_empty_spec()
}

/// Number of overlays in the list that change something.
pub open spec fn modified_entries(m: Seq<(CommitId, CommitModifications)>) -> nat
    decreases m.len(),
{
    if m.len() == 0 {
        0
    } else {
        modified_entries(m.drop_last()) + if m[m.len() - 1].1.is_empty_spec() {
            0nat
        } else {
            1nat
        }
    }
}

/// Whether some overlay in the list changes something.
pub fn has_modifications(modifications: &Vec<(CommitId, CommitModifications)>) -> (r: bool)
    ensures
        r == any_modified(modifications@),
{
    let mut i: usize = 0;
    while i < modifications.len()
        invariant
            i <= modifications@.len(),
            forall|j: int| 0 <= j < i ==> (#[trigger] modifications@[j]).1.is_empty_spec(),
        decreases modifications.len() - i,
    {
        if modifications[i].1.has_modifications() {
            return true;
        }
        i = i + 1;
    }
    false
}

/// Number of overlays that change something.
pub fn count_modified_commits(modifications: &Vec<(CommitId, CommitModifications)>) -> (r: usize)
    ensures
        r == modified_entries(modifications@),
{
    let mut count: usize = 0;
    let mut i: usize = 0;
    while i < modifications.len()
        invariant
            i <= modifications@.len(),
            count == modified_entries(modifications@.subrange(0, i as int)),
            count <= i,
        decreases modifications.len() - i,
    {
        assert(modifications@.subrange(0, i + 1).drop_last() =~= modifications@.subrange(0, i as int));
        if modifications[i].1.has_modifications() {
            count = count + 1;
        }
        i = i + 1;
    }
    assert(modifications@.subrange(0, modifications@.len() as int) =~= modifications@);
    count
}

/// Whether the order differs from the original one.
pub fn order_changed(original_order: &Vec<CommitId>, new_order: &Vec<CommitId>) -> (r: bool)
    ensures
        r == (original_order@ != new_order@),
{
    if original_order.len() != new_order.len() {
        return true;
    }
    let mut i: usize = 0;
    while i < original_order.len()
        invariant
            i <= original_order@.len(),
            original_order@.len() == new_order@.len(),
            forall|j: int| 0 <= j < i ==> original_order@[j] == new_order@[j],
        decreases original_order.len() - i,
    {
        if original_order[i] != new_order[i] {
            return true;
        }
        i = i + 1;
    }
    assert(original_order@ =~= new_order@);
    false
}

proof fn lemma_swap_no_dups<T>(s: Seq<T>, a: int, b: int)
    requires
        s.no_duplicates(),
        0 <= a < s.len(),
        0 <= b < s.len(),
    ensures
        s.update(a, s[b]).update(b, s[a]).no_duplicates(),
        s.update(a, s[b]).update(b, s[a]).to_set() == s.to_set(),
{
    let t = s.update(a, s[b]).update(b, s[a]);
    assert forall|x: T| t.to_set().contains(x) <==> s.to_set().contains(x) by {
        if t.contains(x) {
            let i = choose|i: int| 0 <= i < t.len() && t[i] == x;
            let pi = if i == b { a } else if i == a { b } else { i };
            assert(s[pi] == x);
        }
        if s.contains(x) {
            let i = choose|i: int| 0 <= i < s.len() && s[i] == x;
            let pi = if i == b { a } else if i == a { b } else { i };
            assert(t[pi] == x);
        }
    }
    assert(t.to_set() =~= s.to_set());
    assert forall|i: int, j: int| 0 <= i < j < t.len() implies t[i] != t[j] by {
        let pi = if i == b { a } else if i == a { b } else { i };
        let pj = if j == b { a } else if j == a { b } else { j };
        assert(t[i] == s[pi]);
        assert(t[j] == s[pj]);
    }
}

proof fn lemma_commit_for_id(c: Seq<CommitData>, id: CommitId)
    ensures
        commit_for(c, id) matches Some(x) ==> x.id == id,
    decreases c.len(),
{
    if c.len() > 0 && c[0].id != id {
        lemma_commit_for_id(c.drop_first(), id);
    }
}

proof fn lemma_rebuilt_from_order(order: Seq<CommitId>, commits: Seq<CommitData>)
    ensures
        forall|x: CommitId| rebuilt(order, commits).contains(x) ==> order.contains(x),
        order.no_duplicates() ==> rebuilt(order, commits).no_duplicates(),
    decreases order.len(),
{
    if order.len() > 0 {
        let init = order.drop_last();
        let last = order[order.len() - 1];
        lemma_rebuilt_from_order(init, commits);
        lemma_commit_for_id(commits, last);
        let prev = rebuilt(init, commits);
        let tail: Seq<CommitId> = match commit_for(commits, last) {
            Some(c) => seq![c.id],
            None => Seq::empty(),
        };
        let r = rebuilt(order, commits);
        assert(r == prev + tail);
        assert forall|k: int| 0 <= k < tail.len() implies tail[k] == last by {}
        assert forall|x: CommitId| r.contains(x) implies order.contains(x) by {
            let k = choose|k: int| 0 <= k < r.len() && r[k] == x;
            if k < prev.len() {
                assert(prev[k] == x);
                assert(prev.contains(x));
                assert(init.contains(x));
                let m = choose|m: int| 0 <= m < init.len() && init[m] == x;
                assert(order[m] == x);
            } else {
                assert(tail[k - prev.len()] == x);
                assert(order[order.len() - 1] == x);
            }
        }
        if order.no_duplicates() {
            assert(init.no_duplicates()) by {
                assert forall|i: int, j: int| 0 <= i < j < init.len() implies init[i] != init[j] by {
                    assert(init[i] == order[i] && init[j] == order[j]);
                }
            }
            assert(!prev.contains(last)) by {
                if prev.contains(last) {
                    assert(init.contains(last));
                    let m = choose|m: int| 0 <= m < init.len() && init[m] == last;
                    assert(order[m] == order[order.len() - 1]);
                }
            }
            assert forall|i: int, j: int| 0 <= i < j < r.len() implies r[i] != r[j] by {
                if j >= prev.len() {
                    assert(r[i] == prev[i]);
                    assert(prev.contains(r[i]));
                    assert(r[j] == tail[j - prev.len()]);
                } else {
                    assert(r[i] == prev[i] && r[j] == prev[j]);
                }
            }
        }
    }
}

/// The loaded commits rearranged to follow `order`; ids with no loaded
/// commit are left out.
pub open spec fn rebuilt(order: Seq<CommitId>, commits: Seq<CommitData>) -> Seq<CommitId>
    decreases order.len(),
{
    if order.len() == 0 {
        Seq::empty()
    } else {
        rebuilt(order.drop_last(), commits) + match commit_for(commits, order[order.len() - 1]) {
            Some(c) => seq![c.id],
            None => Seq::empty(),
        }
    }
}

/// The overlays make the session dirty: an overlay changes something, a
/// commit is marked deleted, or the order differs from the original.
pub open spec fn overlay_dirty(v: OverlayView, original: Seq<CommitId>) -> bool {
    any_modified(v.1) || v.2.len() > 0 || v.0 != original
}

/// A session with no effective overlay, no deletion and the original order is
/// clean; a change to any one of the three makes it dirty.
pub proof fn lemma_dirty_detection(v: OverlayView, original: Seq<CommitId>)
    ensures
        (!any_modified(v.1) && v.2.len() == 0 && v.0 == original) ==> !overlay_dirty(v, original),
        any_modified(v.1) ==> overlay_dirty(v, original),
        v.2.len() > 0 ==> overlay_dirty(v, original),
        v.0 != original ==> overlay_dirty(v, original),
{
}

/// Some loaded commit is neither deleted nor among `targets`.
pub open spec fn spares_one(commits: Seq<CommitData>, deleted: Seq<CommitId>, targets: Seq<CommitId>) -> bool {
    exists|i: int| 0 <= i < commits.len() && !deleted.contains(commits[i].id) && !targets.contains(commits[i].id)
}

/// Whether marking `targets` deleted would leave a loaded commit (see [`spares_one`]).
pub fn has_survivor(commits: &Vec<CommitData>, deleted: &Vec<CommitId>, targets: &Vec<CommitId>) -> (r: bool)
    ensures
        r == spares_one(commits@, deleted@, targets@),
{
    let mut i: usize = 0;
    while i < commits.len()
        invariant
            i <= commits@.len(),
            forall|k: int|
                0 <= k < i ==> deleted@.contains(commits@[k].id) || targets@.contains(commits@[k].id),
        decreases commits.len() - i,
    {
        if !contains_id(deleted, commits[i].id) && !contains_id(targets, commits[i].id) {
            return true;
        }
        i = i + 1;
    }
    false
}

/// How a deletion toggle ended.
#[derive(Debug, Clone, Copy, PartialEq, Eq, Structural)]
pub enum DeletionOutcome {
    /// There was no target.
    NoTarget,
    /// Marking would have left no commit; nothing changed.
    WouldDeleteAll,
    /// This many targets were marked deleted.
    Marked(usize),
    /// This many targets were restored.
    Restored(usize),
}

/// Why a reordering did or did not happen.
#[derive(Debug, Clone, Copy, PartialEq, Eq, Structural)]
pub enum MoveOutcome {
    Moved,
    /// A search filter is active.
    Filtered,
    /// The commit is already at that end.
    AtEdge,
    /// The focused commit is a merge commit.
    MergeCommit,
}

/// The state of an editing session. The repository is never touched here.
pub struct AppState {
    /// The loaded commits, in display order (newest first).
    pub commits: Vec<CommitData>,
    pub original_order: Vec<CommitId>,
    pub current_order: Vec<CommitId>,
    /// One overlay per edited commit.
    pub modifications: Vec<(CommitId, CommitModifications)>,
    /// Checkbox selection, used as a set.
    pub selected: Vec<CommitId>,
    /// Commits marked for deletion, used as a set.
    pub deleted: Vec<CommitId>,
    /// Row of the cursor among the visible commits.
    pub cursor: usize,
    pub mode: AppMode,
    pub search_query: String,
    /// Positions in `commits` that match the search; `None` shows all.
    pub filtered_indices: Option<Vec<usize>>,
    pub undo_stack: Vec<UndoSnapshot>,
    pub redo_stack: Vec<UndoSnapshot>,
    pub scroll_offset: usize,
    pub h_scroll_offset: usize,
    pub column_index: usize,
    pub branch_name: String,
    pub has_upstream: bool,
    pub error_message: Option<String>,
    pub success_message: Option<String>,
    pub edit_buffer: String,
    pub edit_original: String,
    pub edit_cursor: usize,
    /// Rows captured by a visual-mode edit; cleared when the edit completes.
    pub visual_edit_targets: Option<Vec<CommitId>>,
    pub detail_scroll: usize,
    pub detail_max_scroll: usize,
    /// Editing an author field also writes the matching committer field.
    pub sync_author_to_committer: bool,
    pub help_scroll: usize,
}

/// Rows assumed visible until the real table height is known.
pub const DEFAULT_VISIBLE_HEIGHT: usize = 20;

/// The commits at the given positions, skipping positions out of range.
pub open spec fn pick(commits: Seq<CommitData>, idx: Seq<usize>) -> Seq<CommitData>
    decreases idx.len(),
{
    if idx.len() == 0 {
        Seq::empty()
    } else {
        pick(commits, idx.drop_last()) + if idx[idx.len() - 1] < commits.len() {
            seq![commits[idx[idx.len() - 1] as int]]
        } else {
            Seq::empty()
        }
    }
}

/// The ids of the commits, in order.
pub open spec fn ids_of(c: Seq<CommitData>) -> Seq<CommitId> {
    c.map_values(|x: CommitData| x.id)
}

/// At most one overlay per commit id.
pub open spec fn keys_unique(m: Seq<(CommitId, CommitModifications)>) -> bool {
    forall|i: int, j: int| 0 <= i < j < m.len() ==> m[i].0 != m[j].0
}

impl UndoSnapshot {
    /// The saved order and deletion set hold each id once, with one overlay per id.
    pub open spec fn wf(self) -> bool {
        &&& self.commit_order@.no_duplicates()
        &&& keys_unique(self.modifications@)
        &&& self.deleted@.no_duplicates()
    }
}

/// `a` and `b` hold the same commits, overlays, history, selection, filter,
/// targets and mode; positions and scrolling may differ.
pub open spec fn data_frame(a: AppState, b: AppState) -> bool {
    &&& a.commits@ == b.commits@
    &&& a.original_order@ == b.original_order@
    &&& a.current_order@ == b.current_order@
    &&& a.modifications@ == b.modifications@
    &&& a.deleted@ == b.deleted@
    &&& a.selected@ == b.selected@
    &&& a.undo_stack@ == b.undo_stack@
    &&& a.redo_stack@ == b.redo_stack@
    &&& a.filtered_indices == b.filtered_indices
    &&& a.visual_edit_targets == b.visual_edit_targets
    &&& a.mode == b.mode
    &&& a.sync_author_to_committer == b.sync_author_to_committer
}

/// `a` and `b` hold the same commits, order, overlays, checkbox selection,
/// history and cursor; deletions, filter, targets and mode may differ.
pub open spec fn session_frame(a: AppState, b: AppState) -> bool {
    &&& a.commits@ == b.commits@
    &&& a.original_order@ == b.original_order@
    &&& a.current_order@ == b.current_order@
    &&& a.modifications@ == b.modifications@
    &&& a.selected@ == b.selected@
    &&& a.undo_stack@ == b.undo_stack@
    &&& a.redo_stack@ == b.redo_stack@
    &&& a.sync_author_to_committer == b.sync_author_to_committer
    &&& a.cursor == b.cursor
    &&& a.column_index == b.column_index
}

impl AppState {
    /// Number of table columns: selection, hash, name, email, date, message.
    pub const NUM_COLUMNS: usize = 6;

    /// The session's invariant: commit ids are unique; the orders, the
    /// checkbox set and the deletion set hold each id once; the current order
    /// (and every saved one) is a permutation of the original; one overlay
    /// per commit; and every saved snapshot obeys the same.
    pub open spec fn wf(&self) -> bool {
        &&& ids_of(self.commits@).no_duplicates()
        &&& self.original_order@.no_duplicates()
        &&& self.current_order@.no_duplicates()
        &&& self.selected@.no_duplicates()
        &&& self.deleted@.no_duplicates()
        &&& keys_unique(self.modifications@)
        &&& self.current_order@.to_set() == self.original_order@.to_set()
        &&& forall|i: int| 0 <= i < self.undo_stack@.len() ==> (#[trigger] self.undo_stack@[i]).wf()
            && self.undo_stack@[i].commit_order@.to_set() == self.original_order@.to_set()
        &&& forall|i: int| 0 <= i < self.redo_stack@.len() ==> (#[trigger] self.redo_stack@[i]).wf()
            && self.redo_stack@[i].commit_order@.to_set() == self.original_order@.to_set()
    }

    pub open spec fn overlays(&self) -> OverlayView {
        (self.current_order@, self.modifications@, self.deleted@)
    }

    pub open spec fn history(&self) -> HistoryView {
        (self.overlays(), snaps(self.undo_stack@), snaps(self.redo_stack@))
    }

    pub open spec fn visible_spec(&self) -> Seq<CommitData> {
        match self.filtered_indices {
            Some(idx) => pick(self.commits@, idx@),
            None => self.commits@,
        }
    }

    pub open spec fn cursor_commit_spec(&self) -> Option<CommitData> {
        match self.filtered_indices {
            Some(idx) => if self.cursor < idx@.len() && idx@[self.cursor as int] < self.commits@.len() {
                Some(self.commits@[idx@[self.cursor as int] as int])
            } else {
                None
            },
            None => if self.cursor < self.commits@.len() {
                Some(self.commits@[self.cursor as int])
            } else {
                None
            },
        }
    }

    /// A fresh session over the loaded commits: the original order is their
    /// order, no overlay, no selection, author edits sync to the committer.
    pub fn new(commits: Vec<CommitData>, branch_name: String, has_upstream: bool) -> (r: AppState)
        ensures
            r.commits@ == commits@,
            r.original_order@ == commits@.map_values(|c: CommitData| c.id),
            r.current_order@ == r.original_order@,
            r.modifications@.len() == 0,
            r.selected@.len() == 0,
            r.deleted@.len() == 0,
            r.undo_stack@.len() == 0,
            r.redo_stack@.len() == 0,
            r.cursor == 0,
            r.mode == AppMode::Normal,
            r.filtered_indices is None,
            r.visual_edit_targets is None,
            r.branch_name == branch_name,
            r.has_upstream == has_upstream,
            r.sync_author_to_committer,
            ids_of(commits@).no_duplicates() ==> r.wf(),
    {
        let mut original_order: Vec<CommitId> = Vec::new();
        let mut i: usize = 0;
        while i < commits.len()
            invariant
                i <= commits@.len(),
                original_order@ == commits@.subrange(0, i as int).map_values(|c: CommitData| c.id),
            decreases commits.len() - i,
        {
            original_order.push(commits[i].id);
            i = i + 1;
            assert(original_order@ =~= commits@.subrange(0, i as int).map_values(|c: CommitData| c.id));
        }
        assert(commits@.subrange(0, commits@.len() as int) =~= commits@);
        assert(original_order@ =~= ids_of(commits@));
        let current_order = copy_ids(&original_order);
        AppState {
            commits,
            original_order,
            current_order,
            modifications: Vec::new(),
            selected: Vec::new(),
            deleted: Vec::new(),
            cursor: 0,
            mode: AppMode::Normal,
            search_query: String::new(),
            filtered_indices: None,
            undo_stack: Vec::new(),
            redo_stack: Vec::new(),
            scroll_offset: 0,
            h_scroll_offset: 0,
            column_index: 0,
            branch_name,
            has_upstream,
            error_message: None,
            success_message: None,
            edit_buffer: String::new(),
            edit_original: String::new(),
            edit_cursor: 0,
            visual_edit_targets: None,
            detail_scroll: 0,
            detail_max_scroll: 0,
            sync_author_to_committer: true,
            help_scroll: 0,
        }
    }

    pub fn set_sync_author_to_committer(&mut self, sync: bool)
        ensures
            old(self).wf() ==> final(self).wf(),
            final(self).sync_author_to_committer == sync,
    {
        self.sync_author_to_committer = sync;
    }

    pub fn detail_scroll_up(&mut self, amount: usize)
        ensures
            old(self).wf() ==> final(self).wf(),
            data_frame(*final(self), *old(self)),
            final(self).cursor == old(self).cursor,
            final(self).detail_scroll == if old(self).detail_scroll >= amount {
                old(self).detail_scroll - amount
            } else {
                0
            },
    {
        self.detail_scroll = if self.detail_scroll >= amount {
            self.detail_scroll - amount
        } else {
            0
        };
    }

    /// Scrolls down, never past `detail_max_scroll`.
    pub fn detail_scroll_down(&mut self, amount: usize)
        ensures
            old(self).wf() ==> final(self).wf(),
            data_frame(*final(self), *old(self)),
            final(self).cursor == old(self).cursor,
            final(self).detail_scroll == vstd::math::min(
                old(self).detail_scroll + amount,
                old(self).detail_max_scroll as int,
            ),
    {
        if amount >= self.detail_max_scroll || self.detail_scroll >= self.detail_max_scroll - amount {
            self.detail_scroll = self.detail_max_scroll;
        } else {
            self.detail_scroll = self.detail_scroll + amount;
        }
    }

    pub fn reset_detail_scroll(&mut self)
        ensures
            old(self).wf() ==> final(self).wf(),
            final(self).scroll_offset == old(self).scroll_offset,
            data_frame(*final(self), *old(self)),
            final(self).cursor == old(self).cursor,
            final(self).detail_scroll == 0,
    {
        self.detail_scroll = 0;
    }

    pub fn help_scroll_up(&mut self, amount: usize)
        ensures
            old(self).wf() ==> final(self).wf(),
            data_frame(*final(self), *old(self)),
            final(self).cursor == old(self).cursor,
            final(self).help_scroll == if old(self).help_scroll >= amount {
                old(self).help_scroll - amount
            } else {
                0
            },
    {
        self.help_scroll = if self.help_scroll >= amount {
            self.help_scroll - amount
        } else {
            0
        };
    }

    pub fn help_scroll_down(&mut self, amount: usize, max_scroll: usize)
        ensures
            old(self).wf() ==> final(self).wf(),
            data_frame(*final(self), *old(self)),
            final(self).cursor == old(self).cursor,
            final(self).help_scroll == vstd::math::min(old(self).help_scroll + amount, max_scroll as int),
    {
        if amount >= max_scroll || self.help_scroll >= max_scroll - amount {
            self.help_scroll = max_scroll;
        } else {
            self.help_scroll = self.help_scroll + amount;
        }
    }

    pub fn reset_help_scroll(&mut self)
        ensures
            old(self).wf() ==> final(self).wf(),
            data_frame(*final(self), *old(self)),
            final(self).cursor == old(self).cursor,
            final(self).help_scroll == 0,
    {
        self.help_scroll = 0;
    }

    pub fn cursor_row(&self) -> (r: usize)
        ensures
            r == self.cursor,
    {
        self.cursor
    }

    pub fn cursor_column(&self) -> (r: usize)
        ensures
            r == self.column_index,
    {
        self.column_index
    }

    pub fn cursor_position(&self) -> (r: (usize, usize))
        ensures
            r == (self.cursor, self.column_index),
    {
        (self.cursor, self.column_index)
    }

    pub fn is_cursor_on_row(&self, row: usize) -> (r: bool)
        ensures
            r == (self.cursor == row),
    {
        self.cursor == row
    }

    pub fn is_cursor_on_column(&self, column: usize) -> (r: bool)
        ensures
            r == (self.column_index == column),
    {
        self.column_index == column
    }

    pub fn is_cursor_on_cell(&self, row: usize, column: usize) -> (r: bool)
        ensures
            r == (self.cursor == row && self.column_index == column),
    {
        self.cursor == row && self.column_index == column
    }

    /// Columns from the name onwards can be edited.
    pub fn is_cursor_on_editable_column(&self) -> (r: bool)
        ensures
            r == (self.column_index >= 2),
    {
        self.column_index >= 2
    }

    /// Number of visible commits.
    pub fn visible_len(&self) -> (r: usize)
        ensures
            r == self.visible_spec().len(),
    {
        match &self.filtered_indices {
            Some(idx) => {
                let mut count: usize = 0;
                let mut i: usize = 0;
                while i < idx.len()
                    invariant
                        i <= idx@.len(),
                        count == pick(self.commits@, idx@.subrange(0, i as int)).len(),
                        count <= i,
                    decreases idx.len() - i,
                {
                    assert(idx@.subrange(0, i + 1).drop_last() =~= idx@.subrange(0, i as int));
                    if idx[i] < self.commits.len() {
                        count = count + 1;
                    }
                    i = i + 1;
                }
                assert(idx@.subrange(0, idx@.len() as int) =~= idx@);
                count
            },
            None => self.commits.len(),
        }
    }

    /// The visible commits: the filtered ones, or all.
    pub fn visible_commits(&self) -> (r: Vec<&CommitData>)
        ensures
            r@.len() == self.visible_spec().len(),
            forall|i: int| 0 <= i < r@.len() ==> *r@[i] == self.visible_spec()[i],
    {
        let mut r: Vec<&CommitData> = Vec::new();
        match &self.filtered_indices {
            Some(idx) => {
                let mut i: usize = 0;
                while i < idx.len()
                    invariant
                        i <= idx@.len(),
                        self.filtered_indices == Some(*idx),
                        r@.len() == pick(self.commits@, idx@.subrange(0, i as int)).len(),
                        forall|j: int|
                            0 <= j < r@.len() ==> *r@[j] == pick(self.commits@, idx@.subrange(0, i as int))[j],
                    decreases idx.len() - i,
                {
                    assert(idx@.subrange(0, i + 1).drop_last() =~= idx@.subrange(0, i as int));
                    if idx[i] < self.commits.len() {
                        r.push(&self.commits[idx[i]]);
                    }
                    i = i + 1;
                }
                assert(idx@.subrange(0, idx@.len() as int) =~= idx@);
            },
            None => {
                let mut i: usize = 0;
                while i < self.commits.len()
                    invariant
                        i <= self.commits@.len(),
                        self.filtered_indices is None,
                        r@.len() == i,
                        forall|j: int| 0 <= j < i ==> *r@[j] == self.commits@[j],
                    decreases self.commits.len() - i,
                {
                    r.push(&self.commits[i]);
                    i = i + 1;
                }
            },
        }
        r
    }

    /// The commit under the cursor, if any.
    pub fn cursor_commit(&self) -> (r: Option<&CommitData>)
        ensures
            r is None <==> self.cursor_commit_spec() is None,
            r matches Some(c) ==> self.cursor_commit_spec() == Some(*c),
    {
        match &self.filtered_indices {
            Some(idx) => {
                if self.cursor < idx.len() && idx[self.cursor] < self.commits.len() {
                    Some(&self.commits[idx[self.cursor]])
                } else {
                    None
                }
            },
            None => {
                if self.cursor < self.commits.len() {
                    Some(&self.commits[self.cursor])
                } else {
                    None
                }
            },
        }
    }

    /// The id of the commit under the cursor, if any.
    pub fn cursor_commit_id(&self) -> (r: Option<CommitId>)
        ensures
            r is None <==> self.cursor_commit_spec() is None,
            r matches Some(id) ==> self.cursor_commit_spec()->Some_0.id == id,
    {
        match self.cursor_commit() {
            Some(c) => Some(c.id),
            None => None,
        }
    }

    /// Whether the commit has an overlay that changes something.
    pub fn is_modified(&self, id: CommitId) -> (r: bool)
        ensures
            r == (mods_for(self.modifications@, id) matches Some(m) && !m.is_empty_spec()),
    {
        match find_modifications(&self.modifications, id) {
            Some(i) => self.modifications[i].1.has_modifications(),
            None => false,
        }
    }

    pub fn is_selected(&self, id: CommitId) -> (r: bool)
        ensures
            r == self.selected@.contains(id),
    {
        contains_id(&self.selected, id)
    }

    pub fn is_deleted(&self, id: CommitId) -> (r: bool)
        ensures
            r == self.deleted@.contains(id),
    {
        contains_id(&self.deleted, id)
    }

    pub fn mark_deleted(&mut self, id: CommitId)
        ensures
            old(self).wf() ==> final(self).wf(),
            final(self).deleted@.contains(id),
            forall|x: CommitId| x != id ==> (final(self).deleted@.contains(x) <==> old(self).deleted@.contains(x)),
            session_frame(*final(self), *old(self)),
            final(self).filtered_indices == old(self).filtered_indices,
            final(self).visual_edit_targets == old(self).visual_edit_targets,
            final(self).mode == old(self).mode,
    {
        insert_id(&mut self.deleted, id);
    }

    pub fn unmark_deleted(&mut self, id: CommitId)
        ensures
            old(self).wf() ==> final(self).wf(),
            !final(self).deleted@.contains(id),
            forall|x: CommitId| x != id ==> (final(self).deleted@.contains(x) <==> old(self).deleted@.contains(x)),
            session_frame(*final(self), *old(self)),
            final(self).filtered_indices == old(self).filtered_indices,
            final(self).visual_edit_targets == old(self).visual_edit_targets,
            final(self).mode == old(self).mode,
    {
        remove_id(&mut self.deleted, id);
    }

    pub fn deleted_count(&self) -> (r: usize)
        ensures
            r == self.deleted@.len(),
    {
        self.deleted.len()
    }

    pub fn clear_deletions(&mut self)
        ensures
            old(self).wf() ==> final(self).wf(),
            final(self).deleted@.len() == 0,
            session_frame(*final(self), *old(self)),
            final(self).filtered_indices == old(self).filtered_indices,
            final(self).visual_edit_targets == old(self).visual_edit_targets,
            final(self).mode == old(self).mode,
    {
        self.deleted = Vec::new();
    }

    /// Flips the checkbox of the commit under the cursor.
    pub fn toggle_selection(&mut self)
        ensures
            old(self).wf() ==> final(self).wf(),
            old(self).cursor_commit_spec() is None ==> final(self).selected@ == old(self).selected@,
            old(self).cursor_commit_spec() matches Some(c) ==> (final(self).selected@.contains(c.id)
                <==> !old(self).selected@.contains(c.id)),
            forall|x: CommitId|
                !(old(self).cursor_commit_spec() matches Some(c) && c.id == x)
                    ==> (final(self).selected@.contains(x) <==> old(self).selected@.contains(x)),
    {
        match self.cursor_commit_id() {
            Some(id) => {
                if contains_id(&self.selected, id) {
                    remove_id(&mut self.selected, id);
                } else {
                    insert_id(&mut self.selected, id);
                }
            },
            None => {},
        }
    }

    /// Checks every visible commit.
    pub fn select_all(&mut self)
        ensures
            old(self).wf() ==> final(self).wf(),
            forall|i: int|
                0 <= i < old(self).visible_spec().len() ==> final(self).selected@.contains(
                    #[trigger] old(self).visible_spec()[i].id,
                ),
            forall|x: CommitId|
                old(self).selected@.contains(x) ==> final(self).selected@.contains(x),
            forall|x: CommitId|
                final(self).selected@.contains(x) ==> old(self).selected@.contains(x) || exists|i: int|
                    0 <= i < old(self).visible_spec().len() && old(self).visible_spec()[i].id == x,
    {
        let ghost vis = self.visible_spec();
        let ids = {
            let visible = self.visible_commits();
            let mut ids: Vec<CommitId> = Vec::new();
            let mut i: usize = 0;
            while i < visible.len()
                invariant
                    old(self).wf() ==> self.wf(),
                    i <= visible@.len(),
                    visible@.len() == vis.len(),
                    forall|j: int| 0 <= j < visible@.len() ==> *visible@[j] == vis[j],
                    ids@.len() == i,
                    forall|j: int| 0 <= j < i ==> ids@[j] == vis[j].id,
                decreases visible.len() - i,
            {
                ids.push(visible[i].id);
                i = i + 1;
            }
            ids
        };
        let mut i: usize = 0;
        while i < ids.len()
            invariant
                old(self).wf() ==> self.wf(),
                i <= ids@.len(),
                ids@.len() == vis.len(),
                forall|j: int| 0 <= j < ids@.len() ==> ids@[j] == vis[j].id,
                forall|j: int| 0 <= j < i ==> self.selected@.contains(#[trigger] vis[j].id),
                forall|x: CommitId| old(self).selected@.contains(x) ==> self.selected@.contains(x),
                forall|x: CommitId|
                    self.selected@.contains(x) ==> old(self).selected@.contains(x) || exists|j: int|
                        0 <= j < vis.len() && vis[j].id == x,
            decreases ids.len() - i,
        {
            insert_id(&mut self.selected, ids[i]);
            i = i + 1;
        }
    }

    pub fn deselect_all(&mut self)
        ensures
            old(self).wf() ==> final(self).wf(),
            final(self).selected@.len() == 0,
    {
        self.selected = Vec::new();
    }

    fn snapshot(&self, description: String) -> (r: UndoSnapshot)
        ensures
            r.view() == (self.overlays(), description@),
    {
        UndoSnapshot {
            commit_order: copy_ids(&self.current_order),
            modifications: copy_modifications(&self.modifications),
            deleted: copy_ids(&self.deleted),
            description,
        }
    }

    /// Saves the overlays before a change; the redo stack is emptied.
    pub fn save_undo(&mut self, description: &str)
        ensures
            old(self).wf() ==> final(self).wf(),
            final(self).history() == save_spec(old(self).history(), description@),
            final(self).commits@ == old(self).commits@,
            final(self).original_order@ == old(self).original_order@,
            final(self).cursor == old(self).cursor,
            final(self).selected@ == old(self).selected@,
            final(self).filtered_indices == old(self).filtered_indices,
            final(self).visual_edit_targets == old(self).visual_edit_targets,
            final(self).mode == old(self).mode,
            final(self).sync_author_to_committer == old(self).sync_author_to_committer,
    {
        let snap = self.snapshot(String::from_str(description));
        self.undo_stack.push(snap);
        self.redo_stack = Vec::new();
        assert(snaps(self.undo_stack@) =~= snaps(old(self).undo_stack@).push(snap.view()));
        assert(snaps(self.redo_stack@) =~= Seq::<SnapView>::empty());
    }

    /// Restores the overlays saved last; false when there is nothing to undo.
    pub fn undo(&mut self) -> (r: bool)
        ensures
            old(self).wf() ==> final(self).wf(),
            r == (old(self).undo_stack@.len() > 0),
            final(self).history() == undo_spec(old(self).history()),
            final(self).original_order@ == old(self).original_order@,
            r ==> final(self).commits@.map_values(|c: CommitData| c.id) == rebuilt(
                final(self).current_order@,
                old(self).commits@,
            ),
            !r ==> final(self).commits@ == old(self).commits@,
    {
        match self.undo_stack.pop() {
            Some(snap) => {
                let current = self.snapshot(snap.description.clone());
                self.redo_stack.push(current);
                assert(snaps(self.undo_stack@) =~= snaps(old(self).undo_stack@).drop_last());
                assert(snaps(self.redo_stack@) =~= snaps(old(self).redo_stack@).push(current.view()));
                self.current_order = snap.commit_order;
                self.modifications = snap.modifications;
                self.deleted = snap.deleted;
                self.rebuild_commits_order();
                true
            },
            None => false,
        }
    }

    /// Re-applies the change undone last; false when there is nothing to redo.
    pub fn redo(&mut self) -> (r: bool)
        ensures
            old(self).wf() ==> final(self).wf(),
            r == (old(self).redo_stack@.len() > 0),
            final(self).history() == redo_spec(old(self).history()),
            final(self).original_order@ == old(self).original_order@,
            r ==> final(self).commits@.map_values(|c: CommitData| c.id) == rebuilt(
                final(self).current_order@,
                old(self).commits@,
            ),
            !r ==> final(self).commits@ == old(self).commits@,
    {
        match self.redo_stack.pop() {
            Some(snap) => {
                let current = self.snapshot(snap.description.clone());
                self.undo_stack.push(current);
                assert(snaps(self.redo_stack@) =~= snaps(old(self).redo_stack@).drop_last());
                assert(snaps(self.undo_stack@) =~= snaps(old(self).undo_stack@).push(current.view()));
                self.current_order = snap.commit_order;
                self.modifications = snap.modifications;
                self.deleted = snap.deleted;
                self.rebuild_commits_order();
                true
            },
            None => false,
        }
    }

    /// Rearranges the commit list to follow the current order.
    fn rebuild_commits_order(&mut self)
        ensures
            old(self).wf() ==> final(self).wf(),
            final(self).commits@.map_values(|c: CommitData| c.id) == rebuilt(
                old(self).current_order@,
                old(self).commits@,
            ),
            final(self).current_order@ == old(self).current_order@,
            final(self).history() == old(self).history(),
            final(self).original_order@ == old(self).original_order@,
    {
        let mut out: Vec<CommitData> = Vec::new();
        let mut i: usize = 0;
        while i < self.current_order.len()
            invariant
                i <= self.current_order@.len(),
                self.current_order@ == old(self).current_order@,
                self.commits@ == old(self).commits@,
                out@.map_values(|c: CommitData| c.id) == rebuilt(
                    self.current_order@.subrange(0, i as int),
                    self.commits@,
                ),
            decreases self.current_order.len() - i,
        {
            let ghost prefix = self.current_order@.subrange(0, i + 1);
            assert(prefix.drop_last() =~= self.current_order@.subrange(0, i as int));
            match find_commit(&self.commits, self.current_order[i]) {
                Some(k) => {
                    let c = self.commits[k].duplicate();
                    out.push(c);
                },
                None => {},
            }
            i = i + 1;
            assert(out@.map_values(|c: CommitData| c.id) =~= rebuilt(prefix, self.commits@));
        }
        assert(self.current_order@.subrange(0, self.current_order@.len() as int) =~= self.current_order@);
        self.commits = out;
        proof {
            lemma_rebuilt_from_order(old(self).current_order@, old(self).commits@);
            assert(ids_of(self.commits@) =~= self.commits@.map_values(|c: CommitData| c.id));
        }
    }

    /// Whether anything is pending (see [`overlay_dirty`]).
    pub fn is_dirty(&self) -> (r: bool)
        ensures
            r == overlay_dirty(self.overlays(), self.original_order@),
    {
        if has_modifications(&self.modifications) {
            return true;
        }
        if self.deleted.len() > 0 {
            return true;
        }
        order_changed(&self.current_order, &self.original_order)
    }

    /// Number of commits whose overlay changes something.
    pub fn modified_count(&self) -> (r: usize)
        ensures
            r == modified_entries(self.modifications@),
    {
        count_modified_commits(&self.modifications)
    }

    /// Drops every pending change and both stacks; the order returns to the original.
    pub fn clear_modifications(&mut self)
        ensures
            old(self).wf() ==> final(self).wf(),
            final(self).modifications@.len() == 0,
            final(self).deleted@.len() == 0,
            final(self).current_order@ == old(self).original_order@,
            final(self).original_order@ == old(self).original_order@,
            final(self).undo_stack@.len() == 0,
            final(self).redo_stack@.len() == 0,
            !overlay_dirty(final(self).overlays(), final(self).original_order@),
            final(self).commits@.map_values(|c: CommitData| c.id) == rebuilt(
                old(self).original_order@,
                old(self).commits@,
            ),
    {
        self.modifications = Vec::new();
        self.deleted = Vec::new();
        self.current_order = copy_ids(&self.original_order);
        self.rebuild_commits_order();
        self.undo_stack = Vec::new();
        self.redo_stack = Vec::new();
    }

    /// Starts over from a freshly loaded history after a successful rewrite.
    pub fn reset_to(&mut self, commits: Vec<CommitData>)
        ensures
            old(self).wf() && ids_of(commits@).no_duplicates() ==> final(self).wf(),
            final(self).commits@ == commits@,
            final(self).original_order@ == commits@.map_values(|c: CommitData| c.id),
            final(self).current_order@ == final(self).original_order@,
            final(self).modifications@.len() == 0,
            final(self).deleted@.len() == 0,
            final(self).undo_stack@.len() == 0,
            final(self).redo_stack@.len() == 0,
            !overlay_dirty(final(self).overlays(), final(self).original_order@),
            final(self).mode == AppMode::Normal,
    {
        let mut order: Vec<CommitId> = Vec::new();
        let mut i: usize = 0;
        while i < commits.len()
            invariant
                i <= commits@.len(),
                order@ == commits@.subrange(0, i as int).map_values(|c: CommitData| c.id),
            decreases commits.len() - i,
        {
            order.push(commits[i].id);
            i = i + 1;
            assert(order@ =~= commits@.subrange(0, i as int).map_values(|c: CommitData| c.id));
        }
        assert(commits@.subrange(0, commits@.len() as int) =~= commits@);
        assert(order@ =~= ids_of(commits@));
        self.current_order = copy_ids(&order);
        self.original_order = order;
        self.commits = commits;
        self.modifications = Vec::new();
        self.deleted = Vec::new();
        self.selected = Vec::new();
        self.filtered_indices = None;
        self.visual_edit_targets = None;
        self.cursor = 0;
        self.scroll_offset = 0;
        self.undo_stack = Vec::new();
        self.redo_stack = Vec::new();
        self.mode = AppMode::Normal;
    }

    pub fn set_error(&mut self, msg: &str)
        ensures
            old(self).wf() ==> final(self).wf(),
            final(self).error_message matches Some(m) && m@ == msg@,
            final(self).success_message is None,
            session_frame(*final(self), *old(self)),
            final(self).deleted@ == old(self).deleted@,
            final(self).filtered_indices == old(self).filtered_indices,
            final(self).visual_edit_targets == old(self).visual_edit_targets,
            final(self).mode == old(self).mode,
    {
        self.error_message = Some(String::from_str(msg));
        self.success_message = None;
    }

    pub fn set_success(&mut self, msg: &str)
        ensures
            old(self).wf() ==> final(self).wf(),
            final(self).success_message matches Some(m) && m@ == msg@,
            final(self).error_message is None,
            session_frame(*final(self), *old(self)),
            final(self).deleted@ == old(self).deleted@,
            final(self).filtered_indices == old(self).filtered_indices,
            final(self).visual_edit_targets == old(self).visual_edit_targets,
            final(self).mode == old(self).mode,
    {
        self.success_message = Some(String::from_str(msg));
        self.error_message = None;
    }

    pub fn clear_messages(&mut self)
        ensures
            old(self).wf() ==> final(self).wf(),
            final(self).error_message is None,
            final(self).success_message is None,
            session_frame(*final(self), *old(self)),
            final(self).deleted@ == old(self).deleted@,
            final(self).filtered_indices == old(self).filtered_indices,
            final(self).visual_edit_targets == old(self).visual_edit_targets,
            final(self).mode == old(self).mode,
    {
        self.error_message = None;
        self.success_message = None;
    }

    /// The commits the next edit or deletion applies to: the visual targets if
    /// captured, else the checked commits if any, else the commit under the
    /// cursor, else none.
    pub fn commits_to_edit(&self) -> (r: Vec<CommitId>)
        ensures
            self.visual_edit_targets matches Some(t) ==> r@ == t@,
            self.visual_edit_targets is None && self.selected@.len() > 0 ==> r@ == self.selected@,
            self.wf() && self.visual_edit_targets is None ==> r@.no_duplicates(),
            self.visual_edit_targets is None && self.selected@.len() == 0 ==> match self.cursor_commit_spec() {
                Some(c) => r@ == seq![c.id],
                None => r@.len() == 0,
            },
    {
        match &self.visual_edit_targets {
            Some(t) => copy_ids(t),
            None => {
                if self.selected.len() > 0 {
                    copy_ids(&self.selected)
                } else {
                    match self.cursor_commit_id() {
                        Some(id) => {
                            let v = vec![id];
                            v
                        },
                        None => Vec::new(),
                    }
                }
            },
        }
    }

    /// Marks or restores the target commits (see [`AppState::commits_to_edit`]).
    ///
    /// The direction follows the first target: if it is not deleted, all
    /// targets are marked, else all are restored. Marking is refused when the
    /// targets are at least as many as the commits not yet deleted. A change
    /// saves the overlays for undo first.
    pub fn toggle_deletion(&mut self) -> (r: DeletionOutcome)
        ensures
            old(self).wf() ==> final(self).wf(),
            ({
                let targets = if old(self).visual_edit_targets is Some {
                    old(self).visual_edit_targets->Some_0@
                } else if old(self).selected@.len() > 0 {
                    old(self).selected@
                } else if old(self).cursor_commit_spec() is Some {
                    seq![old(self).cursor_commit_spec()->Some_0.id]
                } else {
                    Seq::empty()
                };
                let remaining = old(self).commits@.len() - old(self).deleted@.len();
                if targets.len() == 0 {
                    r == DeletionOutcome::NoTarget && final(self).history() == old(self).history()
                } else if !old(self).deleted@.contains(targets[0]) {
                    if targets.len() >= remaining || !spares_one(old(self).commits@, old(self).deleted@, targets) {
                        r == DeletionOutcome::WouldDeleteAll && final(self).history() == old(
                            self,
                        ).history()
                    } else {
                        &&& r == DeletionOutcome::Marked(targets.len() as usize)
                        &&& snaps(final(self).undo_stack@) == snaps(old(self).undo_stack@).push(
                            (old(self).overlays(), "Delete commits"@),
                        )
                        &&& final(self).redo_stack@.len() == 0
                        &&& forall|x: CommitId|
                            #![trigger final(self).deleted@.contains(x)]
                            final(self).deleted@.contains(x) <==> (old(self).deleted@.contains(x)
                                || targets.contains(x))
                        &&& final(self).current_order@ == old(self).current_order@
                        &&& final(self).modifications@ == old(self).modifications@
                    }
                } else {
                    &&& r == DeletionOutcome::Restored(targets.len() as usize)
                    &&& snaps(final(self).undo_stack@) == snaps(old(self).undo_stack@).push(
                        (old(self).overlays(), "Restore commits"@),
                    )
                    &&& final(self).redo_stack@.len() == 0
                    &&& forall|x: CommitId|
                        #![trigger final(self).deleted@.contains(x)]
                        final(self).deleted@.contains(x) <==> (old(self).deleted@.contains(x)
                            && !targets.contains(x))
                    &&& final(self).current_order@ == old(self).current_order@
                    &&& final(self).modifications@ == old(self).modifications@
                }
            }),
            final(self).commits@ == old(self).commits@,
            spares_one(old(self).commits@, old(self).deleted@, Seq::empty()) ==> spares_one(
                final(self).commits@,
                final(self).deleted@,
                Seq::empty(),
            ),
            r is Marked ==> spares_one(final(self).commits@, final(self).deleted@, Seq::empty()),
    {
        let targets = self.commits_to_edit();
        if targets.len() == 0 {
            return DeletionOutcome::NoTarget;
        }
        let will_delete = !contains_id(&self.deleted, targets[0]);
        let count = targets.len();
        if will_delete && (self.deleted.len() >= self.commits.len() || count >= self.commits.len()
            - self.deleted.len() || !has_survivor(&self.commits, &self.deleted, &targets)) {
            return DeletionOutcome::WouldDeleteAll;
        }
        let ghost before = self.overlays();
        let ghost desc = if will_delete {
            "Delete commits"@
        } else {
            "Restore commits"@
        };
        if will_delete {
            self.save_undo("Delete commits");
        } else {
            self.save_undo("Restore commits");
        }
        let ghost mid = self.deleted@;
        assert(self.undo_stack@.len() == snaps(self.undo_stack@).len());
        assert(old(self).undo_stack@.len() == snaps(old(self).undo_stack@).len());
        assert(self.redo_stack@.len() == snaps(self.redo_stack@).len());
        let mut i: usize = 0;
        while i < count
            invariant
                old(self).wf() ==> self.wf(),
                i <= count,
                count == targets@.len(),
                self.current_order@ == before.0,
                self.modifications@ == before.1,
                mid == before.2,
                self.commits@ == old(self).commits@,
                snaps(self.undo_stack@) == snaps(old(self).undo_stack@).push((before, desc)),
                self.redo_stack@.len() == 0,
                will_delete ==> forall|x: CommitId|
                    #![trigger self.deleted@.contains(x)]
                    self.deleted@.contains(x) <==> (mid.contains(x) || targets@.subrange(
                        0,
                        i as int,
                    ).contains(x)),
                !will_delete ==> forall|x: CommitId|
                    #![trigger self.deleted@.contains(x)]
                    self.deleted@.contains(x) <==> (mid.contains(x) && !targets@.subrange(
                        0,
                        i as int,
                    ).contains(x)),
            decreases count - i,
        {
            let ghost sub = targets@.subrange(0, i + 1);
            assert(sub =~= targets@.subrange(0, i as int).push(targets@[i as int]));
            assert forall|x: CommitId| sub.contains(x) <==> (targets@.subrange(0, i as int).contains(x)
                || x == targets@[i as int]) by {
                if sub.contains(x) {
                    let k = choose|k: int| 0 <= k < sub.len() && sub[k] == x;
                    if k < i {
                        assert(targets@.subrange(0, i as int)[k] == x);
                    }
                }
                if targets@.subrange(0, i as int).contains(x) {
                    let k = choose|k: int| 0 <= k < i && targets@.subrange(0, i as int)[k] == x;
                    assert(sub[k] == x);
                }
                if x == targets@[i as int] {
                    assert(sub[i as int] == x);
                }
            }
            if will_delete {
                insert_id(&mut self.deleted, targets[i]);
            } else {
                remove_id(&mut self.deleted, targets[i]);
            }
            i = i + 1;
        }
        assert(targets@.subrange(0, count as int) =~= targets@);
        if will_delete {
            DeletionOutcome::Marked(count)
        } else {
            DeletionOutcome::Restored(count)
        }
    }

    /// Keeps the cursor row within the scrolled window of `height` rows.
    pub fn update_scroll_for_height(&mut self, height: usize)
        ensures
            old(self).wf() ==> final(self).wf(),
            data_frame(*final(self), *old(self)),
            final(self).cursor == old(self).cursor,
            old(self).cursor < old(self).scroll_offset ==> final(self).scroll_offset == old(self).cursor,
            old(self).cursor >= old(self).scroll_offset + height && height > 0 ==> final(self).scroll_offset
                == old(self).cursor - height + 1,
            old(self).scroll_offset <= old(self).cursor && (old(self).cursor < old(self).scroll_offset + height
                || height == 0) ==> final(self).scroll_offset == old(self).scroll_offset,
            final(self).cursor == old(self).cursor,
    {
        if self.cursor < self.scroll_offset {
            self.scroll_offset = self.cursor;
        } else if self.cursor - self.scroll_offset >= height && height > 0 {
            self.scroll_offset = self.cursor - height + 1;
        }
    }

    fn adjust_scroll(&mut self)
        ensures
            old(self).wf() ==> final(self).wf(),
            final(self).cursor == old(self).cursor,
            data_frame(*final(self), *old(self)),
    {
        self.update_scroll_for_height(DEFAULT_VISIBLE_HEIGHT);
    }

    pub fn cursor_up(&mut self)
        ensures
            old(self).wf() ==> final(self).wf(),
            data_frame(*final(self), *old(self)),
            final(self).cursor == if old(self).cursor > 0 {
                old(self).cursor - 1
            } else {
                0
            },
    {
        if self.cursor > 0 {
            self.cursor = self.cursor - 1;
            self.adjust_scroll();
            self.reset_detail_scroll();
        }
    }

    pub fn cursor_down(&mut self)
        ensures
            old(self).wf() ==> final(self).wf(),
            data_frame(*final(self), *old(self)),
            old(self).cursor + 1 < old(self).visible_spec().len() ==> final(self).cursor == old(self).cursor + 1,
            old(self).cursor + 1 >= old(self).visible_spec().len() ==> final(self).cursor == old(self).cursor,
    {
        let n = self.visible_len();
        if n > 0 && self.cursor < n - 1 {
            self.cursor = self.cursor + 1;
            self.adjust_scroll();
            self.reset_detail_scroll();
        }
    }

    pub fn cursor_top(&mut self)
        ensures
            old(self).wf() ==> final(self).wf(),
            data_frame(*final(self), *old(self)),
            final(self).cursor == 0,
            final(self).scroll_offset == 0,
    {
        self.cursor = 0;
        self.scroll_offset = 0;
        self.reset_detail_scroll();
    }

    /// Moves to the last visible row (row 0 when none is visible).
    pub fn cursor_bottom(&mut self)
        ensures
            old(self).wf() ==> final(self).wf(),
            data_frame(*final(self), *old(self)),
            final(self).cursor == if old(self).visible_spec().len() > 0 {
                old(self).visible_spec().len() - 1
            } else {
                0
            },
    {
        let n = self.visible_len();
        self.cursor = if n > 0 {
            n - 1
        } else {
            0
        };
        self.adjust_scroll();
        self.reset_detail_scroll();
    }

    pub fn page_up(&mut self, page_size: usize)
        ensures
            old(self).wf() ==> final(self).wf(),
            data_frame(*final(self), *old(self)),
            final(self).cursor == if old(self).cursor >= page_size {
                old(self).cursor - page_size
            } else {
                0
            },
    {
        self.cursor = if self.cursor >= page_size {
            self.cursor - page_size
        } else {
            0
        };
        self.adjust_scroll();
        self.reset_detail_scroll();
    }

    /// Moves down a page, stopping at the last visible row.
    pub fn page_down(&mut self, page_size: usize)
        ensures
            old(self).wf() ==> final(self).wf(),
            data_frame(*final(self), *old(self)),
            final(self).cursor == vstd::math::min(
                old(self).cursor + page_size,
                if old(self).visible_spec().len() > 0 {
                    old(self).visible_spec().len() - 1
                } else {
                    0
                },
            ),
    {
        let n = self.visible_len();
        let max: usize = if n > 0 {
            n - 1
        } else {
            0
        };
        self.cursor = if page_size >= max || self.cursor >= max - page_size {
            max
        } else {
            self.cursor + page_size
        };
        self.adjust_scroll();
        self.reset_detail_scroll();
    }

    /// Places the cursor on `row`, or on the last visible row if `row` is past it.
    pub fn set_cursor_row(&mut self, row: usize)
        ensures
            old(self).wf() ==> final(self).wf(),
            data_frame(*final(self), *old(self)),
            final(self).cursor == vstd::math::min(
                row as int,
                if old(self).visible_spec().len() > 0 {
                    old(self).visible_spec().len() - 1
                } else {
                    0
                },
            ),
    {
        let n = self.visible_len();
        let max: usize = if n > 0 {
            n - 1
        } else {
            0
        };
        self.cursor = if row < max {
            row
        } else {
            max
        };
        self.adjust_scroll();
    }

    pub fn set_cursor_column(&mut self, column: usize)
        ensures
            old(self).wf() ==> final(self).wf(),
            data_frame(*final(self), *old(self)),
            final(self).cursor == old(self).cursor,
            final(self).column_index == vstd::math::min(column as int, Self::NUM_COLUMNS - 1),
    {
        self.column_index = if column < Self::NUM_COLUMNS - 1 {
            column
        } else {
            Self::NUM_COLUMNS - 1
        };
    }

    pub fn set_cursor_position(&mut self, row: usize, column: usize)
        ensures
            old(self).wf() ==> final(self).wf(),
            data_frame(*final(self), *old(self)),
            final(self).column_index == vstd::math::min(column as int, Self::NUM_COLUMNS - 1),
            final(self).cursor == vstd::math::min(
                row as int,
                if old(self).visible_spec().len() > 0 {
                    old(self).visible_spec().len() - 1
                } else {
                    0
                },
            ),
    {
        self.set_cursor_row(row);
        self.set_cursor_column(column);
    }

    /// Moves the column focus left, wrapping to the last column.
    pub fn column_left(&mut self)
        ensures
            old(self).wf() ==> final(self).wf(),
            data_frame(*final(self), *old(self)),
            final(self).cursor == old(self).cursor,
            final(self).column_index == if old(self).column_index > 0 {
                old(self).column_index - 1
            } else {
                Self::NUM_COLUMNS - 1
            },
    {
        if self.column_index > 0 {
            self.column_index = self.column_index - 1;
        } else {
            self.column_index = Self::NUM_COLUMNS - 1;
        }
    }

    /// Moves the column focus right, wrapping to the first column.
    pub fn column_right(&mut self)
        ensures
            old(self).wf() ==> final(self).wf(),
            data_frame(*final(self), *old(self)),
            final(self).cursor == old(self).cursor,
            final(self).column_index == if old(self).column_index < Self::NUM_COLUMNS - 1 {
                old(self).column_index + 1
            } else {
                0
            },
    {
        if self.column_index < Self::NUM_COLUMNS - 1 {
            self.column_index = self.column_index + 1;
        } else {
            self.column_index = 0;
        }
    }

    pub fn scroll_left(&mut self, amount: usize)
        ensures
            old(self).wf() ==> final(self).wf(),
            data_frame(*final(self), *old(self)),
            final(self).cursor == old(self).cursor,
            final(self).h_scroll_offset == if old(self).h_scroll_offset >= amount {
                old(self).h_scroll_offset - amount
            } else {
                0
            },
    {
        self.h_scroll_offset = if self.h_scroll_offset >= amount {
            self.h_scroll_offset - amount
        } else {
            0
        };
    }

    pub fn scroll_right(&mut self, amount: usize, max_scroll: usize)
        ensures
            old(self).wf() ==> final(self).wf(),
            data_frame(*final(self), *old(self)),
            final(self).cursor == old(self).cursor,
            final(self).h_scroll_offset == vstd::math::min(
                old(self).h_scroll_offset + amount,
                max_scroll as int,
            ),
    {
        if amount >= max_scroll || self.h_scroll_offset >= max_scroll - amount {
            self.h_scroll_offset = max_scroll;
        } else {
            self.h_scroll_offset = self.h_scroll_offset + amount;
        }
    }

    fn swap_rows(&mut self, a: usize, b: usize)
        requires
            a < old(self).current_order@.len(),
            b < old(self).current_order@.len(),
            a < old(self).commits@.len(),
            b < old(self).commits@.len(),
            a + 1 == b,
        ensures
            old(self).wf() ==> final(self).wf(),
            final(self).current_order@ == old(self).current_order@.update(
                a as int,
                old(self).current_order@[b as int],
            ).update(b as int, old(self).current_order@[a as int]),
            final(self).commits@ == old(self).commits@.update(
                a as int,
                old(self).commits@[b as int],
            ).update(b as int, old(self).commits@[a as int]),
            final(self).modifications@ == old(self).modifications@,
            final(self).deleted@ == old(self).deleted@,
            final(self).undo_stack@ == old(self).undo_stack@,
            final(self).redo_stack@ == old(self).redo_stack@,
            final(self).cursor == old(self).cursor,
            final(self).filtered_indices == old(self).filtered_indices,
            final(self).original_order@ == old(self).original_order@,
    {
        let x = self.current_order[a];
        let y = self.current_order[b];
        self.current_order[a] = y;
        self.current_order[b] = x;
        let c = self.commits.remove(b);
        self.commits.insert(a, c);
        proof {
            if old(self).wf() {
                lemma_swap_no_dups(old(self).current_order@, a as int, b as int);
                let ids = ids_of(old(self).commits@);
                lemma_swap_no_dups(ids, a as int, b as int);
                assert(ids_of(self.commits@) =~= ids.update(a as int, ids[b as int]).update(b as int, ids[a as int]))
                    by {
                    assert(self.commits@ =~= old(self).commits@.update(a as int, old(self).commits@[b as int]).update(
                        b as int,
                        old(self).commits@[a as int],
                    ));
                }
            }
        }
        assert(self.commits@ =~= old(self).commits@.update(a as int, old(self).commits@[b as int]).update(
            b as int,
            old(self).commits@[a as int],
        ));
    }

    fn reorder_blocked(&self) -> (r: Option<MoveOutcome>)
        ensures
            self.filtered_indices is Some ==> r == Some(MoveOutcome::Filtered),
            self.filtered_indices is None && (self.cursor_commit_spec() matches Some(c) && c.is_merge)
                ==> r == Some(MoveOutcome::MergeCommit),
            r is None ==> self.filtered_indices is None && !(self.cursor_commit_spec() matches Some(c)
                && c.is_merge),
            r != Some(MoveOutcome::Moved),
            self.filtered_indices is None && !(self.cursor_commit_spec() matches Some(c) && c.is_merge)
                ==> r is None,
    {
        if self.filtered_indices.is_some() {
            return Some(MoveOutcome::Filtered);
        }
        match self.cursor_commit() {
            Some(c) => {
                if c.is_merge {
                    return Some(MoveOutcome::MergeCommit);
                }
            },
            None => {},
        }
        None
    }

    /// Swaps the commit under the cursor with the one above it and follows it
    /// with the cursor. Refused while a filter is active, on a merge commit,
    /// and on the first row. A move saves the overlays for undo first.
    pub fn move_commit_up(&mut self) -> (r: MoveOutcome)
        ensures
            old(self).wf() ==> final(self).wf(),
            old(self).filtered_indices is Some ==> r == MoveOutcome::Filtered,
            r == MoveOutcome::Moved ==> {
                let c = old(self).cursor;
                &&& 0 < c < old(self).current_order@.len()
                &&& final(self).cursor == c - 1
                &&& final(self).current_order@ == old(self).current_order@.update(
                    c - 1,
                    old(self).current_order@[c as int],
                ).update(c as int, old(self).current_order@[c - 1])
                &&& snaps(final(self).undo_stack@) == snaps(old(self).undo_stack@).push(
                    (old(self).overlays(), "Reorder commits"@),
                )
            },
            r != MoveOutcome::Moved ==> final(self).history() == old(self).history()
                && final(self).commits@ == old(self).commits@,
            old(self).filtered_indices is None && (old(self).cursor_commit_spec() matches Some(c)
                && c.is_merge) ==> r == MoveOutcome::MergeCommit,
            old(self).filtered_indices is None && !(old(self).cursor_commit_spec() matches Some(c)
                && c.is_merge) && 0 < old(self).cursor < old(self).current_order@.len() && old(self).cursor
                < old(self).commits@.len() ==> r == MoveOutcome::Moved,
            r == MoveOutcome::Moved ==> {
                let c = old(self).cursor;
                &&& final(self).commits@ == old(self).commits@.update(c - 1, old(self).commits@[c as int]).update(
                    c as int,
                    old(self).commits@[c - 1],
                )
                &&& final(self).redo_stack@.len() == 0
            },
            final(self).original_order@ == old(self).original_order@,
    {
        if let Some(o) = self.reorder_blocked() {
            return o;
        }
        if self.cursor == 0 || self.cursor >= self.commits.len() || self.cursor
            >= self.current_order.len() {
            return MoveOutcome::AtEdge;
        }
        self.save_undo("Reorder commits");
        assert(self.redo_stack@.len() == snaps(self.redo_stack@).len());
        let c = self.cursor;
        self.swap_rows(c - 1, c);
        self.cursor = c - 1;
        MoveOutcome::Moved
    }

    /// Swaps the commit under the cursor with the one below it; the mirror
    /// image of [`AppState::move_commit_up`].
    pub fn move_commit_down(&mut self) -> (r: MoveOutcome)
        ensures
            old(self).wf() ==> final(self).wf(),
            old(self).filtered_indices is Some ==> r == MoveOutcome::Filtered,
            r == MoveOutcome::Moved ==> {
                let c = old(self).cursor;
                &&& c + 1 < old(self).current_order@.len()
                &&& final(self).cursor == c + 1
                &&& final(self).current_order@ == old(self).current_order@.update(
                    c as int,
                    old(self).current_order@[c + 1],
                ).update(c + 1, old(self).current_order@[c as int])
                &&& snaps(final(self).undo_stack@) == snaps(old(self).undo_stack@).push(
                    (old(self).overlays(), "Reorder commits"@),
                )
            },
            r != MoveOutcome::Moved ==> final(self).history() == old(self).history()
                && final(self).commits@ == old(self).commits@,
            old(self).filtered_indices is None && (old(self).cursor_commit_spec() matches Some(c)
                && c.is_merge) ==> r == MoveOutcome::MergeCommit,
            old(self).filtered_indices is None && !(old(self).cursor_commit_spec() matches Some(c)
                && c.is_merge) && old(self).cursor + 1 < old(self).current_order@.len() && old(self).cursor + 1
                < old(self).commits@.len() ==> r == MoveOutcome::Moved,
            r == MoveOutcome::Moved ==> {
                let c = old(self).cursor;
                &&& final(self).commits@ == old(self).commits@.update(c as int, old(self).commits@[c + 1]).update(
                    c + 1,
                    old(self).commits@[c as int],
                )
                &&& final(self).redo_stack@.len() == 0
            },
            final(self).original_order@ == old(self).original_order@,
    {
        if let Some(o) = self.reorder_blocked() {
            return o;
        }
        if self.cursor >= self.commits.len() || self.cursor >= self.current_order.len()
            || self.cursor + 1 >= self.commits.len() || self.cursor + 1 >= self.current_order.len() {
            return MoveOutcome::AtEdge;
        }
        self.save_undo("Reorder commits");
        assert(self.redo_stack@.len() == snaps(self.redo_stack@).len());
        let c = self.cursor;
        self.swap_rows(c, c + 1);
        self.cursor = c + 1;
        MoveOutcome::Moved
    }

    /// The commits the next edit or deletion applies to (see [`AppState::commits_to_edit`]).
    pub open spec fn targets_spec(&self) -> Seq<CommitId> {
        if self.visual_edit_targets is Some {
            self.visual_edit_targets->Some_0@
        } else if self.selected@.len() > 0 {
            self.selected@
        } else if self.cursor_commit_spec() is Some {
            seq![self.cursor_commit_spec()->Some_0.id]
        } else {
            Seq::empty()
        }
    }

    /// The rows covered by the visual selection, normalized so that start <= end.
    pub open spec fn visual_range_spec(&self) -> Option<((usize, usize), (usize, usize))> {
        match self.mode {
            AppMode::Visual { anchor, .. } => Some(
                (
                    (vstd::math::min(anchor.0 as int, self.cursor as int) as usize, vstd::math::min(
                        anchor.1 as int,
                        self.column_index as int,
                    ) as usize),
                    (vstd::math::max(anchor.0 as int, self.cursor as int) as usize, vstd::math::max(
                        anchor.1 as int,
                        self.column_index as int,
                    ) as usize),
                ),
            ),
            _ => None,
        }
    }

    pub fn enter_visual_mode(&mut self, visual_type: VisualType)
        ensures
            old(self).wf() ==> final(self).wf(),
            final(self).mode == (AppMode::Visual {
                anchor: (old(self).cursor, old(self).column_index),
                visual_type,
            }),
            final(self).cursor == old(self).cursor,
            final(self).column_index == old(self).column_index,
            session_frame(*final(self), *old(self)),
            final(self).deleted@ == old(self).deleted@,
            final(self).filtered_indices == old(self).filtered_indices,
            final(self).visual_edit_targets == old(self).visual_edit_targets,
    {
        self.mode = AppMode::Visual { anchor: (self.cursor, self.column_index), visual_type };
    }

    pub fn exit_visual_mode(&mut self)
        ensures
            old(self).wf() ==> final(self).wf(),
            final(self).mode == AppMode::Normal,
            session_frame(*final(self), *old(self)),
            final(self).deleted@ == old(self).deleted@,
            final(self).filtered_indices == old(self).filtered_indices,
            final(self).visual_edit_targets == old(self).visual_edit_targets,
    {
        self.mode = AppMode::Normal;
    }

    /// In visual mode: pressing the key of the active kind leaves visual mode,
    /// the other kind switches to it with the same anchor.
    pub fn toggle_visual_kind(&mut self, kind: VisualType)
        ensures
            old(self).wf() ==> final(self).wf(),
            match old(self).mode {
                AppMode::Visual { anchor, visual_type } => if visual_type == kind {
                    final(self).mode == AppMode::Normal
                } else {
                    final(self).mode == (AppMode::Visual { anchor, visual_type: kind })
                },
                _ => final(self).mode == old(self).mode,
            },
            session_frame(*final(self), *old(self)),
            final(self).deleted@ == old(self).deleted@,
            final(self).filtered_indices == old(self).filtered_indices,
            final(self).visual_edit_targets == old(self).visual_edit_targets,
    {
        match self.mode {
            AppMode::Visual { anchor, visual_type } => {
                if visual_type == kind {
                    self.mode = AppMode::Normal;
                } else {
                    self.mode = AppMode::Visual { anchor, visual_type: kind };
                }
            },
            _ => {},
        }
    }

    pub fn visual_range(&self) -> (r: Option<((usize, usize), (usize, usize))>)
        ensures
            r == self.visual_range_spec(),
    {
        match self.mode {
            AppMode::Visual { anchor, .. } => {
                let start_row = if anchor.0 < self.cursor {
                    anchor.0
                } else {
                    self.cursor
                };
                let end_row = if anchor.0 < self.cursor {
                    self.cursor
                } else {
                    anchor.0
                };
                let start_col = if anchor.1 < self.column_index {
                    anchor.1
                } else {
                    self.column_index
                };
                let end_col = if anchor.1 < self.column_index {
                    self.column_index
                } else {
                    anchor.1
                };
                Some(((start_row, start_col), (end_row, end_col)))
            },
            _ => None,
        }
    }

    /// Whether a cell is selected: its row in range for a line selection,
    /// its row and column in range for a block selection.
    pub fn is_in_visual_selection(&self, row: usize, col: usize) -> (r: bool)
        ensures
            r == match self.mode {
                AppMode::Visual { visual_type, .. } => {
                    let ((sr, sc), (er, ec)) = self.visual_range_spec()->Some_0;
                    sr <= row <= er && (visual_type == VisualType::Line || sc <= col <= ec)
                },
                _ => false,
            },
    {
        match self.mode {
            AppMode::Visual { visual_type, .. } => {
                match self.visual_range() {
                    Some(((sr, sc), (er, ec))) => {
                        let in_rows = row >= sr && row <= er;
                        match visual_type {
                            VisualType::Line => in_rows,
                            VisualType::Block => in_rows && col >= sc && col <= ec,
                        }
                    },
                    None => false,
                }
            },
            _ => false,
        }
    }

    pub fn is_row_in_visual_selection(&self, row: usize) -> (r: bool)
        ensures
            r == (self.visual_range_spec() matches Some(((sr, _), (er, _))) && sr <= row <= er),
    {
        match self.visual_range() {
            Some(((sr, _), (er, _))) => row >= sr && row <= er,
            None => false,
        }
    }

    pub fn visual_type(&self) -> (r: Option<VisualType>)
        ensures
            r == match self.mode {
                AppMode::Visual { visual_type, .. } => Some(visual_type),
                _ => None,
            },
    {
        match self.mode {
            AppMode::Visual { visual_type, .. } => Some(visual_type),
            _ => None,
        }
    }

    /// Number of rows the visual selection spans.
    pub fn visual_selection_count(&self) -> (r: usize)
        ensures
            r == match self.visual_range_spec() {
                Some(((sr, _), (er, _))) => vstd::math::min(er - sr + 1, usize::MAX as int),
                None => 0,
            },
    {
        match self.visual_range() {
            Some(((sr, _), (er, _))) => {
                if er - sr < usize::MAX {
                    er - sr + 1
                } else {
                    usize::MAX
                }
            },
            None => 0,
        }
    }

    /// Ids of the visible commits on rows `start..=end`.
    fn visible_ids_in(&self, start: usize, end: usize) -> (r: Vec<CommitId>)
        ensures
            r@ == rows_in(self.visible_spec(), start as int, end as int),
    {
        let visible = self.visible_commits();
        let mut r: Vec<CommitId> = Vec::new();
        if start > end {
            return r;
        }
        let mut i: usize = start;
        while i < visible.len() && i <= end
            invariant
                start <= i,
                visible@.len() == self.visible_spec().len(),
                forall|j: int| 0 <= j < visible@.len() ==> *visible@[j] == self.visible_spec()[j],
                i <= end + 1,
                r@ == rows_in(self.visible_spec(), start as int, i - 1),
            decreases visible@.len() - i,
        {
            assert(rows_in(self.visible_spec(), start as int, i as int) =~= rows_in(
                self.visible_spec(),
                start as int,
                i - 1,
            ).push(self.visible_spec()[i as int].id));
            r.push(visible[i].id);
            i = i + 1;
        }
        assert(rows_in(self.visible_spec(), start as int, i - 1) =~= rows_in(
            self.visible_spec(),
            start as int,
            end as int,
        ));
        r
    }

    /// Checks the visible commits in the visual row range and returns to normal mode.
    pub fn apply_visual_selection(&mut self)
        ensures
            old(self).wf() ==> final(self).wf(),
            final(self).mode == AppMode::Normal,
            forall|x: CommitId|
                #![trigger final(self).selected@.contains(x)]
                final(self).selected@.contains(x) <==> (old(self).selected@.contains(x) || (
                old(self).visual_range_spec() matches Some(((sr, _), (er, _))) && rows_in(
                    old(self).visible_spec(),
                    sr as int,
                    er as int,
                ).contains(x))),
    {
        match self.visual_range() {
            Some(((sr, _), (er, _))) => {
                let ids = self.visible_ids_in(sr, er);
                let ghost before = self.selected@;
                let mut i: usize = 0;
                while i < ids.len()
                    invariant
                        old(self).wf() ==> self.wf(),
                        i <= ids@.len(),
                        forall|x: CommitId|
                            #![trigger self.selected@.contains(x)]
                            self.selected@.contains(x) <==> (before.contains(x) || ids@.subrange(
                                0,
                                i as int,
                            ).contains(x)),
                    decreases ids.len() - i,
                {
                    let ghost sub = ids@.subrange(0, i + 1);
                    assert forall|x: CommitId| sub.contains(x) <==> (ids@.subrange(0, i as int).contains(x)
                        || x == ids@[i as int]) by {
                        if sub.contains(x) {
                            let k = choose|k: int| 0 <= k < sub.len() && sub[k] == x;
                            if k < i {
                                assert(ids@.subrange(0, i as int)[k] == x);
                            }
                        }
                        if ids@.subrange(0, i as int).contains(x) {
                            let k = choose|k: int| 0 <= k < i && ids@.subrange(0, i as int)[k] == x;
                            assert(sub[k] == x);
                        }
                        if x == ids@[i as int] {
                            assert(sub[i as int] == x);
                        }
                    }
                    insert_id(&mut self.selected, ids[i]);
                    i = i + 1;
                }
                assert(ids@.subrange(0, ids@.len() as int) =~= ids@);
            },
            None => {},
        }
        self.mode = AppMode::Normal;
    }

    /// Captures the visual row range as the edit targets and leaves visual
    /// mode; returns how many commits were captured (0 outside visual mode).
    pub fn capture_visual_edit_targets(&mut self) -> (r: usize)
        ensures
            old(self).wf() ==> final(self).wf(),
            old(self).visual_range_spec() matches Some(((sr, _), (er, _))) ==> {
                let ids = rows_in(old(self).visible_spec(), sr as int, er as int);
                &&& final(self).visual_edit_targets matches Some(t) && t@ == ids
                &&& r == ids.len()
                &&& final(self).mode == AppMode::Normal
            },
            old(self).visual_range_spec() is None ==> r == 0 && final(self).visual_edit_targets
                == old(self).visual_edit_targets && final(self).mode == old(self).mode,
            session_frame(*final(self), *old(self)),
            final(self).deleted@ == old(self).deleted@,
            final(self).filtered_indices == old(self).filtered_indices,
    {
        match self.visual_range() {
            Some(((sr, _), (er, _))) => {
                let ids = self.visible_ids_in(sr, er);
                let count = ids.len();
                self.visual_edit_targets = Some(ids);
                self.mode = AppMode::Normal;
                count
            },
            None => 0,
        }
    }

    pub fn clear_visual_edit_targets(&mut self)
        ensures
            old(self).wf() ==> final(self).wf(),
            final(self).visual_edit_targets is None,
            final(self).history() == old(self).history(),
            final(self).commits@ == old(self).commits@,
            final(self).mode == old(self).mode,
    {
        self.visual_edit_targets = None;
    }
}

/// Ids of the rows `start..=end` of `vis` that exist.
pub open spec fn rows_in(vis: Seq<CommitData>, start: int, end: int) -> Seq<CommitId> {
    if start < vis.len() && start <= end {
        vis.subrange(start, vstd::math::min(end + 1, vis.len() as int)).map_values(|c: CommitData| c.id)
    } else {
        Seq::empty()
    }
}

/// A commit matches a case-folded query when the query occurs in the
/// case-folded author name, author email, full message or short hash.
pub open spec fn commit_matches(q: Seq<char>, c: CommitData) -> bool {
    is_substring(q, lower_of(c.author.name@)) || is_substring(q, lower_of(c.author.email@))
        || is_substring(q, lower_of(c.message@)) || is_substring(q, lower_of(c.short_hash@))
}

/// Whether the commit matches the case-folded query `q` (see [`commit_matches`]).
pub fn commit_matches_query(q: &str, c: &CommitData) -> (r: bool)
    ensures
        r == commit_matches(q@, *c),
{
    matches_folded(q, lowercase(c.author.name.as_str()).as_str()) || matches_folded(
        q,
        lowercase(c.author.email.as_str()).as_str(),
    ) || matches_folded(q, lowercase(c.message.as_str()).as_str()) || matches_folded(
        q,
        lowercase(c.short_hash.as_str()).as_str(),
    )
}

/// Positions of the commits that match `q`, in order.
pub open spec fn matching_indices(q: Seq<char>, commits: Seq<CommitData>) -> Seq<usize>
    decreases commits.len(),
{
    if commits.len() == 0 {
        Seq::empty()
    } else {
        matching_indices(q, commits.drop_last()) + if commit_matches(q, commits[commits.len() - 1]) {
            seq![(commits.len() - 1) as usize]
        } else {
            Seq::empty()
        }
    }
}

/// The text `v` is set in `o`.
pub open spec fn is_text(o: Option<String>, v: Seq<char>) -> bool {
    o matches Some(s) && s@ == v
}

/// `n` keeps the fields of `o` whose flag is set.
pub open spec fn keeps(
    n: CommitModifications,
    o: CommitModifications,
    an: bool,
    ae: bool,
    ad: bool,
    cn: bool,
    ce: bool,
    cd: bool,
    msg: bool,
) -> bool {
    &&& an ==> n.author_name == o.author_name
    &&& ae ==> n.author_email == o.author_email
    &&& ad ==> n.author_date == o.author_date
    &&& cn ==> n.committer_name == o.committer_name
    &&& ce ==> n.committer_email == o.committer_email
    &&& cd ==> n.committer_date == o.committer_date
    &&& msg ==> n.message == o.message
}

/// `n` is the overlay `o` with `field` set to the text `v` (or, for a date
/// field, to the date `d`); with `sync`, an author field also sets the
/// matching committer field. Every other field is kept.
pub open spec fn edit_applied(
    n: CommitModifications,
    o: CommitModifications,
    field: EditableField,
    v: Seq<char>,
    d: Timestamp,
    sync: bool,
) -> bool {
    match field {
        EditableField::AuthorName => is_text(n.author_name, v) && (sync ==> is_text(
            n.committer_name,
            v,
        )) && keeps(n, o, false, true, true, !sync, true, true, true),
        EditableField::AuthorEmail => is_text(n.author_email, v) && (sync ==> is_text(
            n.committer_email,
            v,
        )) && keeps(n, o, true, false, true, true, !sync, true, true),
        EditableField::AuthorDate => n.author_date == Some(d) && (sync ==> n.committer_date == Some(d))
            && keeps(n, o, true, true, false, true, true, !sync, true),
        EditableField::CommitterName => is_text(n.committer_name, v) && keeps(
            n,
            o,
            true,
            true,
            true,
            false,
            true,
            true,
            true,
        ),
        EditableField::CommitterEmail => is_text(n.committer_email, v) && keeps(
            n,
            o,
            true,
            true,
            true,
            true,
            false,
            true,
            true,
        ),
        EditableField::CommitterDate => n.committer_date == Some(d) && keeps(
            n,
            o,
            true,
            true,
            true,
            true,
            true,
            false,
            true,
        ),
        EditableField::Message => is_text(n.message, v) && keeps(
            n,
            o,
            true,
            true,
            true,
            true,
            true,
            true,
            false,
        ),
    }
}

fn entry_mut<T>(v: &mut Vec<T>, i: usize) -> (e: &mut T)
    requires
        i < old(v)@.len(),
    ensures
        *e == old(v)@[i as int],
        final(v)@ == old(v)@.update(i as int, *final(e)),
{
    &mut v[i]
}

fn second_mut<A, B>(p: &mut (A, B)) -> (r: &mut B)
    ensures
        *r == old(p).1,
        *final(p) == (old(p).0, *final(r)),
{
    &mut p.1
}

/// The overlay is present and is `o` with the edit applied (see [`edit_applied`]).
pub open spec fn edited_to(
    mo: Option<CommitModifications>,
    o: CommitModifications,
    field: EditableField,
    v: Seq<char>,
    d: Timestamp,
    sync: bool,
) -> bool {
    mo matches Some(m) && edit_applied(m, o, field, v, d, sync)
}

proof fn lemma_mods_for_index(s: Seq<(CommitId, CommitModifications)>, i: int, id: CommitId)
    requires
        0 <= i < s.len(),
        s[i].0 == id,
        forall|j: int| 0 <= j < i ==> s[j].0 != id,
    ensures
        mods_for(s, id) == Some(s[i].1),
    decreases i,
{
    if i > 0 {
        lemma_mods_for_index(s.drop_first(), i - 1, id);
    }
}

proof fn lemma_mods_for_none(s: Seq<(CommitId, CommitModifications)>, id: CommitId)
    requires
        forall|j: int| 0 <= j < s.len() ==> s[j].0 != id,
    ensures
        mods_for(s, id) is None,
    decreases s.len(),
{
    if s.len() > 0 {
        lemma_mods_for_none(s.drop_first(), id);
    }
}

proof fn lemma_mods_for_update(
    s: Seq<(CommitId, CommitModifications)>,
    i: int,
    e: (CommitId, CommitModifications),
    x: CommitId,
)
    requires
        0 <= i < s.len(),
        s[i].0 == e.0,
        x != e.0,
    ensures
        mods_for(s.update(i, e), x) == mods_for(s, x),
    decreases s.len(),
{
    if i == 0 {
        assert(s.update(i, e).drop_first() =~= s.drop_first());
    } else if s[0].0 != x {
        assert(s.update(i, e).drop_first() =~= s.drop_first().update(i - 1, e));
        lemma_mods_for_update(s.drop_first(), i - 1, e, x);
    }
}

proof fn lemma_mods_for_push(s: Seq<(CommitId, CommitModifications)>, e: (CommitId, CommitModifications), x: CommitId)
    requires
        x != e.0,
    ensures
        mods_for(s.push(e), x) == mods_for(s, x),
    decreases s.len(),
{
    if s.len() > 0 && s[0].0 != x {
        assert(s.push(e).drop_first() =~= s.drop_first().push(e));
        lemma_mods_for_push(s.drop_first(), e, x);
    } else if s.len() == 0 {
        assert(s.push(e).drop_first() =~= s);
    }
}

impl AppState {
    /// Filters the list by the search query, case-insensitively (see
    /// [`commit_matches`]). An empty query, or one that matches nothing,
    /// shows all commits. The cursor and scrolling go back to the top.
    pub fn apply_filter(&mut self)
        ensures
            final(self).search_query == old(self).search_query,
            old(self).wf() ==> final(self).wf(),
            old(self).search_query@.len() == 0 ==> final(self).filtered_indices is None,
            old(self).search_query@.len() > 0 ==> {
                let idx = matching_indices(lower_of(old(self).search_query@), old(self).commits@);
                &&& idx.len() == 0 ==> final(self).filtered_indices is None
                &&& idx.len() > 0 ==> (final(self).filtered_indices matches Some(v) && v@ == idx)
                &&& final(self).cursor == 0
                &&& final(self).scroll_offset == 0
            },
            final(self).commits@ == old(self).commits@,
            final(self).history() == old(self).history(),
    {
        if self.search_query.unicode_len() == 0 {
            self.filtered_indices = None;
            return;
        }
        let q = lowercase(self.search_query.as_str());
        let mut idx: Vec<usize> = Vec::new();
        let mut i: usize = 0;
        while i < self.commits.len()
            invariant
                i <= self.commits@.len(),
                idx@ == matching_indices(q@, self.commits@.subrange(0, i as int)),
            decreases self.commits.len() - i,
        {
            assert(self.commits@.subrange(0, i + 1).drop_last() =~= self.commits@.subrange(0, i as int));
            if commit_matches_query(q.as_str(), &self.commits[i]) {
                idx.push(i);
            }
            i = i + 1;
        }
        assert(self.commits@.subrange(0, self.commits@.len() as int) =~= self.commits@);
        if idx.len() == 0 {
            self.filtered_indices = None;
        } else {
            self.filtered_indices = Some(idx);
        }
        self.cursor = 0;
        self.scroll_offset = 0;
    }

    pub fn clear_filter(&mut self)
        ensures
            old(self).wf() ==> final(self).wf(),
            final(self).search_query@.len() == 0,
            final(self).filtered_indices is None,
            session_frame(*final(self), *old(self)),
            final(self).deleted@ == old(self).deleted@,
            final(self).visual_edit_targets == old(self).visual_edit_targets,
            final(self).mode == old(self).mode,
    {
        self.search_query = String::new();
        self.filtered_indices = None;
    }

    /// The overlay of `id`, created empty when it has none yet.
    pub fn get_or_create_modifications(&mut self, id: CommitId) -> (r: &mut CommitModifications)
        ensures
            old(self).wf() ==> final(self).wf(),
            *r == overlay(old(self).modifications@, id),
            mods_for(final(self).modifications@, id) == Some(*final(r)),
            forall|x: CommitId|
                x != id ==> mods_for(final(self).modifications@, x) == mods_for(
                    old(self).modifications@,
                    x,
                ),
            final(self).commits@ == old(self).commits@,
            final(self).current_order@ == old(self).current_order@,
            final(self).original_order@ == old(self).original_order@,
            final(self).deleted@ == old(self).deleted@,
            final(self).selected@ == old(self).selected@,
            final(self).undo_stack@ == old(self).undo_stack@,
            final(self).redo_stack@ == old(self).redo_stack@,
            final(self).visual_edit_targets == old(self).visual_edit_targets,
            final(self).filtered_indices == old(self).filtered_indices,
            final(self).mode == old(self).mode,
            final(self).cursor == old(self).cursor,
            final(self).sync_author_to_committer == old(self).sync_author_to_committer,
    {
        let i = match find_modifications(&self.modifications, id) {
            Some(i) => i,
            None => {
                let ghost before = self.modifications@;
                let fresh = CommitModifications::empty();
                let ghost entry = (id, fresh);
                self.modifications.push((id, fresh));
                proof {
                    lemma_mods_for_none(before, id);
                    assert forall|j: int| 0 <= j < before.len() implies self.modifications@[j].0 != id by {
                        assert(self.modifications@[j] == before[j]);
                    }
                    lemma_mods_for_index(self.modifications@, before.len() as int, id);
                    assert forall|x: CommitId| x != id implies mods_for(self.modifications@, x) == mods_for(before, x) by {
                        lemma_mods_for_push(before, entry, x);
                    }
                }
                self.modifications.len() - 1
            },
        };
        let ghost mid = self.modifications@;
        proof {
            lemma_mods_for_index(mid, i as int, id);
        }
        let entry = entry_mut(&mut self.modifications, i);
        let r = second_mut(entry);
        proof {
            assert forall|x: CommitId| x != id implies mods_for(mid.update(i as int, (id, *final(r))), x) == mods_for(mid, x) by {
                lemma_mods_for_update(mid, i as int, (id, *final(r)), x);
            }
            assert forall|j: int| 0 <= j < i implies mid.update(i as int, (id, *final(r)))[j].0 != id by {}
            lemma_mods_for_index(mid.update(i as int, (id, *final(r))), i as int, id);
        }
        r
    }

    /// Writes one edit into the overlay of `id` (see [`edit_applied`]);
    /// `date` is the parsed value for a date field.
    pub fn apply_field_edit(&mut self, id: CommitId, field: EditableField, value: &str, date: Timestamp)
        ensures
            old(self).wf() ==> final(self).wf(),
            mods_for(final(self).modifications@, id) matches Some(m) && edit_applied(
                m,
                overlay(old(self).modifications@, id),
                field,
                value@,
                date,
                old(self).sync_author_to_committer,
            ),
            forall|x: CommitId|
                x != id ==> mods_for(final(self).modifications@, x) == mods_for(
                    old(self).modifications@,
                    x,
                ),
            final(self).commits@ == old(self).commits@,
            final(self).current_order@ == old(self).current_order@,
            final(self).original_order@ == old(self).original_order@,
            final(self).deleted@ == old(self).deleted@,
            final(self).selected@ == old(self).selected@,
            final(self).undo_stack@ == old(self).undo_stack@,
            final(self).redo_stack@ == old(self).redo_stack@,
            final(self).visual_edit_targets == old(self).visual_edit_targets,
            final(self).filtered_indices == old(self).filtered_indices,
            final(self).mode == old(self).mode,
            final(self).cursor == old(self).cursor,
            final(self).sync_author_to_committer == old(self).sync_author_to_committer,
    {
        let sync = self.sync_author_to_committer;
        let m = self.get_or_create_modifications(id);
        match field {
            EditableField::AuthorName => {
                m.author_name = Some(String::from_str(value));
                if sync {
                    m.committer_name = Some(String::from_str(value));
                }
            },
            EditableField::AuthorEmail => {
                m.author_email = Some(String::from_str(value));
                if sync {
                    m.committer_email = Some(String::from_str(value));
                }
            },
            EditableField::AuthorDate => {
                m.author_date = Some(date);
                if sync {
                    m.committer_date = Some(date);
                }
            },
            EditableField::CommitterName => {
                m.committer_name = Some(String::from_str(value));
            },
            EditableField::CommitterEmail => {
                m.committer_email = Some(String::from_str(value));
            },
            EditableField::CommitterDate => {
                m.committer_date = Some(date);
            },
            EditableField::Message => {
                m.message = Some(String::from_str(value));
            },
        }
    }

    /// Confirms an edit of `field` from `original_value` to `new_value`.
    ///
    /// An email field must hold a valid address and a date field a valid
    /// date; otherwise the error is returned and nothing changes (the edit
    /// stays open). Else, if the value changed and there are targets (see
    /// [`AppState::commits_to_edit`]), the overlays are saved for undo and the
    /// value is written into the overlay of every target. The edit then
    /// closes: the buffer and the visual targets are cleared and the mode is
    /// normal. Returns the number of commits edited.
    pub fn confirm_edit(&mut self, field: EditableField, new_value: &str, original_value: &str) -> (r:
        Result<usize, RetconError>)
        ensures
            old(self).wf() ==> final(self).wf(),
            ({
                let is_email = field == EditableField::AuthorEmail || field == EditableField::CommitterEmail;
                let is_date = field == EditableField::AuthorDate || field == EditableField::CommitterDate;
                let valid = (is_email ==> is_valid_email(new_value@)) && (is_date ==> date_value(
                    new_value@,
                ) is Some);
                let d = if is_date {
                    date_value(new_value@)->Some_0
                } else {
                    Timestamp { seconds: 0, offset_seconds: 0 }
                };
                let targets = old(self).targets_spec();
                &&& r is Ok <==> valid
                &&& is_email && !is_valid_email(new_value@) ==> (r matches Err(RetconError::InvalidEmail(_)))
                &&& !(is_email && !is_valid_email(new_value@)) && is_date && date_value(new_value@) is None
                    ==> (r matches Err(RetconError::InvalidDate(_)))
                &&& r is Err ==> final(self).history() == old(self).history() && final(self).mode
                    == old(self).mode && final(self).visual_edit_targets == old(self).visual_edit_targets
                    && final(self).edit_buffer == old(self).edit_buffer && final(self).edit_original
                    == old(self).edit_original && final(self).edit_cursor == old(self).edit_cursor
                    && final(self).selected@ == old(self).selected@
                &&& r is Ok ==> final(self).mode == AppMode::Normal && final(self).visual_edit_targets is None
                &&& r is Ok && (new_value@ == original_value@ || targets.len() == 0) ==> r == Ok::<
                    usize,
                    RetconError,
                >(0) && final(self).history() == old(self).history()
                &&& r is Ok && new_value@ != original_value@ && targets.len() > 0 ==> {
                    &&& r == Ok::<usize, RetconError>(targets.len() as usize)
                    &&& snaps(final(self).undo_stack@) == snaps(old(self).undo_stack@).push(
                        (old(self).overlays(), "Edit commits"@),
                    )
                    &&& final(self).redo_stack@.len() == 0
                    &&& final(self).current_order@ == old(self).current_order@
                    &&& final(self).deleted@ == old(self).deleted@
                    &&& forall|x: CommitId|
                        #![trigger mods_for(final(self).modifications@, x)]
                        targets.contains(x) ==> edited_to(
                            mods_for(final(self).modifications@, x),
                            overlay(old(self).modifications@, x),
                            field,
                            new_value@,
                            d,
                            old(self).sync_author_to_committer,
                        )
                    &&& forall|x: CommitId|
                        #![trigger mods_for(final(self).modifications@, x)]
                        !targets.contains(x) ==> mods_for(final(self).modifications@, x) == mods_for(
                            old(self).modifications@,
                            x,
                        )
                }
            }),
            final(self).commits@ == old(self).commits@,
    {
        if field.is_email() {
            match validate_email(new_value) {
                Err(e) => {
                    return Err(e);
                },
                Ok(_) => {},
            }
        }
        let mut date = Timestamp { seconds: 0, offset_seconds: 0 };
        if field.is_date() {
            match validate_date(new_value) {
                Err(e) => {
                    return Err(e);
                },
                Ok(t) => {
                    date = t;
                },
            }
        }
        let mut count: usize = 0;
        let changed = String::from_str(new_value) != String::from_str(original_value);
        if changed {
            let targets = self.commits_to_edit();
            if targets.len() > 0 {
                self.save_undo("Edit commits");
                assert(self.redo_stack@.len() == snaps(self.redo_stack@).len());
                let ghost mid = self.modifications@;
                let mut i: usize = 0;
                while i < targets.len()
                    invariant
                        old(self).wf() ==> self.wf(),
                        i <= targets@.len(),
                        targets@ == old(self).targets_spec(),
                        mid == old(self).modifications@,
                        self.sync_author_to_committer == old(self).sync_author_to_committer,
                        snaps(self.undo_stack@) == snaps(old(self).undo_stack@).push(
                            (old(self).overlays(), "Edit commits"@),
                        ),
                        self.redo_stack@.len() == 0,
                        self.current_order@ == old(self).current_order@,
                        self.deleted@ == old(self).deleted@,
                        self.commits@ == old(self).commits@,
                        forall|x: CommitId|
                            #![trigger mods_for(self.modifications@, x)]
                            targets@.subrange(0, i as int).contains(x) ==> edited_to(
                                mods_for(self.modifications@, x),
                                overlay(mid, x),
                                field,
                                new_value@,
                                date,
                                self.sync_author_to_committer,
                            ),
                        forall|x: CommitId|
                            #![trigger mods_for(self.modifications@, x)]
                            !targets@.subrange(0, i as int).contains(x) ==> mods_for(
                                self.modifications@,
                                x,
                            ) == mods_for(mid, x),
                    decreases targets.len() - i,
                {
                    let ghost sub = targets@.subrange(0, i + 1);
                    assert forall|x: CommitId| sub.contains(x) <==> (targets@.subrange(0, i as int).contains(x)
                        || x == targets@[i as int]) by {
                        if sub.contains(x) {
                            let k = choose|k: int| 0 <= k < sub.len() && sub[k] == x;
                            if k < i {
                                assert(targets@.subrange(0, i as int)[k] == x);
                            }
                        }
                        if targets@.subrange(0, i as int).contains(x) {
                            let k = choose|k: int| 0 <= k < i && targets@.subrange(0, i as int)[k] == x;
                            assert(sub[k] == x);
                        }
                        if x == targets@[i as int] {
                            assert(sub[i as int] == x);
                        }
                    }
                    self.apply_field_edit(targets[i], field, new_value, date);
                    i = i + 1;
                }
                assert(targets@.subrange(0, targets@.len() as int) =~= targets@);
                count = targets.len();
            }
        }
        self.edit_buffer = String::new();
        self.edit_original = String::new();
        self.edit_cursor = 0;
        self.visual_edit_targets = None;
        self.mode = AppMode::Normal;
        Ok(count)
    }
}

/// The field a table column edits, if it edits one.
pub open spec fn field_of_column(c: Column) -> Option<EditableField> {
    match c {
        Column::Name => Some(EditableField::AuthorName),
        Column::Email => Some(EditableField::AuthorEmail),
        Column::Date => Some(EditableField::AuthorDate),
        Column::Message => Some(EditableField::Message),
        _ => None,
    }
}

/// How an attempt to start editing the focused cell ended.
#[derive(Debug, Clone, PartialEq, Eq)]
pub enum EditStart {
    /// No commit under the cursor.
    NoCommit,
    /// Merge commits cannot be edited.
    MergeCommit,
    /// The focused column cannot be edited.
    NotEditable,
    /// The message is edited in an outside editor, starting from this text.
    External(EditableField, String),
    /// Inline editing started; the buffer holds the current value.
    Inline(EditableField),
}

impl AppState {
    /// Starts editing the focused cell: refused on a merge commit or a column
    /// that cannot be edited; the message goes to an outside editor; other
    /// fields are edited inline from their current value.
    pub fn begin_edit(&mut self) -> (r: EditStart)
        ensures
            old(self).wf() ==> final(self).wf(),
            old(self).cursor_commit_spec() is None ==> r == EditStart::NoCommit,
            (old(self).cursor_commit_spec() matches Some(c) && c.is_merge) ==> r == EditStart::MergeCommit,
            r is Inline ==> {
                let c = old(self).cursor_commit_spec()->Some_0;
                let f = r->Inline_0;
                &&& !c.is_merge
                &&& final(self).mode == (AppMode::Editing { commit_idx: old(self).cursor, field: f })
                &&& final(self).edit_buffer@ == final(self).edit_original@
                &&& final(self).edit_cursor == final(self).edit_buffer@.len()
                &&& Column::from_index_spec(old(self).column_index) matches Some(col)
                    && final(self).edit_buffer@ == column_value(c, mods_for(old(self).modifications@, c.id), col)
            },
            r is External ==> {
                let c = old(self).cursor_commit_spec()->Some_0;
                &&& r->External_0 == EditableField::Message
                &&& Column::from_index_spec(old(self).column_index) == Some(Column::Message)
                &&& r->External_1@ == column_value(c, mods_for(old(self).modifications@, c.id), Column::Message)
            },
            (old(self).cursor_commit_spec() matches Some(c) && !c.is_merge) ==> match Column::from_index_spec(
                old(self).column_index,
            ) {
                Some(col) => match field_of_column(col) {
                    Some(f) => if f == EditableField::Message {
                        r == EditStart::External(f, r->External_1)
                    } else {
                        r == EditStart::Inline(f)
                    },
                    None => r == EditStart::NotEditable,
                },
                None => r == EditStart::NotEditable,
            },
            !(r is Inline) ==> final(self).mode == old(self).mode,
            !(r is Inline) ==> final(self).edit_buffer == old(self).edit_buffer
                && final(self).edit_original == old(self).edit_original
                && final(self).edit_cursor == old(self).edit_cursor,
            final(self).history() == old(self).history(),
            final(self).commits@ == old(self).commits@,
            final(self).cursor == old(self).cursor,
            final(self).selected@ == old(self).selected@,
            final(self).filtered_indices == old(self).filtered_indices,
            final(self).visual_edit_targets == old(self).visual_edit_targets,
    {
        let (is_merge, id) = match self.cursor_commit() {
            Some(c) => (c.is_merge, c.id),
            None => {
                return EditStart::NoCommit;
            },
        };
        if is_merge {
            return EditStart::MergeCommit;
        }
        let column = match Column::from_index(self.column_index) {
            Some(c) => c,
            None => {
                return EditStart::NotEditable;
            },
        };
        let field = match column.to_editable_field() {
            Some(f) => f,
            None => {
                return EditStart::NotEditable;
            },
        };
        let value = {
            let commit = self.cursor_commit().unwrap();
            match find_modifications(&self.modifications, id) {
                Some(k) => get_column_value(commit, Some(&self.modifications[k].1), column),
                None => get_column_value(commit, None, column),
            }
        };
        if field.is_multiline() {
            return EditStart::External(field, value);
        }
        let n = value.as_str().unicode_len();
        self.edit_original = value.clone();
        self.edit_buffer = value;
        self.edit_cursor = n;
        self.mode = AppMode::Editing { commit_idx: self.cursor, field };
        EditStart::Inline(field)
    }
}

impl AppState {
    /// In visual mode, flips the checkbox of every visible commit in the row
    /// range, staying in visual mode.
    pub fn toggle_visual_checkboxes(&mut self)
        ensures
            old(self).wf() ==> final(self).wf(),
            old(self).visual_range_spec() matches Some(((sr, _), (er, _))) ==> {
                let ids = rows_in(old(self).visible_spec(), sr as int, er as int);
                ids.no_duplicates() ==> forall|x: CommitId|
                    #![trigger final(self).selected@.contains(x)]
                    final(self).selected@.contains(x) <==> (old(self).selected@.contains(x) != ids.contains(x))
            },
            old(self).visual_range_spec() is None ==> final(self).selected@ == old(self).selected@,
            final(self).mode == old(self).mode,
            final(self).history() == old(self).history(),
            final(self).commits@ == old(self).commits@,
    {
        match self.visual_range() {
            Some(((sr, _), (er, _))) => {
                let ids = self.visible_ids_in(sr, er);
                let ghost before = self.selected@;
                let mut i: usize = 0;
                while i < ids.len()
                    invariant
                        old(self).wf() ==> self.wf(),
                        i <= ids@.len(),
                        self.mode == old(self).mode,
                        self.history() == old(self).history(),
                        self.commits@ == old(self).commits@,
                        ids@.no_duplicates() ==> forall|x: CommitId|
                            #![trigger self.selected@.contains(x)]
                            self.selected@.contains(x) <==> (before.contains(x) != ids@.subrange(
                                0,
                                i as int,
                            ).contains(x)),
                    decreases ids.len() - i,
                {
                    let ghost sub = ids@.subrange(0, i + 1);
                    assert forall|x: CommitId| sub.contains(x) <==> (ids@.subrange(0, i as int).contains(x)
                        || x == ids@[i as int]) by {
                        if sub.contains(x) {
                            let k = choose|k: int| 0 <= k < sub.len() && sub[k] == x;
                            if k < i {
                                assert(ids@.subrange(0, i as int)[k] == x);
                            }
                        }
                        if ids@.subrange(0, i as int).contains(x) {
                            let k = choose|k: int| 0 <= k < i && ids@.subrange(0, i as int)[k] == x;
                            assert(sub[k] == x);
                        }
                        if x == ids@[i as int] {
                            assert(sub[i as int] == x);
                        }
                    }
                    proof {
                        if ids@.no_duplicates() {
                            if ids@.subrange(0, i as int).contains(ids@[i as int]) {
                                let k = choose|k: int| 0 <= k < i && ids@.subrange(0, i as int)[k] == ids@[i as int];
                                assert(ids@[k] == ids@[i as int]);
                            }
                        }
                    }
                    let id = ids[i];
                    if contains_id(&self.selected, id) {
                        remove_id(&mut self.selected, id);
                    } else {
                        insert_id(&mut self.selected, id);
                    }
                    i = i + 1;
                }
                assert(ids@.subrange(0, ids@.len() as int) =~= ids@);
            },
            None => {},
        }
    }
}

/// How applying changes to the repository ended.
#[derive(Debug, Clone, Copy, PartialEq, Eq, Structural)]
pub enum ApplyOutcome {
    /// History was rewritten and any stash restored.
    Rewritten,
    /// History was rewritten, but the stash could not be restored; the user
    /// must restore it by hand. Not to be retried.
    RewrittenStashKept,
    /// The rewrite failed; the session is unchanged.
    Failed,
}

/// The outcome of an apply from its three steps: whether the rewrite
/// succeeded, whether work was stashed first, and whether restoring the
/// stash succeeded (only asked when something was stashed).
pub fn finish_apply(rewrite_ok: bool, stashed: bool, restore_ok: bool) -> (r: ApplyOutcome)
    ensures
        !rewrite_ok ==> r == ApplyOutcome::Failed,
        rewrite_ok && stashed && !restore_ok ==> r == ApplyOutcome::RewrittenStashKept,
        rewrite_ok && (!stashed || restore_ok) ==> r == ApplyOutcome::Rewritten,
{
    if !rewrite_ok {
        ApplyOutcome::Failed
    } else if stashed && !restore_ok {
        ApplyOutcome::RewrittenStashKept
    } else {
        ApplyOutcome::Rewritten
    }
}

impl AppState {
    /// A quit request: with pending changes the session asks first
    /// (`Quitting`) and returns false; otherwise it returns true, quit now.
    pub fn request_quit(&mut self) -> (r: bool)
        ensures
            r == !overlay_dirty(old(self).overlays(), old(self).original_order@),
            !r ==> final(self).mode == AppMode::Quitting,
            r ==> final(self).mode == old(self).mode,
            session_frame(*final(self), *old(self)),
            final(self).deleted@ == old(self).deleted@,
            final(self).filtered_indices == old(self).filtered_indices,
            final(self).visual_edit_targets == old(self).visual_edit_targets,
            old(self).wf() ==> final(self).wf(),
    {
        if self.is_dirty() {
            self.mode = AppMode::Quitting;
            false
        } else {
            true
        }
    }

    /// Asks to confirm `action` when there are pending changes; returns
    /// whether the confirmation was opened.
    pub fn request_confirmation(&mut self, action: ConfirmAction) -> (r: bool)
        ensures
            r == overlay_dirty(old(self).overlays(), old(self).original_order@),
            r ==> final(self).mode == AppMode::Confirming(action),
            !r ==> final(self).mode == old(self).mode,
            session_frame(*final(self), *old(self)),
            final(self).deleted@ == old(self).deleted@,
            final(self).filtered_indices == old(self).filtered_indices,
            final(self).visual_edit_targets == old(self).visual_edit_targets,
            old(self).wf() ==> final(self).wf(),
    {
        if self.is_dirty() {
            self.mode = AppMode::Confirming(action);
            true
        } else {
            false
        }
    }

    /// Confirms a search: the query becomes the session's filter and the
    /// mode returns to normal.
    pub fn confirm_search(&mut self, query: &str)
        ensures
            final(self).search_query@ == query@,
            query@.len() == 0 ==> final(self).filtered_indices is None,
            query@.len() > 0 ==> {
                let idx = matching_indices(lower_of(query@), old(self).commits@);
                &&& idx.len() == 0 ==> final(self).filtered_indices is None
                &&& idx.len() > 0 ==> (final(self).filtered_indices matches Some(v) && v@ == idx)
            },
            final(self).mode == AppMode::Normal,
            final(self).commits@ == old(self).commits@,
            final(self).history() == old(self).history(),
            old(self).wf() ==> final(self).wf(),
    {
        self.search_query = String::from_str(query);
        self.apply_filter();
        self.mode = AppMode::Normal;
    }

    /// Cancels a search: the query and the filter are cleared.
    pub fn cancel_search(&mut self)
        ensures
            final(self).search_query@.len() == 0,
            final(self).filtered_indices is None,
            final(self).mode == AppMode::Normal,
            session_frame(*final(self), *old(self)),
            final(self).deleted@ == old(self).deleted@,
            final(self).visual_edit_targets == old(self).visual_edit_targets,
            old(self).wf() ==> final(self).wf(),
    {
        self.clear_filter();
        self.mode = AppMode::Normal;
    }

    /// Cancels an edit: the buffer and the visual targets are dropped and
    /// nothing else changes.
    pub fn cancel_edit(&mut self)
        ensures
            final(self).edit_buffer@.len() == 0,
            final(self).edit_original@.len() == 0,
            final(self).visual_edit_targets is None,
            final(self).mode == AppMode::Normal,
            session_frame(*final(self), *old(self)),
            final(self).deleted@ == old(self).deleted@,
            final(self).filtered_indices == old(self).filtered_indices,
            old(self).wf() ==> final(self).wf(),
    {
        self.edit_buffer = String::new();
        self.edit_original = String::new();
        self.visual_edit_targets = None;
        self.mode = AppMode::Normal;
    }

    /// Carries out a confirmed discard or quit and returns to normal mode;
    /// returns true when the session should end. Applying is left to the
    /// caller, which talks to the repository.
    pub fn finish_confirmation(&mut self, action: ConfirmAction) -> (r: bool)
        ensures
            r == (action == ConfirmAction::QuitWithChanges),
            final(self).mode == AppMode::Normal,
            action == ConfirmAction::DiscardChanges ==> {
                &&& final(self).modifications@.len() == 0
                &&& final(self).deleted@.len() == 0
                &&& final(self).current_order@ == old(self).original_order@
                &&& final(self).undo_stack@.len() == 0
                &&& final(self).redo_stack@.len() == 0
            },
            action != ConfirmAction::DiscardChanges ==> final(self).history() == old(self).history()
                && final(self).commits@ == old(self).commits@,
            old(self).wf() ==> final(self).wf(),
    {
        match action {
            ConfirmAction::DiscardChanges => {
                self.clear_modifications();
                self.set_success("All changes discarded");
            },
            _ => {},
        }
        self.mode = AppMode::Normal;
        action == ConfirmAction::QuitWithChanges
    }
}

} // verus!
