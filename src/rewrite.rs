use vstd::prelude::*;

use crate::commit::{CommitData, CommitId, CommitModifications, ObjectId, Person, Timestamp};
use crate::error::RetconError;

verus! {

/// A parent link of a commit to be written: an existing commit, or the k-th
/// commit that the rewrite creates.
#[derive(Debug, Clone, Copy, PartialEq, Eq, Structural)]
pub enum ParentRef {
    Existing(CommitId),
    Rewritten(usize),
}

/// What a processed commit of the old history stands for in the new one.
#[derive(Debug, Clone)]
pub struct Resolution {
    pub id: CommitId,
    pub refs: Vec<ParentRef>,
}

pub open spec fn rview(t: Seq<Resolution>) -> Seq<(CommitId, Seq<ParentRef>)> {
    t.map_values(|e: Resolution| (e.id, e.refs@))
}

/// The latest entry for `id` in a resolution table.
pub open spec fn table_get(t: Seq<(CommitId, Seq<ParentRef>)>, id: CommitId) -> Option<Seq<ParentRef>>
    decreases t.len(),
{
    if t.len() == 0 {
        None
    } else if t[t.len() - 1].0 == id {
        Some(t[t.len() - 1].1)
    } else {
        table_get(t.drop_last(), id)
    }
}

/// The first loaded commit with the given id.
pub open spec fn commit_for(c: Seq<CommitData>, id: CommitId) -> Option<CommitData>
    decreases c.len(),
{
    if c.len() == 0 {
        None
    } else if c[0].id == id {
        Some(c[0])
    } else {
        commit_for(c.drop_first(), id)
    }
}

/// The first overlay recorded for the given id.
pub open spec fn mods_for(m: Seq<(CommitId, CommitModifications)>, id: CommitId) -> Option<
    CommitModifications,
>
    decreases m.len(),
{
    if m.len() == 0 {
        None
    } else if m[0].0 == id {
        Some(m[0].1)
    } else {
        mods_for(m.drop_first(), id)
    }
}

/// A parent seen one level below a deleted commit that was not resolved yet:
/// its resolution if known, itself if it survives, nothing if it is deleted.
pub open spec fn shallow(t: Seq<(CommitId, Seq<ParentRef>)>, deleted: Seq<CommitId>, g: CommitId) -> Seq<
    ParentRef,
> {
    match table_get(t, g) {
        Some(x) => x,
        None => if deleted.contains(g) {
            Seq::empty()
        } else {
            seq![ParentRef::Existing(g)]
        },
    }
}

pub open spec fn shallow_list(
    t: Seq<(CommitId, Seq<ParentRef>)>,
    deleted: Seq<CommitId>,
    gs: Seq<CommitId>,
) -> Seq<ParentRef>
    decreases gs.len(),
{
    if gs.len() == 0 {
        Seq::empty()
    } else {
        shallow_list(t, deleted, gs.drop_last()) + shallow(t, deleted, gs[gs.len() - 1])
    }
}

/// The new parent links that stand for the old parent `p`: its resolution if
/// it was processed already; its own parents, one level down, if it is
/// deleted and not processed yet; else `p` itself.
pub open spec fn resolve_one(
    t: Seq<(CommitId, Seq<ParentRef>)>,
    deleted: Seq<CommitId>,
    commits: Seq<CommitData>,
    p: CommitId,
) -> Seq<ParentRef> {
    match table_get(t, p) {
        Some(x) => x,
        None => if deleted.contains(p) {
            match commit_for(commits, p) {
                Some(c) => shallow_list(t, deleted, c.parent_ids@),
                None => Seq::empty(),
            }
        } else {
            seq![ParentRef::Existing(p)]
        },
    }
}

/// The new parent links for a list of old parents, in order.
pub open spec fn resolve_list(
    t: Seq<(CommitId, Seq<ParentRef>)>,
    deleted: Seq<CommitId>,
    commits: Seq<CommitData>,
    ps: Seq<CommitId>,
) -> Seq<ParentRef>
    decreases ps.len(),
{
    if ps.len() == 0 {
        Seq::empty()
    } else {
        resolve_list(t, deleted, commits, ps.drop_last()) + resolve_one(
            t,
            deleted,
            commits,
            ps[ps.len() - 1],
        )
    }
}

/// Every link names a surviving commit or one of the first `bound` new commits.
pub open spec fn refs_ok(r: Seq<ParentRef>, deleted: Seq<CommitId>, bound: int) -> bool {
    forall|i: int|
        0 <= i < r.len() ==> match #[trigger] r[i] {
            ParentRef::Existing(x) => !deleted.contains(x),
            ParentRef::Rewritten(j) => j < bound,
        }
}

pub open spec fn table_ok(t: Seq<(CommitId, Seq<ParentRef>)>, deleted: Seq<CommitId>, bound: int) -> bool {
    forall|i: int| 0 <= i < t.len() ==> refs_ok(#[trigger] t[i].1, deleted, bound)
}

proof fn lemma_table_get_ok(t: Seq<(CommitId, Seq<ParentRef>)>, deleted: Seq<CommitId>, bound: int, id: CommitId)
    requires
        table_ok(t, deleted, bound),
    ensures
        table_get(t, id) matches Some(x) ==> refs_ok(x, deleted, bound),
    decreases t.len(),
{
    if t.len() > 0 && t[t.len() - 1].0 != id {
        lemma_table_get_ok(t.drop_last(), deleted, bound, id);
    }
}

proof fn lemma_shallow_list_ok(
    t: Seq<(CommitId, Seq<ParentRef>)>,
    deleted: Seq<CommitId>,
    bound: int,
    gs: Seq<CommitId>,
)
    requires
        table_ok(t, deleted, bound),
    ensures
        refs_ok(shallow_list(t, deleted, gs), deleted, bound),
    decreases gs.len(),
{
    if gs.len() > 0 {
        lemma_shallow_list_ok(t, deleted, bound, gs.drop_last());
        lemma_table_get_ok(t, deleted, bound, gs[gs.len() - 1]);
    }
}

/// Resolved links name only surviving commits or commits already created.
pub proof fn lemma_resolve_list_ok(
    t: Seq<(CommitId, Seq<ParentRef>)>,
    deleted: Seq<CommitId>,
    commits: Seq<CommitData>,
    bound: int,
    ps: Seq<CommitId>,
)
    requires
        table_ok(t, deleted, bound),
    ensures
        refs_ok(resolve_list(t, deleted, commits, ps), deleted, bound),
    decreases ps.len(),
{
    if ps.len() > 0 {
        lemma_resolve_list_ok(t, deleted, commits, bound, ps.drop_last());
        let p = ps[ps.len() - 1];
        lemma_table_get_ok(t, deleted, bound, p);
        if let Some(c) = commit_for(commits, p) {
            lemma_shallow_list_ok(t, deleted, bound, c.parent_ids@);
        }
    }
}

/// Whether `id` is in `s`.
pub fn contains_id(s: &Vec<CommitId>, id: CommitId) -> (r: bool)
    ensures
        r == s@.contains(id),
{
    let mut i: usize = 0;
    while i < s.len()
        invariant
            i <= s.len(),
            forall|j: int| 0 <= j < i ==> s@[j] != id,
        decreases s.len() - i,
    {
        if s[i] == id {
            return true;
        }
        i = i + 1;
    }
    false
}

/// Position of the first loaded commit with the given id.
pub fn find_commit(commits: &Vec<CommitData>, id: CommitId) -> (r: Option<usize>)
    ensures
        r is None ==> commit_for(commits@, id) is None,
        r matches Some(i) ==> i < commits@.len() && commit_for(commits@, id) == Some(commits@[i as int])
            && commits@[i as int].id == id,
{
    let mut i: usize = 0;
    assert(commits@.subrange(0, commits@.len() as int) =~= commits@);
    while i < commits.len()
        invariant
            i <= commits@.len(),
            commit_for(commits@, id) == commit_for(commits@.subrange(i as int, commits@.len() as int), id),
        decreases commits.len() - i,
    {
        assert(commits@.subrange(i as int, commits@.len() as int).drop_first() =~= commits@.subrange(
            i + 1,
            commits@.len() as int,
        ));
        if commits[i].id == id {
            return Some(i);
        }
        i = i + 1;
    }
    None
}

/// Position of the first overlay recorded for the given id.
pub fn find_modifications(mods: &Vec<(CommitId, CommitModifications)>, id: CommitId) -> (r: Option<usize>)
    ensures
        r is None ==> mods_for(mods@, id) is None,
        r matches Some(i) ==> i < mods@.len() && mods@[i as int].0 == id && mods_for(mods@, id) == Some(
            mods@[i as int].1,
        ) && forall|j: int| 0 <= j < i ==> mods@[j].0 != id,
        r is None ==> forall|j: int| 0 <= j < mods@.len() ==> mods@[j].0 != id,
{
    let mut i: usize = 0;
    assert(mods@.subrange(0, mods@.len() as int) =~= mods@);
    while i < mods.len()
        invariant
            i <= mods@.len(),
            forall|j: int| 0 <= j < i ==> mods@[j].0 != id,
            mods_for(mods@, id) == mods_for(mods@.subrange(i as int, mods@.len() as int), id),
        decreases mods.len() - i,
    {
        assert(mods@.subrange(i as int, mods@.len() as int).drop_first() =~= mods@.subrange(
            i + 1,
            mods@.len() as int,
        ));
        if mods[i].0 == id {
            return Some(i);
        }
        i = i + 1;
    }
    None
}

/// The overlay recorded for `id`, if any (see [`mods_for`]).
pub fn modifications_for(mods: &Vec<(CommitId, CommitModifications)>, id: CommitId) -> (r: Option<
    &CommitModifications,
>)
    ensures
        r is None ==> mods_for(mods@, id) is None,
        r matches Some(m) ==> mods_for(mods@, id) == Some(*m),
{
    match find_modifications(mods, id) {
        Some(i) => Some(&mods[i].1),
        None => None,
    }
}

fn copy_refs(r: &Vec<ParentRef>) -> (c: Vec<ParentRef>)
    ensures
        c@ == r@,
{
    let mut c: Vec<ParentRef> = Vec::new();
    let mut i: usize = 0;
    while i < r.len()
        invariant
            i <= r@.len(),
            c@ == r@.subrange(0, i as int),
        decreases r.len() - i,
    {
        c.push(r[i]);
        i = i + 1;
        assert(c@ =~= r@.subrange(0, i as int));
    }
    assert(c@ =~= r@);
    c
}

/// The latest entry for `id` in the table (see [`table_get`]).
pub fn lookup_resolution(table: &Vec<Resolution>, id: CommitId) -> (r: Option<Vec<ParentRef>>)
    ensures
        r is None ==> table_get(rview(table@), id) is None,
        r matches Some(x) ==> table_get(rview(table@), id) == Some(x@),
{
    let mut i: usize = table.len();
    assert(table@.subrange(0, table@.len() as int) =~= table@);
    while i > 0
        invariant
            i <= table@.len(),
            table_get(rview(table@), id) == table_get(rview(table@.subrange(0, i as int)), id),
        decreases i,
    {
        let ghost t = table@.subrange(0, i as int);
        assert(rview(t).drop_last() =~= rview(table@.subrange(0, i - 1)));
        if table[i - 1].id == id {
            return Some(copy_refs(&table[i - 1].refs));
        }
        i = i - 1;
    }
    assert(rview(table@.subrange(0, 0)) =~= Seq::<(CommitId, Seq<ParentRef>)>::empty());
    None
}

fn append_refs(out: &mut Vec<ParentRef>, more: &Vec<ParentRef>)
    ensures
        final(out)@ == old(out)@ + more@,
{
    let ghost start = out@;
    let mut i: usize = 0;
    while i < more.len()
        invariant
            i <= more@.len(),
            out@ == start + more@.subrange(0, i as int),
        decreases more.len() - i,
    {
        out.push(more[i]);
        i = i + 1;
        assert(out@ =~= start + more@.subrange(0, i as int));
    }
    assert(more@.subrange(0, more@.len() as int) =~= more@);
}

fn shallow_parents(table: &Vec<Resolution>, deleted: &Vec<CommitId>, gs: &Vec<CommitId>) -> (r: Vec<
    ParentRef,
>)
    ensures
        r@ == shallow_list(rview(table@), deleted@, gs@),
{
    let mut out: Vec<ParentRef> = Vec::new();
    let mut i: usize = 0;
    while i < gs.len()
        invariant
            i <= gs@.len(),
            out@ == shallow_list(rview(table@), deleted@, gs@.subrange(0, i as int)),
        decreases gs.len() - i,
    {
        let g = gs[i];
        match lookup_resolution(table, g) {
            Some(x) => append_refs(&mut out, &x),
            None => {
                if !contains_id(deleted, g) {
                    out.push(ParentRef::Existing(g));
                }
            },
        }
        assert(gs@.subrange(0, i + 1).drop_last() =~= gs@.subrange(0, i as int));
        i = i + 1;
        assert(out@ =~= shallow_list(rview(table@), deleted@, gs@.subrange(0, i as int)));
    }
    assert(gs@.subrange(0, gs@.len() as int) =~= gs@);
    out
}

/// The new parent links for the old parents `parents` (see [`resolve_list`]).
pub fn resolve_parents(
    table: &Vec<Resolution>,
    deleted: &Vec<CommitId>,
    commits: &Vec<CommitData>,
    parents: &Vec<CommitId>,
) -> (r: Vec<ParentRef>)
    ensures
        r@ == resolve_list(rview(table@), deleted@, commits@, parents@),
{
    let mut out: Vec<ParentRef> = Vec::new();
    let mut i: usize = 0;
    while i < parents.len()
        invariant
            i <= parents@.len(),
            out@ == resolve_list(rview(table@), deleted@, commits@, parents@.subrange(0, i as int)),
        decreases parents.len() - i,
    {
        let p = parents[i];
        match lookup_resolution(table, p) {
            Some(x) => append_refs(&mut out, &x),
            None => {
                if contains_id(deleted, p) {
                    match find_commit(commits, p) {
                        Some(k) => {
                            let x = shallow_parents(table, deleted, &commits[k].parent_ids);
                            append_refs(&mut out, &x);
                        },
                        None => {},
                    }
                } else {
                    out.push(ParentRef::Existing(p));
                }
            },
        }
        assert(parents@.subrange(0, i + 1).drop_last() =~= parents@.subrange(0, i as int));
        i = i + 1;
        assert(out@ =~= resolve_list(
            rview(table@),
            deleted@,
            commits@,
            parents@.subrange(0, i as int),
        ));
    }
    assert(parents@.subrange(0, parents@.len() as int) =~= parents@);
    out
}

/// A commit that the rewrite creates.
#[derive(Debug, Clone)]
pub struct PlannedCommit {
    /// The commit of the old history that it replaces.
    pub original: CommitId,
    pub parents: Vec<ParentRef>,
    /// The unchanged file tree of the original.
    pub tree_id: ObjectId,
    pub author: Person,
    pub author_date: Timestamp,
    pub committer: Person,
    pub committer_date: Timestamp,
    pub message: String,
}

/// The commits to create, oldest first, and the new branch tip.
#[derive(Debug, Clone)]
pub struct RewritePlan {
    pub commits: Vec<PlannedCommit>,
    /// One entry per commit of the order, in processing order (oldest first).
    pub resolution: Vec<Resolution>,
    /// Position in the order of the commit that becomes the tip.
    pub tip_position: usize,
    pub tip: ParentRef,
}

/// An overlay with no field set.
pub open spec fn no_mods() -> CommitModifications {
    CommitModifications {
        author_name: None,
        author_email: None,
        author_date: None,
        committer_name: None,
        committer_email: None,
        committer_date: None,
        message: None,
    }
}

/// The overlay of a commit; none recorded means nothing changed.
pub open spec fn overlay(mods: Seq<(CommitId, CommitModifications)>, id: CommitId) -> CommitModifications {
    match mods_for(mods, id) {
        Some(m) => m,
        None => no_mods(),
    }
}

pub open spec fn effective_date(o: Option<Timestamp>, original: Timestamp) -> Timestamp {
    match o {
        Some(d) => d,
        None => original,
    }
}

/// The original parents, as links to themselves.
pub open spec fn originals(ps: Seq<CommitId>) -> Seq<ParentRef> {
    ps.map_values(|p: CommitId| ParentRef::Existing(p))
}

/// `p` carries the original's tree and the overlay's values over the original's.
pub open spec fn planned_matches(p: PlannedCommit, o: CommitData, m: CommitModifications) -> bool {
    &&& p.original == o.id
    &&& p.tree_id == o.tree_id
    &&& p.author.name@ == crate::commit::effective(m.author_name, o.author.name@)
    &&& p.author.email@ == crate::commit::effective(m.author_email, o.author.email@)
    &&& p.author_date == effective_date(m.author_date, o.author_date)
    &&& p.committer.name@ == crate::commit::effective(m.committer_name, o.committer.name@)
    &&& p.committer.email@ == crate::commit::effective(m.committer_email, o.committer.email@)
    &&& p.committer_date == effective_date(m.committer_date, o.committer_date)
    &&& p.message@ == crate::commit::effective(m.message, o.message@)
}

/// A planned commit replaces a loaded surviving commit, holds its overlay,
/// links only to survivors or to commits created before it, and is needed:
/// its overlay changes something or its parents changed.
pub open spec fn planned_ok(
    p: PlannedCommit,
    k: int,
    commits: Seq<CommitData>,
    mods: Seq<(CommitId, CommitModifications)>,
    deleted: Seq<CommitId>,
) -> bool {
    &&& !deleted.contains(p.original)
    &&& match commit_for(commits, p.original) {
        Some(o) => {
            &&& planned_matches(p, o, overlay(mods, p.original))
            &&& (!overlay(mods, p.original).is_empty_spec() || p.parents@ != originals(o.parent_ids@))
        },
        None => false,
    }
    &&& refs_ok(p.parents@, deleted, k)
}

/// The `j`-th processed commit was resolved from the table as it stood then:
/// a deleted commit stands for the resolution of its parents; a survivor
/// stands for itself when nothing about it changes, else for a new commit
/// whose parents are the resolution of its own.
pub open spec fn step_ok(
    t: Seq<Resolution>,
    j: int,
    planned: Seq<PlannedCommit>,
    commits: Seq<CommitData>,
    mods: Seq<(CommitId, CommitModifications)>,
    deleted: Seq<CommitId>,
) -> bool {
    let x = t[j].id;
    let prior = rview(t.subrange(0, j));
    if deleted.contains(x) {
        t[j].refs@ == match commit_for(commits, x) {
            Some(o) => resolve_list(prior, deleted, commits, o.parent_ids@),
            None => Seq::empty(),
        }
    } else {
        match commit_for(commits, x) {
            Some(o) => {
                let rp = resolve_list(prior, deleted, commits, o.parent_ids@);
                &&& t[j].refs@.len() == 1
                &&& match t[j].refs@[0] {
                    ParentRef::Existing(y) => y == x && rp == originals(o.parent_ids@) && overlay(
                        mods,
                        x,
                    ).is_empty_spec(),
                    ParentRef::Rewritten(k) => k < planned.len() && planned[k as int].original == x
                        && planned[k as int].parents@ == rp,
                }
            },
            None => false,
        }
    }
}

/// Everything [`plan_rewrite`] promises of a plan.
pub open spec fn plan_matches(
    plan: RewritePlan,
    commits: Seq<CommitData>,
    mods: Seq<(CommitId, CommitModifications)>,
    deleted: Seq<CommitId>,
    order: Seq<CommitId>,
) -> bool {
    let n = order.len();
    let t = plan.resolution@;
    let planned = plan.commits@;
    &&& t.len() == n
    &&& forall|j: int| 0 <= j < n ==> (#[trigger] t[j]).id == order[n - 1 - j]
    &&& table_ok(rview(t), deleted, planned.len() as int)
    &&& forall|k: int| 0 <= k < planned.len() ==> planned_ok(#[trigger] planned[k], k, commits, mods, deleted)
    &&& forall|j: int| 0 <= j < n ==> #[trigger] step_ok(t, j, planned, commits, mods, deleted)
    &&& plan.tip_position < n
    &&& !deleted.contains(order[plan.tip_position as int])
    &&& forall|j: int| 0 <= j < plan.tip_position ==> deleted.contains(#[trigger] order[j])
    &&& t[n - 1 - plan.tip_position].refs@ == seq![plan.tip]
}

fn refs_are_originals(refs: &Vec<ParentRef>, ps: &Vec<CommitId>) -> (r: bool)
    ensures
        r == (refs@ == originals(ps@)),
{
    if refs.len() != ps.len() {
        return false;
    }
    let mut i: usize = 0;
    while i < refs.len()
        invariant
            i <= refs@.len(),
            refs@.len() == ps@.len(),
            forall|j: int| 0 <= j < i ==> refs@[j] == ParentRef::Existing(ps@[j]),
        decreases refs.len() - i,
    {
        if refs[i] != ParentRef::Existing(ps[i]) {
            assert(refs@[i as int] != originals(ps@)[i as int]);
            return false;
        }
        i = i + 1;
    }
    assert(refs@ =~= originals(ps@));
    true
}

fn build_planned(o: &CommitData, m: &CommitModifications, parents: Vec<ParentRef>) -> (r: PlannedCommit)
    ensures
        planned_matches(r, *o, *m),
        r.parents@ == parents@,
{
    PlannedCommit {
        original: o.id,
        parents,
        tree_id: o.tree_id,
        author: Person {
            name: String::from_str(m.effective_author_name(o.author.name.as_str())),
            email: String::from_str(m.effective_author_email(o.author.email.as_str())),
        },
        author_date: match m.author_date {
            Some(d) => d,
            None => o.author_date,
        },
        committer: Person {
            name: String::from_str(m.effective_committer_name(o.committer.name.as_str())),
            email: String::from_str(m.effective_committer_email(o.committer.email.as_str())),
        },
        committer_date: match m.committer_date {
            Some(d) => d,
            None => o.committer_date,
        },
        message: String::from_str(m.effective_message(o.message.as_str())),
    }
}

proof fn lemma_refs_ok_grow(r: Seq<ParentRef>, deleted: Seq<CommitId>, a: int, b: int)
    requires
        refs_ok(r, deleted, a),
        a <= b,
    ensures
        refs_ok(r, deleted, b),
{
}

/// Plans the rewrite of a history.
///
/// `new_order` lists the commits newest first; they are processed oldest
/// first. Deleted commits are skipped and their children reparented onto the
/// resolution of their parents; every surviving commit whose overlay or
/// parents change is replaced by a new commit with the original tree. The new
/// tip stands for the first surviving commit of the order.
pub fn plan_rewrite(
    commits: &Vec<CommitData>,
    modifications: &Vec<(CommitId, CommitModifications)>,
    deleted: &Vec<CommitId>,
    new_order: &Vec<CommitId>,
) -> (r: Result<RewritePlan, RetconError>)
    ensures
        r matches Ok(plan) ==> plan_matches(plan, commits@, modifications@, deleted@, new_order@),
        r is Ok <==> (exists|j: int| 0 <= j < new_order@.len() && !deleted@.contains(new_order@[j]))
            && (forall|j: int|
            0 <= j < new_order@.len() && !deleted@.contains(new_order@[j]) ==> commit_for(
                commits@,
                new_order@[j],
            ) is Some),
        r matches Err(e) ==> (e is CommitNotFound <==> exists|j: int|
            0 <= j < new_order@.len() && !deleted@.contains(new_order@[j]) && commit_for(
                commits@,
                new_order@[j],
            ) is None),
        r matches Err(e) ==> (e is RewriteFailed <==> forall|j: int|
            0 <= j < new_order@.len() ==> deleted@.contains(new_order@[j])),
        r matches Err(e) ==> e is CommitNotFound || e is RewriteFailed,
{
    let n = new_order.len();
    let mut table: Vec<Resolution> = Vec::new();
    let mut planned: Vec<PlannedCommit> = Vec::new();
    let mut i: usize = 0;
    while i < n
        invariant
            n == new_order@.len(),
            i <= n,
            table@.len() == i,
            forall|j: int| 0 <= j < i ==> (#[trigger] table@[j]).id == new_order@[n - 1 - j],
            table_ok(rview(table@), deleted@, planned@.len() as int),
            forall|k: int|
                0 <= k < planned@.len() ==> planned_ok(
                    #[trigger] planned@[k],
                    k,
                    commits@,
                    modifications@,
                    deleted@,
                ),
            forall|j: int|
                0 <= j < i ==> #[trigger] step_ok(
                    table@,
                    j,
                    planned@,
                    commits@,
                    modifications@,
                    deleted@,
                ),
            forall|j: int|
                n - i <= j < n && !deleted@.contains(new_order@[j]) ==> commit_for(
                    commits@,
                    #[trigger] new_order@[j],
                ) is Some,
        decreases n - i,
    {
        let id = new_order[n - 1 - i];
        let ghost old_table = table@;
        let ghost old_planned = planned@;
        if contains_id(deleted, id) {
            let refs = match find_commit(commits, id) {
                Some(k) => resolve_parents(&table, deleted, commits, &commits[k].parent_ids),
                None => Vec::new(),
            };
            proof {
                if let Some(o) = commit_for(commits@, id) {
                    lemma_resolve_list_ok(
                        rview(old_table),
                        deleted@,
                        commits@,
                        planned@.len() as int,
                        o.parent_ids@,
                    );
                }
            }
            table.push(Resolution { id, refs });
            proof {
                assert(table@.subrange(0, i as int) =~= old_table);
                assert(step_ok(table@, i as int, planned@, commits@, modifications@, deleted@));
            }
        } else {
            match find_commit(commits, id) {
                None => {
                    return Err(RetconError::CommitNotFound(id.to_string()));
                },
                Some(k) => {
                    let o = &commits[k];
                    let parents = resolve_parents(&table, deleted, commits, &o.parent_ids);
                    proof {
                        lemma_resolve_list_ok(
                            rview(old_table),
                            deleted@,
                            commits@,
                            planned@.len() as int,
                            o.parent_ids@,
                        );
                    }
                    let none = CommitModifications::empty();
                    let m = match find_modifications(modifications, id) {
                        Some(mi) => &modifications[mi].1,
                        None => &none,
                    };
                    assert(*m == overlay(modifications@, id));
                    if !m.has_modifications() && refs_are_originals(&parents, &o.parent_ids) {
                        table.push(Resolution { id, refs: vec![ParentRef::Existing(id)] });
                        proof {
                            assert(table@.subrange(0, i as int) =~= old_table);
                            assert(step_ok(table@, i as int, planned@, commits@, modifications@, deleted@));
                        }
                    } else {
                        let pc = build_planned(o, m, parents);
                        let ghost pc_view = pc;
                        let at = planned.len();
                        planned.push(pc);
                        table.push(Resolution { id, refs: vec![ParentRef::Rewritten(at)] });
                        proof {
                            assert(planned@[at as int] == pc_view);
                            assert(planned_ok(planned@[at as int], at as int, commits@, modifications@, deleted@));
                            assert(table@.subrange(0, i as int) =~= old_table);
                            assert(step_ok(table@, i as int, planned@, commits@, modifications@, deleted@));
                        }
                    }
                },
            }
        }
        proof {
            let b = planned@.len() as int;
            assert forall|j: int| 0 <= j < i implies table@.subrange(0, j) == old_table.subrange(0, j) by {
                assert(table@.subrange(0, j) =~= old_table.subrange(0, j));
            }
            assert(table@.subrange(0, i as int) =~= old_table);
            assert forall|j: int| 0 <= j < table@.len() implies refs_ok(
                #[trigger] rview(table@)[j].1,
                deleted@,
                b,
            ) by {
                if j < i {
                    assert(rview(old_table)[j].1 == rview(table@)[j].1);
                    lemma_refs_ok_grow(rview(table@)[j].1, deleted@, old_planned.len() as int, b);
                }
            }
            assert forall|k: int| 0 <= k < planned@.len() implies planned_ok(
                #[trigger] planned@[k],
                k,
                commits@,
                modifications@,
                deleted@,
            ) by {
                if k < old_planned.len() {
                    assert(planned@[k] == old_planned[k]);
                }
            }
            assert forall|j: int| 0 <= j < i implies #[trigger] step_ok(
                table@,
                j,
                planned@,
                commits@,
                modifications@,
                deleted@,
            ) by {
                if j < i {
                    assert(step_ok(old_table, j, old_planned, commits@, modifications@, deleted@));
                    assert(table@[j] == old_table[j]);
                }
            }
        }
        i = i + 1;
    }
    let mut t: usize = 0;
    while t < n && contains_id(deleted, new_order[t])
        invariant
            t <= n,
            n == new_order@.len(),
            forall|j: int| 0 <= j < t ==> deleted@.contains(#[trigger] new_order@[j]),
        decreases n - t,
    {
        t = t + 1;
    }
    if t == n {
        return Err(RetconError::RewriteFailed(String::from_str("All commits would be deleted")));
    }
    let tip_step = n - 1 - t;
    assert(table@[tip_step as int].id == new_order@[t as int]);
    assert(step_ok(table@, tip_step as int, planned@, commits@, modifications@, deleted@));
    let tip = table[tip_step].refs[0];
    assert(table@[tip_step as int].refs@ =~= seq![tip]);
    let plan = RewritePlan { commits: planned, resolution: table, tip_position: t, tip };
    proof {
        assert forall|j: int|
            0 <= j < new_order@.len() && !deleted@.contains(new_order@[j]) implies commit_for(
            commits@,
            new_order@[j],
        ) is Some by {
            assert(n - i <= j);
        }
    }
    Ok(plan)
}

/// The id a link stands for, given the ids of the commits created so far.
pub open spec fn link_id(r: ParentRef, created: Seq<CommitId>) -> CommitId {
    match r {
        ParentRef::Existing(x) => x,
        ParentRef::Rewritten(j) => created[j as int],
    }
}

/// Every link can be followed with the commits created so far.
pub open spec fn links_ready(refs: Seq<ParentRef>, created: Seq<CommitId>) -> bool {
    forall|i: int| 0 <= i < refs.len() ==> (#[trigger] refs[i] matches ParentRef::Rewritten(j) ==> j < created.len())
}

/// The parent ids for links, or `None` when a link names a commit not created yet.
pub fn link_ids(refs: &Vec<ParentRef>, created: &Vec<CommitId>) -> (r: Option<Vec<CommitId>>)
    ensures
        r is Some <==> links_ready(refs@, created@),
        r matches Some(v) ==> v@ == refs@.map_values(|x: ParentRef| link_id(x, created@)),
{
    let mut out: Vec<CommitId> = Vec::new();
    let mut i: usize = 0;
    while i < refs.len()
        invariant
            i <= refs@.len(),
            links_ready(refs@.subrange(0, i as int), created@),
            out@ == refs@.subrange(0, i as int).map_values(|x: ParentRef| link_id(x, created@)),
        decreases refs.len() - i,
    {
        match refs[i] {
            ParentRef::Existing(x) => out.push(x),
            ParentRef::Rewritten(j) => {
                if j >= created.len() {
                    assert(!links_ready(refs@, created@)) by {
                        assert(refs@[i as int] matches ParentRef::Rewritten(j));
                    }
                    return None;
                }
                out.push(created[j]);
            },
        }
        i = i + 1;
        assert(out@ =~= refs@.subrange(0, i as int).map_values(|x: ParentRef| link_id(x, created@)));
        assert forall|k: int| 0 <= k < i implies (#[trigger] refs@.subrange(0, i as int)[k] matches ParentRef::Rewritten(j)
            ==> j < created@.len()) by {
            if k < i - 1 {
                assert(refs@.subrange(0, i as int)[k] == refs@.subrange(0, i - 1)[k]);
            }
        }
    }
    assert(refs@.subrange(0, refs@.len() as int) =~= refs@);
    Some(out)
}

impl RewritePlan {
    /// The ids of the parents of the `k`-th planned commit, once the commits
    /// before it are created (`created` holds their new ids, in order).
    pub fn parents_of(&self, k: usize, created: &Vec<CommitId>) -> (r: Option<Vec<CommitId>>)
        ensures
            k >= self.commits@.len() ==> r is None,
            k < self.commits@.len() ==> (r is Some <==> links_ready(self.commits@[k as int].parents@, created@)),
            r matches Some(v) ==> v@ == self.commits@[k as int].parents@.map_values(
                |x: ParentRef| link_id(x, created@),
            ),
    {
        if k >= self.commits.len() {
            return None;
        }
        link_ids(&self.commits[k].parents, created)
    }

    /// The id the branch moves to, once all planned commits are created.
    pub fn new_tip(&self, created: &Vec<CommitId>) -> (r: Option<CommitId>)
        ensures
            r is Some <==> links_ready(seq![self.tip], created@),
            r matches Some(id) ==> id == link_id(self.tip, created@),
    {
        match self.tip {
            ParentRef::Existing(x) => Some(x),
            ParentRef::Rewritten(j) => {
                if j < created.len() {
                    Some(created[j])
                } else {
                    assert(!links_ready(seq![self.tip], created@)) by {
                        assert(seq![self.tip][0] matches ParentRef::Rewritten(j));
                    }
                    None
                }
            },
        }
    }
}

proof fn lemma_table_get_unique(t: Seq<Resolution>, j: int, id: CommitId)
    requires
        0 <= j < t.len(),
        t[j].id == id,
        forall|i: int| 0 <= i < t.len() && i != j ==> t[i].id != id,
    ensures
        table_get(rview(t), id) == Some(t[j].refs@),
    decreases t.len(),
{
    if j < t.len() - 1 {
        assert(rview(t).drop_last() =~= rview(t.drop_last()));
        lemma_table_get_unique(t.drop_last(), j, id);
    }
}

/// Reparenting: when the only parent `d` of a surviving commit was deleted,
/// and `d` comes before it in processing, the commit is always rewritten,
/// and its new parents are exactly what `d` resolved to, the resolution of
/// `d`'s own parents; no link names a deleted commit.
pub proof fn lemma_reparent(
    plan: RewritePlan,
    commits: Seq<CommitData>,
    mods: Seq<(CommitId, CommitModifications)>,
    deleted: Seq<CommitId>,
    order: Seq<CommitId>,
    jd: int,
    jc: int,
)
    requires
        plan_matches(plan, commits, mods, deleted, order),
        order.no_duplicates(),
        0 <= jd < jc < order.len(),
        deleted.contains(plan.resolution@[jd].id),
        commit_for(commits, plan.resolution@[jd].id) is Some,
        !deleted.contains(plan.resolution@[jc].id),
        commit_for(commits, plan.resolution@[jc].id) matches Some(c) && c.parent_ids@ == seq![
            plan.resolution@[jd].id,
        ],
    ensures
        plan.resolution@[jc].refs@.len() == 1,
        plan.resolution@[jc].refs@[0] is Rewritten,
        ({
            let k = plan.resolution@[jc].refs@[0]->Rewritten_0 as int;
            let dp = commit_for(commits, plan.resolution@[jd].id)->Some_0.parent_ids@;
            &&& 0 <= k < plan.commits@.len()
            &&& plan.commits@[k].parents@ == plan.resolution@[jd].refs@
            &&& plan.resolution@[jd].refs@ == resolve_list(
                rview(plan.resolution@.subrange(0, jd)),
                deleted,
                commits,
                dp,
            )
            &&& refs_ok(plan.commits@[k].parents@, deleted, k)
        }),
{
    let t = plan.resolution@;
    let n = order.len();
    let d = t[jd].id;
    assert(step_ok(t, jc, plan.commits@, commits, mods, deleted));
    assert(step_ok(t, jd, plan.commits@, commits, mods, deleted));
    let prior = t.subrange(0, jc);
    assert forall|i: int| 0 <= i < prior.len() && i != jd implies prior[i].id != d by {
        assert(t[i].id == order[n - 1 - i]);
        assert(t[jd].id == order[n - 1 - jd]);
    }
    lemma_table_get_unique(prior, jd, d);
    assert(table_ok(rview(t), deleted, plan.commits@.len() as int));
    assert(refs_ok(rview(t)[jd].1, deleted, plan.commits@.len() as int));
    let ps = seq![d];
    assert(ps.drop_last() =~= Seq::<CommitId>::empty());
    assert(resolve_list(rview(prior), deleted, commits, ps.drop_last()) == Seq::<ParentRef>::empty());
    assert(ps[ps.len() - 1] == d);
    assert(resolve_one(rview(prior), deleted, commits, d) == t[jd].refs@);
    assert(resolve_list(rview(prior), deleted, commits, ps) =~= t[jd].refs@);
    if let ParentRef::Existing(y) = t[jc].refs@[0] {
        let c = commit_for(commits, t[jc].id)->Some_0;
        assert(originals(c.parent_ids@)[0] == ParentRef::Existing(d));
        assert(t[jd].refs@[0] == ParentRef::Existing(d));
        assert(false);
    }
    let k = t[jc].refs@[0]->Rewritten_0 as int;
    assert(planned_ok(plan.commits@[k], k, commits, mods, deleted));
}

/// A surviving commit with no effective overlay whose parents all resolve
/// to themselves keeps its id: the plan creates no commit for it.
pub proof fn lemma_untouched_kept(
    plan: RewritePlan,
    commits: Seq<CommitData>,
    mods: Seq<(CommitId, CommitModifications)>,
    deleted: Seq<CommitId>,
    order: Seq<CommitId>,
    j: int,
)
    requires
        plan_matches(plan, commits, mods, deleted, order),
        0 <= j < order.len(),
        !deleted.contains(plan.resolution@[j].id),
        overlay(mods, plan.resolution@[j].id).is_empty_spec(),
        commit_for(commits, plan.resolution@[j].id) matches Some(c) && resolve_list(
            rview(plan.resolution@.subrange(0, j)),
            deleted,
            commits,
            c.parent_ids@,
        ) == originals(c.parent_ids@),
    ensures
        plan.resolution@[j].refs@ == seq![ParentRef::Existing(plan.resolution@[j].id)],
        forall|k: int| 0 <= k < plan.commits@.len() ==> plan.commits@[k].original != plan.resolution@[j].id
            || plan.commits@[k].parents@ != originals(commit_for(commits, plan.resolution@[j].id)->Some_0.parent_ids@),
{
    let t = plan.resolution@;
    assert(step_ok(t, j, plan.commits@, commits, mods, deleted));
    if let ParentRef::Rewritten(k) = t[j].refs@[0] {
        assert(planned_ok(plan.commits@[k as int], k as int, commits, mods, deleted));
    }
    assert(t[j].refs@ =~= seq![ParentRef::Existing(t[j].id)]);
    assert forall|k: int| 0 <= k < plan.commits@.len() implies plan.commits@[k].original != t[j].id
        || plan.commits@[k].parents@ != originals(commit_for(commits, t[j].id)->Some_0.parent_ids@) by {
        assert(planned_ok(plan.commits@[k], k, commits, mods, deleted));
    }
}

/// A surviving commit that the plan keeps as it is has no deleted parent.
/// With the links of planned commits (which never name a deleted commit),
/// this is why nothing in the new history points at a deleted commit.
pub proof fn lemma_kept_parents_survive(
    plan: RewritePlan,
    commits: Seq<CommitData>,
    mods: Seq<(CommitId, CommitModifications)>,
    deleted: Seq<CommitId>,
    order: Seq<CommitId>,
    j: int,
)
    requires
        plan_matches(plan, commits, mods, deleted, order),
        0 <= j < order.len(),
        !deleted.contains(plan.resolution@[j].id),
        plan.resolution@[j].refs@[0] is Existing,
    ensures
        commit_for(commits, plan.resolution@[j].id) matches Some(c) && forall|k: int|
            0 <= k < c.parent_ids@.len() ==> !deleted.contains(#[trigger] c.parent_ids@[k]),
{
    let t = plan.resolution@;
    let bound = plan.commits@.len() as int;
    assert(step_ok(t, j, plan.commits@, commits, mods, deleted));
    let prior = rview(t.subrange(0, j));
    assert forall|i: int| 0 <= i < prior.len() implies refs_ok(#[trigger] prior[i].1, deleted, bound) by {
        assert(prior[i].1 == rview(t)[i].1);
    }
    let c = commit_for(commits, t[j].id)->Some_0;
    lemma_resolve_list_ok(prior, deleted, commits, bound, c.parent_ids@);
    assert forall|k: int| 0 <= k < c.parent_ids@.len() implies !deleted.contains(#[trigger] c.parent_ids@[k]) by {
        assert(originals(c.parent_ids@)[k] == ParentRef::Existing(c.parent_ids@[k]));
    }
}

} // verus!
