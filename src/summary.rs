use vstd::prelude::*;

use crate::commit::{push_char, CommitData, CommitId, CommitModifications};
use crate::rewrite::{find_modifications, mods_for};
use crate::state::{count_modified_commits, modified_entries, order_changed};

verus! {

/// The decimal digit for `d`, 0 to 9.
pub open spec fn digit(d: nat) -> char {
    "0123456789"@[d as int]
}

/// The decimal form of `n`, without leading zeros.
pub open spec fn decimal(n: nat) -> Seq<char>
    decreases n,
{
    if n < 10 {
        seq![digit(n)]
    } else {
        decimal(n / 10) + seq![digit(n % 10)]
    }
}

/// The decimal digits of `n` (see [`decimal`]).
pub fn decimal_text(n: usize) -> (r: String)
    ensures
        r@ == decimal(n as nat),
    decreases n,
{
    let digits = "0123456789";
    proof {
        reveal_strlit("0123456789");
    }
    if n < 10 {
        let mut r = String::new();
        push_char(&mut r, digits.get_char(n));
        assert(r@ =~= seq![digit(n as nat)]);
        r
    } else {
        let mut r = decimal_text(n / 10);
        push_char(&mut r, digits.get_char(n % 10));
        assert(r@ =~= decimal((n / 10) as nat) + seq![digit((n % 10) as nat)]);
        r
    }
}

/// `parts` joined with `sep` between neighbours.
pub open spec fn join(parts: Seq<Seq<char>>, sep: Seq<char>) -> Seq<char>
    decreases parts.len(),
{
    if parts.len() == 0 {
        Seq::empty()
    } else if parts.len() == 1 {
        parts[0]
    } else {
        join(parts.drop_last(), sep) + sep + parts[parts.len() - 1]
    }
}

pub open spec fn name_if(present: bool, name: Seq<char>) -> Seq<Seq<char>> {
    if present {
        seq![name]
    } else {
        Seq::empty()
    }
}

/// The names of the fields an overlay changes, in field order.
pub open spec fn changed_names(m: CommitModifications) -> Seq<Seq<char>> {
    name_if(m.author_name is Some, "author name"@) + name_if(m.author_email is Some, "author email"@)
        + name_if(m.author_date is Some, "author date"@) + name_if(
        m.committer_name is Some,
        "committer name"@,
    ) + name_if(m.committer_email is Some, "committer email"@) + name_if(
        m.committer_date is Some,
        "committer date"@,
    ) + name_if(m.message is Some, "message"@)
}

/// One line per listed commit whose overlay changes something.
pub open spec fn detail_lines(cs: Seq<CommitData>, mods: Seq<(CommitId, CommitModifications)>) -> Seq<
    Seq<char>,
>
    decreases cs.len(),
{
    if cs.len() == 0 {
        Seq::empty()
    } else {
        let c = cs[cs.len() - 1];
        detail_lines(cs.drop_last(), mods) + match mods_for(mods, c.id) {
            Some(m) => if m.is_empty_spec() {
                Seq::empty()
            } else {
                seq!["  "@ + c.short_hash@ + " - "@ + join(changed_names(m), ", "@)]
            },
            None => Seq::empty(),
        }
    }
}

/// Number of commits listed one by one in a summary.
pub const LISTED: usize = 5;

/// The lines of a change summary: deletions, edited commits, a reordering,
/// the changed fields of each of the first five commits, and how many
/// edited commits the list leaves out.
pub open spec fn change_summary(
    commits: Seq<CommitData>,
    mods: Seq<(CommitId, CommitModifications)>,
    deleted: Seq<CommitId>,
    original_order: Seq<CommitId>,
    new_order: Seq<CommitId>,
) -> Seq<Seq<char>> {
    let count = modified_entries(mods);
    let listed = if commits.len() < LISTED {
        commits
    } else {
        commits.subrange(0, LISTED as int)
    };
    (if deleted.len() > 0 {
        seq![decimal(deleted.len()) + " commit(s) will be deleted"@]
    } else {
        Seq::empty()
    }) + (if count > 0 {
        seq![decimal(count) + " commit(s) with modified metadata"@]
    } else {
        Seq::empty()
    }) + (if original_order != new_order {
        seq!["Commit order has been changed"@]
    } else {
        Seq::empty()
    }) + detail_lines(listed, mods) + (if count > LISTED {
        seq!["  ... and "@ + decimal((count - LISTED) as nat) + " more"@]
    } else {
        Seq::empty()
    })
}

fn push_name(parts: &mut Vec<String>, present: bool, name: &str)
    ensures
        final(parts)@.map_values(|s: String| s@) == old(parts)@.map_values(|s: String| s@) + name_if(
            present,
            name@,
        ),
{
    let ghost before = parts@;
    if present {
        parts.push(String::from_str(name));
        assert(parts@.map_values(|s: String| s@) =~= before.map_values(|s: String| s@) + name_if(
            present,
            name@,
        ));
    } else {
        assert(parts@.map_values(|s: String| s@) =~= before.map_values(|s: String| s@) + name_if(
            present,
            name@,
        ));
    }
}

fn join_strings(parts: &Vec<String>, sep: &str) -> (r: String)
    ensures
        r@ == join(parts@.map_values(|s: String| s@), sep@),
{
    let ghost views = parts@.map_values(|s: String| s@);
    let mut r = String::new();
    let mut i: usize = 0;
    while i < parts.len()
        invariant
            i <= parts@.len(),
            views == parts@.map_values(|s: String| s@),
            r@ == join(views.subrange(0, i as int), sep@),
        decreases parts.len() - i,
    {
        let ghost sub = views.subrange(0, i + 1);
        assert(sub.drop_last() =~= views.subrange(0, i as int));
        if i > 0 {
            r.append(sep);
        }
        r.append(parts[i].as_str());
        i = i + 1;
        proof {
            if i == 1 {
                assert(views.subrange(0, 0) =~= Seq::<Seq<char>>::empty());
            }
        }
    }
    assert(views.subrange(0, parts@.len() as int) =~= views);
    r
}

fn field_names(m: &CommitModifications) -> (r: String)
    ensures
        r@ == join(changed_names(*m), ", "@),
{
    let mut parts: Vec<String> = Vec::new();
    assert(parts@.map_values(|s: String| s@) =~= Seq::<Seq<char>>::empty());
    push_name(&mut parts, m.author_name.is_some(), "author name");
    push_name(&mut parts, m.author_email.is_some(), "author email");
    push_name(&mut parts, m.author_date.is_some(), "author date");
    push_name(&mut parts, m.committer_name.is_some(), "committer name");
    push_name(&mut parts, m.committer_email.is_some(), "committer email");
    push_name(&mut parts, m.committer_date.is_some(), "committer date");
    push_name(&mut parts, m.message.is_some(), "message");
    assert(parts@.map_values(|s: String| s@) =~= changed_names(*m));
    join_strings(&parts, ", ")
}

fn text_line(a: &str, b: &str, c: &str) -> (r: String)
    ensures
        r@ == a@ + b@ + c@,
{
    let mut r = String::from_str(a);
    r.append(b);
    r.append(c);
    r
}

/// The lines shown before changes are applied (see [`change_summary`]).
pub fn generate_change_summary(
    commits: &Vec<CommitData>,
    modifications: &Vec<(CommitId, CommitModifications)>,
    deleted: &Vec<CommitId>,
    original_order: &Vec<CommitId>,
    new_order: &Vec<CommitId>,
) -> (r: Vec<String>)
    ensures
        r@.map_values(|s: String| s@) == change_summary(
            commits@,
            modifications@,
            deleted@,
            original_order@,
            new_order@,
        ),
{
    proof {
        reveal_strlit("");
    }
    let mut summary: Vec<String> = Vec::new();
    let ghost empty = Seq::<Seq<char>>::empty();
    assert(summary@.map_values(|s: String| s@) =~= empty);
    let count = count_modified_commits(modifications);
    let ghost a = if deleted@.len() > 0 {
        seq![decimal(deleted@.len()) + " commit(s) will be deleted"@]
    } else {
        empty
    };
    let ghost b = if count > 0 {
        seq![decimal(count as nat) + " commit(s) with modified metadata"@]
    } else {
        empty
    };
    let ghost c = if original_order@ != new_order@ {
        seq!["Commit order has been changed"@]
    } else {
        empty
    };
    if deleted.len() > 0 {
        let n = decimal_text(deleted.len());
        let line = text_line(n.as_str(), " commit(s) will be deleted", "");
        assert(line@ =~= decimal(deleted@.len()) + " commit(s) will be deleted"@);
        summary.push(line);
    }
    assert(summary@.map_values(|s: String| s@) =~= a);
    if count > 0 {
        let n = decimal_text(count);
        let line = text_line(n.as_str(), " commit(s) with modified metadata", "");
        assert(line@ =~= decimal(count as nat) + " commit(s) with modified metadata"@);
        summary.push(line);
    }
    assert(summary@.map_values(|s: String| s@) =~= a + b);
    if order_changed(original_order, new_order) {
        summary.push(String::from_str("Commit order has been changed"));
    }
    assert(summary@.map_values(|s: String| s@) =~= a + b + c);
    let ghost head = summary@.map_values(|s: String| s@);
    let limit: usize = if commits.len() < LISTED {
        commits.len()
    } else {
        LISTED
    };
    let ghost listed = commits@.subrange(0, limit as int);
    let mut i: usize = 0;
    while i < limit
        invariant
            i <= limit <= commits@.len(),
            listed == commits@.subrange(0, limit as int),
            summary@.map_values(|s: String| s@) == head + detail_lines(listed.subrange(0, i as int), modifications@),
        decreases limit - i,
    {
        let ghost sub = listed.subrange(0, i + 1);
        assert(sub.drop_last() =~= listed.subrange(0, i as int));
        let ghost before = summary@.map_values(|s: String| s@);
        let cd = &commits[i];
        assert(sub[i as int] == commits@[i as int]);
        match find_modifications(modifications, cd.id) {
            Some(k) => {
                let m = &modifications[k].1;
                if m.has_modifications() {
                    let names = field_names(m);
                    let line = text_line("  ", cd.short_hash.as_str(), " - ");
                    let mut full = line;
                    full.append(names.as_str());
                    assert(full@ =~= "  "@ + cd.short_hash@ + " - "@ + join(changed_names(*m), ", "@));
                    summary.push(full);
                    assert(summary@.map_values(|s: String| s@) =~= before.push(full@));
                }
            },
            None => {},
        }
        assert(summary@.map_values(|s: String| s@) =~= head + detail_lines(sub, modifications@));
        i = i + 1;
    }
    assert(listed.subrange(0, limit as int) =~= listed);
    assert(listed =~= (if commits@.len() < LISTED {
        commits@
    } else {
        commits@.subrange(0, LISTED as int)
    }));
    let ghost mid = summary@.map_values(|s: String| s@);
    if count > LISTED {
        let n = decimal_text(count - LISTED);
        summary.push(text_line("  ... and ", n.as_str(), " more"));
        assert(summary@.map_values(|s: String| s@) =~= mid.push(
            "  ... and "@ + decimal((count - LISTED) as nat) + " more"@,
        ));
    }
    assert(summary@.map_values(|s: String| s@) =~= change_summary(
        commits@,
        modifications@,
        deleted@,
        original_order@,
        new_order@,
    ));
    summary
}

} // verus!
