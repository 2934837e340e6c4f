//! What holds of the keys of every registry after a pass.

use crate::path::{is_absolute_path, join_paths, normal_form};
use crate::path_laws::{normal_form_is_idempotent, normal_form_keeps_root};
use crate::registry::{
    entries_where, find, home_key, lemma_find, placed, rekeyed, upsert, Entries,
};
use vstd::prelude::*;

verus! {

/// Every target is absolute.
pub open spec fn all_absolute(entries: Entries) -> bool {
    forall|i: int| 0 <= i < entries.len() ==> is_absolute_path((#[trigger] entries[i]).0)
}

/// Seen from an absolute working directory, the home key of every target
/// is absolute and in normal form.
pub proof fn home_key_is_canonical(cwd: Seq<char>, target: Seq<char>)
    requires
        is_absolute_path(cwd),
    ensures
        is_absolute_path(home_key(cwd, target)),
        normal_form(home_key(cwd, target)) == home_key(cwd, target),
{
    normal_form_keeps_root(join_paths(cwd, target));
    normal_form_is_idempotent(join_paths(cwd, target));
}

proof fn lemma_absolute_entries(entries: Entries)
    ensures
        all_absolute(entries_where(entries, true)),
    decreases entries.len(),
{
    if entries.len() > 0 {
        lemma_absolute_entries(entries.drop_last());
    }
}

proof fn lemma_placed_absolute(base: Entries, moved: Entries, cwd: Seq<char>)
    requires
        is_absolute_path(cwd),
        all_absolute(base),
    ensures
        all_absolute(placed(base, moved, cwd)),
    decreases moved.len(),
{
    if moved.len() > 0 {
        let before = placed(base, moved.drop_last(), cwd);
        let key = home_key(cwd, moved.last().0);
        lemma_placed_absolute(base, moved.drop_last(), cwd);
        home_key_is_canonical(cwd, moved.last().0);
        lemma_find(before, key);
        let after = upsert(before, key, moved.last().1);
        assert forall|i: int| 0 <= i < after.len() implies is_absolute_path(
            (#[trigger] after[i]).0,
        ) by {
            if i < before.len() && find(before, key) != Some(i) {
                assert(after[i] == before[i]);
            }
        }
    }
}

/// After a pass that was begun in an absolute working directory, every
/// target of the registry is absolute.
pub proof fn rekeyed_targets_are_absolute(entries: Entries, cwd: Seq<char>)
    requires
        is_absolute_path(cwd),
    ensures
        all_absolute(rekeyed(entries, cwd)),
{
    lemma_absolute_entries(entries);
    lemma_placed_absolute(entries_where(entries, true), entries_where(entries, false), cwd);
}

proof fn lemma_whole_where_absolute(entries: Entries)
    requires
        all_absolute(entries),
    ensures
        entries_where(entries, true) == entries,
        entries_where(entries, false) == Entries::empty(),
    decreases entries.len(),
{
    if entries.len() > 0 {
        let front = entries.drop_last();
        assert(all_absolute(front)) by {
            assert forall|i: int| 0 <= i < front.len() implies is_absolute_path(
                (#[trigger] front[i]).0,
            ) by {
                assert(front[i] == entries[i]);
            }
        }
        lemma_whole_where_absolute(front);
        assert(is_absolute_path(entries[entries.len() - 1].0));
        assert(front.push(entries.last()) =~= entries);
    } else {
        assert(entries =~= Entries::empty());
    }
}

/// A registry whose targets are all absolute is left as it is by the
/// rekeying, whatever the working directory: a second pass moves no entry.
pub proof fn rekeying_absolute_targets_changes_nothing(entries: Entries, cwd: Seq<char>)
    requires
        all_absolute(entries),
    ensures
        rekeyed(entries, cwd) == entries,
{
    lemma_whole_where_absolute(entries);
}

} // verus!
