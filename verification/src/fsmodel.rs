//! Ghost model of the extraction's filesystem effect.
//!
//! A file tree is a map from paths to nodes. Extraction first purges the
//! destination subtree — the destination directory and everything under
//! it — then recreates the destination directory and applies the planned
//! actions. Because every planned path lies under the destination, running
//! the effect twice leaves exactly what one run leaves: the idempotence law
//! `lemma_extraction_idempotent`.

use vstd::prelude::*;
use crate::archive::plan_spec;
use crate::archive::entry_selected;
use crate::archive::entry_action;
use crate::archive::lemma_plan_only_container;

verus! {

/// A filesystem node: whether it is a directory, its mode if one was
/// applied, and its content (empty for directories).
pub type FsNode = (bool, Option<u32>, Seq<u8>);

/// A file tree: each existing path maps to its node.
pub type FsTree = Map<Seq<char>, FsNode>;

/// `p` lies strictly under the directory `dest`.
pub open spec fn path_under(p: Seq<char>, dest: Seq<char>) -> bool {
    p.len() > dest.len() + 1 && p.take(dest.len() as int) == dest && p[dest.len() as int] == '/'
}

/// Removes the destination directory and everything under it.
pub open spec fn purge(t: FsTree, dest: Seq<char>) -> FsTree {
    Map::new(
        |k: Seq<char>| t.dom().contains(k) && !path_under(k, dest) && k != dest,
        |k: Seq<char>| t[k],
    )
}

/// The node an extraction action writes.
pub open spec fn action_node(a: (bool, Seq<char>, Option<u32>, Seq<u8>)) -> FsNode {
    (a.0, a.2, a.3)
}

/// A fresh directory node.
pub open spec fn dir_node() -> FsNode {
    (true, None, Seq::<u8>::empty())
}

/// Applies the planned actions in order, each writing its path.
pub open spec fn apply_actions(t: FsTree, plan: Seq<(bool, Seq<char>, Option<u32>, Seq<u8>)>) -> FsTree
    decreases plan.len(),
{
    if plan.len() == 0 {
        t
    } else {
        apply_actions(t.insert(plan[0].1, action_node(plan[0])), plan.skip(1))
    }
}

/// One extraction run: purge the destination subtree, recreate the
/// destination directory, apply the plan.
pub open spec fn extract_effect(
    t: FsTree,
    dest: Seq<char>,
    plan: Seq<(bool, Seq<char>, Option<u32>, Seq<u8>)>,
) -> FsTree {
    apply_actions(purge(t, dest).insert(dest, dir_node()), plan)
}

proof fn lemma_purge_insert_under(t: FsTree, dest: Seq<char>, p: Seq<char>, n: FsNode)
    requires
        path_under(p, dest) || p == dest,
    ensures
        purge(t.insert(p, n), dest) == purge(t, dest),
{
    assert(purge(t.insert(p, n), dest) =~= purge(t, dest));
}

proof fn lemma_purge_idem(t: FsTree, dest: Seq<char>)
    ensures
        purge(purge(t, dest), dest) == purge(t, dest),
{
    assert(purge(purge(t, dest), dest) =~= purge(t, dest));
}

proof fn lemma_purge_after_apply(
    t: FsTree,
    dest: Seq<char>,
    plan: Seq<(bool, Seq<char>, Option<u32>, Seq<u8>)>,
)
    requires
        forall|k: int| 0 <= k < plan.len() ==> path_under(#[trigger] plan[k].1, dest),
    ensures
        purge(apply_actions(t, plan), dest) == purge(t, dest),
    decreases plan.len(),
{
    if plan.len() > 0 {
        lemma_purge_insert_under(t, dest, plan[0].1, action_node(plan[0]));
        lemma_purge_after_apply(t.insert(plan[0].1, action_node(plan[0])), dest, plan.skip(1));
    }
}

/// Idempotence of the extraction effect: when every planned path lies under
/// the destination, a second run leaves the tree a single run leaves.
pub proof fn lemma_extract_effect_idempotent(
    t: FsTree,
    dest: Seq<char>,
    plan: Seq<(bool, Seq<char>, Option<u32>, Seq<u8>)>,
)
    requires
        forall|k: int| 0 <= k < plan.len() ==> path_under(#[trigger] plan[k].1, dest),
    ensures
        extract_effect(extract_effect(t, dest, plan), dest, plan) == extract_effect(t, dest, plan),
{
    let once = extract_effect(t, dest, plan);
    lemma_purge_after_apply(purge(t, dest).insert(dest, dir_node()), dest, plan);
    lemma_purge_insert_under(purge(t, dest), dest, dest, dir_node());
    lemma_purge_idem(t, dest);
    assert(purge(once, dest) == purge(t, dest));
}

/// Every path of an extraction plan lies under the destination.
pub proof fn lemma_plan_paths_under(
    entries: Seq<(Seq<char>, Option<u32>, Seq<u8>)>,
    dest: Seq<char>,
)
    ensures
        forall|k: int|
            0 <= k < plan_spec(entries, dest).len() ==> path_under(
                #[trigger] plan_spec(entries, dest)[k].1,
                dest,
            ),
{
    lemma_plan_only_container(entries, dest);
    let plan = plan_spec(entries, dest);
    assert forall|k: int| 0 <= k < plan.len() implies path_under(plan[k].1, dest) by {
        let j = choose|j: int|
            0 <= j < entries.len() && entry_selected(entries[j]) && plan[k] == entry_action(
                entries[j],
                dest,
            );
        let name = entries[j].0;
        reveal_strlit("/");
        assert("/"@ =~= seq!['/']);
        assert(plan[k].1 == dest + "/"@ + name);
        assert((dest + "/"@ + name).take(dest.len() as int) =~= dest);
        assert((dest + "/"@ + name)[dest.len() as int] == '/');
    }
}

/// Re-running extraction with the same archive entries and the same
/// destination leaves the tree one run leaves: stale output is purged and
/// the same plan is written again.
pub proof fn lemma_extraction_idempotent(
    t: FsTree,
    entries: Seq<(Seq<char>, Option<u32>, Seq<u8>)>,
    dest: Seq<char>,
)
    ensures
        extract_effect(
            extract_effect(t, dest, plan_spec(entries, dest)),
            dest,
            plan_spec(entries, dest),
        ) == extract_effect(t, dest, plan_spec(entries, dest)),
{
    lemma_plan_paths_under(entries, dest);
    lemma_extract_effect_idempotent(t, dest, plan_spec(entries, dest));
}

} // verus!
