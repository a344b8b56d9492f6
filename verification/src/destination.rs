//! The destination tree as a map from path to content, and what a run
//! leaves in it under each conflict strategy.

use vstd::prelude::*;
use crate::conflict::{conflicting, resolved, unhindered, ConflictStrategy};
use crate::execute::{
    all_succeed, run, store_for, stores, stores_match, successful_run_stores_each_action_once,
    CommandView, ReplyView,
};
use crate::plan::ActionView;

verus! {

/// The tree after each action in turn has stored under its destination
/// what `content` gives for it. A later action replaces what an earlier one
/// stored under the same path.
pub open spec fn stored(
    tree: Map<Seq<char>, Seq<u8>>,
    actions: Seq<ActionView>,
    content: spec_fn(ActionView) -> Seq<u8>,
) -> Map<Seq<char>, Seq<u8>>
    decreases actions.len(),
{
    if actions.len() == 0 {
        tree
    } else {
        stored(tree, actions.drop_last(), content).insert(
            actions.last().destination,
            content(actions.last()),
        )
    }
}

/// The tree after a run that goes through without failure: what the
/// resolved actions store, or the tree as it was where resolution refused
/// the run.
pub open spec fn after_run(
    tree: Map<Seq<char>, Seq<u8>>,
    resolution: Result<Seq<ActionView>, Seq<Seq<char>>>,
    content: spec_fn(ActionView) -> Seq<u8>,
) -> Map<Seq<char>, Seq<u8>> {
    match resolution {
        Ok(actions) => stored(tree, actions, content),
        Err(_) => tree,
    }
}

/// Two trees agree at a path: both lack it, or both hold the same content.
pub open spec fn same_at(
    left: Map<Seq<char>, Seq<u8>>,
    right: Map<Seq<char>, Seq<u8>>,
    path: Seq<char>,
) -> bool {
    &&& left.contains_key(path) == right.contains_key(path)
    &&& left.contains_key(path) ==> left[path] == right[path]
}

/// Storing is laying what the actions store by themselves over the tree.
proof fn stored_is_overlay(
    tree: Map<Seq<char>, Seq<u8>>,
    actions: Seq<ActionView>,
    content: spec_fn(ActionView) -> Seq<u8>,
)
    ensures
        stored(tree, actions, content) == tree.union_prefer_right(
            stored(Map::empty(), actions, content),
        ),
    decreases actions.len(),
{
    if actions.len() > 0 {
        stored_is_overlay(tree, actions.drop_last(), content);
    }
    assert(stored(tree, actions, content) =~= tree.union_prefer_right(
        stored(Map::empty(), actions, content),
    ));
}

/// Under `Overwrite` a second run changes nothing: whatever exists before
/// either run, the tree after the second is the tree after the first,
/// content for content, where each action stores the same content both
/// times.
pub proof fn overwrite_is_idempotent(
    tree: Map<Seq<char>, Seq<u8>>,
    actions: Seq<ActionView>,
    existing_at_first: Set<Seq<char>>,
    existing_at_second: Set<Seq<char>>,
    content: spec_fn(ActionView) -> Seq<u8>,
)
    ensures
        ({
            let first = after_run(
                tree,
                resolved(actions, existing_at_first, ConflictStrategy::Overwrite),
                content,
            );
            after_run(
                first,
                resolved(actions, existing_at_second, ConflictStrategy::Overwrite),
                content,
            ) == first
        }),
{
    let first = stored(tree, actions, content);
    stored_is_overlay(tree, actions, content);
    stored_is_overlay(first, actions, content);
    assert(stored(first, actions, content) =~= first);
}

/// Some action's destination exists exactly if the list of conflicts is
/// not empty.
proof fn conflicts_are_found(actions: Seq<ActionView>, existing: Set<Seq<char>>)
    ensures
        conflicting(actions, existing).len() > 0 <==> exists|i: int|
            0 <= i < actions.len() && existing.contains(#[trigger] actions[i].destination),
    decreases actions.len(),
{
    if actions.len() > 0 {
        let rest = actions.drop_last();
        conflicts_are_found(rest, existing);
        if conflicting(actions, existing).len() > 0 {
            if existing.contains(actions.last().destination) {
                assert(existing.contains(actions[actions.len() - 1].destination));
            } else {
                let i = choose|i: int|
                    0 <= i < rest.len() && existing.contains(#[trigger] rest[i].destination);
                assert(existing.contains(actions[i].destination));
            }
        }
        if exists|i: int|
            0 <= i < actions.len() && existing.contains(#[trigger] actions[i].destination) {
            let i = choose|i: int|
                0 <= i < actions.len() && existing.contains(#[trigger] actions[i].destination);
            if i < rest.len() {
                assert(existing.contains(rest[i].destination));
            }
        }
    }
}

/// Under `Fail` a run that meets an existing destination is refused as a
/// whole, with every conflicting destination, and leaves the tree as it
/// was.
pub proof fn fail_policy_writes_nothing(
    tree: Map<Seq<char>, Seq<u8>>,
    actions: Seq<ActionView>,
    existing: Set<Seq<char>>,
    content: spec_fn(ActionView) -> Seq<u8>,
)
    requires
        exists|i: int|
            0 <= i < actions.len() && existing.contains(#[trigger] actions[i].destination),
    ensures
        resolved(actions, existing, ConflictStrategy::Fail) == Err::<
            Seq<ActionView>,
            Seq<Seq<char>>,
        >(conflicting(actions, existing)),
        after_run(tree, resolved(actions, existing, ConflictStrategy::Fail), content) == tree,
{
    conflicts_are_found(actions, existing);
}

/// What the unhindered actions store, path by path: nothing under a path
/// that exists, and under any other path what all actions would store.
proof fn skipping_spares_what_exists(
    tree: Map<Seq<char>, Seq<u8>>,
    actions: Seq<ActionView>,
    existing: Set<Seq<char>>,
    content: spec_fn(ActionView) -> Seq<u8>,
    path: Seq<char>,
)
    ensures
        existing.contains(path) ==> same_at(
            stored(tree, unhindered(actions, existing), content),
            tree,
            path,
        ),
        !existing.contains(path) ==> same_at(
            stored(tree, unhindered(actions, existing), content),
            stored(tree, actions, content),
            path,
        ),
    decreases actions.len(),
{
    if actions.len() > 0 {
        skipping_spares_what_exists(tree, actions.drop_last(), existing, content, path);
        if !existing.contains(actions.last().destination) {
            let kept = unhindered(actions, existing);
            assert(kept.drop_last() =~= unhindered(actions.drop_last(), existing));
            assert(kept.last() == actions.last());
        }
    }
}

/// Under `Skip`, with the destinations counted as existing that the tree
/// holds: a file that was there before the run is left as it was, and every
/// other path ends up as it does under `Overwrite`.
pub proof fn skip_policy_completes_the_rest(
    tree: Map<Seq<char>, Seq<u8>>,
    actions: Seq<ActionView>,
    existing: Set<Seq<char>>,
    content: spec_fn(ActionView) -> Seq<u8>,
)
    requires
        forall|i: int|
            0 <= i < actions.len() ==> (existing.contains(#[trigger] actions[i].destination)
                <==> tree.contains_key(actions[i].destination)),
    ensures
        forall|path: Seq<char>|
            tree.contains_key(path) ==> #[trigger] same_at(
                after_run(tree, resolved(actions, existing, ConflictStrategy::Skip), content),
                tree,
                path,
            ),
        forall|path: Seq<char>|
            !tree.contains_key(path) ==> #[trigger] same_at(
                after_run(tree, resolved(actions, existing, ConflictStrategy::Skip), content),
                after_run(tree, resolved(actions, existing, ConflictStrategy::Overwrite), content),
                path,
            ),
{
    let skipped = stored(tree, unhindered(actions, existing), content);
    let all = stored(tree, actions, content);
    assert forall|path: Seq<char>| tree.contains_key(path) implies #[trigger] same_at(
        skipped,
        tree,
        path,
    ) by {
        skipping_spares_what_exists(tree, actions, existing, content, path);
        if !existing.contains(path) {
            untouched_where_no_action_goes(tree, unhindered(actions, existing), content, path);
            assert forall|i: int| 0 <= i < actions.len() implies actions[i].destination
                != path by {
                assert(existing.contains(actions[i].destination) <==> tree.contains_key(
                    actions[i].destination,
                ));
            }
            unhindered_are_actions(actions, existing);
        }
    }
    assert forall|path: Seq<char>| !tree.contains_key(path) implies #[trigger] same_at(
        skipped,
        all,
        path,
    ) by {
        skipping_spares_what_exists(tree, actions, existing, content, path);
        if existing.contains(path) {
            untouched_where_no_action_goes(tree, actions, content, path);
            assert forall|i: int| 0 <= i < actions.len() implies actions[i].destination
                != path by {
                assert(existing.contains(actions[i].destination) <==> tree.contains_key(
                    actions[i].destination,
                ));
            }
        }
    }
}

/// A path that is no action's destination is left as it was.
proof fn untouched_where_no_action_goes(
    tree: Map<Seq<char>, Seq<u8>>,
    actions: Seq<ActionView>,
    content: spec_fn(ActionView) -> Seq<u8>,
    path: Seq<char>,
)
    ensures
        (forall|i: int| 0 <= i < actions.len() ==> (#[trigger] actions[i]).destination != path)
            ==> same_at(stored(tree, actions, content), tree, path),
    decreases actions.len(),
{
    if actions.len() > 0 {
        untouched_where_no_action_goes(tree, actions.drop_last(), content, path);
        if forall|i: int| 0 <= i < actions.len() ==> (#[trigger] actions[i]).destination != path {
            assert forall|i: int| 0 <= i < actions.drop_last().len() implies (
            #[trigger] actions.drop_last()[i]).destination != path by {
                assert(actions.drop_last()[i] == actions[i]);
            }
            assert(actions[actions.len() - 1].destination != path);
        }
    }
}

/// Every unhindered action is one of the actions.
proof fn unhindered_are_actions(actions: Seq<ActionView>, existing: Set<Seq<char>>)
    ensures
        forall|i: int|
            0 <= i < unhindered(actions, existing).len() ==> actions.contains(
                #[trigger] unhindered(actions, existing)[i],
            ),
    decreases actions.len(),
{
    if actions.len() > 0 {
        let rest = actions.drop_last();
        unhindered_are_actions(rest, existing);
        assert forall|i: int| 0 <= i < unhindered(actions, existing).len() implies actions.contains(
            #[trigger] unhindered(actions, existing)[i],
        ) by {
            if i < unhindered(rest, existing).len() {
                let at = rest.index_of(unhindered(rest, existing)[i]);
                assert(actions[at] == rest[at]);
            } else {
                assert(actions[actions.len() - 1] == actions.last());
            }
        }
    }
}

/// The path that a storing command stores under.
pub open spec fn target_of(command: CommandView) -> Seq<char> {
    match command {
        CommandView::WriteRendered { destination, .. } => destination,
        CommandView::CopyFile { destination, .. } => destination,
        _ => Seq::empty(),
    }
}

/// The tree after the storing commands have been carried out in turn, each
/// storing under its destination what `bytes` gives for it: the text to be
/// written, or what the source to be copied holds.
pub open spec fn carried_out(
    tree: Map<Seq<char>, Seq<u8>>,
    commands: Seq<CommandView>,
    bytes: spec_fn(CommandView) -> Seq<u8>,
) -> Map<Seq<char>, Seq<u8>>
    decreases commands.len(),
{
    if commands.len() == 0 {
        tree
    } else {
        carried_out(tree, commands.drop_last(), bytes).insert(
            target_of(commands.last()),
            bytes(commands.last()),
        )
    }
}

/// Carrying out the storing commands of the first `count` actions is
/// storing those actions.
proof fn carrying_out_is_storing(
    tree: Map<Seq<char>, Seq<u8>>,
    actions: Seq<ActionView>,
    commands: Seq<CommandView>,
    bytes: spec_fn(CommandView) -> Seq<u8>,
    content: spec_fn(ActionView) -> Seq<u8>,
    count: int,
)
    requires
        0 <= count,
        stores_match(commands, actions, count),
        forall|i: int| 0 <= i < count ==> bytes(#[trigger] commands[i]) == content(actions[i]),
    ensures
        carried_out(tree, commands, bytes) == stored(tree, actions.take(count), content),
    decreases count,
{
    if count > 0 {
        let fewer = commands.drop_last();
        assert forall|i: int| 0 <= i < count - 1 implies store_for(
            actions[i],
            #[trigger] fewer[i],
        ) && bytes(fewer[i]) == content(actions[i]) by {
            assert(fewer[i] == commands[i]);
        }
        carrying_out_is_storing(tree, actions, fewer, bytes, content, count - 1);
        assert(actions.take(count).drop_last() =~= actions.take(count - 1));
        assert(actions.take(count).last() == actions[count - 1]);
        assert(store_for(actions[count - 1], commands[count - 1]));
    } else {
        assert(actions.take(0) =~= Seq::<ActionView>::empty());
    }
}

/// What the executor commands is what the tree model stores. Where a run
/// over the actions has finished with every reply a success, and each
/// storing command stores the content that stands for its action, carrying
/// out the storing commands in turn leaves the tree as storing the actions
/// does.
pub proof fn finished_run_stores_the_actions(
    tree: Map<Seq<char>, Seq<u8>>,
    actions: Seq<ActionView>,
    replies: Seq<ReplyView>,
    bytes: spec_fn(CommandView) -> Seq<u8>,
    content: spec_fn(ActionView) -> Seq<u8>,
)
    requires
        all_succeed(actions, replies),
        run(actions, replies).1 == CommandView::Finished,
        forall|i: int|
            0 <= i < actions.len() ==> bytes(#[trigger] stores(actions, replies)[i]) == content(
                actions[i],
            ),
    ensures
        carried_out(tree, stores(actions, replies), bytes) == stored(tree, actions, content),
{
    successful_run_stores_each_action_once(actions, replies);
    carrying_out_is_storing(
        tree,
        actions,
        stores(actions, replies),
        bytes,
        content,
        actions.len() as int,
    );
    assert(actions.take(actions.len() as int) =~= actions);
}

} // verus!
