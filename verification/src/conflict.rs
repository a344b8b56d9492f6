//! The conflict resolver: what becomes of planned actions whose destination
//! is there already.

use vstd::prelude::*;
use vstd::string::*;
use crate::plan::{action_views, ActionView, FileAction};
use crate::text::{is_among, texts};

verus! {

/// What to do about destinations that exist. One strategy holds for a
/// whole run.
#[derive(Clone, Copy, Debug, PartialEq, Eq, Structural)]
pub enum ConflictStrategy {
    /// Refuse the run if any destination exists.
    Fail,
    /// Leave existing destinations alone and produce the others.
    Skip,
    /// Produce every file, replacing what exists.
    Overwrite,
}

/// The destinations that stood in the way of a run, all of them.
#[derive(Clone, Debug, PartialEq, Eq)]
pub struct ConflictError {
    pub destinations: Vec<String>,
}

/// The destinations among the actions' that exist, in the order of the
/// actions.
pub open spec fn conflicting(actions: Seq<ActionView>, existing: Set<Seq<char>>) -> Seq<Seq<char>>
    decreases actions.len(),
{
    if actions.len() == 0 {
        Seq::empty()
    } else if existing.contains(actions.last().destination) {
        conflicting(actions.drop_last(), existing).push(actions.last().destination)
    } else {
        conflicting(actions.drop_last(), existing)
    }
}

/// The actions whose destination does not exist, in their order.
pub open spec fn unhindered(actions: Seq<ActionView>, existing: Set<Seq<char>>) -> Seq<ActionView>
    decreases actions.len(),
{
    if actions.len() == 0 {
        Seq::empty()
    } else if existing.contains(actions.last().destination) {
        unhindered(actions.drop_last(), existing)
    } else {
        unhindered(actions.drop_last(), existing).push(actions.last())
    }
}

/// What a strategy makes of a plan: the actions that go ahead, or the
/// destinations that forbid the run.
pub open spec fn resolved(
    actions: Seq<ActionView>,
    existing: Set<Seq<char>>,
    strategy: ConflictStrategy,
) -> Result<Seq<ActionView>, Seq<Seq<char>>> {
    match strategy {
        ConflictStrategy::Overwrite => Ok(actions),
        ConflictStrategy::Skip => Ok(unhindered(actions, existing)),
        ConflictStrategy::Fail => if conflicting(actions, existing).len() == 0 {
            Ok(actions)
        } else {
            Err(conflicting(actions, existing))
        },
    }
}

/// A resolution as plain text.
pub open spec fn resolution_view(resolution: Result<Vec<FileAction>, ConflictError>) -> Result<
    Seq<ActionView>,
    Seq<Seq<char>>,
> {
    match resolution {
        Ok(actions) => Ok(action_views(actions@)),
        Err(error) => Err(texts(error.destinations@)),
    }
}

/// The destinations one to a line, each after a line break and two
/// blanks.
pub open spec fn lines_of(destinations: Seq<Seq<char>>) -> Seq<char>
    decreases destinations.len(),
{
    if destinations.len() == 0 {
        Seq::empty()
    } else {
        lines_of(destinations.drop_last()) + "\n  "@ + destinations.last()
    }
}

/// How conflicts are reported: one message with every destination.
pub open spec fn conflict_text(destinations: Seq<Seq<char>>) -> Seq<char> {
    "Destination files already exist:"@ + lines_of(destinations)
}

impl ConflictError {
    /// The report of the conflicts: one message that lists them all.
    pub fn describe(&self) -> (text: String)
        ensures
            text@ == conflict_text(texts(self.destinations@)),
    {
        let mut text = "Destination files already exist:".to_owned();
        let mut next: usize = 0;
        let ghost all = texts(self.destinations@);
        assert(all.take(0) =~= Seq::<Seq<char>>::empty());
        while next < self.destinations.len()
            invariant
                next <= self.destinations@.len(),
                all == texts(self.destinations@),
                text@ == conflict_text(all.take(next as int)),
            decreases self.destinations@.len() - next,
        {
            proof {
                let taken = all.take(next + 1);
                assert(taken.drop_last() =~= all.take(next as int));
                assert(taken.last() == self.destinations@[next as int]@);
            }
            let ghost before = text@;
            text.append("\n  ");
            text.append(self.destinations[next].as_str());
            assert(text@ =~= "Destination files already exist:"@ + (lines_of(
                all.take(next as int),
            ) + "\n  "@ + self.destinations@[next as int]@));
            next += 1;
        }
        assert(all.take(next as int) =~= all);
        text
    }
}

impl ConflictStrategy {
    /// The strategy that two switches ask for: neither means `Fail`, and
    /// both at once mean nothing.
    pub fn from_flags(overwrite_conflicts: bool, skip_conflicts: bool) -> (strategy: Option<
        ConflictStrategy,
    >)
        ensures
            strategy == (if overwrite_conflicts && skip_conflicts {
                None
            } else if overwrite_conflicts {
                Some(ConflictStrategy::Overwrite)
            } else if skip_conflicts {
                Some(ConflictStrategy::Skip)
            } else {
                Some(ConflictStrategy::Fail)
            }),
    {
        if overwrite_conflicts && skip_conflicts {
            None
        } else if overwrite_conflicts {
            Some(ConflictStrategy::Overwrite)
        } else if skip_conflicts {
            Some(ConflictStrategy::Skip)
        } else {
            Some(ConflictStrategy::Fail)
        }
    }
}

/// Lists the destinations among the actions' that exist, in the order of
/// the actions.
pub fn find_conflicts(actions: &Vec<FileAction>, existing: &Vec<String>) -> (found: Vec<String>)
    ensures
        texts(found@) == conflicting(action_views(actions@), texts(existing@).to_set()),
{
    let mut found: Vec<String> = Vec::new();
    let mut next: usize = 0;
    let ghost plan = action_views(actions@);
    let ghost there = texts(existing@).to_set();
    assert(plan.take(0) =~= Seq::<ActionView>::empty());
    assert(texts(found@) =~= Seq::<Seq<char>>::empty());
    while next < actions.len()
        invariant
            next <= actions@.len(),
            plan == action_views(actions@),
            there == texts(existing@).to_set(),
            texts(found@) == conflicting(plan.take(next as int), there),
        decreases actions@.len() - next,
    {
        proof {
            let taken = plan.take(next + 1);
            assert(taken.drop_last() =~= plan.take(next as int));
            assert(taken.last() == actions@[next as int]@);
        }
        if is_among(existing, actions[next].destination.as_str()) {
            let ghost before = texts(found@);
            found.push(actions[next].destination.clone());
            assert(texts(found@) =~= before.push(actions@[next as int].destination@));
        }
        next += 1;
    }
    assert(plan.take(next as int) =~= plan);
    found
}

/// Keeps the actions whose destination does not exist, in their order.
pub fn drop_conflicting(actions: Vec<FileAction>, existing: &Vec<String>) -> (kept: Vec<FileAction>)
    ensures
        action_views(kept@) == unhindered(action_views(actions@), texts(existing@).to_set()),
{
    let mut kept: Vec<FileAction> = Vec::new();
    let ghost plan = action_views(actions@);
    let ghost there = texts(existing@).to_set();
    assert(plan.take(0) =~= Seq::<ActionView>::empty());
    assert(action_views(kept@) =~= Seq::<ActionView>::empty());
    for action in iter: actions
        invariant
            iter.seq() == actions@,
            plan == action_views(actions@),
            there == texts(existing@).to_set(),
            action_views(kept@) == unhindered(plan.take(iter.index()), there),
    {
        proof {
            let taken = plan.take(iter.index() + 1);
            assert(taken.drop_last() =~= plan.take(iter.index()));
            assert(taken.last() == action@);
        }
        if !is_among(existing, action.destination.as_str()) {
            let ghost before = action_views(kept@);
            kept.push(action);
            assert(action_views(kept@) =~= before.push(action@));
        }
    }
    assert(plan.take(plan.len() as int) =~= plan);
    kept
}

/// Applies a strategy to a plan, given the destinations that exist.
/// `Overwrite` lets every action go ahead. `Skip` drops the actions whose
/// destination exists and reports nothing. `Fail` lets the plan go ahead as
/// it is if no destination exists, and otherwise refuses the run with every
/// conflicting destination.
pub fn resolve(actions: Vec<FileAction>, existing: &Vec<String>, strategy: ConflictStrategy) -> (res:
    Result<Vec<FileAction>, ConflictError>)
    ensures
        resolution_view(res) == resolved(
            action_views(actions@),
            texts(existing@).to_set(),
            strategy,
        ),
{
    match strategy {
        ConflictStrategy::Overwrite => Ok(actions),
        ConflictStrategy::Skip => Ok(drop_conflicting(actions, existing)),
        ConflictStrategy::Fail => {
            let destinations = find_conflicts(&actions, existing);
            if destinations.len() == 0 {
                Ok(actions)
            } else {
                Err(ConflictError { destinations })
            }
        },
    }
}

} // verus!
