//! Destroying a RAID device, as a machine that says what to ask of the device
//! layer and takes the answers.

use vstd::prelude::*;

use crate::error::{BdevError, BdevErrorView, RaidError, RaidErrorView};
use crate::raid::{Raid, RaidView};

verus! {

/// How far the destruction of a device has come.
pub enum DestroyState<E> {
    /// to find the RAID device by its name
    Find,
    /// to delete the RAID device that was found
    Delete,
    /// nothing is left to do
    Finished { result: Result<(), RaidError<E>> },
}

/// What the device layer is asked to do.
pub enum DestroyAction {
    /// look a RAID device up by its name
    FindRaid { name: String },
    /// delete the RAID device that was found
    DeleteRaid,
}

/// What the device layer answers.
pub enum DestroyEvent<E> {
    /// the look-up found a device, or did not
    Found(bool),
    /// the device was deleted
    Succeeded,
    /// the device could not be deleted
    Failed(E),
}

/// A `DestroyState` with its result as a mathematical value.
pub enum DestroyStateView<E> {
    Find,
    Delete,
    Finished { result: Result<(), RaidErrorView<E>> },
}

/// A `DestroyAction` with its text as a sequence of characters.
pub enum DestroyActionView {
    FindRaid { name: Seq<char> },
    DeleteRaid,
}

impl<E> View for DestroyState<E> {
    type V = DestroyStateView<E>;

    open spec fn view(&self) -> DestroyStateView<E> {
        match self {
            DestroyState::Find => DestroyStateView::Find,
            DestroyState::Delete => DestroyStateView::Delete,
            DestroyState::Finished { result } => DestroyStateView::Finished {
                result: match result {
                    Ok(_) => Ok(()),
                    Err(error) => Err(error@),
                },
            },
        }
    }
}

impl View for DestroyAction {
    type V = DestroyActionView;

    open spec fn view(&self) -> DestroyActionView {
        match self {
            DestroyAction::FindRaid { name } => DestroyActionView::FindRaid { name: name@ },
            DestroyAction::DeleteRaid => DestroyActionView::DeleteRaid,
        }
    }
}

impl<E> DestroyStateView<E> {
    /// What to ask of the device layer next.
    pub open spec fn action(self, raid: RaidView) -> Option<DestroyActionView> {
        match self {
            DestroyStateView::Find => Some(DestroyActionView::FindRaid { name: raid.name }),
            DestroyStateView::Delete => Some(DestroyActionView::DeleteRaid),
            DestroyStateView::Finished { result } => None,
        }
    }

    /// The event is an answer to what was asked.
    pub open spec fn accepts(self, event: DestroyEvent<E>) -> bool {
        match self {
            DestroyStateView::Find => event is Found,
            DestroyStateView::Delete => event is Succeeded || event is Failed,
            DestroyStateView::Finished { result } => false,
        }
    }

    /// The state after an answer.
    pub open spec fn next(self, raid: RaidView, event: DestroyEvent<E>) -> DestroyStateView<E> {
        match (self, event) {
            (DestroyStateView::Find, DestroyEvent::Found(found)) => if found {
                DestroyStateView::Delete
            } else {
                DestroyStateView::Finished {
                    result: Err(
                        RaidErrorView::Bdev(BdevErrorView::BdevNotFound { name: raid.name }),
                    ),
                }
            },
            (DestroyStateView::Delete, DestroyEvent::Succeeded) => DestroyStateView::Finished {
                result: Ok(()),
            },
            (DestroyStateView::Delete, DestroyEvent::Failed(error)) => DestroyStateView::Finished {
                result: Err(RaidErrorView::Device(error)),
            },
            (state, _) => state,
        }
    }
}

impl Raid {
    /// The state in which destruction starts.
    pub fn destroy_start<E>(&self) -> (state: DestroyState<E>)
        ensures
            state@ == DestroyStateView::<E>::Find,
            state is Find,
    {
        DestroyState::Find
    }

    /// What to ask of the device layer in a state: nothing, where destruction
    /// has ended.
    pub fn destroy_action<E>(&self, state: &DestroyState<E>) -> (action: Option<DestroyAction>)
        ensures
            match action {
                Some(a) => state@.action(self@) == Some(a@),
                None => state@.action(self@) is None,
            },
            match *state {
                DestroyState::Find => action matches Some(DestroyAction::FindRaid { name }) && name@
                    == self.name@,
                DestroyState::Delete => action == Some(DestroyAction::DeleteRaid),
                DestroyState::Finished { result } => action is None,
            },
    {
        match state {
            DestroyState::Find => Some(DestroyAction::FindRaid { name: self.name.clone() }),
            DestroyState::Delete => Some(DestroyAction::DeleteRaid),
            DestroyState::Finished { result } => None,
        }
    }

    /// Takes the answer to what was asked.
    pub fn destroy_step<E>(&self, state: DestroyState<E>, event: DestroyEvent<E>) -> (after:
        DestroyState<E>)
        requires
            state@.accepts(event),
        ensures
            after@ == state@.next(self@, event),
            match (state, event) {
                (DestroyState::Find, DestroyEvent::Found(found)) => if found {
                    after is Delete
                } else {
                    after matches DestroyState::Finished {
                        result: Err(RaidError::Bdev(BdevError::BdevNotFound { name })),
                    } && name@ == self.name@
                },
                (DestroyState::Delete, DestroyEvent::Succeeded) => after == (
                DestroyState::<E>::Finished { result: Ok(()) }),
                (DestroyState::Delete, DestroyEvent::Failed(error)) => after == (
                DestroyState::<E>::Finished { result: Err(RaidError::Device(error)) }),
                _ => false,
            },
    {
        match (state, event) {
            (DestroyState::Find, DestroyEvent::Found(found)) => if found {
                DestroyState::Delete
            } else {
                DestroyState::Finished {
                    result: Err(
                        RaidError::Bdev(BdevError::BdevNotFound { name: self.name.clone() }),
                    ),
                }
            },
            (DestroyState::Delete, DestroyEvent::Succeeded) => DestroyState::Finished {
                result: Ok(()),
            },
            (DestroyState::Delete, DestroyEvent::Failed(error)) => DestroyState::Finished {
                result: Err(RaidError::Device(error)),
            },
            (state, _) => state,
        }
    }
}

/// What the device layer would answer to everything that destruction can ask of
/// it. A deletion that succeeds has no error.
pub struct DestroyAnswers<E> {
    pub found: bool,
    pub delete_error: Option<E>,
}

impl<E> DestroyAnswers<E> {
    /// The answer to what is asked in a state.
    pub open spec fn event(self, state: DestroyStateView<E>) -> DestroyEvent<E> {
        match state {
            DestroyStateView::Find => DestroyEvent::Found(self.found),
            _ => match self.delete_error {
                Some(error) => DestroyEvent::Failed(error),
                None => DestroyEvent::Succeeded,
            },
        }
    }
}

/// All that is asked from a state on, in order, and what comes of it.
pub open spec fn destroy_run<E>(
    raid: RaidView,
    answers: DestroyAnswers<E>,
    state: DestroyStateView<E>,
) -> (Seq<DestroyActionView>, Result<(), RaidErrorView<E>>)
    decreases
            match state {
                DestroyStateView::Find => 2int,
                DestroyStateView::Delete => 1int,
                DestroyStateView::Finished { result } => 0int,
            },
{
    match state {
        DestroyStateView::Finished { result } => (Seq::empty(), result),
        _ => {
            let rest = destroy_run(raid, answers, state.next(raid, answers.event(state)));
            (seq![state.action(raid)->0] + rest.0, rest.1)
        },
    }
}

/// A state, and an answer that fits it: the look-up is answered by whether the device
/// was found, the deletion by success or failure.
pub proof fn law_destroy_answers_fit<E>(state: DestroyStateView<E>, event: DestroyEvent<E>)
    ensures
        state.accepts(event) <==> match event {
            DestroyEvent::Found(_) => state is Find,
            _ => state is Delete,
        },
{
}

/// A state of destruction stands for itself, with its result, and a request for
/// itself, with its name.
pub proof fn law_destroy_parts<E>(state: DestroyState<E>, action: DestroyAction)
    ensures
        match state {
            DestroyState::Find => state@ is Find,
            DestroyState::Delete => state@ is Delete,
            DestroyState::Finished { result } => match result {
                Ok(_) => state@ == (DestroyStateView::<E>::Finished { result: Ok(()) }),
                Err(error) => state@ == (DestroyStateView::<E>::Finished { result: Err(error@) }),
            },
        },
        match action {
            DestroyAction::FindRaid { name } => action@ == (
            DestroyActionView::FindRaid { name: name@ }),
            DestroyAction::DeleteRaid => action@ is DeleteRaid,
        },
{
}

/// A destruction runs from answer to answer: what is asked from a state on is what
/// that state asks and then what is asked from the next state on, up to the end,
/// which gives the result.
pub proof fn law_destroy_runs_by_steps<E>(
    raid: RaidView,
    answers: DestroyAnswers<E>,
    state: DestroyStateView<E>,
)
    ensures
        state matches DestroyStateView::Finished { result } ==> destroy_run(raid, answers, state)
            == (Seq::<DestroyActionView>::empty(), result),
        !(state is Finished) ==> destroy_run(raid, answers, state) == (
            seq![state.action(raid)->0] + destroy_run(
                raid,
                answers,
                state.next(raid, answers.event(state)),
            ).0,
            destroy_run(raid, answers, state.next(raid, answers.event(state))).1,
        ),
        state is Find ==> answers.event(state) == DestroyEvent::<E>::Found(answers.found),
        state is Delete ==> match answers.delete_error {
            Some(error) => answers.event(state) == DestroyEvent::Failed(error),
            None => answers.event(state) is Succeeded,
        },
{
}

/// Where there is no such RAID device, the result is an error that names it, and
/// nothing is deleted. Where there is one, it is deleted, and the result is what
/// comes of the deletion.
pub proof fn law_destroy_outcome<E>(raid: RaidView, answers: DestroyAnswers<E>)
    ensures
        !answers.found ==> {
            &&& destroy_run(raid, answers, DestroyStateView::Find).0 == seq![
                DestroyActionView::FindRaid { name: raid.name },
            ]
            &&& destroy_run(raid, answers, DestroyStateView::Find).1 == Err::<(), _>(
                RaidErrorView::<E>::Bdev(BdevErrorView::BdevNotFound { name: raid.name }),
            )
        },
        answers.found ==> {
            &&& destroy_run(raid, answers, DestroyStateView::Find).0 == seq![
                DestroyActionView::FindRaid { name: raid.name },
                DestroyActionView::DeleteRaid,
            ]
            &&& destroy_run(raid, answers, DestroyStateView::Find).1
                == match answers.delete_error {
                Some(error) => Err(RaidErrorView::Device(error)),
                None => Ok(()),
            }
        },
{
    reveal_with_fuel(destroy_run, 3);
    assert(answers.found ==> destroy_run(raid, answers, DestroyStateView::Find).0 == seq![
        DestroyActionView::FindRaid { name: raid.name },
        DestroyActionView::DeleteRaid,
    ]);
    assert(!answers.found ==> destroy_run(raid, answers, DestroyStateView::Find).0 == seq![
        DestroyActionView::FindRaid { name: raid.name },
    ]);
}

} // verus!
