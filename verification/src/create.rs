//! Creating a RAID device, as a machine that says what to ask of the device
//! layer and takes the answers.

use vstd::prelude::*;

use crate::error::{BdevError, BdevErrorView, RaidError, RaidErrorView};
use crate::raid::{Raid, RaidView};

verus! {

/// How far the creation of a device has come.
pub enum CreateState<E> {
    /// to find out whether the name is taken
    CheckName,
    /// to find out whether a child device is there
    CheckChild { index: usize },
    /// to create the RAID device
    Create,
    /// to add a child device to the RAID device
    AddChild { index: usize },
    /// to wait until the RAID device is online
    WaitOnline,
    /// to delete the RAID device again, because of a failure
    RollBack { cause: E },
    /// to find the device under its name
    FindCreated,
    /// to give the device its alias
    AddAlias,
    /// nothing is left to do
    Finished { result: Result<String, RaidError<E>> },
}

/// What the device layer is asked to do.
pub enum CreateAction {
    /// look a device up by its name
    LookUp { name: String },
    /// create a RAID device without children
    CreateRaid {
        name: String,
        uuid: u128,
        strip_size_kb: u32,
        device_count: u8,
        spdk_raid_level: i32,
    },
    /// add a child device to the RAID device that was created
    AddBaseBdev { name: String },
    /// wait until the RAID device is online
    WaitForOnline,
    /// delete the RAID device that was created
    DeleteRaid,
    /// add an alias to the device that was found
    AddAlias { alias: String },
}

/// What the device layer answers.
pub enum CreateEvent<E> {
    /// a look-up found a device, or did not
    Found(bool),
    /// the action succeeded
    Succeeded,
    /// the action failed
    Failed(E),
    /// the alias was added, or was not
    AliasAdded(bool),
}

/// A `CreateState` with its result as a mathematical value.
pub enum CreateStateView<E> {
    CheckName,
    CheckChild { index: int },
    Create,
    AddChild { index: int },
    WaitOnline,
    RollBack { cause: E },
    FindCreated,
    AddAlias,
    Finished { result: Result<Seq<char>, RaidErrorView<E>> },
}

/// A `CreateAction` with its texts as sequences of characters.
pub enum CreateActionView {
    LookUp { name: Seq<char> },
    CreateRaid {
        name: Seq<char>,
        uuid: u128,
        strip_size_kb: u32,
        device_count: u8,
        spdk_raid_level: i32,
    },
    AddBaseBdev { name: Seq<char> },
    WaitForOnline,
    DeleteRaid,
    AddAlias { alias: Seq<char> },
}

impl<E> View for CreateState<E> {
    type V = CreateStateView<E>;

    open spec fn view(&self) -> CreateStateView<E> {
        match self {
            CreateState::CheckName => CreateStateView::CheckName,
            CreateState::CheckChild { index } => CreateStateView::CheckChild { index: *index as int },
            CreateState::Create => CreateStateView::Create,
            CreateState::AddChild { index } => CreateStateView::AddChild { index: *index as int },
            CreateState::WaitOnline => CreateStateView::WaitOnline,
            CreateState::RollBack { cause } => CreateStateView::RollBack { cause: *cause },
            CreateState::FindCreated => CreateStateView::FindCreated,
            CreateState::AddAlias => CreateStateView::AddAlias,
            CreateState::Finished { result } => CreateStateView::Finished {
                result: match result {
                    Ok(name) => Ok(name@),
                    Err(error) => Err(error@),
                },
            },
        }
    }
}

impl View for CreateAction {
    type V = CreateActionView;

    open spec fn view(&self) -> CreateActionView {
        match self {
            CreateAction::LookUp { name } => CreateActionView::LookUp { name: name@ },
            CreateAction::CreateRaid { name, uuid, strip_size_kb, device_count, spdk_raid_level } => {
                CreateActionView::CreateRaid {
                    name: name@,
                    uuid: *uuid,
                    strip_size_kb: *strip_size_kb,
                    device_count: *device_count,
                    spdk_raid_level: *spdk_raid_level,
                }
            },
            CreateAction::AddBaseBdev { name } => CreateActionView::AddBaseBdev { name: name@ },
            CreateAction::WaitForOnline => CreateActionView::WaitForOnline,
            CreateAction::DeleteRaid => CreateActionView::DeleteRaid,
            CreateAction::AddAlias { alias } => CreateActionView::AddAlias { alias: alias@ },
        }
    }
}

/// Checking the children from `index` on, or creating the device where none is
/// left to check.
pub open spec fn checking<E>(raid: RaidView, index: int) -> CreateStateView<E> {
    if index < raid.disks.len() {
        CreateStateView::CheckChild { index }
    } else {
        CreateStateView::Create
    }
}

/// Adding the children from `index` on, or waiting for the device where none is
/// left to add.
pub open spec fn adding<E>(raid: RaidView, index: int) -> CreateStateView<E> {
    if index < raid.disks.len() {
        CreateStateView::AddChild { index }
    } else {
        CreateStateView::WaitOnline
    }
}

/// Creation ended without a device.
pub open spec fn refused<E>(error: RaidErrorView<E>) -> CreateStateView<E> {
    CreateStateView::Finished { result: Err(error) }
}

/// Creation ended with a device.
pub open spec fn created<E>(raid: RaidView) -> CreateStateView<E> {
    CreateStateView::Finished { result: Ok(raid.name) }
}

/// The error for a child that is not there.
pub open spec fn child_not_found<E>(raid: RaidView, index: int) -> RaidErrorView<E> {
    RaidErrorView::Bdev(
        BdevErrorView::CreateBdevFailedStr {
            error: "Child device '"@ + raid.disks[index] + "' not found"@,
            name: raid.name,
        },
    )
}

/// The request to create the RAID device. The number of its children goes into
/// eight bits, whatever it is.
pub open spec fn create_request(raid: RaidView) -> CreateActionView {
    CreateActionView::CreateRaid {
        name: raid.name,
        uuid: raid.uuid,
        strip_size_kb: raid.strip_size_kb,
        device_count: (raid.disks.len() % 256) as u8,
        spdk_raid_level: raid.level.spdk_raid_level,
    }
}

impl<E> CreateStateView<E> {
    /// The state is one that the creation of `raid` can be in.
    pub open spec fn fits(self, raid: RaidView) -> bool {
        match self {
            CreateStateView::CheckChild { index } => 0 <= index < raid.disks.len(),
            CreateStateView::AddChild { index } => 0 <= index < raid.disks.len(),
            _ => true,
        }
    }

    /// What to ask of the device layer next.
    pub open spec fn action(self, raid: RaidView) -> Option<CreateActionView> {
        match self {
            CreateStateView::CheckName => Some(CreateActionView::LookUp { name: raid.name }),
            CreateStateView::CheckChild { index } => Some(
                CreateActionView::LookUp { name: raid.disks[index] },
            ),
            CreateStateView::Create => Some(create_request(raid)),
            CreateStateView::AddChild { index } => Some(
                CreateActionView::AddBaseBdev { name: raid.disks[index] },
            ),
            CreateStateView::WaitOnline => Some(CreateActionView::WaitForOnline),
            CreateStateView::RollBack { cause } => Some(CreateActionView::DeleteRaid),
            CreateStateView::FindCreated => Some(CreateActionView::LookUp { name: raid.name }),
            CreateStateView::AddAlias => Some(CreateActionView::AddAlias { alias: raid.alias }),
            CreateStateView::Finished { result } => None,
        }
    }

    /// The event is an answer to what was asked.
    pub open spec fn accepts(self, event: CreateEvent<E>) -> bool {
        match self {
            CreateStateView::CheckName => event is Found,
            CreateStateView::CheckChild { index } => event is Found,
            CreateStateView::Create => event is Succeeded || event is Failed,
            CreateStateView::AddChild { index } => event is Succeeded || event is Failed,
            CreateStateView::WaitOnline => event is Succeeded || event is Failed,
            CreateStateView::RollBack { cause } => event is Succeeded || event is Failed,
            CreateStateView::FindCreated => event is Found,
            CreateStateView::AddAlias => event is AliasAdded,
            CreateStateView::Finished { result } => false,
        }
    }

    /// The state after an answer. A failure to delete the device again is passed
    /// over in favour of the failure that led there, and so is a failure to add
    /// the alias.
    pub open spec fn next(self, raid: RaidView, event: CreateEvent<E>) -> CreateStateView<E> {
        match (self, event) {
            (CreateStateView::CheckName, CreateEvent::Found(found)) => if found {
                refused(RaidErrorView::Bdev(BdevErrorView::BdevExists { name: raid.name }))
            } else {
                checking(raid, 0)
            },
            (CreateStateView::CheckChild { index }, CreateEvent::Found(found)) => if found {
                checking(raid, index + 1)
            } else {
                refused(child_not_found(raid, index))
            },
            (CreateStateView::Create, CreateEvent::Succeeded) => adding(raid, 0),
            (CreateStateView::Create, CreateEvent::Failed(error)) => refused(
                RaidErrorView::Device(error),
            ),
            (CreateStateView::AddChild { index }, CreateEvent::Succeeded) => adding(raid, index + 1),
            (CreateStateView::AddChild { index }, CreateEvent::Failed(error)) => {
                CreateStateView::RollBack { cause: error }
            },
            (CreateStateView::WaitOnline, CreateEvent::Succeeded) => CreateStateView::FindCreated,
            (CreateStateView::WaitOnline, CreateEvent::Failed(error)) => {
                CreateStateView::RollBack { cause: error }
            },
            (CreateStateView::RollBack { cause }, _) => refused(RaidErrorView::Device(cause)),
            (CreateStateView::FindCreated, CreateEvent::Found(found)) => if found && raid.alias
                != raid.name {
                CreateStateView::AddAlias
            } else {
                created(raid)
            },
            (CreateStateView::AddAlias, _) => created(raid),
            (state, _) => state,
        }
    }

    /// How many answers can be asked for at most, from this state on.
    pub open spec fn steps_left(self, raid: RaidView) -> nat {
        let children = raid.disks.len() as int;
        match self {
            CreateStateView::CheckName => (2 * children + 5) as nat,
            CreateStateView::CheckChild { index } => (2 * children - index + 4) as nat,
            CreateStateView::Create => (children + 4) as nat,
            CreateStateView::AddChild { index } => (children - index + 3) as nat,
            CreateStateView::WaitOnline => 3,
            CreateStateView::RollBack { cause } => 1,
            CreateStateView::FindCreated => 2,
            CreateStateView::AddAlias => 1,
            CreateStateView::Finished { result } => 0,
        }
    }
}

impl Raid {
    /// The state in which creation starts.
    pub fn create_start<E>(&self) -> (state: CreateState<E>)
        ensures
            state@ == CreateStateView::<E>::CheckName,
            state is CheckName,
            state@.fits(self@),
    {
        CreateState::CheckName
    }

    /// What to ask of the device layer in a state: nothing, where creation has
    /// ended.
    pub fn create_action<E>(&self, state: &CreateState<E>) -> (action: Option<CreateAction>)
        requires
            state@.fits(self@),
        ensures
            match action {
                Some(a) => state@.action(self@) == Some(a@),
                None => state@.action(self@) is None,
            },
            match *state {
                CreateState::CheckName => action matches Some(CreateAction::LookUp { name })
                    && name@ == self.name@,
                CreateState::CheckChild { index } => action matches Some(
                    CreateAction::LookUp { name },
                ) && name@ == self.disks@[index as int]@,
                CreateState::Create => action matches Some(
                    CreateAction::CreateRaid {
                        name,
                        uuid,
                        strip_size_kb,
                        device_count,
                        spdk_raid_level,
                    },
                ) && name@ == self.name@ && uuid == self.uuid && strip_size_kb
                    == self.strip_size_kb && device_count == self.disks@.len() % 256
                    && spdk_raid_level == self.level.spdk_raid_level,
                CreateState::AddChild { index } => action matches Some(
                    CreateAction::AddBaseBdev { name },
                ) && name@ == self.disks@[index as int]@,
                CreateState::WaitOnline => action == Some(CreateAction::WaitForOnline),
                CreateState::RollBack { cause } => action == Some(CreateAction::DeleteRaid),
                CreateState::FindCreated => action matches Some(CreateAction::LookUp { name })
                    && name@ == self.name@,
                CreateState::AddAlias => action matches Some(CreateAction::AddAlias { alias })
                    && alias@ == self.alias@,
                CreateState::Finished { result } => action is None,
            },
    {
        match state {
            CreateState::CheckName => Some(CreateAction::LookUp { name: self.name.clone() }),
            CreateState::CheckChild { index } => {
                assert(self@.disks[*index as int] == self.disks@[*index as int]@);
                Some(CreateAction::LookUp { name: self.disks[*index].clone() })
            },
            CreateState::Create => {
                let count = self.disks.len();
                assert(count as u8 == count % 256) by (bit_vector);
                Some(
                    CreateAction::CreateRaid {
                        name: self.name.clone(),
                        uuid: self.uuid,
                        strip_size_kb: self.strip_size_kb,
                        device_count: #[verifier::truncate] (count as u8),
                        spdk_raid_level: self.level.spdk_raid_level,
                    },
                )
            },
            CreateState::AddChild { index } => {
                assert(self@.disks[*index as int] == self.disks@[*index as int]@);
                Some(CreateAction::AddBaseBdev { name: self.disks[*index].clone() })
            },
            CreateState::WaitOnline => Some(CreateAction::WaitForOnline),
            CreateState::RollBack { cause } => Some(CreateAction::DeleteRaid),
            CreateState::FindCreated => Some(CreateAction::LookUp { name: self.name.clone() }),
            CreateState::AddAlias => Some(CreateAction::AddAlias { alias: self.alias.clone() }),
            CreateState::Finished { result } => None,
        }
    }

    /// Takes the answer to what was asked.
    pub fn create_step<E>(&self, state: CreateState<E>, event: CreateEvent<E>) -> (after: CreateState<E>)
        requires
            state@.fits(self@),
            state@.accepts(event),
        ensures
            after@ == state@.next(self@, event),
            after@.fits(self@),
            match (state, event) {
                (CreateState::CheckName, CreateEvent::Found(found)) => if found {
                    after matches CreateState::Finished {
                        result: Err(RaidError::Bdev(BdevError::BdevExists { name })),
                    } && name@ == self.name@
                } else if self.disks@.len() > 0 {
                    after == (CreateState::<E>::CheckChild { index: 0 })
                } else {
                    after is Create
                },
                (CreateState::CheckChild { index }, CreateEvent::Found(found)) => if !found {
                    after matches CreateState::Finished {
                        result: Err(RaidError::Bdev(BdevError::CreateBdevFailedStr { error, name })),
                    } && name@ == self.name@ && error@ == "Child device '"@
                        + self.disks@[index as int]@ + "' not found"@
                } else if index + 1 < self.disks@.len() {
                    after matches CreateState::CheckChild { index: following } && following == index
                        + 1
                } else {
                    after is Create
                },
                (CreateState::Create, CreateEvent::Succeeded) => if self.disks@.len() > 0 {
                    after == (CreateState::<E>::AddChild { index: 0 })
                } else {
                    after is WaitOnline
                },
                (CreateState::Create, CreateEvent::Failed(cause)) => after == (
                CreateState::<E>::Finished { result: Err(RaidError::Device(cause)) }),
                (CreateState::AddChild { index }, CreateEvent::Succeeded) => if index + 1
                    < self.disks@.len() {
                    after matches CreateState::AddChild { index: following } && following == index
                        + 1
                } else {
                    after is WaitOnline
                },
                (CreateState::AddChild { index }, CreateEvent::Failed(cause)) => after == (
                CreateState::<E>::RollBack { cause }),
                (CreateState::WaitOnline, CreateEvent::Succeeded) => after is FindCreated,
                (CreateState::WaitOnline, CreateEvent::Failed(cause)) => after == (
                CreateState::<E>::RollBack { cause }),
                (CreateState::RollBack { cause }, _) => after == (CreateState::<E>::Finished {
                    result: Err(RaidError::Device(cause)),
                }),
                (CreateState::FindCreated, CreateEvent::Found(found)) => if found && self.alias@
                    != self.name@ {
                    after is AddAlias
                } else {
                    after matches CreateState::Finished { result: Ok(name) } && name@ == self.name@
                },
                (CreateState::AddAlias, _) => after matches CreateState::Finished { result: Ok(name) }
                    && name@ == self.name@,
                _ => false,
            },
    {
        assert(self@.disks.len() == self.disks.len() <= usize::MAX);
        match (state, event) {
            (CreateState::CheckName, CreateEvent::Found(found)) => if found {
                CreateState::Finished {
                    result: Err(
                        RaidError::Bdev(BdevError::BdevExists { name: self.name.clone() }),
                    ),
                }
            } else {
                self.check_from(0)
            },
            (CreateState::CheckChild { index }, CreateEvent::Found(found)) => if found {
                self.check_from(index + 1)
            } else {
                assert(self@.disks[index as int] == self.disks@[index as int]@);
                let error = "Child device '".to_string()
                    .concat(self.disks[index].as_str())
                    .concat("' not found");
                CreateState::Finished {
                    result: Err(
                        RaidError::Bdev(
                            BdevError::CreateBdevFailedStr { error, name: self.name.clone() },
                        ),
                    ),
                }
            },
            (CreateState::Create, CreateEvent::Succeeded) => self.add_from(0),
            (CreateState::Create, CreateEvent::Failed(error)) => CreateState::Finished {
                result: Err(RaidError::Device(error)),
            },
            (CreateState::AddChild { index }, CreateEvent::Succeeded) => self.add_from(index + 1),
            (CreateState::AddChild { index }, CreateEvent::Failed(error)) => {
                CreateState::RollBack { cause: error }
            },
            (CreateState::WaitOnline, CreateEvent::Succeeded) => CreateState::FindCreated,
            (CreateState::WaitOnline, CreateEvent::Failed(error)) => {
                CreateState::RollBack { cause: error }
            },
            (CreateState::RollBack { cause }, _) => CreateState::Finished {
                result: Err(RaidError::Device(cause)),
            },
            (CreateState::FindCreated, CreateEvent::Found(found)) => if found && self.alias
                != self.name {
                CreateState::AddAlias
            } else {
                CreateState::Finished { result: Ok(self.name.clone()) }
            },
            (CreateState::AddAlias, _) => CreateState::Finished { result: Ok(self.name.clone()) },
            (state, _) => state,
        }
    }

    fn check_from<E>(&self, index: usize) -> (state: CreateState<E>)
        requires
            index <= self.disks.len(),
        ensures
            state@ == checking::<E>(self@, index as int),
            state@.fits(self@),
    {
        if index < self.disks.len() {
            CreateState::CheckChild { index }
        } else {
            CreateState::Create
        }
    }

    fn add_from<E>(&self, index: usize) -> (state: CreateState<E>)
        requires
            index <= self.disks.len(),
        ensures
            state@ == adding::<E>(self@, index as int),
            state@.fits(self@),
    {
        if index < self.disks.len() {
            CreateState::AddChild { index }
        } else {
            CreateState::WaitOnline
        }
    }
}

/// A state, and an answer that fits it: a look-up is answered by whether a device
/// was found, an alias by whether it was added, everything else by success or
/// failure, and where creation has ended nothing is answered. A child is asked for
/// by its place in the list.
pub proof fn law_create_answers_fit<E>(
    raid: RaidView,
    state: CreateStateView<E>,
    event: CreateEvent<E>,
)
    ensures
        state.accepts(event) <==> match event {
            CreateEvent::Found(_) => state is CheckName || state is CheckChild || state
                is FindCreated,
            CreateEvent::AliasAdded(_) => state is AddAlias,
            _ => state is Create || state is AddChild || state is WaitOnline || state is RollBack,
        },
        state.fits(raid) <==> match state {
            CreateStateView::CheckChild { index } => 0 <= index < raid.disks.len(),
            CreateStateView::AddChild { index } => 0 <= index < raid.disks.len(),
            _ => true,
        },
{
}

/// A state of creation stands for itself, with its place in the list, its cause or
/// its result.
pub proof fn law_create_state_parts<E>(state: CreateState<E>)
    ensures
        match state {
            CreateState::CheckName => state@ is CheckName,
            CreateState::CheckChild { index } => state@ == (CreateStateView::<E>::CheckChild {
                index: index as int,
            }),
            CreateState::Create => state@ is Create,
            CreateState::AddChild { index } => state@ == (CreateStateView::<E>::AddChild {
                index: index as int,
            }),
            CreateState::WaitOnline => state@ is WaitOnline,
            CreateState::RollBack { cause } => state@ == (CreateStateView::RollBack { cause }),
            CreateState::FindCreated => state@ is FindCreated,
            CreateState::AddAlias => state@ is AddAlias,
            CreateState::Finished { result } => match result {
                Ok(name) => state@ == (CreateStateView::<E>::Finished { result: Ok(name@) }),
                Err(error) => state@ == (CreateStateView::<E>::Finished { result: Err(error@) }),
            },
        },
{
}

/// A request to the device layer stands for itself, each part under its own name.
pub proof fn law_create_action_parts(action: CreateAction)
    ensures
        match action {
            CreateAction::LookUp { name } => action@ == (CreateActionView::LookUp { name: name@ }),
            CreateAction::CreateRaid { name, uuid, strip_size_kb, device_count, spdk_raid_level } => {
                action@ == (CreateActionView::CreateRaid {
                    name: name@,
                    uuid,
                    strip_size_kb,
                    device_count,
                    spdk_raid_level,
                })
            },
            CreateAction::AddBaseBdev { name } => action@ == (
            CreateActionView::AddBaseBdev { name: name@ }),
            CreateAction::WaitForOnline => action@ is WaitForOnline,
            CreateAction::DeleteRaid => action@ is DeleteRaid,
            CreateAction::AddAlias { alias } => action@ == (
            CreateActionView::AddAlias { alias: alias@ }),
        },
{
}

/// What the device layer would answer to everything that creation can ask of
/// it. An action that succeeds has no error.
pub struct CreateAnswers<E> {
    pub name_taken: bool,
    pub child_present: Seq<bool>,
    pub create_error: Option<E>,
    pub add_error: Seq<Option<E>>,
    pub online_error: Option<E>,
    pub delete_error: Option<E>,
    pub device_visible: bool,
    pub alias_added: bool,
}

/// The event for an action that failed with an error, or did not.
pub open spec fn answered<E>(error: Option<E>) -> CreateEvent<E> {
    match error {
        Some(error) => CreateEvent::Failed(error),
        None => CreateEvent::Succeeded,
    }
}

impl<E> CreateAnswers<E> {
    /// There is an answer for every child.
    pub open spec fn fits(self, raid: RaidView) -> bool {
        &&& self.child_present.len() == raid.disks.len()
        &&& self.add_error.len() == raid.disks.len()
    }

    /// The answer to what is asked in a state.
    pub open spec fn event(self, state: CreateStateView<E>) -> CreateEvent<E> {
        match state {
            CreateStateView::CheckName => CreateEvent::Found(self.name_taken),
            CreateStateView::CheckChild { index } => CreateEvent::Found(self.child_present[index]),
            CreateStateView::Create => answered(self.create_error),
            CreateStateView::AddChild { index } => answered(self.add_error[index]),
            CreateStateView::WaitOnline => answered(self.online_error),
            CreateStateView::RollBack { cause } => answered(self.delete_error),
            CreateStateView::FindCreated => CreateEvent::Found(self.device_visible),
            CreateStateView::AddAlias => CreateEvent::AliasAdded(self.alias_added),
            CreateStateView::Finished { result } => CreateEvent::Succeeded,
        }
    }

    /// The name is free and all children are there.
    pub open spec fn may_create(self) -> bool {
        &&& !self.name_taken
        &&& forall|i: int| 0 <= i < self.child_present.len() ==> self.child_present[i]
    }

    /// No child fails to be added.
    pub open spec fn all_added(self) -> bool {
        forall|i: int| 0 <= i < self.add_error.len() ==> self.add_error[i] is None
    }
}

/// Every answer brings creation nearer to its end: there are at most five
/// questions and two for each child.
pub proof fn law_create_ends<E>(raid: RaidView, state: CreateStateView<E>, event: CreateEvent<E>)
    requires
        state.fits(raid),
        state.accepts(event),
    ensures
        state.next(raid, event).fits(raid),
        state.next(raid, event).steps_left(raid) < state.steps_left(raid),
        CreateStateView::<E>::CheckName.steps_left(raid) == 2 * raid.disks.len() + 5,
{
}

/// All that is asked from a state on, in order, and what comes of it.
pub open spec fn create_run<E>(
    raid: RaidView,
    answers: CreateAnswers<E>,
    state: CreateStateView<E>,
) -> (Seq<CreateActionView>, Result<Seq<char>, RaidErrorView<E>>)
    decreases state.steps_left(raid),
    when state.fits(raid)
{
    match state {
        CreateStateView::Finished { result } => (Seq::empty(), result),
        _ => {
            let rest = create_run(raid, answers, state.next(raid, answers.event(state)));
            (seq![state.action(raid)->0] + rest.0, rest.1)
        },
    }
}

/// All that is asked when a device is created, and what comes of it.
pub open spec fn create_all<E>(raid: RaidView, answers: CreateAnswers<E>) -> (
    Seq<CreateActionView>,
    Result<Seq<char>, RaidErrorView<E>>,
) {
    create_run(raid, answers, CreateStateView::CheckName)
}

/// A creation runs from answer to answer, starting with the name: what is asked
/// from a state on is what that state asks and then what is asked from the next
/// state on, up to the end, which gives the result.
pub proof fn law_create_runs_by_steps<E>(
    raid: RaidView,
    answers: CreateAnswers<E>,
    state: CreateStateView<E>,
)
    requires
        state.fits(raid),
    ensures
        create_all(raid, answers) == create_run(raid, answers, CreateStateView::CheckName),
        state matches CreateStateView::Finished { result } ==> create_run(raid, answers, state) == (
            Seq::<CreateActionView>::empty(),
            result,
        ),
        !(state is Finished) ==> create_run(raid, answers, state) == (
            seq![state.action(raid)->0] + create_run(
                raid,
                answers,
                state.next(raid, answers.event(state)),
            ).0,
            create_run(raid, answers, state.next(raid, answers.event(state))).1,
        ),
{
}

/// Each question has its own answer.
pub proof fn law_create_answers_belong<E>(answers: CreateAnswers<E>, index: int, cause: E)
    ensures
        answers.event(CreateStateView::CheckName) == CreateEvent::<E>::Found(answers.name_taken),
        answers.event(CreateStateView::CheckChild { index }) == CreateEvent::<E>::Found(
            answers.child_present[index],
        ),
        answers.event(CreateStateView::FindCreated) == CreateEvent::<E>::Found(
            answers.device_visible,
        ),
        answers.event(CreateStateView::AddAlias) == CreateEvent::<E>::AliasAdded(
            answers.alias_added,
        ),
        match answers.create_error {
            Some(error) => answers.event(CreateStateView::Create) == CreateEvent::Failed(error),
            None => answers.event(CreateStateView::Create) is Succeeded,
        },
        match answers.add_error[index] {
            Some(error) => answers.event(CreateStateView::AddChild { index })
                == CreateEvent::Failed(error),
            None => answers.event(CreateStateView::AddChild { index }) is Succeeded,
        },
        match answers.online_error {
            Some(error) => answers.event(CreateStateView::WaitOnline) == CreateEvent::Failed(error),
            None => answers.event(CreateStateView::WaitOnline) is Succeeded,
        },
        match answers.delete_error {
            Some(error) => answers.event(CreateStateView::RollBack { cause })
                == CreateEvent::Failed(error),
            None => answers.event(CreateStateView::RollBack { cause }) is Succeeded,
        },
{
}

/// The look-ups of the name and of the first `count` children.
pub open spec fn look_ups(raid: RaidView, count: nat) -> Seq<CreateActionView> {
    seq![CreateActionView::LookUp { name: raid.name }] + Seq::new(
        count,
        |i: int| CreateActionView::LookUp { name: raid.disks[i] },
    )
}

/// The additions of the first `count` children.
pub open spec fn additions(raid: RaidView, count: nat) -> Seq<CreateActionView> {
    Seq::new(count, |i: int| CreateActionView::AddBaseBdev { name: raid.disks[i] })
}

/// All look-ups, the request to create the device, and the additions of the
/// first `count` children.
pub open spec fn built(raid: RaidView, count: nat) -> Seq<CreateActionView> {
    look_ups(raid, raid.disks.len()).push(create_request(raid)) + additions(raid, count)
}

proof fn lemma_checks<E>(raid: RaidView, answers: CreateAnswers<E>, count: nat)
    requires
        answers.fits(raid),
        !answers.name_taken,
        count <= raid.disks.len(),
        forall|i: int| 0 <= i < count ==> answers.child_present[i],
    ensures
        create_all(raid, answers).0 == look_ups(raid, count) + create_run(
            raid,
            answers,
            checking(raid, count as int),
        ).0,
        create_all(raid, answers).1 == create_run(raid, answers, checking(raid, count as int)).1,
    decreases count,
{
    if count == 0 {
        assert(look_ups(raid, 0) == seq![CreateActionView::LookUp { name: raid.name }]);
    } else {
        let shorter = (count - 1) as nat;
        lemma_checks(raid, answers, shorter);
        let state = CreateStateView::<E>::CheckChild { index: shorter as int };
        assert(checking::<E>(raid, shorter as int) == state);
        assert(state.next(raid, answers.event(state)) == checking::<E>(raid, count as int));
        let here = seq![CreateActionView::LookUp { name: raid.disks[shorter as int] }];
        let rest = create_run(raid, answers, checking(raid, count as int)).0;
        assert(look_ups(raid, shorter) + (here + rest) == look_ups(raid, count) + rest);
    }
}

proof fn lemma_additions<E>(raid: RaidView, answers: CreateAnswers<E>, count: nat)
    requires
        answers.fits(raid),
        answers.may_create(),
        answers.create_error is None,
        count <= raid.disks.len(),
        forall|i: int| 0 <= i < count ==> answers.add_error[i] is None,
    ensures
        create_all(raid, answers).0 == built(raid, count) + create_run(
            raid,
            answers,
            adding(raid, count as int),
        ).0,
        create_all(raid, answers).1 == create_run(raid, answers, adding(raid, count as int)).1,
    decreases count,
{
    if count == 0 {
        lemma_checks(raid, answers, raid.disks.len());
        let rest = create_run(raid, answers, adding(raid, 0)).0;
        assert(create_run(raid, answers, CreateStateView::Create).0 == seq![create_request(raid)]
            + rest);
        assert(look_ups(raid, raid.disks.len()) + (seq![create_request(raid)] + rest) == built(
            raid,
            0,
        ) + rest);
    } else {
        let shorter = (count - 1) as nat;
        lemma_additions(raid, answers, shorter);
        let state = CreateStateView::<E>::AddChild { index: shorter as int };
        assert(adding::<E>(raid, shorter as int) == state);
        assert(state.next(raid, answers.event(state)) == adding::<E>(raid, count as int));
        let here = seq![CreateActionView::AddBaseBdev { name: raid.disks[shorter as int] }];
        let rest = create_run(raid, answers, adding(raid, count as int)).0;
        assert(built(raid, shorter) + (here + rest) == built(raid, count) + rest);
    }
}

/// Where the name is taken, nothing but that is asked, and creation is refused.
pub proof fn law_create_refuses_taken_name<E>(raid: RaidView, answers: CreateAnswers<E>)
    requires
        answers.name_taken,
    ensures
        create_all(raid, answers).0 == look_ups(raid, 0),
        create_all(raid, answers).1 == Err::<Seq<char>, _>(
            RaidErrorView::<E>::Bdev(BdevErrorView::BdevExists { name: raid.name }),
        ),
{
    reveal_with_fuel(create_run, 2);
    assert(create_all(raid, answers).0 == look_ups(raid, 0));
}

/// The first child that is not there ends creation, before any device is made,
/// with an error that names it.
pub proof fn law_create_refuses_missing_child<E>(
    raid: RaidView,
    answers: CreateAnswers<E>,
    index: int,
)
    requires
        answers.fits(raid),
        !answers.name_taken,
        0 <= index < raid.disks.len(),
        !answers.child_present[index],
        forall|i: int| 0 <= i < index ==> answers.child_present[i],
    ensures
        create_all(raid, answers).0 == look_ups(raid, (index + 1) as nat),
        create_all(raid, answers).1 == Err::<Seq<char>, _>(child_not_found::<E>(raid, index)),
{
    lemma_checks(raid, answers, index as nat);
    reveal_with_fuel(create_run, 2);
    assert(create_all(raid, answers).0 == look_ups(raid, (index + 1) as nat));
}

/// Where the device layer refuses to create the device, its error is the
/// result, and nothing is deleted.
pub proof fn law_create_passes_refusal_on<E>(raid: RaidView, answers: CreateAnswers<E>, error: E)
    requires
        answers.fits(raid),
        answers.may_create(),
        answers.create_error == Some(error),
    ensures
        create_all(raid, answers).0 == built(raid, 0),
        create_all(raid, answers).1 == Err::<Seq<char>, _>(RaidErrorView::Device(error)),
{
    lemma_checks(raid, answers, raid.disks.len());
    reveal_with_fuel(create_run, 2);
    assert(create_all(raid, answers).0 == built(raid, 0));
}

/// The first child that cannot be added has the device deleted again, and its
/// error is the result, whatever comes of the deletion.
pub proof fn law_create_rolls_back_on_child<E>(
    raid: RaidView,
    answers: CreateAnswers<E>,
    index: int,
    error: E,
)
    requires
        answers.fits(raid),
        answers.may_create(),
        answers.create_error is None,
        0 <= index < raid.disks.len(),
        answers.add_error[index] == Some(error),
        forall|i: int| 0 <= i < index ==> answers.add_error[i] is None,
    ensures
        create_all(raid, answers).0 == built(raid, (index + 1) as nat).push(
            CreateActionView::DeleteRaid,
        ),
        create_all(raid, answers).1 == Err::<Seq<char>, _>(RaidErrorView::Device(error)),
{
    lemma_additions(raid, answers, index as nat);
    reveal_with_fuel(create_run, 3);
    assert(create_all(raid, answers).0 == built(raid, (index + 1) as nat).push(
        CreateActionView::DeleteRaid,
    ));
}

/// A device that does not come online is deleted again, and the error of
/// waiting is the result, whatever comes of the deletion.
pub proof fn law_create_rolls_back_when_offline<E>(
    raid: RaidView,
    answers: CreateAnswers<E>,
    error: E,
)
    requires
        answers.fits(raid),
        answers.may_create(),
        answers.create_error is None,
        answers.all_added(),
        answers.online_error == Some(error),
    ensures
        create_all(raid, answers).0 == built(raid, raid.disks.len()).push(
            CreateActionView::WaitForOnline,
        ).push(CreateActionView::DeleteRaid),
        create_all(raid, answers).1 == Err::<Seq<char>, _>(RaidErrorView::Device(error)),
{
    lemma_additions(raid, answers, raid.disks.len());
    reveal_with_fuel(create_run, 3);
    assert(create_all(raid, answers).0 == built(raid, raid.disks.len()).push(
        CreateActionView::WaitForOnline,
    ).push(CreateActionView::DeleteRaid));
}

/// Where nothing fails, every child is looked up, then every child is added, in
/// order, and the result is the name of the device. The device gets its alias
/// where it is found under its name and the alias is another; that the alias
/// cannot be added does not make creation fail.
pub proof fn law_create_succeeds<E>(raid: RaidView, answers: CreateAnswers<E>)
    requires
        answers.fits(raid),
        answers.may_create(),
        answers.create_error is None,
        answers.all_added(),
        answers.online_error is None,
    ensures
        create_all(raid, answers).0 == built(raid, raid.disks.len()).push(
            CreateActionView::WaitForOnline,
        ).push(CreateActionView::LookUp { name: raid.name }) + if answers.device_visible
            && raid.alias != raid.name {
            seq![CreateActionView::AddAlias { alias: raid.alias }]
        } else {
            Seq::empty()
        },
        create_all(raid, answers).1 == Ok::<_, RaidErrorView<E>>(raid.name),
{
    lemma_additions(raid, answers, raid.disks.len());
    reveal_with_fuel(create_run, 4);
    let head = built(raid, raid.disks.len()).push(CreateActionView::WaitForOnline).push(
        CreateActionView::LookUp { name: raid.name },
    );
    if answers.device_visible && raid.alias != raid.name {
        assert(create_all(raid, answers).0 == head + seq![
            CreateActionView::AddAlias { alias: raid.alias },
        ]);
    } else {
        assert(create_all(raid, answers).0 == head + Seq::empty());
    }
}

/// Creation succeeds exactly where the name is free, all children are there,
/// the device can be created, every child can be added, and the device comes
/// online.
pub proof fn law_create_succeeds_iff<E>(raid: RaidView, answers: CreateAnswers<E>)
    requires
        answers.fits(raid),
    ensures
        create_all(raid, answers).1 is Ok <==> {
            &&& answers.may_create()
            &&& answers.create_error is None
            &&& answers.all_added()
            &&& answers.online_error is None
        },
{
    if answers.name_taken {
        law_create_refuses_taken_name(raid, answers);
    } else if !answers.may_create() {
        let first = lemma_some_child_missing(raid, answers);
    } else if answers.create_error is Some {
        law_create_passes_refusal_on(raid, answers, answers.create_error->0);
    } else if !answers.all_added() {
        let failing = choose|i: int|
            0 <= i < answers.add_error.len() && !(answers.add_error[i] is None);
        let fails = |i: int| !(answers.add_error[i] is None);
        let first = lemma_first(fails, failing);
        assert forall|i: int| 0 <= i < first implies answers.add_error[i] is None by {
            assert(!fails(i));
        }
        law_create_rolls_back_on_child(raid, answers, first, answers.add_error[first]->0);
    } else if answers.online_error is Some {
        law_create_rolls_back_when_offline(raid, answers, answers.online_error->0);
    } else {
        law_create_succeeds(raid, answers);
    }
}

/// Among the numbers from 0 to one that is `bad` there is a first one.
proof fn lemma_first(bad: spec_fn(int) -> bool, at: int) -> (first: int)
    requires
        0 <= at,
        bad(at),
    ensures
        0 <= first <= at,
        bad(first),
        forall|i: int| 0 <= i < first ==> !#[trigger] bad(i),
    decreases at,
{
    if forall|i: int| 0 <= i < at ==> !#[trigger] bad(i) {
        at
    } else {
        let earlier = choose|i: int| 0 <= i < at && #[trigger] bad(i);
        lemma_first(bad, earlier)
    }
}

/// Where the name is free and not all children are there, there is a first
/// child that is missing, and it ends creation.
proof fn lemma_some_child_missing<E>(raid: RaidView, answers: CreateAnswers<E>) -> (first: int)
    requires
        answers.fits(raid),
        !answers.name_taken,
        !answers.may_create(),
    ensures
        0 <= first < raid.disks.len(),
        create_all(raid, answers).0 == look_ups(raid, (first + 1) as nat),
        create_all(raid, answers).1 == Err::<Seq<char>, _>(child_not_found::<E>(raid, first)),
{
    let missing = choose|i: int|
        0 <= i < answers.child_present.len() && !answers.child_present[i];
    let absent = |i: int| !answers.child_present[i];
    let first = lemma_first(absent, missing);
    assert forall|i: int| 0 <= i < first implies answers.child_present[i] by {
        assert(!absent(i));
    }
    law_create_refuses_missing_child(raid, answers, first);
    first
}

proof fn lemma_no_second_request<E>(
    raid: RaidView,
    answers: CreateAnswers<E>,
    state: CreateStateView<E>,
)
    requires
        answers.fits(raid),
        state.fits(raid),
        past_creation(state) || state is Finished,
    ensures
        forall|i: int|
            0 <= i < create_run(raid, answers, state).0.len() ==> !(#[trigger] create_run(
                raid,
                answers,
                state,
            ).0[i] is CreateRaid),
    decreases state.steps_left(raid),
{
    if !(state is Finished) {
        let after = state.next(raid, answers.event(state));
        law_create_ends(raid, state, answers.event(state));
        lemma_no_second_request(raid, answers, after);
        let rest = create_run(raid, answers, after).0;
        let asked = create_run(raid, answers, state).0;
        assert(asked == seq![state.action(raid)->0] + rest);
        assert forall|i: int| 0 <= i < asked.len() implies !(#[trigger] asked[i] is CreateRaid) by {
            if i > 0 {
                assert(asked[i] == rest[i - 1]);
            }
        }
    }
}

/// What the device layer is asked to create is the device as it is configured: where
/// the name is free and all children are there, there is one request to create
/// among those made, it comes after the look-ups, and it carries the name, the
/// UUID, the strip size, the number of children in eight bits, and the number of the
/// level. Otherwise there is none.
pub proof fn law_create_request_carries_configuration<E>(raid: RaidView, answers: CreateAnswers<E>)
    requires
        answers.child_present.len() == raid.disks.len(),
        answers.add_error.len() == raid.disks.len(),
    ensures
        ({
            let asked = create_all(raid, answers).0;
            let checked = !answers.name_taken && forall|i: int|
                0 <= i < raid.disks.len() ==> #[trigger] answers.child_present[i];
            &&& checked ==> raid.disks.len() + 1 < asked.len() && asked[raid.disks.len() as int + 1]
                is CreateRaid
            &&& forall|i: int|
                0 <= i < asked.len() && #[trigger] asked[i] is CreateRaid ==> {
                    &&& checked
                    &&& i == raid.disks.len() + 1
                    &&& asked[i]->CreateRaid_name == raid.name
                    &&& asked[i]->CreateRaid_uuid == raid.uuid
                    &&& asked[i]->CreateRaid_strip_size_kb == raid.strip_size_kb
                    &&& asked[i]->CreateRaid_device_count == raid.disks.len() % 256
                    &&& asked[i]->CreateRaid_spdk_raid_level == raid.level.spdk_raid_level
                }
        }),
{
    let asked = create_all(raid, answers).0;
    let count = raid.disks.len() as int;
    if answers.name_taken {
        law_create_refuses_taken_name(raid, answers);
    } else if !answers.may_create() {
        let first = lemma_some_child_missing(raid, answers);
    } else {
        lemma_checks(raid, answers, raid.disks.len());
        let state = CreateStateView::<E>::Create;
        let after = state.next(raid, answers.event(state));
        let rest = create_run(raid, answers, after).0;
        assert(checking::<E>(raid, count) == state);
        lemma_no_second_request(raid, answers, after);
        assert(asked == look_ups(raid, raid.disks.len()) + (seq![create_request(raid)] + rest));
        assert forall|i: int| 0 <= i < asked.len() && #[trigger] asked[i] is CreateRaid implies i
            == count + 1 by {
            if i > count + 1 {
                assert(asked[i] == rest[i - count - 2]);
            }
        }
    }
}

/// A creation in which nothing fails asks, in this order: for the name, for every
/// child, to create, to add every child, to wait, and for the name again; then it
/// asks to add the alias, where the device was found and the alias is another. It
/// gives the name.
pub proof fn law_create_order<E>(raid: RaidView, answers: CreateAnswers<E>)
    requires
        answers.child_present.len() == raid.disks.len(),
        answers.add_error.len() == raid.disks.len(),
        !answers.name_taken,
        forall|i: int| 0 <= i < raid.disks.len() ==> #[trigger] answers.child_present[i],
        answers.create_error is None,
        forall|i: int| 0 <= i < raid.disks.len() ==> #[trigger] answers.add_error[i] is None,
        answers.online_error is None,
    ensures
        ({
            let (asked, result) = create_all(raid, answers);
            let count = raid.disks.len() as int;
            let aliased = answers.device_visible && raid.alias != raid.name;
            &&& asked.len() == 2 * count + 4 + if aliased {
                1
            } else {
                0int
            }
            &&& asked[0] == (CreateActionView::LookUp { name: raid.name })
            &&& forall|i: int|
                0 <= i < count ==> #[trigger] asked[1 + i] == (CreateActionView::LookUp {
                    name: raid.disks[i],
                })
            &&& asked[count + 1] is CreateRaid
            &&& forall|i: int|
                0 <= i < count ==> #[trigger] asked[count + 2 + i] == (
                CreateActionView::AddBaseBdev { name: raid.disks[i] })
            &&& asked[2 * count + 2] is WaitForOnline
            &&& asked[2 * count + 3] == (CreateActionView::LookUp { name: raid.name })
            &&& aliased ==> asked[2 * count + 4] == (CreateActionView::AddAlias {
                alias: raid.alias,
            })
            &&& result == Ok::<_, RaidErrorView<E>>(raid.name)
        }),
{
    law_create_succeeds(raid, answers);
}

/// A creation that fails gives the first thing that went wrong: that the name is
/// taken, or that a child is missing, or the error of creating, of adding a child,
/// or of waiting; never that of deleting or of the alias. The device is deleted
/// exactly where it had been created.
pub proof fn law_create_first_failure<E>(raid: RaidView, answers: CreateAnswers<E>)
    requires
        answers.child_present.len() == raid.disks.len(),
        answers.add_error.len() == raid.disks.len(),
    ensures
        ({
            let (asked, result) = create_all(raid, answers);
            let checked = !answers.name_taken && forall|i: int|
                0 <= i < raid.disks.len() ==> #[trigger] answers.child_present[i];
            let added = forall|i: int|
                0 <= i < raid.disks.len() ==> #[trigger] answers.add_error[i] is None;
            &&& answers.name_taken ==> result == Err::<Seq<char>, _>(
                RaidErrorView::<E>::Bdev(BdevErrorView::BdevExists { name: raid.name }),
            )
            &&& !answers.name_taken ==> forall|i: int|
                0 <= i < raid.disks.len() && !(#[trigger] answers.child_present[i]) && (forall|
                    k: int,
                | 0 <= k < i ==> #[trigger] answers.child_present[k]) ==> result == Err::<
                    Seq<char>,
                    _,
                >(
                    RaidErrorView::<E>::Bdev(
                        BdevErrorView::CreateBdevFailedStr {
                            error: "Child device '"@ + raid.disks[i] + "' not found"@,
                            name: raid.name,
                        },
                    ),
                )
            &&& checked ==> (answers.create_error matches Some(error) ==> result == Err::<
                Seq<char>,
                _,
            >(RaidErrorView::Device(error)))
            &&& checked && answers.create_error is None ==> forall|i: int|
                0 <= i < raid.disks.len() && #[trigger] answers.add_error[i] is Some && (forall|
                    k: int,
                | 0 <= k < i ==> #[trigger] answers.add_error[k] is None) ==> result == Err::<
                    Seq<char>,
                    _,
                >(RaidErrorView::Device(answers.add_error[i]->0))
            &&& checked && answers.create_error is None && added ==> (
            answers.online_error matches Some(error) ==> result == Err::<Seq<char>, _>(
                RaidErrorView::Device(error),
            ))
            &&& (exists|i: int| 0 <= i < asked.len() && #[trigger] asked[i] is DeleteRaid) <==> {
                &&& checked
                &&& answers.create_error is None
                &&& !added || answers.online_error is Some
            }
        }),
{
    let (asked, result) = create_all(raid, answers);
    if answers.name_taken {
        law_create_refuses_taken_name(raid, answers);
    } else {
        assert forall|i: int|
            0 <= i < raid.disks.len() && !(#[trigger] answers.child_present[i]) && (forall|k: int|
                0 <= k < i ==> #[trigger] answers.child_present[k]) implies result == Err::<
            Seq<char>,
            _,
        >(child_not_found::<E>(raid, i)) by {
            law_create_refuses_missing_child(raid, answers, i);
        }
    }
    if answers.may_create() {
        if answers.create_error is Some {
            law_create_passes_refusal_on(raid, answers, answers.create_error->0);
        } else {
            assert forall|i: int|
                0 <= i < raid.disks.len() && #[trigger] answers.add_error[i] is Some && (forall|
                    k: int,
                | 0 <= k < i ==> #[trigger] answers.add_error[k] is None) implies result == Err::<
                Seq<char>,
                _,
            >(RaidErrorView::Device(answers.add_error[i]->0)) by {
                law_create_rolls_back_on_child(raid, answers, i, answers.add_error[i]->0);
            }
            if answers.all_added() && answers.online_error is Some {
                law_create_rolls_back_when_offline(raid, answers, answers.online_error->0);
            }
        }
    }
    law_create_succeeds_iff(raid, answers);
    law_create_only_when_checked(raid, answers);
    law_create_leaves_nothing_behind(raid, answers);
    let must_delete = answers.may_create() && answers.create_error is None && (
    !answers.all_added() || answers.online_error is Some);
    if must_delete {
        assert(result is Err);
        assert(asked[asked.len() - 1] is DeleteRaid);
    }
    if exists|i: int| 0 <= i < asked.len() && #[trigger] asked[i] is DeleteRaid {
        let i = choose|i: int| 0 <= i < asked.len() && #[trigger] asked[i] is DeleteRaid;
        assert(asked.contains(CreateActionView::DeleteRaid));
    }
}

/// The device layer is asked to create the device exactly where the name is free
/// and all children are there.
pub proof fn law_create_only_when_checked<E>(raid: RaidView, answers: CreateAnswers<E>)
    requires
        answers.fits(raid),
    ensures
        create_all(raid, answers).0.contains(create_request(raid)) <==> answers.may_create(),
{
    let asked = create_all(raid, answers).0;
    if answers.name_taken {
        law_create_refuses_taken_name(raid, answers);
    } else if !answers.may_create() {
        let first = lemma_some_child_missing(raid, answers);
    } else {
        lemma_checks(raid, answers, raid.disks.len());
        let count = raid.disks.len() as int;
        assert(checking::<E>(raid, count) == CreateStateView::<E>::Create);
        assert(asked[count + 1] == create_request(raid));
    }
}

/// A creation that fails leaves no device behind: where a device was created,
/// the last thing asked is to delete it. One that succeeds deletes nothing, and
/// nothing is deleted that was not created.
pub proof fn law_create_leaves_nothing_behind<E>(raid: RaidView, answers: CreateAnswers<E>)
    requires
        answers.fits(raid),
    ensures
        create_all(raid, answers).1 is Err && create_all(raid, answers).0.contains(
            create_request(raid),
        ) && answers.create_error is None ==> create_all(raid, answers).0.last()
            == CreateActionView::DeleteRaid,
        create_all(raid, answers).0.contains(CreateActionView::DeleteRaid) ==> {
            &&& create_all(raid, answers).1 is Err
            &&& create_all(raid, answers).0.contains(create_request(raid))
            &&& answers.create_error is None
        },
{
    lemma_deletes_from(raid, answers, CreateStateView::CheckName);
}

/// The device may have been created before this state.
spec fn past_creation<E>(state: CreateStateView<E>) -> bool {
    state is AddChild || state is WaitOnline || state is RollBack || state is FindCreated
        || state is AddAlias
}

proof fn lemma_deletes_from<E>(
    raid: RaidView,
    answers: CreateAnswers<E>,
    state: CreateStateView<E>,
)
    requires
        answers.fits(raid),
        state.fits(raid),
    ensures
        ({
            let (asked, result) = create_run(raid, answers, state);
            let deletes = asked.contains(CreateActionView::DeleteRaid);
            let creates = asked.contains(create_request(raid));
            &&& past_creation(state) ==> {
                &&& !creates
                &&& deletes <==> result is Err
                &&& deletes ==> asked.last() == CreateActionView::DeleteRaid
            }
            &&& !past_creation(state) ==> {
                &&& deletes ==> creates && answers.create_error is None && result is Err
                &&& creates && answers.create_error is None && result is Err ==> asked.last()
                    == CreateActionView::DeleteRaid
            }
        }),
    decreases state.steps_left(raid),
{
    let (asked, result) = create_run(raid, answers, state);
    if !(state is Finished) {
        let after = state.next(raid, answers.event(state));
        law_create_ends(raid, state, answers.event(state));
        lemma_deletes_from(raid, answers, after);
        let rest = create_run(raid, answers, after).0;
        let here = state.action(raid)->0;
        assert(asked == seq![here] + rest);
        assert forall|action: CreateActionView| asked.contains(action) <==> (action == here
            || rest.contains(action)) by {
            if action == here {
                assert(asked[0] == here);
            }
            if rest.contains(action) {
                let i = choose|i: int| 0 <= i < rest.len() && rest[i] == action;
                assert(asked[i + 1] == action);
            }
            if asked.contains(action) && action != here {
                let i = choose|i: int| 0 <= i < asked.len() && asked[i] == action;
                assert(rest[i - 1] == action);
            }
        }
        if rest.len() > 0 {
            assert(asked.last() == rest.last());
        }
    }
}

} // verus!
