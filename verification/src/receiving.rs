//! Receiving a container. The engine's liveness probes come in between; they
//! are answered on the way and not handed on.

use crate::client;
use crate::proto;
use vstd::prelude::*;

verus! {

/// How far receiving is.
pub enum ReceiveState<M> {
    /// A frame is to be waited for, `timeout_ms` at most; `probed` tells
    /// whether a probe came before.
    Reading { timeout_ms: u64, probed: bool },
    /// A probe is to be answered, and `timeout_ms` are left.
    Answering { timeout_ms: u64 },
    /// This container was received.
    Delivered { container: proto::Container<M> },
    /// Nothing was received, for this reason.
    Broken { message: String },
}

/// What came of the last thing done.
pub enum ReceiveEvent<M> {
    /// A container came.
    Arrived(proto::Container<M>),
    /// The answer was sent.
    Answered,
    /// It failed, for this reason.
    Failed(String),
}

/// What is to be done.
pub enum ReceiveAction<M> {
    /// Wait this many milliseconds at most for a frame.
    Await(u64),
    /// Send this frame.
    Send(proto::Container<M>),
    /// Nothing.
    Finish,
}

/// How far receiving is, with texts for strings.
#[verifier::ext_equal]
pub enum StateModel<M> {
    Reading { timeout_ms: u64, probed: bool },
    Answering { timeout_ms: u64 },
    Delivered { container: proto::ContainerModel<M> },
    Broken { message: Seq<char> },
}

/// What came of the last thing done, with texts for strings.
#[verifier::ext_equal]
pub enum EventModel<M> {
    Arrived(proto::ContainerModel<M>),
    Answered,
    Failed(Seq<char>),
}

/// What is to be done, with texts for strings.
#[verifier::ext_equal]
pub enum ActionModel<M> {
    Await(u64),
    Send(proto::ContainerModel<M>),
    Finish,
}

impl<M> View for ReceiveState<M> {
    type V = StateModel<M>;

    open spec fn view(&self) -> StateModel<M> {
        match *self {
            ReceiveState::Reading { timeout_ms, probed } => StateModel::Reading {
                timeout_ms,
                probed,
            },
            ReceiveState::Answering { timeout_ms } => StateModel::Answering { timeout_ms },
            ReceiveState::Delivered { container } => StateModel::Delivered {
                container: container@,
            },
            ReceiveState::Broken { message } => StateModel::Broken { message: message@ },
        }
    }
}

impl<M> View for ReceiveEvent<M> {
    type V = EventModel<M>;

    open spec fn view(&self) -> EventModel<M> {
        match *self {
            ReceiveEvent::Arrived(container) => EventModel::Arrived(container@),
            ReceiveEvent::Answered => EventModel::Answered,
            ReceiveEvent::Failed(e) => EventModel::Failed(e@),
        }
    }
}

impl<M> View for ReceiveAction<M> {
    type V = ActionModel<M>;

    open spec fn view(&self) -> ActionModel<M> {
        match *self {
            ReceiveAction::Await(millis) => ActionModel::Await(millis),
            ReceiveAction::Send(container) => ActionModel::Send(container@),
            ReceiveAction::Finish => ActionModel::Finish,
        }
    }
}

/// What is to be done in a state.
pub open spec fn action_of<M>(
    client: client::ClientModel,
    state: StateModel<M>,
) -> ActionModel<M> {
    match state {
        StateModel::Reading { timeout_ms, .. } => ActionModel::Await(timeout_ms),
        StateModel::Answering { .. } => ActionModel::Send(client::probe_answer(client)),
        StateModel::Delivered { .. } => ActionModel::Finish,
        StateModel::Broken { .. } => ActionModel::Finish,
    }
}

/// The milliseconds that are left of a timeout once `spent_ms` have passed. The
/// largest timeout is no limit at all.
pub open spec fn time_left(timeout_ms: u64, spent_ms: u64) -> u64 {
    if timeout_ms == u64::MAX {
        timeout_ms
    } else if spent_ms < timeout_ms {
        (timeout_ms - spent_ms) as u64
    } else {
        0
    }
}

/// What a container that came leads to: a probe is to be answered, anything
/// else is handed on.
pub open spec fn arrival<M>(
    timeout_ms: u64,
    container: proto::ContainerModel<M>,
) -> StateModel<M> {
    if client::is_probe(container) {
        StateModel::Answering { timeout_ms }
    } else {
        StateModel::Delivered { container }
    }
}

/// The state that an event leads to, `spent_ms` milliseconds after what was to
/// be done was begun. Reading goes on behind an answer, whether or not it could
/// be sent, for as long as there is time left. An event that does not answer
/// what was to be done changes nothing.
pub open spec fn next_state<M>(
    state: StateModel<M>,
    event: EventModel<M>,
    spent_ms: u64,
) -> StateModel<M> {
    match (state, event) {
        (StateModel::Reading { timeout_ms, .. }, EventModel::Arrived(container)) => arrival(
            time_left(timeout_ms, spent_ms),
            container,
        ),
        (StateModel::Reading { probed, .. }, EventModel::Failed(message)) => if probed {
            StateModel::Broken { message: "connection closed while answering a liveness probe"@ }
        } else {
            StateModel::Broken { message }
        },
        (StateModel::Answering { timeout_ms }, EventModel::Answered) => StateModel::Reading {
            timeout_ms: time_left(timeout_ms, spent_ms),
            probed: true,
        },
        (StateModel::Answering { timeout_ms }, EventModel::Failed(_)) => StateModel::Reading {
            timeout_ms: time_left(timeout_ms, spent_ms),
            probed: true,
        },
        _ => state,
    }
}

/// The milliseconds that are left.
fn remaining(timeout_ms: u64, spent_ms: u64) -> (r: u64)
    ensures
        r == time_left(timeout_ms, spent_ms),
{
    if timeout_ms == u64::MAX {
        timeout_ms
    } else if spent_ms < timeout_ms {
        timeout_ms - spent_ms
    } else {
        0
    }
}

/// What a container that came leads to.
fn maybe_answer_probe<M>(timeout_ms: u64, container: proto::Container<M>) -> (r: ReceiveState<M>)
    ensures
        r@ == arrival(timeout_ms, container@),
{
    let probe = match &container.payload {
        Some(proto::Payload::AuthVerify(_)) => true,
        _ => false,
    };
    if probe {
        ReceiveState::Answering { timeout_ms }
    } else {
        ReceiveState::Delivered { container }
    }
}

impl client::CockatielClient {
    /// Begins to receive the next container, however long it takes.
    pub fn receive<M>(&self) -> (r: ReceiveState<M>)
        ensures
            r@ == (StateModel::<M>::Reading { timeout_ms: u64::MAX, probed: false }),
    {
        ReceiveState::Reading { timeout_ms: u64::MAX, probed: false }
    }

    /// Begins to receive the next container, within `timeout_ms` milliseconds.
    pub fn receive_timeout<M>(&self, timeout_ms: u64) -> (r: ReceiveState<M>)
        ensures
            r@ == (StateModel::<M>::Reading { timeout_ms, probed: false }),
    {
        ReceiveState::Reading { timeout_ms, probed: false }
    }
}

impl<M> ReceiveState<M> {
    /// What is to be done in the session `client`.
    pub fn action(&self, client: &client::CockatielClient) -> (r: ReceiveAction<M>)
        ensures
            r@ == action_of(client@, self@),
    {
        match self {
            ReceiveState::Reading { timeout_ms, .. } => ReceiveAction::Await(*timeout_ms),
            ReceiveState::Answering { .. } => ReceiveAction::Send(client.answer_probe()),
            ReceiveState::Delivered { .. } => ReceiveAction::Finish,
            ReceiveState::Broken { .. } => ReceiveAction::Finish,
        }
    }

    /// The state that an event leads to, `spent_ms` milliseconds after what was
    /// to be done was begun.
    pub fn advance(self, event: ReceiveEvent<M>, spent_ms: u64) -> (r: ReceiveState<M>)
        ensures
            r@ == next_state(self@, event@, spent_ms),
    {
        match (self, event) {
            (ReceiveState::Reading { timeout_ms, .. }, ReceiveEvent::Arrived(container)) => {
                maybe_answer_probe(remaining(timeout_ms, spent_ms), container)
            },
            (ReceiveState::Reading { probed, .. }, ReceiveEvent::Failed(message)) => {
                if probed {
                    ReceiveState::Broken {
                        message: "connection closed while answering a liveness probe".to_owned(),
                    }
                } else {
                    ReceiveState::Broken { message }
                }
            },
            (ReceiveState::Answering { timeout_ms }, ReceiveEvent::Answered) => {
                ReceiveState::Reading { timeout_ms: remaining(timeout_ms, spent_ms), probed: true }
            },
            (ReceiveState::Answering { timeout_ms }, ReceiveEvent::Failed(_)) => {
                ReceiveState::Reading { timeout_ms: remaining(timeout_ms, spent_ms), probed: true }
            },
            (state, _) => state,
        }
    }
}

} // verus!
