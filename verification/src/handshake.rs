//! Opening a session and opening its socket anew, as a sequence of steps. The
//! state says what is to be done next; what came of that is an event, which
//! leads to the next state.
//!
//! A session is opened in two phases. The module dials, sends its PIN and
//! waits for the engine to answer with a token. Then it severs the connection,
//! dials again and sends the token.

use crate::client;
use crate::config;
use crate::number;
use crate::proto;
use vstd::prelude::*;

verus! {

/// How far the handshake is.
pub enum ConnectState {
    /// The first socket is to be opened.
    Dialing { config: config::CockatielConfig, instance_id: String },
    /// The connection request is to be sent.
    Requesting { config: config::CockatielConfig, instance_id: String },
    /// The engine's answer is to be waited for.
    Awaiting { config: config::CockatielConfig },
    /// The socket is to be closed.
    Severing { client: client::CockatielClient },
    /// A moment is to pass.
    Pausing { client: client::CockatielClient },
    /// A new socket is to be opened.
    Redialing { client: client::CockatielClient },
    /// The token is to be sent.
    Reauthenticating { client: client::CockatielClient },
    /// The session is open.
    Connected { client: client::CockatielClient },
    /// There is no session, for this reason.
    Failed { message: String },
}

/// What came of the last thing done.
pub enum ConnectEvent<M> {
    /// A socket was opened.
    Dialed,
    /// The frame was sent.
    Sent,
    /// The engine answered; `shown` is the payload as a text.
    Answered { answer: proto::Container<M>, shown: String },
    /// The socket was closed.
    Severed,
    /// The moment has passed.
    Paused,
    /// It failed, for this reason.
    Failed(String),
}

/// What is to be done.
pub enum ConnectAction<M> {
    /// Open a socket to this address.
    Dial(String),
    /// Send this frame.
    Send(proto::Container<M>),
    /// Wait this many milliseconds at most for a frame.
    Await(u64),
    /// Close the socket.
    Sever,
    /// Let this many milliseconds pass.
    Pause(u64),
    /// Nothing.
    Finish,
}

/// How far the handshake is, with texts for strings.
#[verifier::ext_equal]
pub enum StateModel {
    Dialing { config: config::ConfigModel, instance_id: Seq<char> },
    Requesting { config: config::ConfigModel, instance_id: Seq<char> },
    Awaiting { config: config::ConfigModel },
    Severing { client: client::ClientModel },
    Pausing { client: client::ClientModel },
    Redialing { client: client::ClientModel },
    Reauthenticating { client: client::ClientModel },
    Connected { client: client::ClientModel },
    Failed { message: Seq<char> },
}

/// What came of the last thing done, with texts for strings.
#[verifier::ext_equal]
pub enum EventModel<M> {
    Dialed,
    Sent,
    Answered { answer: proto::ContainerModel<M>, shown: Seq<char> },
    Severed,
    Paused,
    Failed(Seq<char>),
}

/// What is to be done, with texts for strings.
#[verifier::ext_equal]
pub enum ActionModel<M> {
    Dial(Seq<char>),
    Send(proto::ContainerModel<M>),
    Await(u64),
    Sever,
    Pause(u64),
    Finish,
}

impl View for ConnectState {
    type V = StateModel;

    open spec fn view(&self) -> StateModel {
        match *self {
            ConnectState::Dialing { config, instance_id } => StateModel::Dialing {
                config: config@,
                instance_id: instance_id@,
            },
            ConnectState::Requesting { config, instance_id } => StateModel::Requesting {
                config: config@,
                instance_id: instance_id@,
            },
            ConnectState::Awaiting { config } => StateModel::Awaiting { config: config@ },
            ConnectState::Severing { client } => StateModel::Severing { client: client@ },
            ConnectState::Pausing { client } => StateModel::Pausing { client: client@ },
            ConnectState::Redialing { client } => StateModel::Redialing { client: client@ },
            ConnectState::Reauthenticating { client } => StateModel::Reauthenticating {
                client: client@,
            },
            ConnectState::Connected { client } => StateModel::Connected { client: client@ },
            ConnectState::Failed { message } => StateModel::Failed { message: message@ },
        }
    }
}

impl<M> View for ConnectEvent<M> {
    type V = EventModel<M>;

    open spec fn view(&self) -> EventModel<M> {
        match *self {
            ConnectEvent::Dialed => EventModel::Dialed,
            ConnectEvent::Sent => EventModel::Sent,
            ConnectEvent::Answered { answer, shown } => EventModel::Answered {
                answer: answer@,
                shown: shown@,
            },
            ConnectEvent::Severed => EventModel::Severed,
            ConnectEvent::Paused => EventModel::Paused,
            ConnectEvent::Failed(e) => EventModel::Failed(e@),
        }
    }
}

impl<M> View for ConnectAction<M> {
    type V = ActionModel<M>;

    open spec fn view(&self) -> ActionModel<M> {
        match *self {
            ConnectAction::Dial(url) => ActionModel::Dial(url@),
            ConnectAction::Send(container) => ActionModel::Send(container@),
            ConnectAction::Await(millis) => ActionModel::Await(millis),
            ConnectAction::Sever => ActionModel::Sever,
            ConnectAction::Pause(millis) => ActionModel::Pause(millis),
            ConnectAction::Finish => ActionModel::Finish,
        }
    }
}

/// The address of the engine's socket.
pub open spec fn socket_address(c: config::ConfigModel) -> Seq<char> {
    "ws://"@ + c.ip + ":"@ + number::natural_text(c.port as nat)
}

/// What is to be done in a state.
pub open spec fn action_of<M>(state: StateModel) -> ActionModel<M> {
    match state {
        StateModel::Dialing { config, .. } => ActionModel::Dial(socket_address(config)),
        StateModel::Requesting { config, instance_id } => ActionModel::Send(
            client::request_frame(config, instance_id),
        ),
        StateModel::Awaiting { .. } => ActionModel::Await(client::ANSWER_MILLIS),
        StateModel::Severing { .. } => ActionModel::Sever,
        StateModel::Pausing { .. } => ActionModel::Pause(client::PAUSE_MILLIS),
        StateModel::Redialing { client } => ActionModel::Dial(socket_address(client.config)),
        StateModel::Reauthenticating { client } => ActionModel::Send(client::reauth_frame(client)),
        StateModel::Connected { .. } => ActionModel::Finish,
        StateModel::Failed { .. } => ActionModel::Finish,
    }
}

/// The state that an event leads to. What fails ends the handshake, except
/// that a socket counts as closed whether or not closing it failed. An event
/// that does not answer what was to be done changes nothing.
pub open spec fn next_state<M>(state: StateModel, event: EventModel<M>) -> StateModel {
    match (state, event) {
        (StateModel::Dialing { config, instance_id }, EventModel::Dialed) => {
            StateModel::Requesting { config, instance_id }
        },
        (StateModel::Dialing { .. }, EventModel::Failed(message)) => StateModel::Failed { message },
        (StateModel::Requesting { config, .. }, EventModel::Sent) => StateModel::Awaiting {
            config,
        },
        (StateModel::Requesting { .. }, EventModel::Failed(message)) => StateModel::Failed {
            message,
        },
        (StateModel::Awaiting { config }, EventModel::Answered { answer, shown }) => {
            match client::admission(config, answer, shown) {
                Ok(client) => StateModel::Severing { client },
                Err(message) => StateModel::Failed { message },
            }
        },
        (StateModel::Awaiting { .. }, EventModel::Failed(message)) => StateModel::Failed {
            message,
        },
        (StateModel::Severing { client }, EventModel::Severed) => StateModel::Pausing { client },
        (StateModel::Severing { client }, EventModel::Failed(_)) => StateModel::Pausing { client },
        (StateModel::Pausing { client }, EventModel::Paused) => StateModel::Redialing { client },
        (StateModel::Redialing { client }, EventModel::Dialed) => StateModel::Reauthenticating {
            client,
        },
        (StateModel::Redialing { .. }, EventModel::Failed(message)) => StateModel::Failed {
            message,
        },
        (StateModel::Reauthenticating { client }, EventModel::Sent) => StateModel::Connected {
            client,
        },
        (StateModel::Reauthenticating { .. }, EventModel::Failed(message)) => StateModel::Failed {
            message,
        },
        _ => state,
    }
}

impl client::CockatielClient {
    /// Begins to open a session, under a fresh identity.
    pub fn connect(config: config::CockatielConfig) -> (r: ConnectState)
        ensures
            r@ matches StateModel::Dialing { config: c, instance_id } && c == config@
                && client::is_uuid7(instance_id),
    {
        let instance_id = client::fresh_uuid7();
        client::CockatielClient::connect_as(config, instance_id)
    }

    /// Begins to open a session, under the given identity.
    pub fn connect_as(config: config::CockatielConfig, instance_id: String) -> (r: ConnectState)
        ensures
            r@ == (StateModel::Dialing { config: config@, instance_id: instance_id@ }),
    {
        ConnectState::Dialing { config, instance_id }
    }

    /// Begins to open the session's socket anew, with the token that it has.
    pub fn reconnect(self) -> (r: ConnectState)
        ensures
            r@ == (StateModel::Severing { client: self@ }),
    {
        ConnectState::Severing { client: self }
    }
}

impl ConnectState {
    /// What is to be done.
    pub fn action<M>(&self) -> (r: ConnectAction<M>)
        ensures
            r@ == action_of::<M>(self@),
    {
        match self {
            ConnectState::Dialing { config, .. } => ConnectAction::Dial(config.socket_url()),
            ConnectState::Requesting { config, instance_id } => ConnectAction::Send(
                client::request(config, instance_id),
            ),
            ConnectState::Awaiting { .. } => ConnectAction::Await(client::ANSWER_MILLIS),
            ConnectState::Severing { .. } => ConnectAction::Sever,
            ConnectState::Pausing { .. } => ConnectAction::Pause(client::PAUSE_MILLIS),
            ConnectState::Redialing { client } => ConnectAction::Dial(client.config.socket_url()),
            ConnectState::Reauthenticating { client } => ConnectAction::Send(client.reauth()),
            ConnectState::Connected { .. } => ConnectAction::Finish,
            ConnectState::Failed { .. } => ConnectAction::Finish,
        }
    }

    /// The state that an event leads to.
    pub fn advance<M>(self, event: ConnectEvent<M>) -> (r: ConnectState)
        ensures
            r@ == next_state(self@, event@),
    {
        match (self, event) {
            (ConnectState::Dialing { config, instance_id }, ConnectEvent::Dialed) => {
                ConnectState::Requesting { config, instance_id }
            },
            (ConnectState::Dialing { .. }, ConnectEvent::Failed(message)) => {
                ConnectState::Failed { message }
            },
            (ConnectState::Requesting { config, .. }, ConnectEvent::Sent) => {
                ConnectState::Awaiting { config }
            },
            (ConnectState::Requesting { .. }, ConnectEvent::Failed(message)) => {
                ConnectState::Failed { message }
            },
            (ConnectState::Awaiting { config }, ConnectEvent::Answered { answer, shown }) => {
                match client::judge_answer(config, answer, shown) {
                    Ok(client) => ConnectState::Severing { client },
                    Err(message) => ConnectState::Failed { message },
                }
            },
            (ConnectState::Awaiting { .. }, ConnectEvent::Failed(message)) => {
                ConnectState::Failed { message }
            },
            (ConnectState::Severing { client }, ConnectEvent::Severed) => {
                ConnectState::Pausing { client }
            },
            (ConnectState::Severing { client }, ConnectEvent::Failed(_)) => {
                ConnectState::Pausing { client }
            },
            (ConnectState::Pausing { client }, ConnectEvent::Paused) => {
                ConnectState::Redialing { client }
            },
            (ConnectState::Redialing { client }, ConnectEvent::Dialed) => {
                ConnectState::Reauthenticating { client }
            },
            (ConnectState::Redialing { .. }, ConnectEvent::Failed(message)) => {
                ConnectState::Failed { message }
            },
            (ConnectState::Reauthenticating { client }, ConnectEvent::Sent) => {
                ConnectState::Connected { client }
            },
            (ConnectState::Reauthenticating { .. }, ConnectEvent::Failed(message)) => {
                ConnectState::Failed { message }
            },
            (state, _) => state,
        }
    }
}

} // verus!
