//! What holds of a session: it is opened in two phases and only by the engine,
//! and liveness probes are answered without the module noticing.

use crate::client;
use crate::config;
use crate::handshake;
use crate::number;
use crate::proto;
use crate::receiving;
use crate::text;
use crate::transport;
use vstd::prelude::*;

verus! {

/// The state that some events lead to in turn.
pub open spec fn after<M>(
    state: handshake::StateModel,
    events: Seq<handshake::EventModel<M>>,
) -> handshake::StateModel
    decreases events.len(),
{
    if events.len() == 0 {
        state
    } else {
        after(handshake::next_state(state, events[0]), events.drop_first())
    }
}

/// What is done until some events have happened in turn.
pub open spec fn actions<M>(
    state: handshake::StateModel,
    events: Seq<handshake::EventModel<M>>,
) -> Seq<handshake::ActionModel<M>>
    decreases events.len(),
{
    if events.len() == 0 {
        seq![]
    } else {
        seq![handshake::action_of::<M>(state)] + actions(
            handshake::next_state(state, events[0]),
            events.drop_first(),
        )
    }
}

/// The session of a state that has one.
pub open spec fn session_of(state: handshake::StateModel) -> Option<client::ClientModel> {
    match state {
        handshake::StateModel::Severing { client } => Some(client),
        handshake::StateModel::Pausing { client } => Some(client),
        handshake::StateModel::Redialing { client } => Some(client),
        handshake::StateModel::Reauthenticating { client } => Some(client),
        handshake::StateModel::Connected { client } => Some(client),
        _ => None,
    }
}

/// The settings of a state that has no session yet.
pub open spec fn settings_of(state: handshake::StateModel) -> Option<config::ConfigModel> {
    match state {
        handshake::StateModel::Dialing { config, .. } => Some(config),
        handshake::StateModel::Requesting { config, .. } => Some(config),
        handshake::StateModel::Awaiting { config } => Some(config),
        _ => None,
    }
}

/// Whether an event is an answer of the engine that opens the session for a
/// module with these settings.
pub open spec fn opens<M>(
    event: handshake::EventModel<M>,
    c: config::ConfigModel,
    session: client::ClientModel,
) -> bool {
    event matches handshake::EventModel::Answered { answer, shown } && client::admission(
        c,
        answer,
        shown,
    ) == Ok::<client::ClientModel, Seq<char>>(session)
}

/// The engine opens a session with its answer exactly if the answer is a
/// connection return without another port and with a token; the session then
/// has that token and the identity that the engine assigned.
pub proof fn sessions_need_a_token<M>(
    c: config::ConfigModel,
    answer: proto::ContainerModel<M>,
    shown: Seq<char>,
)
    ensures
        client::admission(c, answer, shown) is Ok <==> answer.auth_token.len() > 0 && (
        answer.payload matches Some(proto::PayloadModel::ConnectionRequestReturn { new_port, .. })
            && new_port == 0),
        client::admission(c, answer, shown) matches Ok(session) ==> session.config == c
            && session.auth_token == answer.auth_token && session.auth_token.len() > 0 && (
        answer.payload matches Some(
            proto::PayloadModel::ConnectionRequestReturn { module_instance_uuid7, .. },
        ) && session.instance_uuid7 == module_instance_uuid7),
{
}

/// Why a module that was not let in has no session: the engine gave no token,
/// it named another port, or it answered with something else.
pub proof fn refusals_say_why<M>(
    c: config::ConfigModel,
    answer: proto::ContainerModel<M>,
    shown: Seq<char>,
)
    ensures
        ({
            let state = handshake::StateModel::Awaiting { config: c };
            let end = handshake::next_state(
                state,
                handshake::EventModel::Answered { answer, shown },
            );
            match answer.payload {
                Some(proto::PayloadModel::ConnectionRequestReturn { new_port, .. }) => {
                    &&& new_port == 0 && answer.auth_token.len() == 0 ==> end == (
                    handshake::StateModel::Failed {
                        message: "Connection rejected: invalid PIN or module not whitelisted. Pass --pin <PIN> or set pin in your config.json"@,
                    })
                    &&& new_port != 0 ==> end == (handshake::StateModel::Failed {
                        message: "Connection rejected: new_port="@ + number::integer_text(
                            new_port as int,
                        ) + ", auth_token_empty="@ + (if answer.auth_token.len() > 0 {
                            "false"@
                        } else {
                            "true"@
                        }),
                    })
                },
                _ => end == (handshake::StateModel::Failed {
                    message: "Expected ConnectionRequestReturn, got: "@ + shown,
                }),
            }
        }),
{
}

/// Every frame of a session carries its payload, and the token, the identity and
/// the module name of the session.
pub proof fn frames_carry_the_session<M>(
    session: client::ClientModel,
    payload: proto::PayloadModel<M>,
)
    ensures
        ({
            let f = client::frame(session, payload);
            &&& f.version == 1
            &&& f.auth_token == session.auth_token
            &&& f.module_name == session.config.module_name
            &&& f.module_instance_uuid7 == session.instance_uuid7
            &&& f.payload == Some(payload)
        }),
{
}

/// What is told when the module is let in names the module, twice, and its
/// identity, all in full.
pub proof fn the_greeting_names_module_and_identity(session: client::ClientModel)
    ensures
        ({
            let name = session.config.module_name;
            let n = name.len() as int;
            let middle = "] Authenticated as "@;
            let m = middle.len() as int;
            let t = client::greeting_text(session);
            &&& t.len() == 2 * n + session.instance_uuid7.len() + m + 4
            &&& t[0] == '['
            &&& t.subrange(1, 1 + n) == name
            &&& t.subrange(1 + n, 1 + n + m) == middle
            &&& t.subrange(1 + n + m, 1 + 2 * n + m) == name
            &&& t.subrange(3 + 2 * n + m, t.len() - 1) == session.instance_uuid7
            &&& t.last() == ']'
        }),
{
    reveal_strlit("[");
    reveal_strlit(" [");
    reveal_strlit("]");
    let name = session.config.module_name;
    let n = name.len() as int;
    let middle = "] Authenticated as "@;
    let m = middle.len() as int;
    let t = client::greeting_text(session);
    assert(t.subrange(1, 1 + n) =~= name);
    assert(t.subrange(1 + n, 1 + n + m) =~= middle);
    assert(t.subrange(1 + n + m, 1 + 2 * n + m) =~= name);
    assert(t.subrange(3 + 2 * n + m, t.len() - 1) =~= session.instance_uuid7);
}

/// The first frame of all asks the engine to let the module in: it carries the
/// PIN, the position and the priority of the settings, and the module's name. It
/// has no token yet, and the identity is left to the engine.
pub proof fn the_first_frame_carries_the_settings<M>(
    c: config::ConfigModel,
    instance_id: Seq<char>,
)
    ensures
        handshake::action_of::<M>(handshake::StateModel::Requesting { config: c, instance_id })
            matches handshake::ActionModel::Send(f) && {
            &&& f.version == 1
            &&& f.auth_token.len() == 0
            &&& f.module_name == c.module_name
            &&& f.module_instance_uuid7 == instance_id
            &&& f.payload matches Some(
                proto::PayloadModel::ConnectionRequest {
                    pin,
                    process_position,
                    priority,
                    module_instance_uuid7,
                },
            ) && pin == c.pin && process_position == c.position && priority == c.priority
                && module_instance_uuid7.len() == 0
        },
{
}

/// The first frame on a new socket of a session carries the token in place of a
/// PIN, and the position and the priority of the settings.
pub proof fn reauthentication_carries_the_token<M>(session: client::ClientModel)
    ensures
        handshake::action_of::<M>(handshake::StateModel::Reauthenticating { client: session })
            matches handshake::ActionModel::Send(f) && {
            &&& f.version == 1
            &&& f.auth_token == session.auth_token
            &&& f.module_name == session.config.module_name
            &&& f.module_instance_uuid7 == session.instance_uuid7
            &&& f.payload matches Some(
                proto::PayloadModel::ConnectionRequest {
                    pin,
                    process_position,
                    priority,
                    module_instance_uuid7,
                },
            ) && pin == 0 && process_position == session.config.position && priority
                == session.config.priority && module_instance_uuid7 == session.instance_uuid7
        },
{
}

/// The answer to a liveness probe carries the whole token of the session, both
/// as what is to be verified and as the token of the frame.
pub proof fn probe_answers_carry_the_whole_token<M>(
    session: client::ClientModel,
    timeout_ms: u64,
)
    ensures
        receiving::action_of::<M>(session, receiving::StateModel::Answering { timeout_ms }) matches
            receiving::ActionModel::Send(f) && {
            &&& f.version == 1
            &&& f.auth_token == session.auth_token
            &&& f.module_name == session.config.module_name
            &&& f.module_instance_uuid7 == session.instance_uuid7
            &&& f.payload matches Some(proto::PayloadModel::AuthVerify { cur_auth }) && cur_auth
                == session.auth_token
        },
{
}

/// The events of a handshake in which everything succeeds.
pub open spec fn smooth_events<M>(
    answer: proto::ContainerModel<M>,
    shown: Seq<char>,
) -> Seq<handshake::EventModel<M>> {
    seq![
        handshake::EventModel::<M>::Dialed,
        handshake::EventModel::<M>::Sent,
        handshake::EventModel::<M>::Answered { answer, shown },
        handshake::EventModel::<M>::Severed,
        handshake::EventModel::<M>::Paused,
        handshake::EventModel::<M>::Dialed,
        handshake::EventModel::<M>::Sent,
    ]
}

/// The handshake takes two phases: dial the address of the settings, send the
/// PIN, the position and the priority, wait for the token; then sever the
/// connection, dial again and send the token. It ends in a session with the
/// settings, the token and the identity that the engine gave.
pub proof fn handshake_takes_two_phases<M>(
    c: config::ConfigModel,
    instance_id: Seq<char>,
    token: Seq<char>,
    identity: Seq<char>,
    answer: proto::ContainerModel<M>,
    shown: Seq<char>,
)
    requires
        token.len() > 0,
        answer.auth_token == token,
        answer.payload == Some(
            (proto::PayloadModel::<M>::ConnectionRequestReturn {
                new_port: 0,
                module_instance_uuid7: identity,
            }),
        ),
    ensures
        ({
            let start = handshake::StateModel::Dialing { config: c, instance_id };
            let events = smooth_events(answer, shown);
            let address = "ws://"@ + c.ip + ":"@ + number::natural_text(c.port as nat);
            let request = proto::ContainerModel::<M> {
                version: 1,
                auth_token: seq![],
                module_name: c.module_name,
                module_instance_uuid7: instance_id,
                payload: Some(
                    proto::PayloadModel::ConnectionRequest {
                        pin: c.pin,
                        process_position: c.position,
                        priority: c.priority,
                        module_instance_uuid7: seq![],
                    },
                ),
            };
            let reauth = proto::ContainerModel::<M> {
                version: 1,
                auth_token: token,
                module_name: c.module_name,
                module_instance_uuid7: identity,
                payload: Some(
                    proto::PayloadModel::ConnectionRequest {
                        pin: 0,
                        process_position: c.position,
                        priority: c.priority,
                        module_instance_uuid7: identity,
                    },
                ),
            };
            &&& after(start, events) == (handshake::StateModel::Connected {
                client: client::ClientModel {
                    config: c,
                    auth_token: token,
                    instance_uuid7: identity,
                },
            })
            &&& actions(start, events) == seq![
                handshake::ActionModel::<M>::Dial(address),
                handshake::ActionModel::<M>::Send(request),
                handshake::ActionModel::<M>::Await(15000),
                handshake::ActionModel::<M>::Sever,
                handshake::ActionModel::<M>::Pause(100),
                handshake::ActionModel::<M>::Dial(address),
                handshake::ActionModel::<M>::Send(reauth),
            ]
        }),
{
    let e = smooth_events(answer, shown);
    let session = client::ClientModel { config: c, auth_token: token, instance_uuid7: identity };
    let s0 = handshake::StateModel::Dialing { config: c, instance_id };
    let s1 = handshake::StateModel::Requesting { config: c, instance_id };
    let s2 = handshake::StateModel::Awaiting { config: c };
    let s3 = handshake::StateModel::Severing { client: session };
    assert(e.skip(0) =~= e);
    assert forall|i: int| 0 <= i < 7 implies (#[trigger] e.skip(i)).drop_first() =~= e.skip(
        i + 1,
    ) by {}
    let tail = seq![
        handshake::EventModel::<M>::Severed,
        handshake::EventModel::<M>::Paused,
        handshake::EventModel::<M>::Dialed,
        handshake::EventModel::<M>::Sent,
    ];
    assert(e.skip(3) =~= tail);
    reconnecting_sends_the_token::<M>(session, handshake::EventModel::Severed);
    assert(after(s2, e.skip(2)) == after(s3, e.skip(3)));
    assert(after(s1, e.skip(1)) == after(s2, e.skip(2)));
    assert(after(s0, e.skip(0)) == after(s1, e.skip(1)));
    let dial = handshake::action_of::<M>(s0);
    let request = handshake::action_of::<M>(s1);
    let wait = handshake::action_of::<M>(s2);
    let last = actions(s3, tail);
    assert(actions(s2, e.skip(2)) =~= seq![wait] + last);
    assert(actions(s1, e.skip(1)) =~= seq![request, wait] + last);
    assert(actions(s0, e.skip(0)) =~= seq![dial, request, wait] + last);
}

/// Opening the socket of a session anew severs it, whether or not that fails,
/// waits a moment, dials the address of the settings and sends the token, with
/// the position and the priority of the settings. It ends in the same session.
pub proof fn reconnecting_sends_the_token<M>(
    session: client::ClientModel,
    severed: handshake::EventModel<M>,
)
    requires
        severed is Severed || severed is Failed,
    ensures
        ({
            let start = handshake::StateModel::Severing { client: session };
            let events = seq![
                severed,
                handshake::EventModel::<M>::Paused,
                handshake::EventModel::<M>::Dialed,
                handshake::EventModel::<M>::Sent,
            ];
            let reauth = proto::ContainerModel::<M> {
                version: 1,
                auth_token: session.auth_token,
                module_name: session.config.module_name,
                module_instance_uuid7: session.instance_uuid7,
                payload: Some(
                    proto::PayloadModel::ConnectionRequest {
                        pin: 0,
                        process_position: session.config.position,
                        priority: session.config.priority,
                        module_instance_uuid7: session.instance_uuid7,
                    },
                ),
            };
            &&& after(start, events) == (handshake::StateModel::Connected { client: session })
            &&& actions(start, events) == seq![
                handshake::ActionModel::<M>::Sever,
                handshake::ActionModel::<M>::Pause(100),
                handshake::ActionModel::<M>::Dial(
                    "ws://"@ + session.config.ip + ":"@ + number::natural_text(
                        session.config.port as nat,
                    ),
                ),
                handshake::ActionModel::<M>::Send(reauth),
            ]
        }),
{
    let e = seq![
        severed,
        handshake::EventModel::<M>::Paused,
        handshake::EventModel::<M>::Dialed,
        handshake::EventModel::<M>::Sent,
    ];
    let s3 = handshake::StateModel::Severing { client: session };
    let s4 = handshake::StateModel::Pausing { client: session };
    let s5 = handshake::StateModel::Redialing { client: session };
    let s6 = handshake::StateModel::Reauthenticating { client: session };
    let s7 = handshake::StateModel::Connected { client: session };
    assert(e.skip(0) =~= e);
    assert forall|i: int| 0 <= i < 4 implies (#[trigger] e.skip(i)).drop_first() =~= e.skip(
        i + 1,
    ) by {}
    assert(e.skip(4) =~= seq![]);
    assert(after(s6, e.skip(3)) == after(s7, e.skip(4)));
    assert(after(s5, e.skip(2)) == after(s6, e.skip(3)));
    assert(after(s4, e.skip(1)) == after(s5, e.skip(2)));
    assert(after(s3, e.skip(0)) == after(s4, e.skip(1)));
    let sever = handshake::action_of::<M>(s3);
    let pause = handshake::action_of::<M>(s4);
    let dial = handshake::action_of::<M>(s5);
    let reauth = handshake::action_of::<M>(s6);
    assert(actions(s7, e.skip(4)) =~= seq![]);
    assert(actions(s6, e.skip(3)) =~= seq![reauth] + actions(s7, e.skip(4)));
    assert(actions(s5, e.skip(2)) =~= seq![dial, reauth]);
    assert(actions(s4, e.skip(1)) =~= seq![pause, dial, reauth]);
    assert(actions(s3, e.skip(0)) =~= seq![sever, pause, dial, reauth]);
}

/// The handshake goes on only with what was to be done: an event that does not
/// answer that changes nothing.
pub proof fn events_out_of_turn_change_nothing<M>(
    state: handshake::StateModel,
    event: handshake::EventModel<M>,
)
    requires
        match handshake::action_of::<M>(state) {
            handshake::ActionModel::Dial(_) => !(event is Dialed || event is Failed),
            handshake::ActionModel::Send(_) => !(event is Sent || event is Failed),
            handshake::ActionModel::Await(_) => !(event is Answered || event is Failed),
            handshake::ActionModel::Sever => !(event is Severed || event is Failed),
            handshake::ActionModel::Pause(_) => !(event is Paused),
            handshake::ActionModel::Finish => true,
        },
    ensures
        handshake::next_state(state, event) == state,
{
}

/// The handshake is over exactly if there is a session or a reason why there is
/// none.
pub proof fn the_handshake_ends_in_a_session_or_a_reason<M>(state: handshake::StateModel)
    ensures
        handshake::action_of::<M>(state) is Finish <==> state is Connected || state is Failed,
{
}

/// Whatever happens, a session that a handshake comes to is one that it had
/// from the start or that an answer of the engine opened for the module's
/// settings.
pub proof fn only_the_engine_opens_sessions<M>(
    state: handshake::StateModel,
    events: Seq<handshake::EventModel<M>>,
)
    ensures
        session_of(after(state, events)) matches Some(session) ==> session_of(state) == Some(
            session,
        ) || (settings_of(state) matches Some(c) && exists|i: int|
            0 <= i < events.len() && opens(#[trigger] events[i], c, session)),
    decreases events.len(),
{
    if events.len() > 0 {
        let next = handshake::next_state(state, events[0]);
        let rest = events.drop_first();
        only_the_engine_opens_sessions(next, rest);
        if let Some(session) = session_of(after(state, events)) {
            if session_of(state) != Some(session) {
                if session_of(next) == Some(session) {
                    assert(opens(events[0], settings_of(state)->0, session));
                } else {
                    let c = settings_of(next)->0;
                    let i = choose|i: int|
                        0 <= i < rest.len() && opens(#[trigger] rest[i], c, session);
                    assert(rest[i] == events[i + 1]);
                    assert(settings_of(state) == Some(c));
                }
            }
        }
    }
}

/// Opening the socket of a session anew keeps the session: it can only come to
/// the same session, with the same token.
pub proof fn reconnecting_keeps_the_session<M>(
    session: client::ClientModel,
    events: Seq<handshake::EventModel<M>>,
)
    ensures
        after(handshake::StateModel::Severing { client: session }, events) matches
            handshake::StateModel::Connected { client } ==> client == session,
{
    only_the_engine_opens_sessions(handshake::StateModel::Severing { client: session }, events);
}

/// A failure to dial, to send or to get an answer ends the handshake with its
/// reason.
pub proof fn failure_ends_the_handshake<M>(state: handshake::StateModel, message: Seq<char>)
    requires
        ({
            let action = handshake::action_of::<M>(state);
            action is Dial || action is Send || action is Await
        }),
    ensures
        handshake::next_state::<M>(state, handshake::EventModel::Failed(message)) == (
        handshake::StateModel::Failed { message }),
{
}

/// A handshake that is over stays as it ended.
pub proof fn finished_handshake_stays<M>(
    state: handshake::StateModel,
    event: handshake::EventModel<M>,
)
    requires
        handshake::action_of::<M>(state) is Finish,
    ensures
        handshake::next_state(state, event) == state,
{
}

/// A container that came, how long it was waited for, and how long it took to
/// answer it if it was a probe.
pub struct Arrival<M> {
    pub container: proto::ContainerModel<M>,
    pub waited_ms: u64,
    pub answered_ms: u64,
}

/// What receiving comes to when some containers come in turn, and how many
/// probes are answered on the way.
pub open spec fn received<M>(
    state: receiving::StateModel<M>,
    arrivals: Seq<Arrival<M>>,
) -> (receiving::StateModel<M>, nat)
    decreases arrivals.len(),
{
    if arrivals.len() == 0 {
        (state, 0)
    } else {
        let next = receiving::next_state(
            state,
            receiving::EventModel::Arrived(arrivals[0].container),
            arrivals[0].waited_ms,
        );
        if next is Answering {
            let (end, answers) = received(
                receiving::next_state(
                    next,
                    receiving::EventModel::Answered,
                    arrivals[0].answered_ms,
                ),
                arrivals.drop_first(),
            );
            (end, answers + 1)
        } else {
            (next, 0)
        }
    }
}

/// Whether all that came are liveness probes.
pub open spec fn all_probes<M>(arrivals: Seq<Arrival<M>>) -> bool {
    forall|i: int|
        0 <= i < arrivals.len() ==> client::is_probe((#[trigger] arrivals[i]).container)
}

proof fn lemma_probes_rest<M>(probes: Seq<Arrival<M>>)
    requires
        probes.len() > 0,
        all_probes(probes),
    ensures
        client::is_probe(probes[0].container),
        all_probes(probes.drop_first()),
{
    let rest = probes.drop_first();
    assert forall|i: int| 0 <= i < rest.len() implies client::is_probe(
        (#[trigger] rest[i]).container,
    ) by {
        assert(rest[i] == probes[i + 1]);
    }
}

/// Liveness probes are answered transparently: however many come first, each
/// is answered, and what is handed on is the first container behind them.
pub proof fn probes_are_answered_transparently<M>(
    timeout_ms: u64,
    probed: bool,
    probes: Seq<Arrival<M>>,
    last: Arrival<M>,
)
    requires
        all_probes(probes),
        !client::is_probe(last.container),
    ensures
        received(receiving::StateModel::Reading { timeout_ms, probed }, probes.push(last)) == (
            (receiving::StateModel::Delivered { container: last.container }),
            probes.len(),
        ),
    decreases probes.len(),
{
    if probes.len() > 0 {
        let rest = probes.drop_first();
        let left = receiving::time_left(
            receiving::time_left(timeout_ms, probes[0].waited_ms),
            probes[0].answered_ms,
        );
        lemma_probes_rest(probes);
        assert(probes.push(last).drop_first() =~= rest.push(last));
        probes_are_answered_transparently(left, true, rest, last);
    }
}

/// A liveness probe is never handed on.
pub proof fn probes_are_never_handed_on<M>(
    state: receiving::StateModel<M>,
    event: receiving::EventModel<M>,
    spent_ms: u64,
)
    requires
        !(state is Delivered),
    ensures
        receiving::next_state(state, event, spent_ms) matches receiving::StateModel::Delivered {
            container,
        } ==> !client::is_probe(container) && event == receiving::EventModel::Arrived(container),
{
}

/// A container that comes is answered if it is an `AuthVerify`, and is handed on
/// as it is if it is anything else; what is left of the timeout goes on.
pub proof fn only_probes_are_answered<M>(
    timeout_ms: u64,
    probed: bool,
    container: proto::ContainerModel<M>,
    spent_ms: u64,
)
    ensures
        ({
            let next = receiving::next_state(
                receiving::StateModel::Reading { timeout_ms, probed },
                receiving::EventModel::Arrived(container),
                spent_ms,
            );
            if container.payload matches Some(proto::PayloadModel::AuthVerify { .. }) {
                next is Answering
            } else {
                next == (receiving::StateModel::Delivered { container })
            }
        }),
        client::is_probe(container) <==> (container.payload matches Some(
            proto::PayloadModel::AuthVerify { .. },
        )),
{
}

/// Reading goes on behind a probe, whether or not it could be answered, with
/// what is left of the timeout. Nothing is read before that.
pub proof fn reading_goes_on_behind_a_probe<M>(
    session: client::ClientModel,
    timeout_ms: u64,
    reason: Seq<char>,
    spent_ms: u64,
    container: proto::ContainerModel<M>,
)
    ensures
        receiving::next_state(
            receiving::StateModel::Answering { timeout_ms },
            receiving::EventModel::Arrived(container),
            spent_ms,
        ) == (receiving::StateModel::<M>::Answering { timeout_ms }),
        ({
            let state = receiving::StateModel::<M>::Answering { timeout_ms };
            let sent = receiving::next_state(state, receiving::EventModel::Answered, spent_ms);
            let unsent = receiving::next_state(
                state,
                receiving::EventModel::Failed(reason),
                spent_ms,
            );
            &&& sent == unsent
            &&& receiving::action_of(session, sent) matches receiving::ActionModel::Await(left)
                && left == (if timeout_ms == 0xffff_ffff_ffff_ffff {
                timeout_ms as int
            } else if spent_ms < timeout_ms {
                timeout_ms - spent_ms
            } else {
                0
            })
        }),
{
}

/// A failure to receive ends the call with its reason, or behind a probe with
/// one that tells of the probe. A call that is over stays as it ended.
pub proof fn a_failure_ends_the_call<M>(
    session: client::ClientModel,
    timeout_ms: u64,
    probed: bool,
    reason: Seq<char>,
    over: receiving::StateModel<M>,
    event: receiving::EventModel<M>,
    spent_ms: u64,
)
    requires
        over is Delivered || over is Broken,
    ensures
        receiving::next_state::<M>(
            receiving::StateModel::Reading { timeout_ms, probed },
            receiving::EventModel::Failed(reason),
            spent_ms,
        ) == (receiving::StateModel::<M>::Broken {
            message: if probed {
                "connection closed while answering a liveness probe"@
            } else {
                reason
            },
        }),
        receiving::next_state(over, event, spent_ms) == over,
        receiving::action_of(session, over) is Finish,
        receiving::action_of::<M>(session, receiving::StateModel::Reading { timeout_ms, probed })
            == receiving::ActionModel::<M>::Await(timeout_ms),
        receiving::next_state::<M>(
            receiving::StateModel::Reading { timeout_ms, probed },
            receiving::EventModel::Answered,
            spent_ms,
        ) == (receiving::StateModel::<M>::Reading { timeout_ms, probed }),
{
}

/// The milliseconds that waiting for some containers and answering them took.
pub open spec fn time_spent<M>(arrivals: Seq<Arrival<M>>) -> int
    decreases arrivals.len(),
{
    if arrivals.len() == 0 {
        0
    } else {
        arrivals[0].waited_ms + arrivals[0].answered_ms + time_spent(arrivals.drop_first())
    }
}

/// The timeout holds for the whole call: behind any number of probes, no more
/// is waited than is left of it. Only the largest timeout is no limit.
pub proof fn timeout_holds_for_the_whole_call<M>(
    session: client::ClientModel,
    timeout_ms: u64,
    probed: bool,
    probes: Seq<Arrival<M>>,
)
    requires
        all_probes(probes),
    ensures
        ({
            let spent = time_spent(probes);
            let end = received(receiving::StateModel::Reading { timeout_ms, probed }, probes).0;
            receiving::action_of(session, end) matches receiving::ActionModel::Await(t) && t == (
            if timeout_ms == u64::MAX {
                timeout_ms as int
            } else if spent < timeout_ms {
                timeout_ms - spent
            } else {
                0
            })
        }),
    decreases probes.len(),
{
    if probes.len() > 0 {
        let rest = probes.drop_first();
        let left = receiving::time_left(
            receiving::time_left(timeout_ms, probes[0].waited_ms),
            probes[0].answered_ms,
        );
        lemma_probes_rest(probes);
        lemma_time_spent(rest);
        timeout_holds_for_the_whole_call(session, left, true, rest);
    }
}

proof fn lemma_time_spent<M>(arrivals: Seq<Arrival<M>>)
    ensures
        time_spent(arrivals) >= 0,
    decreases arrivals.len(),
{
    if arrivals.len() > 0 {
        lemma_time_spent(arrivals.drop_first());
    }
}

/// The socket that is dialled is the one of the settings; where the engine's
/// certificate is pinned, it is a secure one.
pub proof fn settings_are_dialled(c: config::ConfigModel, pinned: bool)
    ensures
        transport::dial_address(handshake::socket_address(c), pinned) == (if pinned {
            "wss"@
        } else {
            "ws"@
        }) + "://"@ + (c.ip + ":"@ + number::natural_text(c.port as nat)),
{
    let rest = c.ip + ":"@ + number::natural_text(c.port as nat);
    let url = handshake::socket_address(c);
    let n = "ws://"@.len() as int;
    assert(url =~= "ws://"@ + rest);
    assert(url.subrange(0, n) =~= "ws://"@);
    assert(text::begins_with(url, "ws://"@));
    assert(url.skip(n) =~= rest);
}

} // verus!
