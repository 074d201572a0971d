//! What the models show of the values that they stand for: all of them, field by
//! field.

use crate::client;
use crate::config;
use crate::env_file;
use crate::handshake;
use crate::json;
use crate::proto;
use crate::receiving;
use crate::text;
use crate::tls;
use crate::transport;
use vstd::prelude::*;

verus! {

/// The model of settings, and of a session, shows every field.
pub proof fn sessions_are_shown_as_they_are(c: config::CockatielConfig, s: client::CockatielClient)
    ensures
        c@.ip == c.ip@,
        c@.port == c.port,
        c@.pin == c.pin,
        c@.module_name == c.module_name@,
        c@.position == c.position,
        c@.priority == c.priority,
        s@.config == s.config@,
        s@.auth_token == s.auth_token@,
        s@.instance_uuid7 == s.instance_uuid7@,
        config::option_config(Some(c)) == Some(c@),
        config::option_config(None) is None,
        client::admission_model(Ok(s)) == Ok::<client::ClientModel, Seq<char>>(s@),
{
}

/// The model of a container shows every field, and that of a payload every part.
pub proof fn containers_are_shown_as_they_are<M>(
    container: proto::Container<M>,
    payload: proto::Payload<M>,
)
    ensures
        container@.version == container.version,
        container@.auth_token == container.auth_token@,
        container@.module_name == container.module_name@,
        container@.module_instance_uuid7 == container.module_instance_uuid7@,
        container.payload is None ==> container@.payload is None,
        container.payload matches Some(p) ==> container@.payload == Some(p@),
        payload matches proto::Payload::ConnectionRequest(r) ==> payload@ == (
        proto::PayloadModel::<M>::ConnectionRequest {
            pin: r.pin,
            process_position: r.process_position,
            priority: r.priority,
            module_instance_uuid7: r.module_instance_uuid7@,
        }),
        payload matches proto::Payload::ConnectionRequestReturn(r) ==> payload@ == (
        proto::PayloadModel::<M>::ConnectionRequestReturn {
            new_port: r.new_port,
            module_instance_uuid7: r.module_instance_uuid7@,
        }),
        payload matches proto::Payload::AuthVerify(v) ==> payload@ == (
        proto::PayloadModel::<M>::AuthVerify { cur_auth: v.cur_auth@ }),
        payload matches proto::Payload::Other(m) ==> payload@ == proto::PayloadModel::Other(m),
{
}

/// The model of a handshake shows the state, what happened and what is to be
/// done, with all that belongs to it.
pub proof fn handshakes_are_shown_as_they_are<M>(
    config: config::CockatielConfig,
    client: client::CockatielClient,
    instance_id: String,
    message: String,
    answer: proto::Container<M>,
    millis: u64,
)
    ensures
        (handshake::ConnectState::Dialing { config, instance_id })@ == (
        handshake::StateModel::Dialing { config: config@, instance_id: instance_id@ }),
        (handshake::ConnectState::Requesting { config, instance_id })@ == (
        handshake::StateModel::Requesting { config: config@, instance_id: instance_id@ }),
        (handshake::ConnectState::Awaiting { config })@ == (handshake::StateModel::Awaiting {
            config: config@,
        }),
        (handshake::ConnectState::Severing { client })@ == (handshake::StateModel::Severing {
            client: client@,
        }),
        (handshake::ConnectState::Pausing { client })@ == (handshake::StateModel::Pausing {
            client: client@,
        }),
        (handshake::ConnectState::Redialing { client })@ == (handshake::StateModel::Redialing {
            client: client@,
        }),
        (handshake::ConnectState::Reauthenticating { client })@ == (
        handshake::StateModel::Reauthenticating { client: client@ }),
        (handshake::ConnectState::Connected { client })@ == (handshake::StateModel::Connected {
            client: client@,
        }),
        (handshake::ConnectState::Failed { message })@ == (handshake::StateModel::Failed {
            message: message@,
        }),
        handshake::ConnectEvent::<M>::Dialed@ == handshake::EventModel::<M>::Dialed,
        handshake::ConnectEvent::<M>::Sent@ == handshake::EventModel::<M>::Sent,
        (handshake::ConnectEvent::Answered { answer, shown: message })@ == (
        handshake::EventModel::Answered { answer: answer@, shown: message@ }),
        handshake::ConnectEvent::<M>::Severed@ == handshake::EventModel::<M>::Severed,
        handshake::ConnectEvent::<M>::Paused@ == handshake::EventModel::<M>::Paused,
        handshake::ConnectEvent::<M>::Failed(message)@ == handshake::EventModel::<M>::Failed(
            message@,
        ),
        handshake::ConnectAction::<M>::Dial(message)@ == handshake::ActionModel::<M>::Dial(
            message@,
        ),
        handshake::ConnectAction::Send(answer)@ == handshake::ActionModel::Send(answer@),
        handshake::ConnectAction::<M>::Await(millis)@ == handshake::ActionModel::<M>::Await(millis),
        handshake::ConnectAction::<M>::Sever@ == handshake::ActionModel::<M>::Sever,
        handshake::ConnectAction::<M>::Pause(millis)@ == handshake::ActionModel::<M>::Pause(millis),
        handshake::ConnectAction::<M>::Finish@ == handshake::ActionModel::<M>::Finish,
{
}

/// The model of receiving shows the state, what happened and what is to be done,
/// with all that belongs to it.
pub proof fn receiving_is_shown_as_it_is<M>(
    container: proto::Container<M>,
    message: String,
    timeout_ms: u64,
    probed: bool,
)
    ensures
        (receiving::ReceiveState::<M>::Reading { timeout_ms, probed })@ == (
        receiving::StateModel::<M>::Reading { timeout_ms, probed }),
        (receiving::ReceiveState::<M>::Answering { timeout_ms })@ == (
        receiving::StateModel::<M>::Answering { timeout_ms }),
        (receiving::ReceiveState::Delivered { container })@ == (receiving::StateModel::Delivered {
            container: container@,
        }),
        (receiving::ReceiveState::<M>::Broken { message })@ == (
        receiving::StateModel::<M>::Broken { message: message@ }),
        receiving::ReceiveEvent::Arrived(container)@ == receiving::EventModel::Arrived(container@),
        receiving::ReceiveEvent::<M>::Answered@ == receiving::EventModel::<M>::Answered,
        receiving::ReceiveEvent::<M>::Failed(message)@ == receiving::EventModel::<M>::Failed(
            message@,
        ),
        receiving::ReceiveAction::<M>::Await(timeout_ms)@ == receiving::ActionModel::<M>::Await(
            timeout_ms,
        ),
        receiving::ReceiveAction::Send(container)@ == receiving::ActionModel::Send(container@),
        receiving::ReceiveAction::<M>::Finish@ == receiving::ActionModel::<M>::Finish,
{
}

/// The model of what was found, of what was loaded and of what to dial shows all
/// of it.
pub proof fn results_are_shown_as_they_are(
    c: config::CockatielConfig,
    s: String,
    loaded: config::Loaded,
    attempt: u32,
    seconds: u64,
    store: rustls::RootCertStore,
    bytes: Vec<u8>,
    certificates: Vec<Vec<u8>>,
)
    ensures
        config::ConfigRead::Missing@ == config::ReadModel::Missing,
        config::ConfigRead::Parsed(c)@ == config::ReadModel::Parsed(c@),
        config::ConfigRead::Unparsed(s)@ == config::ReadModel::Unparsed(s@),
        loaded@.config == loaded.config@,
        loaded.file is None ==> loaded@.file is None,
        loaded.file matches Some(t) ==> loaded@.file == Some(t@),
        transport::DialStep::Connected@ == transport::DialModel::Connected,
        (transport::DialStep::Retry { attempt, notice: s, seconds })@ == (
        transport::DialModel::Retry { attempt, notice: s@, seconds }),
        transport::DialStep::GiveUp(s)@ == transport::DialModel::GiveUp(s@),
        transport::result_model(Ok::<u64, String>(seconds)) == Ok::<u64, Seq<char>>(seconds),
        transport::result_model(Err::<u64, String>(s)) == Err::<u64, Seq<char>>(s@),
        client::admission_model(Err(s)) == Err::<client::ClientModel, Seq<char>>(s@),
        tls::roots_model(Ok(store)) == Ok::<
            Seq<(Seq<u8>, Seq<u8>, Option<Seq<u8>>)>,
            Seq<char>,
        >(tls::anchors(store)),
        tls::roots_model(Err(s)) == Err::<Seq<(Seq<u8>, Seq<u8>, Option<Seq<u8>>)>, Seq<char>>(s@),
        tls::read_model(Ok(bytes)) == Ok::<Seq<u8>, Seq<char>>(bytes@),
        tls::read_model(Err(s)) == Err::<Seq<u8>, Seq<char>>(s@),
        tls::certificates_model(Err(s)) == Err::<Seq<Seq<u8>>, Seq<char>>(s@),
        tls::certificates_model(Ok(certificates)) matches Ok(all) && all.len() == certificates@.len()
            && forall|i: int|
            0 <= i < certificates@.len() ==> #[trigger] all[i] == certificates@[i]@,
{
}

/// The texts of strings, of pairs and of JSON values are shown in order and none
/// is left out.
pub proof fn texts_are_shown_as_they_are(
    v: Seq<String>,
    pairs: Seq<(String, String)>,
    slices: Seq<(&str, &str)>,
    values: Vec<serde_json::Value>,
    fields: Seq<(String, serde_json::Value)>,
    entries: Seq<(Seq<char>, Seq<char>)>,
    s: String,
    n: i64,
    i: int,
)
    ensures
        text::texts(v).len() == v.len(),
        0 <= i < v.len() ==> text::texts(v)[i] == v[i]@,
        text::text_pairs(pairs).len() == pairs.len(),
        0 <= i < pairs.len() ==> text::text_pairs(pairs)[i] == (pairs[i].0@, pairs[i].1@),
        env_file::pair_texts(slices).len() == slices.len(),
        0 <= i < slices.len() ==> env_file::pair_texts(slices)[i] == (slices[i].0@, slices[i].1@),
        env_file::keys_of(entries).len() == entries.len(),
        0 <= i < entries.len() ==> env_file::keys_of(entries)[i] == entries[i].0,
        json::value_texts(values@).len() == values@.len(),
        0 <= i < values@.len() ==> json::value_texts(values@)[i] == json::value_text(values@[i]),
        json::field_texts(fields).len() == fields.len(),
        0 <= i < fields.len() ==> json::field_texts(fields)[i] == (
            fields[i].0@,
            json::value_text(fields[i].1),
        ),
        json::option_items(Some(values)) == Some(json::value_texts(values@)),
        json::option_items(None) is None,
        json::option_integer(Some(n)) == Some(n as int),
        json::option_integer(None) is None,
        text::option_text(Some(s)) == Some(s@),
        text::option_text(None) is None,
        env_file::option_pair(Some((s, s))) == Some((s@, s@)),
        env_file::option_pair(None) is None,
        0 <= i < pairs.len() ==> env_file::option_pair(Some(pairs[i])) == Some(
            (pairs[i].0@, pairs[i].1@),
        ),
{
}

/// A JSON document is shown as an object with its fields, or by its text.
pub proof fn documents_are_shown_as_they_are(
    m: serde_json::Map<String, serde_json::Value>,
    v: serde_json::Value,
    d: json::Document,
    k: Seq<char>,
)
    ensures
        json::Document::Object(m)@ == json::DocumentModel::Object(json::object_fields(m)),
        json::Document::Other(v)@ == json::DocumentModel::Other(json::value_text(v)),
        json::option_document(Some(d)) == Some(d@),
        json::option_document(None) is None,
        !json::no_fields().contains_key(k),
{
}

} // verus!
