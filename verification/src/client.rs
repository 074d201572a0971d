//! A module's session with the engine: the handshake that opens it, the frames
//! that it sends, and the liveness probes that it answers.

use crate::config;
use crate::number;
use crate::proto;
use crate::text;
use vstd::prelude::*;

verus! {

/// The milliseconds that the engine has to answer a connection request.
pub const ANSWER_MILLIS: u64 = 15000;

/// The milliseconds between closing a socket and dialling again.
pub const PAUSE_MILLIS: u64 = 100;

/// A session with the engine.
#[derive(Debug)]
pub struct CockatielClient {
    /// The settings of the module.
    pub config: config::CockatielConfig,
    /// The token that the engine gave the module.
    pub auth_token: String,
    /// The identity that the engine gave the module.
    pub instance_uuid7: String,
}

/// A session, with texts for strings.
#[verifier::ext_equal]
pub struct ClientModel {
    pub config: config::ConfigModel,
    pub auth_token: Seq<char>,
    pub instance_uuid7: Seq<char>,
}

impl View for CockatielClient {
    type V = ClientModel;

    open spec fn view(&self) -> ClientModel {
        ClientModel {
            config: self.config@,
            auth_token: self.auth_token@,
            instance_uuid7: self.instance_uuid7@,
        }
    }
}

impl Clone for CockatielClient {
    fn clone(&self) -> (r: CockatielClient)
        ensures
            r@ == self@,
    {
        CockatielClient {
            config: self.config.clone(),
            auth_token: self.auth_token.clone(),
            instance_uuid7: self.instance_uuid7.clone(),
        }
    }
}

/// Whether `s` is the text of a version 7 UUID: thirty-two lower-case
/// hexadecimal digits in five groups.
pub open spec fn is_uuid7(s: Seq<char>) -> bool {
    &&& s.len() == 36
    &&& forall|i: int|
        0 <= i < 36 ==> if i == 8 || i == 13 || i == 18 || i == 23 {
            #[trigger] s[i] == '-'
        } else {
            '0' <= s[i] <= '9' || 'a' <= s[i] <= 'f'
        }
    &&& s[14] == '7'
    &&& s[19] == '8' || s[19] == '9' || s[19] == 'a' || s[19] == 'b'
}

/// A frame of the session.
pub open spec fn frame<M>(
    client: ClientModel,
    payload: proto::PayloadModel<M>,
) -> proto::ContainerModel<M> {
    proto::ContainerModel {
        version: 1,
        auth_token: client.auth_token,
        module_name: client.config.module_name,
        module_instance_uuid7: client.instance_uuid7,
        payload: Some(payload),
    }
}

/// The first frame of all: it carries the PIN and no token yet. The engine
/// assigns the identity that counts.
pub open spec fn request_frame<M>(
    c: config::ConfigModel,
    instance_id: Seq<char>,
) -> proto::ContainerModel<M> {
    proto::ContainerModel {
        version: 1,
        auth_token: Seq::empty(),
        module_name: c.module_name,
        module_instance_uuid7: instance_id,
        payload: Some(
            proto::PayloadModel::ConnectionRequest {
                pin: c.pin,
                process_position: c.position,
                priority: c.priority,
                module_instance_uuid7: Seq::empty(),
            },
        ),
    }
}

/// The first frame on a new socket of the session: it carries the token and no
/// PIN.
pub open spec fn reauth_frame<M>(client: ClientModel) -> proto::ContainerModel<M> {
    frame(
        client,
        proto::PayloadModel::ConnectionRequest {
            pin: 0,
            process_position: client.config.position,
            priority: client.config.priority,
            module_instance_uuid7: client.instance_uuid7,
        },
    )
}

/// The answer to a liveness probe: it carries the token.
pub open spec fn probe_answer<M>(client: ClientModel) -> proto::ContainerModel<M> {
    frame(client, proto::PayloadModel::AuthVerify { cur_auth: client.auth_token })
}

/// Whether a container is a liveness probe.
pub open spec fn is_probe<M>(container: proto::ContainerModel<M>) -> bool {
    container.payload matches Some(proto::PayloadModel::AuthVerify { .. })
}

/// What is told when the engine has let the module in.
pub open spec fn greeting_text(client: ClientModel) -> Seq<char> {
    "["@ + client.config.module_name + "] Authenticated as "@ + client.config.module_name + " ["@
        + client.instance_uuid7 + "]"@
}

/// What the engine's answer to a connection request comes to: a session if it
/// gives a token and names no other port, otherwise the reason why there is
/// none. `shown` is the payload of the answer as a text.
pub open spec fn admission<M>(
    c: config::ConfigModel,
    answer: proto::ContainerModel<M>,
    shown: Seq<char>,
) -> Result<ClientModel, Seq<char>> {
    match answer.payload {
        Some(proto::PayloadModel::ConnectionRequestReturn { new_port, module_instance_uuid7 }) => {
            if new_port == 0 && answer.auth_token.len() > 0 {
                Ok(
                    ClientModel {
                        config: c,
                        auth_token: answer.auth_token,
                        instance_uuid7: module_instance_uuid7,
                    },
                )
            } else if new_port == 0 {
                Err(
                    "Connection rejected: invalid PIN or module not whitelisted. Pass --pin <PIN> or set pin in your config.json"@,
                )
            } else {
                Err(
                    "Connection rejected: new_port="@ + number::integer_text(new_port as int)
                        + ", auth_token_empty="@ + (if answer.auth_token.len() == 0 {
                        "true"@
                    } else {
                        "false"@
                    }),
                )
            }
        },
        _ => Err("Expected ConnectionRequestReturn, got: "@ + shown),
    }
}

/// A result, with the models of its parts.
pub open spec fn admission_model(r: Result<CockatielClient, String>) -> Result<
    ClientModel,
    Seq<char>,
> {
    match r {
        Ok(c) => Ok(c@),
        Err(e) => Err(e@),
    }
}

/// Calls `uuid::Uuid::now_v7` and writes the UUID as a text. Which UUID it is
/// depends on the clock and on chance, so only its form is stated. The call
/// panics on a machine whose clock stands before 1970 or that has no source of
/// random numbers.
#[verifier::external_body]
pub(crate) fn fresh_uuid7() -> (r: String)
    ensures
        is_uuid7(r@),
{
    uuid::Uuid::now_v7().to_string()
}

/// The frame that asks the engine to let the module in.
pub(crate) fn request<M>(c: &config::CockatielConfig, instance_id: &String) -> (r: proto::Container<M>)
    ensures
        r@ == request_frame::<M>(c@, instance_id@),
{
    proto::Container {
        version: 1,
        auth_token: String::new(),
        module_name: c.module_name.clone(),
        module_instance_uuid7: instance_id.clone(),
        payload: Some(
            proto::Payload::ConnectionRequest(
                proto::ConnectionRequest {
                    pin: c.pin,
                    process_position: c.position,
                    priority: c.priority,
                    module_instance_uuid7: String::new(),
                },
            ),
        ),
    }
}

/// What the engine's answer to a connection request comes to.
pub fn judge_answer<M>(
    c: config::CockatielConfig,
    answer: proto::Container<M>,
    shown: String,
) -> (r: Result<CockatielClient, String>)
    ensures
        admission_model(r) == admission(c@, answer@, shown@),
{
    match answer.payload {
        Some(proto::Payload::ConnectionRequestReturn(ret)) => {
            let empty = answer.auth_token.as_str().is_empty();
            if ret.new_port == 0 && !empty {
                Ok(
                    CockatielClient {
                        config: c,
                        auth_token: answer.auth_token,
                        instance_uuid7: ret.module_instance_uuid7,
                    },
                )
            } else if ret.new_port == 0 {
                Err(
                    "Connection rejected: invalid PIN or module not whitelisted. Pass --pin <PIN> or set pin in your config.json".to_owned(),
                )
            } else {
                let mut message = text::concat2(
                    "Connection rejected: new_port=",
                    number::integer(ret.new_port).as_str(),
                );
                message.append(", auth_token_empty=");
                message.append(
                    if empty {
                        "true"
                    } else {
                        "false"
                    },
                );
                Err(message)
            }
        },
        _ => Err(text::concat2("Expected ConnectionRequestReturn, got: ", shown.as_str())),
    }
}

impl CockatielClient {
    /// The frame that sends a payload to the engine. The token and the identity
    /// of the session go with it.
    pub fn send<M>(&self, payload: proto::Payload<M>) -> (r: proto::Container<M>)
        ensures
            r@ == frame(self@, payload@),
    {
        proto::Container {
            version: 1,
            auth_token: self.auth_token.clone(),
            module_name: self.config.module_name.clone(),
            module_instance_uuid7: self.instance_uuid7.clone(),
            payload: Some(payload),
        }
    }

    /// The first frame on a new socket of the session.
    pub fn reauth<M>(&self) -> (r: proto::Container<M>)
        ensures
            r@ == reauth_frame::<M>(self@),
    {
        self.send(
            proto::Payload::ConnectionRequest(
                proto::ConnectionRequest {
                    pin: 0,
                    process_position: self.config.position,
                    priority: self.config.priority,
                    module_instance_uuid7: self.instance_uuid7.clone(),
                },
            ),
        )
    }

    /// The answer to a liveness probe.
    pub fn answer_probe<M>(&self) -> (r: proto::Container<M>)
        ensures
            r@ == probe_answer::<M>(self@),
    {
        self.send(
            proto::Payload::AuthVerify(proto::AuthVerify { cur_auth: self.auth_token.clone() }),
        )
    }

    /// What is told when the engine has let the module in.
    pub fn greeting(&self) -> (r: String)
        ensures
            r@ == greeting_text(self@),
    {
        let mut r = text::concat2("[", self.config.module_name.as_str());
        r.append("] Authenticated as ");
        r.append(self.config.module_name.as_str());
        r.append(" [");
        r.append(self.instance_uuid7.as_str());
        r.append("]");
        r
    }
}

} // verus!
