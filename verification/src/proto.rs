//! The messages that the client itself sends and understands.
//!
//! A module exchanges many kinds of payload with the engine. The client looks
//! into three of them; any other is a value of a type `M` that it passes on as
//! it is.

use vstd::prelude::*;

verus! {

/// A module asks to be let in.
#[derive(Debug)]
pub struct ConnectionRequest {
    pub pin: i32,
    pub process_position: i32,
    pub priority: u32,
    pub module_instance_uuid7: String,
}

/// The engine answers a `ConnectionRequest`.
#[derive(Debug)]
pub struct ConnectionRequestReturn {
    pub new_port: i64,
    pub module_instance_uuid7: String,
}

/// The engine probes whether a module is alive, and the module answers.
#[derive(Debug)]
pub struct AuthVerify {
    pub cur_auth: String,
}

/// What a container carries.
#[derive(Debug)]
pub enum Payload<M> {
    ConnectionRequest(ConnectionRequest),
    ConnectionRequestReturn(ConnectionRequestReturn),
    AuthVerify(AuthVerify),
    Other(M),
}

/// The envelope of every message.
#[derive(Debug)]
pub struct Container<M> {
    pub version: u32,
    pub auth_token: String,
    pub module_name: String,
    pub module_instance_uuid7: String,
    pub payload: Option<Payload<M>>,
}

/// A payload, with texts for strings.
#[verifier::ext_equal]
pub enum PayloadModel<M> {
    ConnectionRequest {
        pin: i32,
        process_position: i32,
        priority: u32,
        module_instance_uuid7: Seq<char>,
    },
    ConnectionRequestReturn { new_port: i64, module_instance_uuid7: Seq<char> },
    AuthVerify { cur_auth: Seq<char> },
    Other(M),
}

/// A container, with texts for strings.
#[verifier::ext_equal]
pub struct ContainerModel<M> {
    pub version: u32,
    pub auth_token: Seq<char>,
    pub module_name: Seq<char>,
    pub module_instance_uuid7: Seq<char>,
    pub payload: Option<PayloadModel<M>>,
}

impl<M> View for Payload<M> {
    type V = PayloadModel<M>;

    open spec fn view(&self) -> PayloadModel<M> {
        match *self {
            Payload::ConnectionRequest(r) => PayloadModel::ConnectionRequest {
                pin: r.pin,
                process_position: r.process_position,
                priority: r.priority,
                module_instance_uuid7: r.module_instance_uuid7@,
            },
            Payload::ConnectionRequestReturn(r) => PayloadModel::ConnectionRequestReturn {
                new_port: r.new_port,
                module_instance_uuid7: r.module_instance_uuid7@,
            },
            Payload::AuthVerify(v) => PayloadModel::AuthVerify { cur_auth: v.cur_auth@ },
            Payload::Other(m) => PayloadModel::Other(m),
        }
    }
}

impl<M> View for Container<M> {
    type V = ContainerModel<M>;

    open spec fn view(&self) -> ContainerModel<M> {
        ContainerModel {
            version: self.version,
            auth_token: self.auth_token@,
            module_name: self.module_name@,
            module_instance_uuid7: self.module_instance_uuid7@,
            payload: match self.payload {
                Some(p) => Some(p@),
                None => None,
            },
        }
    }
}

} // verus!
