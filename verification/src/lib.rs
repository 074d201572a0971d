//! Client SDK for connecting a module to the Cockatiel engine.
//!
//! The library holds everything the client decides and computes: the `.env`
//! file format, the connection settings and where they come from, the frames
//! of the handshake, the answers to liveness probes, and the rules for
//! dialling. Sockets, files and the clock belong to the program around it.

pub mod client;
pub mod config;
pub mod config_laws;
pub mod env_file;
pub mod env_laws;
pub mod handshake;
pub mod json;
pub mod model_laws;
pub mod number;
pub mod proto;
pub mod receiving;
pub mod session_laws;
pub mod text;
pub mod text_laws;
pub mod tls;
pub mod transport;
