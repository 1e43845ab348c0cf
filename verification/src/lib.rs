//! Sans-IO CANopen SDO (CiA 301): the wire codec, the client (master) and the
//! server (node) state machines.
//!
//! The state machines do no I/O: they are fed CAN frames and report which
//! frame to send next and when a timeout is due. Time is a monotonic `u64`
//! of the caller's unit (nanoseconds in the async glue); `now` and every
//! timeout share that unit.
//!
//! * [`client::SdoClient`] reads and writes a remote node's object
//!   dictionary.
//! * [`server::SdoServer`] answers a master against a caller-provided
//!   [`server::ObjectDictionary`], with a fixed bound on the object size.
//! * [`loopback`] proves of the models of the two that they agree on the
//!   wire; every call of the state machines is proved to be one model step.

pub mod abort;
pub mod asynch;
pub mod bytes;
pub mod client;
pub mod error;
pub mod frame;
pub mod loopback;
pub mod server;
pub mod wire;

pub use abort::SdoAbortCode;
pub use client::{SdoClient, SdoConfig, SdoOutcome};
pub use error::SdoError;
pub use frame::{SdoFrame, COB_RSDO_BASE, COB_TSDO_BASE};
pub use server::{ObjectDictionary, SdoServer, ServerConfig};
