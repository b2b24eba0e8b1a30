//! A verified core for building RADIUS servers: the attribute and packet
//! data model, the wire-format codec, and the decision logic of the
//! dispatch engine. Socket I/O and the asynchronous loop around this core
//! live outside the library.

pub mod codec;
pub mod engine;
pub mod errors;
pub mod pkt;
pub mod util;

pub use engine::{
    DummyErrorHandler, EngineState, ErrorHandler, LoopDecision, RadiusMessage, SendErrorOutcome,
    SocketAddress,
};
