//! An in-process bridge between a host application and a RESP server.
//!
//! The library holds the rules of the bridge: the protocol values a session
//! decodes, the closed set of tagged values handed to the host, the
//! conversion between the two, and the decisions a session takes on each
//! poll. The handles that move bytes live outside of it.

pub mod escape;
pub mod marshal;
pub mod session;
pub mod text;
pub mod value;
