//! A client for the Agent Client Protocol: the decisions behind session
//! creation, the prompt update stream, permission arbitration, the line framing
//! of the in-process byte transport, and the naming and checking of release
//! binaries, each stated as a contract and proved.
pub mod framing;
pub mod message;
pub mod permission;
pub mod provider;
pub mod registry;
pub mod rejected;
pub mod release;
pub mod schema;
pub mod session;
pub mod stream;
pub mod text;
