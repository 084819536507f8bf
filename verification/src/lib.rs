//! Runtime reflection bridge and editor/runtime IPC protocol.
//!
//! An editor process and a runtime process rendezvous over one-shot
//! endpoints, establish a pair of one-directional channels, and then
//! exchange a closed set of tagged messages.  Components of live objects
//! are described by a type registry and travel as self-describing value
//! trees; the reflection bridge turns raw component storage into a value
//! tree (capture) and an edited value tree back into raw storage (apply).

pub mod bridge;
pub mod channel;
pub mod codec;
pub mod component;
pub mod dispatch;
pub mod edit;
pub mod handshake;
pub mod messages;
pub mod registry;
pub mod session;
pub mod value;
