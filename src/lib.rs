//! A client engine for the Wayland wire protocol: a schema compiler for
//! protocol description documents, the wire codec, the object registry with
//! its two-phase id lifecycle, and the connection state machine that ties
//! them together. Transport I/O stays with the caller.
pub mod fixed;
pub mod text;
pub mod schema;
pub mod compiler;
pub mod catalog;
pub mod codec;
pub mod registry;
pub mod connection;
pub mod proxy;
pub mod events;
pub mod setup;
