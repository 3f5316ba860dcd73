//! Plugin lifecycle and dispatch core of a chat-service bot that hosts
//! sandboxed plugins: permissions, registry resolution, the registration
//! store, command-name collisions, event routing and shutdown coordination.

pub mod permissions;
pub mod registry;
pub mod registrations;
pub mod commands;
pub mod router;
pub mod requests;
pub mod shutdown;
