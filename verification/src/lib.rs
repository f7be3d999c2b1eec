//! Connection profiles for the system SSH client, and the engine that
//! imports them from the client's own configuration files.

pub mod text;
pub mod options;
pub mod hosts;
pub mod connection;
pub mod resolve;
pub mod diff;
pub mod import;
pub mod includes;
pub mod order;
pub mod app;
pub mod handler;
pub mod launch;
pub mod layout;
