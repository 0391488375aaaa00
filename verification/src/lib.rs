//! The logic of a small Discord bot: what it reads out of the gateway's
//! greeting, how it answers the commands it is sent, and the requests it
//! makes to the Discord HTTP API.

pub mod text;
pub mod json;
pub mod api;
pub mod commands;
pub mod bot;
pub mod gateway;
pub mod channel;
