//! Relay core of a chat bridge between a Minecraft session and Discord.
//!
//! The crate holds the state machines that keep the bridge from being kicked
//! or rate limited: a legality filter for outgoing chat, a token-bucket
//! throttle for lines sent to the game, a window that collapses repeated
//! incoming messages, and a batcher for lines sent to Discord. Every function
//! is verified against a mathematical model of the state it works on.

pub mod text;
pub mod legal;
pub mod legal_laws;
pub mod throttle;
pub mod throttle_laws;
pub mod avoid_kick;
pub mod recent;
pub mod discord;
pub mod bridge;
pub mod discord_bridge;
pub mod relay;
pub mod window_laws;
