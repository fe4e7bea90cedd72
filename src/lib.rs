//! Statistics leaderboards for a Minecraft server's chat bot: stat identifiers,
//! identity-key handling, ranking and fixed-width table rendering.

pub mod bot_error;
pub mod identity;
pub mod text;
pub mod utils;
pub mod leaderboard;
pub mod stat;
pub mod schedule;
