//! Decision logic of the Kaarissou Discord bot, verified with Verus.
pub mod decimal;
pub mod steam_ids;
pub mod opendota;
pub mod ids;
pub mod mention;
pub mod presence;
pub mod messages;
pub mod commands;
