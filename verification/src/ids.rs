//! The Discord ids that the bot's rules name.
use vstd::prelude::*;

verus! {

/// The ids of the users, the server, the channels and the role that the
/// bot's rules single out.
#[derive(Clone, Copy, Debug, PartialEq, Eq)]
pub struct BotIds {
    /// The user whose joins are not logged.
    pub kryssou: u64,
    /// The bot's own user.
    pub kaarissou: u64,
    /// The server whose voice channels are watched.
    pub server: u64,
    /// The voice channel that gives the snapchat role.
    pub priv_channel: u64,
    /// The role given in the private voice channel.
    pub snapchat_role: u64,
    /// The text channel of the snapchat role, and of the git commands.
    pub snapchat_channel: u64,
    /// The text channel of the training poll.
    pub train_channel: u64,
    /// The text channel where joins are logged.
    pub log_channel: u64,
}

} // verus!
