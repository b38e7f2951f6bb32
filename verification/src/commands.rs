//! The decisions of the bot's commands: which channel a command may run in,
//! what it runs, and the text it answers.
use vstd::prelude::*;
use crate::ids::BotIds;
use crate::mention::{channel_mention, push_channel_mention};
use crate::steam_ids::{parse_steam_ids, steam_ids_of};

verus! {

/// The errors that the command rules raise. The errors of the I/O around
/// them (files, audio, Discord, HTTP) belong to the program that runs the
/// commands.
#[derive(Clone, Copy, Debug, PartialEq, Eq)]
pub enum KaarissouError {
    /// A command ran in channel `wrong` where only `right` is allowed.
    InvalidChannel { wrong: u64, right: u64 },
}

impl KaarissouError {
    /// The error's text.
    pub open spec fn spec_message(self) -> Seq<char> {
        match self {
            KaarissouError::InvalidChannel { wrong, right } => "invalid channel (expected "@
                + channel_mention(wrong) + ", found "@ + channel_mention(right) + ")"@,
        }
    }

    /// The error's text, as its display writes it.
    pub fn message(&self) -> (s: String)
        ensures
            s@ == self.spec_message(),
    {
        match self {
            KaarissouError::InvalidChannel { wrong, right } => {
                let mut s = String::from_str("invalid channel (expected ");
                push_channel_mention(&mut s, *wrong);
                s.append(", found ");
                push_channel_mention(&mut s, *right);
                s.append(")");
                assert(s@ =~= self.spec_message());
                s
            },
        }
    }
}

/// The git commands that report on the bot's source.
#[derive(Clone, Copy, Debug, PartialEq, Eq)]
pub enum GitQuery {
    /// `git status -s`
    Status,
    /// `git log --pretty=format:"%h" -n 1`
    Hash,
    /// `git log --pretty=format:"%s" -n 1`
    Log,
}

/// The arguments of `git` for `query`.
pub open spec fn spec_git_args(query: GitQuery) -> Seq<&'static str> {
    match query {
        GitQuery::Status => seq!["status", "-s"],
        GitQuery::Hash => seq!["log", "--pretty=format:%h", "-n", "1"],
        GitQuery::Log => seq!["log", "--pretty=format:%s", "-n", "1"],
    }
}

/// The arguments of `git` for `query`.
pub fn git_args(query: GitQuery) -> (args: Vec<&'static str>)
    ensures
        args@ == spec_git_args(query),
{
    let mut args: Vec<&'static str> = Vec::new();
    match query {
        GitQuery::Status => {
            args.push("status");
            args.push("-s");
        },
        GitQuery::Hash => {
            args.push("log");
            args.push("--pretty=format:%h");
            args.push("-n");
            args.push("1");
        },
        GitQuery::Log => {
            args.push("log");
            args.push("--pretty=format:%s");
            args.push("-n");
            args.push("1");
        },
    }
    assert(args@ =~= spec_git_args(query));
    args
}

/// A git command may run only in the snapchat channel.
fn snapchat_only(ids: &BotIds, channel: u64, query: GitQuery) -> (r: Result<GitQuery, KaarissouError>)
    ensures
        channel == ids.snapchat_channel ==> r == Ok::<GitQuery, KaarissouError>(query),
        channel != ids.snapchat_channel ==> r == Err::<GitQuery, KaarissouError>(
            KaarissouError::InvalidChannel { wrong: channel, right: ids.snapchat_channel },
        ),
{
    if channel != ids.snapchat_channel {
        Err(KaarissouError::InvalidChannel { wrong: channel, right: ids.snapchat_channel })
    } else {
        Ok(query)
    }
}

/// `status` in `channel`: `git status -s`, in the snapchat channel only.
pub fn status(ids: &BotIds, channel: u64) -> (r: Result<GitQuery, KaarissouError>)
    ensures
        channel == ids.snapchat_channel ==> r == Ok::<GitQuery, KaarissouError>(GitQuery::Status),
        channel != ids.snapchat_channel ==> r == Err::<GitQuery, KaarissouError>(
            KaarissouError::InvalidChannel { wrong: channel, right: ids.snapchat_channel },
        ),
{
    snapchat_only(ids, channel, GitQuery::Status)
}

/// `hash` in `channel`: the hash of the last commit, in the snapchat
/// channel only.
pub fn hash(ids: &BotIds, channel: u64) -> (r: Result<GitQuery, KaarissouError>)
    ensures
        channel == ids.snapchat_channel ==> r == Ok::<GitQuery, KaarissouError>(GitQuery::Hash),
        channel != ids.snapchat_channel ==> r == Err::<GitQuery, KaarissouError>(
            KaarissouError::InvalidChannel { wrong: channel, right: ids.snapchat_channel },
        ),
{
    snapchat_only(ids, channel, GitQuery::Hash)
}

/// `log` in `channel`: the subject of the last commit, in the snapchat
/// channel only.
pub fn log(ids: &BotIds, channel: u64) -> (r: Result<GitQuery, KaarissouError>)
    ensures
        channel == ids.snapchat_channel ==> r == Ok::<GitQuery, KaarissouError>(GitQuery::Log),
        channel != ids.snapchat_channel ==> r == Err::<GitQuery, KaarissouError>(
            KaarissouError::InvalidChannel { wrong: channel, right: ids.snapchat_channel },
        ),
{
    snapchat_only(ids, channel, GitQuery::Log)
}

/// The training poll: its text and the reactions to add, in order.
pub struct TrainPoll {
    pub text: &'static str,
    pub reactions: Vec<&'static str>,
}

/// The text of the training poll.
pub open spec fn train_text() -> &'static str {
    r#"
Quand es ce que tu est dispo pour cette semaine ? A partir de ~21h
🦀 : Lundi
🐶 : Mardi
🐮 : Mercredi
🐦 : Jeudi
🦆 : Vendredi
🐍 : Samedi
🐰 : Dimanche
    "#
}

/// The reactions of the training poll, one per day.
pub open spec fn train_reactions() -> Seq<&'static str> {
    seq!["🦀", "🐶", "🐮", "🐦", "🦆", "🐍", "🐰"]
}

/// The days of the week, Monday first, as the poll names them.
pub open spec fn train_days() -> Seq<&'static str> {
    seq!["Lundi", "Mardi", "Mercredi", "Jeudi", "Vendredi", "Samedi", "Dimanche"]
}

/// The poll's line for day `k`: its reaction, then the day's name.
pub open spec fn poll_line(k: int) -> Seq<char> {
    train_reactions()[k]@ + " : "@ + train_days()[k]@ + "\n"@
}

/// The poll text asks when each one is free this week, then gives one line
/// per day, Monday to Sunday, each with the reaction that votes for it.
pub proof fn train_poll_pairs_reactions_with_days()
    ensures
        train_text()@ == "\n"@ + "Quand es ce que tu est dispo pour cette semaine ? A partir de ~21h"@
            + "\n"@ + poll_line(0) + poll_line(1) + poll_line(2) + poll_line(3) + poll_line(4)
            + poll_line(5) + poll_line(6) + "    "@,
{
    reveal_strlit(r#"
Quand es ce que tu est dispo pour cette semaine ? A partir de ~21h
🦀 : Lundi
🐶 : Mardi
🐮 : Mercredi
🐦 : Jeudi
🦆 : Vendredi
🐍 : Samedi
🐰 : Dimanche
    "#);
    reveal_strlit("\n");
    reveal_strlit("Quand es ce que tu est dispo pour cette semaine ? A partir de ~21h");
    reveal_strlit(" : ");
    reveal_strlit("    ");
    reveal_strlit("🦀");
    reveal_strlit("🐶");
    reveal_strlit("🐮");
    reveal_strlit("🐦");
    reveal_strlit("🦆");
    reveal_strlit("🐍");
    reveal_strlit("🐰");
    reveal_strlit("Lundi");
    reveal_strlit("Mardi");
    reveal_strlit("Mercredi");
    reveal_strlit("Jeudi");
    reveal_strlit("Vendredi");
    reveal_strlit("Samedi");
    reveal_strlit("Dimanche");
    assert(train_text()@ =~= "\n"@ + "Quand es ce que tu est dispo pour cette semaine ? A partir de ~21h"@
        + "\n"@ + poll_line(0) + poll_line(1) + poll_line(2) + poll_line(3) + poll_line(4)
        + poll_line(5) + poll_line(6) + "    "@);
}

/// `train` in `channel`: the poll, in the training channel; elsewhere the
/// command does nothing.
pub fn train(ids: &BotIds, channel: u64) -> (r: Option<TrainPoll>)
    ensures
        r is None <==> channel != ids.train_channel,
        r matches Some(p) ==> p.text == train_text() && p.reactions@ == train_reactions(),
{
    if channel != ids.train_channel {
        return None;
    }
    let mut reactions: Vec<&'static str> = Vec::new();
    reactions.push("🦀");
    reactions.push("🐶");
    reactions.push("🐮");
    reactions.push("🐦");
    reactions.push("🦆");
    reactions.push("🐍");
    reactions.push("🐰");
    assert(reactions@ =~= train_reactions());
    Some(TrainPoll { text: r#"
Quand es ce que tu est dispo pour cette semaine ? A partir de ~21h
🦀 : Lundi
🐶 : Mardi
🐮 : Mercredi
🐦 : Jeudi
🦆 : Vendredi
🐍 : Samedi
🐰 : Dimanche
    "#, reactions })
}

/// What `stalker` asks about: the team (by default "shit team") and the
/// Steam ids named in the players' text.
pub struct StalkRequest {
    pub team: String,
    pub steam_ids: Vec<u32>,
}

/// `stalker players team`: the team, or "shit team", and the Steam ids of
/// `players`.
pub fn stalker(players: &str, team: Option<String>) -> (r: StalkRequest)
    ensures
        r.steam_ids@ == steam_ids_of(players@),
        team matches Some(t) ==> r.team@ == t@,
        team is None ==> r.team@ == "shit team"@,
{
    let team = match team {
        Some(t) => t,
        None => String::from_str("shit team"),
    };
    StalkRequest { team, steam_ids: parse_steam_ids(players) }
}

/// The state report, one line each: where the source is, the last commit's subject and
/// hash, and the working tree status in a code block (or that nothing
/// differs from GitHub).
pub open spec fn state_report(hash: Seq<char>, status: Seq<char>, msg: Seq<char>) -> Seq<char> {
    let last = if status.len() == 0 {
        "Nothing different than github"@
    } else {
        "```"@ + status + "```"@
    };
    "Source code is avalaible on https://github.com/alexandre-roulin/kaarissou."@ + "\n"@
        + "Last update:"@ + "\n"@ + msg + "\n"@ + "Current hash:"@ + "\n"@ + hash + "\n"@
        + "Current status:"@ + "\n"@ + last
}

/// The report opens with the source line, the last commit's subject and its
/// hash, whatever the status: only what follows `Current status:` depends
/// on the status.
pub proof fn state_report_opening(hash: Seq<char>, status: Seq<char>, msg: Seq<char>)
    ensures
        ({
            let opening = "Source code is avalaible on https://github.com/alexandre-roulin/kaarissou."@
                + "\n"@ + "Last update:"@ + "\n"@ + msg + "\n"@ + "Current hash:"@ + "\n"@
                + hash + "\n"@ + "Current status:"@ + "\n"@;
            let r = state_report(hash, status, msg);
            &&& r.len() > opening.len()
            &&& r.subrange(0, opening.len() as int) == opening
        }),
{
    let opening = "Source code is avalaible on https://github.com/alexandre-roulin/kaarissou."@ + "\n"@
        + "Last update:"@ + "\n"@ + msg + "\n"@ + "Current hash:"@ + "\n"@ + hash + "\n"@
        + "Current status:"@ + "\n"@;
    let last = if status.len() == 0 {
        "Nothing different than github"@
    } else {
        "```"@ + status + "```"@
    };
    reveal_strlit("Nothing different than github");
    reveal_strlit("```");
    let r = state_report(hash, status, msg);
    assert(r =~= opening + last);
    assert(r.subrange(0, opening.len() as int) =~= opening);
}

/// The state report of the bot from the outputs of `git log` (hash and
/// subject) and `git status -s`.
pub fn state(hash: &str, status: &str, msg: &str) -> (r: String)
    ensures
        r@ == state_report(hash@, status@, msg@),
{
    let mut r = String::from_str("Source code is avalaible on https://github.com/alexandre-roulin/kaarissou.");
    r.append("\n");
    r.append("Last update:");
    r.append("\n");
    r.append(msg);
    r.append("\n");
    r.append("Current hash:");
    r.append("\n");
    r.append(hash);
    r.append("\n");
    r.append("Current status:");
    r.append("\n");
    if status.is_empty() {
        r.append("Nothing different than github");
    } else {
        r.append("```");
        r.append(status);
        r.append("```");
    }
    assert(r@ =~= state_report(hash@, status@, msg@));
    r
}

} // verus!
