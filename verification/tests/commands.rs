use kaarissou::commands::{git_args, hash, log, state, stalker, status, train, GitQuery, KaarissouError};
use kaarissou::ids::BotIds;
use kaarissou::messages::{remove_all_messages, MessageSummary};

fn ids() -> BotIds {
    BotIds {
        kryssou: 1,
        kaarissou: 2,
        server: 100,
        priv_channel: 200,
        snapchat_role: 300,
        snapchat_channel: 400,
        train_channel: 500,
        log_channel: 600,
    }
}

#[test]
fn git_commands_only_in_snapchat_channel() {
    assert_eq!(status(&ids(), 400), Ok(GitQuery::Status));
    assert_eq!(hash(&ids(), 400), Ok(GitQuery::Hash));
    assert_eq!(log(&ids(), 400), Ok(GitQuery::Log));
    let err = KaarissouError::InvalidChannel { wrong: 401, right: 400 };
    assert_eq!(status(&ids(), 401), Err(err));
    assert_eq!(hash(&ids(), 401), Err(err));
    assert_eq!(log(&ids(), 401), Err(err));
}

#[test]
fn invalid_channel_message() {
    let err = KaarissouError::InvalidChannel { wrong: 401, right: 400 };
    assert_eq!(err.message(), "invalid channel (expected <#401>, found <#400>)");
}

#[test]
fn git_arguments() {
    assert_eq!(git_args(GitQuery::Status), vec!["status", "-s"]);
    assert_eq!(git_args(GitQuery::Hash), vec!["log", "--pretty=format:%h", "-n", "1"]);
    assert_eq!(git_args(GitQuery::Log), vec!["log", "--pretty=format:%s", "-n", "1"]);
}

#[test]
fn train_poll_only_in_train_channel() {
    assert!(train(&ids(), 400).is_none());
    let poll = train(&ids(), 500).unwrap();
    assert!(poll.text.starts_with("\nQuand es ce que tu est dispo"));
    assert!(poll.text.contains("🐰 : Dimanche"));
    assert_eq!(poll.reactions, vec!["🦀", "🐶", "🐮", "🐦", "🦆", "🐍", "🐰"]);
}

#[test]
fn stalker_request() {
    let r = stalker("1143095430, 42", None);
    assert_eq!(r.team, "shit team");
    assert_eq!(r.steam_ids, vec![1143095430, 42]);
    let r = stalker("x", Some("team".to_string()));
    assert_eq!(r.team, "team");
    assert!(r.steam_ids.is_empty());
}

#[test]
fn state_report_with_and_without_changes() {
    let clean = state("abc123", "", "fix");
    assert_eq!(
        clean,
        "Source code is avalaible on https://github.com/alexandre-roulin/kaarissou.\nLast update:\nfix\nCurrent hash:\nabc123\nCurrent status:\nNothing different than github"
    );
    let dirty = state("h", " M src/main.rs\n", "m");
    assert!(dirty.ends_with("Current status:\n``` M src/main.rs\n```"));
}

#[test]
fn purge_plan() {
    let msgs = vec![
        MessageSummary { id: 1, author: 7 },
        MessageSummary { id: 2, author: 8 },
        MessageSummary { id: 3, author: 7 },
    ];
    let plan = remove_all_messages(&msgs, 7, false);
    assert_eq!(plan.ids, vec![1, 3]);
    assert!(!plan.one_by_one);
    assert!(plan.retry);
    let plan = remove_all_messages(&msgs, 9, true);
    assert!(plan.ids.is_empty());
    assert!(plan.one_by_one);
    assert!(!plan.retry);
}
