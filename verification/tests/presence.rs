use kaarissou::ids::BotIds;
use kaarissou::presence::{
    connection_message, log_voice_channel, Inner, KaarissouUser, VoiceAction, VoiceUpdate,
};

fn ids() -> BotIds {
    BotIds {
        kryssou: 1,
        kaarissou: 2,
        server: 100,
        priv_channel: 200,
        snapchat_role: 300,
        snapchat_channel: 400,
        train_channel: 500,
        log_channel: 600,
    }
}

fn update(user: u64, channel: Option<u64>) -> VoiceUpdate {
    VoiceUpdate {
        guild_id: Some(100),
        user_id: user,
        self_deaf: false,
        self_mute: false,
        channel_id: channel,
        has_member: true,
    }
}

#[test]
fn join_logs_and_records() {
    let mut inner = Inner::new();
    let actions = inner.voice_state_update(&ids(), update(7, Some(201)));
    assert_eq!(actions, vec![VoiceAction::LogConnection { user: 7, channel: 201 }]);
    let u = inner.get(7).unwrap();
    assert_eq!(u.cid, 201);
    assert_eq!(u.ssrc, None);
    assert_eq!(inner.len(), 1);
}

#[test]
fn join_private_channel_gives_role() {
    let mut inner = Inner::new();
    let actions = inner.voice_state_update(&ids(), update(7, Some(200)));
    assert_eq!(
        actions,
        vec![
            VoiceAction::LogConnection { user: 7, channel: 200 },
            VoiceAction::AddRole { user: 7, role: 300 }
        ]
    );
}

#[test]
fn kryssou_is_not_logged() {
    let mut inner = Inner::new();
    let actions = inner.voice_state_update(&ids(), update(1, Some(200)));
    assert_eq!(actions, vec![VoiceAction::AddRole { user: 1, role: 300 }]);
    assert!(inner.get(1).is_some());
}

#[test]
fn leaving_forgets_and_purges() {
    let mut inner = Inner::new();
    inner.voice_state_update(&ids(), update(7, Some(200)));
    inner.voice_state_update(&ids(), update(8, Some(201)));
    let actions = inner.voice_state_update(&ids(), update(7, None));
    assert_eq!(
        actions,
        vec![VoiceAction::RemoveRole { user: 7, role: 300 }, VoiceAction::PurgeMessages { user: 7 }]
    );
    assert!(inner.get(7).is_none());
    assert_eq!(inner.get(8).unwrap().cid, 201);
}

#[test]
fn muted_or_deafened_counts_as_away() {
    let mut inner = Inner::new();
    inner.voice_state_update(&ids(), update(7, Some(200)));
    let mut muted = update(7, Some(200));
    muted.self_mute = true;
    let actions = inner.voice_state_update(&ids(), muted);
    assert_eq!(actions.len(), 2);
    assert!(inner.get(7).is_none());
    let mut deaf = update(9, Some(201));
    deaf.self_deaf = true;
    inner.voice_state_update(&ids(), deaf);
    assert!(inner.get(9).is_none());
}

#[test]
fn other_servers_are_ignored() {
    let mut inner = Inner::new();
    let mut other = update(7, Some(200));
    other.guild_id = Some(101);
    assert!(inner.voice_state_update(&ids(), other).is_empty());
    other.guild_id = None;
    other.has_member = false;
    assert!(inner.voice_state_update(&ids(), other).is_empty());
    assert_eq!(inner.len(), 0);
}

#[test]
fn rejoining_resets_the_source() {
    let mut inner = Inner::new();
    inner.voice_state_update(&ids(), update(7, Some(201)));
    inner.speaking_state_update(Some(7), 55);
    assert_eq!(inner.get(7).unwrap().ssrc, Some(55));
    inner.voice_state_update(&ids(), update(7, Some(202)));
    let u = inner.get(7).unwrap();
    assert_eq!(u.ssrc, None);
    assert_eq!(u.cid, 202);
}

#[test]
fn speaking_state_only_for_known_users() {
    let mut inner = Inner::new();
    inner.speaking_state_update(Some(7), 55);
    assert!(inner.get(7).is_none());
    inner.voice_state_update(&ids(), update(7, Some(201)));
    inner.speaking_state_update(None, 55);
    assert_eq!(inner.get(7).unwrap().ssrc, None);
}

#[test]
fn stopping_to_speak_updates_silence() {
    let mut inner = Inner::new();
    inner.voice_state_update(&ids(), update(7, Some(201)));
    inner.voice_state_update(&ids(), update(8, Some(201)));
    inner.speaking_state_update(Some(7), 55);
    let before: KaarissouUser = inner.get(7).unwrap();
    let other_before = inner.get(8).unwrap();
    while tokio::time::Instant::now() <= before.silent_since {}
    inner.speaking_update(55, true);
    assert_eq!(inner.get(7).unwrap().silent_since, before.silent_since);
    inner.speaking_update(55, false);
    let after = inner.get(7).unwrap();
    assert!(after.silent_since > before.silent_since);
    assert_eq!(after.ssrc, Some(55));
    assert_eq!(after.cid, 201);
    assert_eq!(inner.get(8).unwrap().silent_since, other_before.silent_since);
    inner.speaking_update(56, false);
    assert_eq!(inner.get(7).unwrap().silent_since, after.silent_since);
}

#[test]
fn connection_log_line() {
    assert_eq!(log_voice_channel(&ids(), 7, 201, None).unwrap(), "<@7> is connected to <#201>");
    assert_eq!(log_voice_channel(&ids(), 7, 201, Some(202)).unwrap(), "<@7> is connected to <#201>");
    assert_eq!(log_voice_channel(&ids(), 7, 201, Some(201)), None);
    assert_eq!(log_voice_channel(&ids(), 1, 201, None), None);
}

#[test]
fn last_update_in_server_decides_presence() {
    let mut inner = Inner::new();
    inner.voice_state_update(&ids(), update(7, Some(201)));
    inner.voice_state_update(&ids(), update(8, Some(202)));
    let mut muted = update(7, Some(201));
    muted.self_mute = true;
    inner.voice_state_update(&ids(), muted);
    let mut elsewhere = update(8, None);
    elsewhere.guild_id = Some(999);
    inner.voice_state_update(&ids(), elsewhere);
    inner.voice_state_update(&ids(), update(9, Some(203)));
    inner.voice_state_update(&ids(), update(9, Some(204)));
    assert!(inner.get(7).is_none());
    assert_eq!(inner.get(8).unwrap().cid, 202);
    assert_eq!(inner.get(9).unwrap().cid, 204);
    assert_eq!(inner.len(), 2);
}

#[test]
fn stopping_to_speak_at_a_given_time() {
    let mut inner = Inner::new();
    inner.voice_state_update(&ids(), update(7, Some(201)));
    inner.voice_state_update(&ids(), update(8, Some(201)));
    inner.speaking_state_update(Some(7), 55);
    let other = inner.get(8).unwrap();
    let later = tokio::time::Instant::now() + std::time::Duration::from_secs(60);
    inner.speaking_update_at(55, true, later);
    assert!(inner.get(7).unwrap().silent_since < later);
    inner.speaking_update_at(55, false, later);
    let u = inner.get(7).unwrap();
    assert_eq!(u.silent_since, later);
    assert_eq!(u.ssrc, Some(55));
    assert_eq!(u.cid, 201);
    assert_eq!(inner.get(8).unwrap().silent_since, other.silent_since);
    inner.speaking_update_at(56, false, later + std::time::Duration::from_secs(1));
    assert_eq!(inner.get(7).unwrap().silent_since, later);
}

#[test]
fn joining_kryssou_channel_is_not_logged() {
    let mut inner = Inner::new();
    inner.voice_state_update(&ids(), update(1, Some(201)));
    assert_eq!(inner.voice_state_update(&ids(), update(7, Some(201))), vec![]);
    assert_eq!(
        inner.voice_state_update(&ids(), update(8, Some(202))),
        vec![VoiceAction::LogConnection { user: 8, channel: 202 }]
    );
    // kryssou's channel as it was before the update counts
    let mut away = update(1, Some(201));
    away.self_deaf = true;
    inner.voice_state_update(&ids(), away);
    assert_eq!(
        inner.voice_state_update(&ids(), update(9, Some(201))),
        vec![VoiceAction::LogConnection { user: 9, channel: 201 }]
    );
    assert_eq!(connection_message(9, 201), "<@9> is connected to <#201>");
}

#[test]
fn joined_user_is_silent_since_the_given_time() {
    let now = tokio::time::Instant::now() + std::time::Duration::from_secs(30);
    let u = KaarissouUser::new_at(201, now);
    assert_eq!(u.silent_since, now);
    assert_eq!(u.cid, 201);
    assert_eq!(u.ssrc, None);
    let mut inner = Inner::new();
    let actions = inner.voice_state_update_at(&ids(), update(7, Some(200)), now);
    assert_eq!(actions.len(), 2);
    assert_eq!(inner.get(7).unwrap().silent_since, now);
    let fresh = KaarissouUser::new(5);
    assert_eq!(fresh.cid, 5);
    assert_eq!(fresh.ssrc, None);
}
