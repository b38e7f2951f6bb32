//! Who is in the server's voice channels: the state that voice and speaking
//! events update, and the actions that a voice update calls for.
use vstd::prelude::*;
use std::collections::HashMap;
use vstd::std_specs::iter::IteratorSpec;
use tokio::time::Instant;
use crate::ids::BotIds;
use crate::mention::{channel_mention, push_channel_mention, push_user_mention, user_mention};

verus! {

broadcast use vstd::std_specs::hash::group_hash_axioms;

/// tokio's `time::Instant`, carried as an opaque value.
#[verifier::external_type_specification]
#[verifier::external_body]
pub struct ExInstant(Instant);

/// `tokio::time::Instant::now`; nothing is stated of the instant it gives,
/// which depends on the clock.
#[verifier::external_body]
fn instant_now() -> Instant {
    Instant::now()
}

/// A user in one of the server's voice channels.
#[derive(Clone, Copy, Debug)]
pub struct KaarissouUser {
    /// The RTP source of the user's voice, once the gateway named it.
    pub ssrc: Option<u32>,
    /// The voice channel.
    pub cid: u64,
    /// When the user last stopped speaking (or joined).
    pub silent_since: Instant,
}

impl KaarissouUser {
    /// A user that joined the voice channel `cid` now: no RTP source yet.
    pub fn new(cid: u64) -> (u: Self)
        ensures
            u.ssrc is None,
            u.cid == cid,
    {
        KaarissouUser::new_at(cid, instant_now())
    }

    /// A user that joined the voice channel `cid` at `now`: no RTP source
    /// yet, silent since `now`.
    pub fn new_at(cid: u64, now: Instant) -> (u: Self)
        ensures
            u == (KaarissouUser { ssrc: None, cid, silent_since: now }),
    {
        KaarissouUser { ssrc: None, cid, silent_since: now }
    }
}

/// The users in the server's voice channels, by user id.
#[derive(Debug)]
pub struct Inner {
    users_channel: HashMap<u64, KaarissouUser>,
}

/// What a voice state update of the gateway says.
#[derive(Clone, Copy, Debug, PartialEq, Eq)]
pub struct VoiceUpdate {
    pub guild_id: Option<u64>,
    pub user_id: u64,
    pub self_deaf: bool,
    pub self_mute: bool,
    /// The voice channel the user is in, `None` where the user left.
    pub channel_id: Option<u64>,
    /// The update carries the user's member data.
    pub has_member: bool,
}

/// What a voice state update asks the bot to do, in order.
#[derive(Clone, Copy, Debug, PartialEq, Eq)]
pub enum VoiceAction {
    /// Log in the log channel that `user` joined `channel`.
    LogConnection { user: u64, channel: u64 },
    /// Take `role` from `user`.
    RemoveRole { user: u64, role: u64 },
    /// Give `role` to `user`.
    AddRole { user: u64, role: u64 },
    /// Delete the messages of `user` in the snapchat channel, in bulk, until
    /// a pass finds none.
    PurgeMessages { user: u64 },
}

/// The update is about the watched server.
pub open spec fn in_server(ids: BotIds, u: VoiceUpdate) -> bool {
    u.guild_id == Some(ids.server)
}

/// A deafened or muted user counts as away.
pub open spec fn is_away(u: VoiceUpdate) -> bool {
    u.self_deaf || u.self_mute
}

/// The user is present after the update: in a voice channel, and neither
/// deafened nor muted.
pub open spec fn present_in(u: VoiceUpdate) -> Option<u64> {
    if is_away(u) {
        None
    } else {
        u.channel_id
    }
}

/// The voice channel of `kryssou` among `users`, if it is in one.
pub open spec fn kryssou_channel(ids: BotIds, users: Map<u64, KaarissouUser>) -> Option<u64> {
    if users.contains_key(ids.kryssou) {
        Some(users[ids.kryssou].cid)
    } else {
        None
    }
}

/// A join of `user` into `channel` is logged: the user is not `kryssou`,
/// and `kryssou` (in `kryssou_chan`, if anywhere) is not in that channel.
pub open spec fn logs_join(ids: BotIds, user: u64, channel: u64, kryssou_chan: Option<u64>) -> bool {
    user != ids.kryssou && kryssou_chan != Some(channel)
}

/// The actions of an update about the server, where `users` are the users
/// before it.
pub open spec fn voice_actions(
    ids: BotIds,
    u: VoiceUpdate,
    users: Map<u64, KaarissouUser>,
) -> Seq<VoiceAction> {
    match present_in(u) {
        None => seq![
            VoiceAction::RemoveRole { user: u.user_id, role: ids.snapchat_role },
            VoiceAction::PurgeMessages { user: u.user_id },
        ],
        Some(cid) => {
            let log = if logs_join(ids, u.user_id, cid, kryssou_channel(ids, users)) {
                seq![VoiceAction::LogConnection { user: u.user_id, channel: cid }]
            } else {
                Seq::empty()
            };
            let role = if cid == ids.priv_channel {
                seq![VoiceAction::AddRole { user: u.user_id, role: ids.snapchat_role }]
            } else {
                Seq::empty()
            };
            log + role
        },
    }
}

/// A user present in the private channel after an update about the server
/// gets the snapchat role, whoever else is where; a user present elsewhere,
/// or gone, does not.
pub proof fn private_channel_gives_role(ids: BotIds, u: VoiceUpdate, users: Map<u64, KaarissouUser>)
    requires
        in_server(ids, u),
    ensures
        voice_actions(ids, u, users).contains(
            (VoiceAction::AddRole { user: u.user_id, role: ids.snapchat_role }),
        ) <==> present_in(u) == Some(ids.priv_channel),
        present_in(u) == Some(ids.priv_channel) ==> voice_actions(ids, u, users).last()
            == (VoiceAction::AddRole { user: u.user_id, role: ids.snapchat_role }),
{
    let a = voice_actions(ids, u, users);
    let add = VoiceAction::AddRole { user: u.user_id, role: ids.snapchat_role };
    match present_in(u) {
        None => {
            assert(a[0] != add && a[1] != add);
            assert(!a.contains(add));
        },
        Some(cid) => {
            if cid == ids.priv_channel {
                assert(a[a.len() - 1] == add);
            } else {
                assert forall|i: int| 0 <= i < a.len() implies a[i] != add by {}
                assert(!a.contains(add));
            }
        },
    }
}

/// How a voice update moves the users: updates about another server change
/// nothing; else the update's user is recorded in its channel (no RTP source
/// yet) where present, or forgotten; every other user stays as it was.
pub open spec fn voice_step(
    before: Map<u64, KaarissouUser>,
    ids: BotIds,
    u: VoiceUpdate,
    after: Map<u64, KaarissouUser>,
) -> bool {
    if !in_server(ids, u) {
        after == before
    } else {
        &&& after.remove(u.user_id) == before.remove(u.user_id)
        &&& match present_in(u) {
            None => !after.contains_key(u.user_id),
            Some(cid) => after.contains_key(u.user_id) && after[u.user_id].cid == cid
                && after[u.user_id].ssrc is None,
        }
    }
}

/// Where the last update about the server that concerns `uid` among
/// `updates` left it: `None` if there is none, else the voice channel it was
/// present in, if any.
pub open spec fn last_presence(ids: BotIds, updates: Seq<VoiceUpdate>, uid: u64) -> Option<
    Option<u64>,
>
    decreases updates.len(),
{
    if updates.len() == 0 {
        None
    } else {
        let u = updates.last();
        if in_server(ids, u) && u.user_id == uid {
            Some(present_in(u))
        } else {
            last_presence(ids, updates.drop_last(), uid)
        }
    }
}

/// After any run of voice updates, a user is recorded exactly where the last
/// update about the server that concerns it left it present, in that channel;
/// a user that no such update concerns is as it was before the run.
pub proof fn presence_follows_last_update(
    states: Seq<Map<u64, KaarissouUser>>,
    ids: BotIds,
    updates: Seq<VoiceUpdate>,
    uid: u64,
)
    requires
        states.len() == updates.len() + 1,
        forall|i: int|
            0 <= i < updates.len() ==> voice_step(
                #[trigger] states[i],
                ids,
                updates[i],
                states[i + 1],
            ),
    ensures
        ({
            let last = states[updates.len() as int];
            match last_presence(ids, updates, uid) {
                None => last.contains_key(uid) == states[0].contains_key(uid) && (last.contains_key(
                    uid,
                ) ==> last[uid] == states[0][uid]),
                Some(None) => !last.contains_key(uid),
                Some(Some(cid)) => last.contains_key(uid) && last[uid].cid == cid,
            }
        }),
    decreases updates.len(),
{
    let n = updates.len() as int;
    if n > 0 {
        let s2 = states.drop_last();
        let u2 = updates.drop_last();
        assert forall|i: int| 0 <= i < u2.len() implies voice_step(
            #[trigger] s2[i],
            ids,
            u2[i],
            s2[i + 1],
        ) by {
            assert(s2[i] == states[i]);
            assert(s2[i + 1] == states[i + 1]);
            assert(u2[i] == updates[i]);
        }
        presence_follows_last_update(s2, ids, u2, uid);
        assert(voice_step(states[n - 1], ids, updates[n - 1], states[n]));
        assert(s2[n - 1] == states[n - 1]);
        let before = states[n - 1];
        let after = states[n];
        let u = updates[n - 1];
        if in_server(ids, u) && u.user_id != uid {
            assert(before.remove(u.user_id).contains_key(uid) == before.contains_key(uid));
            assert(after.remove(u.user_id).contains_key(uid) == after.contains_key(uid));
            if after.contains_key(uid) {
                assert(after.remove(u.user_id)[uid] == after[uid]);
                assert(before.remove(u.user_id)[uid] == before[uid]);
            }
        }
    }
}

/// The text that logs that `user` joined `channel`.
pub open spec fn connection_text(user: u64, channel: u64) -> Seq<char> {
    user_mention(user) + " is connected to "@ + channel_mention(channel)
}

/// The text that logs that `uid` joined `cid`.
pub fn connection_message(uid: u64, cid: u64) -> (s: String)
    ensures
        s@ == connection_text(uid, cid),
{
    let mut s = String::new();
    push_user_mention(&mut s, uid);
    s.append(" is connected to ");
    push_channel_mention(&mut s, cid);
    assert(s@ =~= connection_text(uid, cid));
    s
}

/// The log line for a user joining a voice channel, where `kryssou_chan` is
/// the voice channel `kryssou` is in, if any: none for `kryssou`, and none
/// for a join into `kryssou`'s channel.
pub fn log_voice_channel(ids: &BotIds, uid: u64, cid: u64, kryssou_chan: Option<u64>) -> (r:
    Option<String>)
    ensures
        r is None <==> !logs_join(*ids, uid, cid, kryssou_chan),
        r matches Some(s) ==> s@ == connection_text(uid, cid),
{
    if uid == ids.kryssou || kryssou_chan == Some(cid) {
        return None;
    }
    Some(connection_message(uid, cid))
}

impl Inner {
    /// The users by id.
    pub closed spec fn users(&self) -> Map<u64, KaarissouUser> {
        self.users_channel@
    }

    /// No user in a voice channel.
    pub fn new() -> (r: Self)
        ensures
            r.users() == Map::<u64, KaarissouUser>::empty(),
    {
        Inner { users_channel: HashMap::new() }
    }

    /// The user `uid`, if in a voice channel.
    pub fn get(&self, uid: u64) -> (r: Option<KaarissouUser>)
        ensures
            r matches Some(u) ==> self.users().contains_key(uid) && self.users()[uid] == u,
            r is None ==> !self.users().contains_key(uid),
    {
        match self.users_channel.get(&uid) {
            Some(u) => Some(*u),
            None => None,
        }
    }

    /// The number of users in voice channels.
    pub fn len(&self) -> (r: usize)
        ensures
            r == self.users().len(),
    {
        self.users_channel.len()
    }

    /// The gateway named the RTP source `ssrc` of the user `user_id`: the
    /// user's entry, where there is one, takes it; nothing else changes.
    pub fn speaking_state_update(&mut self, user_id: Option<u64>, ssrc: u32)
        ensures
            match user_id {
                Some(uid) => if old(self).users().contains_key(uid) {
                    final(self).users() == old(self).users().insert(
                        uid,
                        KaarissouUser { ssrc: Some(ssrc), ..old(self).users()[uid] },
                    )
                } else {
                    final(self).users() == old(self).users()
                },
                None => final(self).users() == old(self).users(),
            },
    {
        if let Some(uid) = user_id {
            if let Some(u) = self.users_channel.get(&uid) {
                let mut nu = *u;
                nu.ssrc = Some(ssrc);
                self.users_channel.insert(uid, nu);
            }
        }
    }

    /// Some user has the RTP source `ssrc`.
    pub open spec fn has_ssrc(&self, ssrc: u32) -> bool {
        exists|k: u64| #[trigger] self.users().contains_key(k) && self.users()[k].ssrc == Some(ssrc)
    }

    /// Someone with the RTP source `ssrc` started (`speaking`) or stopped
    /// speaking. When one stopped, one user with that source, if any, gets a
    /// new `silent_since` (the time now); nothing else changes. Where several
    /// users share the source, which one is left to the map's iteration.
    pub fn speaking_update(&mut self, ssrc: u32, speaking: bool)
        ensures
            speaking || !old(self).has_ssrc(ssrc) ==> final(self).users() == old(self).users(),
            !speaking && old(self).has_ssrc(ssrc) ==> exists|k: u64|
                #[trigger] old(self).users().contains_key(k) && old(self).users()[k].ssrc == Some(
                    ssrc,
                ) && final(self).users() == old(self).users().insert(
                    k,
                    KaarissouUser {
                        silent_since: final(self).users()[k].silent_since,
                        ..old(self).users()[k]
                    },
                ),
            final(self).users().dom() == old(self).users().dom(),
            forall|k: u64|
                #[trigger] final(self).users().contains_key(k) ==> final(self).users()[k].cid == old(self).users()[k].cid && final(self).users()[k].ssrc == old(self).users()[k].ssrc,
    {
        self.speaking_update_at(ssrc, speaking, instant_now());
    }

    /// `speaking_update` with the time `now`: when someone with the RTP
    /// source `ssrc` stopped speaking, one user with that source, if any, has
    /// `silent_since` set to `now`; nothing else changes.
    pub fn speaking_update_at(&mut self, ssrc: u32, speaking: bool, now: Instant)
        ensures
            speaking || !old(self).has_ssrc(ssrc) ==> final(self).users() == old(self).users(),
            !speaking && old(self).has_ssrc(ssrc) ==> exists|k: u64|
                #[trigger] old(self).users().contains_key(k) && old(self).users()[k].ssrc == Some(
                    ssrc,
                ) && final(self).users() == old(self).users().insert(
                    k,
                    KaarissouUser { silent_since: now, ..old(self).users()[k] },
                ),
    {
        let found = self.find_by_ssrc(ssrc);
        if let Some(k) = found {
            if !speaking {
                if let Some(u) = self.users_channel.get(&k) {
                    let mut nu = *u;
                    nu.silent_since = now;
                    self.users_channel.insert(k, nu);
                }
            }
        }
    }

    /// A voice state update. Updates about another server change nothing and
    /// ask for nothing. Else a user that left or is deafened or muted is
    /// forgotten, loses the snapchat role, and has its snapchat messages
    /// purged; a user present in a voice channel is recorded anew there (no
    /// RTP source yet), is logged unless it is `kryssou` or joins the channel
    /// `kryssou` was in before the update, and gets the role
    /// in the private channel. The update must carry the member where it is
    /// about the server.
    pub fn voice_state_update(&mut self, ids: &BotIds, update: VoiceUpdate) -> (actions: Vec<
        VoiceAction,
    >)
        requires
            in_server(*ids, update) ==> update.has_member,
        ensures
            !in_server(*ids, update) ==> final(self).users() == old(self).users() && actions@.len()
                == 0,
            in_server(*ids, update) ==> actions@ == voice_actions(*ids, update, old(self).users()),
            in_server(*ids, update) && present_in(update) is None ==> final(self).users()
                == old(self).users().remove(update.user_id),
            in_server(*ids, update) && present_in(update) is Some ==> {
                let cid = present_in(update)->0;
                &&& final(self).users().dom() == old(self).users().dom().insert(update.user_id)
                &&& final(self).users().remove(update.user_id) == old(self).users().remove(
                    update.user_id,
                )
                &&& final(self).users()[update.user_id].ssrc is None
                &&& final(self).users()[update.user_id].cid == cid
            },
            voice_step(old(self).users(), *ids, update, final(self).users()),
            in_server(*ids, update) ==> (final(self).users().contains_key(update.user_id)
                <==> present_in(update) is Some),
            forall|k: u64|
                k != update.user_id ==> (#[trigger] final(self).users().contains_key(k) <==> old(self).users().contains_key(k)) && (final(self).users().contains_key(k) ==> final(self).users()[k] == old(self).users()[k]),
    {
        self.voice_state_update_at(ids, update, instant_now())
    }

    /// `voice_state_update` with the time `now`: a user present after the
    /// update is recorded as `KaarissouUser::new_at(cid, now)`.
    pub fn voice_state_update_at(&mut self, ids: &BotIds, update: VoiceUpdate, now: Instant) -> (actions: Vec<
        VoiceAction,
    >)
        requires
            in_server(*ids, update) ==> update.has_member,
        ensures
            !in_server(*ids, update) ==> final(self).users() == old(self).users() && actions@.len()
                == 0,
            in_server(*ids, update) ==> actions@ == voice_actions(*ids, update, old(self).users()),
            in_server(*ids, update) && present_in(update) is None ==> final(self).users()
                == old(self).users().remove(update.user_id),
            in_server(*ids, update) && present_in(update) is Some ==> {
                let cid = present_in(update)->0;
                &&& final(self).users().dom() == old(self).users().dom().insert(update.user_id)
                &&& final(self).users().remove(update.user_id) == old(self).users().remove(
                    update.user_id,
                )
                &&& final(self).users()[update.user_id] == (KaarissouUser {
                    ssrc: None,
                    cid,
                    silent_since: now,
                })
            },
            voice_step(old(self).users(), *ids, update, final(self).users()),
            in_server(*ids, update) ==> (final(self).users().contains_key(update.user_id)
                <==> present_in(update) is Some),
            forall|k: u64|
                k != update.user_id ==> (#[trigger] final(self).users().contains_key(k) <==> old(self).users().contains_key(k)) && (final(self).users().contains_key(k) ==> final(self).users()[k] == old(self).users()[k]),
    {
        let mut actions: Vec<VoiceAction> = Vec::new();
        if update.guild_id != Some(ids.server) {
            return actions;
        }
        let uid = update.user_id;
        let is_away = update.self_deaf || update.self_mute;
        match (is_away, update.channel_id) {
            (false, Some(cid)) => {
                let kryssou_chan = match self.users_channel.get(&ids.kryssou) {
                    Some(k) => Some(k.cid),
                    None => None,
                };
                if uid != ids.kryssou && kryssou_chan != Some(cid) {
                    actions.push(VoiceAction::LogConnection { user: uid, channel: cid });
                }
                self.users_channel.insert(uid, KaarissouUser::new_at(cid, now));
                if cid == ids.priv_channel {
                    actions.push(VoiceAction::AddRole { user: uid, role: ids.snapchat_role });
                }
                assert(self.users().remove(uid) =~= old(self).users().remove(uid));
                assert(self.users().dom() =~= old(self).users().dom().insert(uid));
            },
            _ => {
                self.users_channel.remove(&uid);
                actions.push(VoiceAction::RemoveRole { user: uid, role: ids.snapchat_role });
                actions.push(VoiceAction::PurgeMessages { user: uid });
                assert(self.users().remove(uid) =~= old(self).users().remove(uid));
            },
        }
        assert(actions@ =~= voice_actions(*ids, update, old(self).users()));
        actions
    }

    /// The user, if any, whose RTP source is `ssrc`: some such user, the
    /// first that the map's iteration meets.
    fn find_by_ssrc(&self, ssrc: u32) -> (r: Option<u64>)
        ensures
            r matches Some(k) ==> self.users().contains_key(k) && self.users()[k].ssrc == Some(
                ssrc,
            ),
            r is None ==> forall|k: u64|
                #[trigger] self.users().contains_key(k) ==> self.users()[k].ssrc != Some(ssrc),
    {
        let mut found: Option<u64> = None;
        let ghost m = self.users_channel@;
        for kv in it: self.users_channel.iter()
            invariant
                m == self.users_channel@,
                it.seq() == vstd::std_specs::hash::spec_hash_map_iter(&self.users_channel).remaining(),
                found matches Some(k) ==> m.contains_key(k) && m[k].ssrc == Some(ssrc),
                found is None ==> forall|i: int|
                    0 <= i < it.index() ==> (#[trigger] it.seq()[i]).1.ssrc != Some(ssrc),
        {
            let (k, v) = kv;
            if found.is_none() && v.ssrc == Some(ssrc) {
                found = Some(*k);
            }
        }
        proof {
            let v = vstd::std_specs::hash::spec_hash_map_iter(&self.users_channel).remaining();
            if found is None {
                assert forall|k: u64| #[trigger] m.contains_key(k) implies m[k].ssrc != Some(
                    ssrc,
                ) by {
                    assert(v.contains((&k, &m[k])));
                    let i = choose|i: int| 0 <= i < v.len() && v[i] == (&k, &m[k]);
                    assert(v[i].1.ssrc != Some(ssrc));
                }
            }
        }
        found
    }
}

} // verus!
