//! Deleting a user's messages in the snapchat channel.
use vstd::prelude::*;

verus! {

/// How many of the channel's latest messages one pass fetches.
pub const MESSAGE_BATCH: u64 = 100;

/// What a pass reads of a fetched message.
#[derive(Clone, Copy, Debug, PartialEq, Eq)]
pub struct MessageSummary {
    pub id: u64,
    pub author: u64,
}

/// What one pass deletes, and how.
#[derive(Clone, Debug)]
pub struct PurgePlan {
    /// The messages to delete, in the order fetched.
    pub ids: Vec<u64>,
    /// Delete them one request each (old messages), or in one bulk request.
    pub one_by_one: bool,
    /// The pass found something, so another pass may find more.
    pub retry: bool,
}

/// The ids of the messages of `messages` that `user` wrote, in order.
pub open spec fn authored_ids(messages: Seq<MessageSummary>, user: u64) -> Seq<u64>
    decreases messages.len(),
{
    if messages.len() == 0 {
        Seq::<u64>::empty()
    } else {
        let rest = authored_ids(messages.drop_last(), user);
        if messages.last().author == user {
            rest.push(messages.last().id)
        } else {
            rest
        }
    }
}

/// One pass of deleting the messages of `uid` among the fetched `messages`:
/// those it wrote, deleted one by one where `old`, else in bulk; another
/// pass is due if it found any.
pub fn remove_all_messages(messages: &Vec<MessageSummary>, uid: u64, old: bool) -> (plan: PurgePlan)
    ensures
        plan.ids@ == authored_ids(messages@, uid),
        plan.one_by_one == old,
        plan.retry == (plan.ids@.len() > 0),
{
    let mut ids: Vec<u64> = Vec::new();
    let mut i: usize = 0;
    proof {
        assert(messages@.take(0) =~= Seq::<MessageSummary>::empty());
    }
    while i < messages.len()
        invariant
            i <= messages.len(),
            ids@ == authored_ids(messages@.take(i as int), uid),
        decreases messages.len() - i,
    {
        proof {
            assert(messages@.take(i + 1).drop_last() =~= messages@.take(i as int));
        }
        if messages[i].author == uid {
            ids.push(messages[i].id);
        }
        i = i + 1;
    }
    proof {
        assert(messages@.take(messages.len() as int) =~= messages@);
    }
    let retry = ids.len() > 0;
    PurgePlan { ids, one_by_one: old, retry }
}

/// Every id that `authored_ids` keeps is the id of a message of `user`.
pub proof fn authored_ids_are_authored(messages: Seq<MessageSummary>, user: u64)
    ensures
        forall|j: int|
            0 <= j < authored_ids(messages, user).len() ==> exists|i: int|
                0 <= i < messages.len() && messages[i].author == user && messages[i].id
                    == #[trigger] authored_ids(messages, user)[j],
    decreases messages.len(),
{
    if messages.len() > 0 {
        let rest = messages.drop_last();
        authored_ids_are_authored(rest, user);
        assert forall|j: int|
            0 <= j < authored_ids(messages, user).len() implies exists|i: int|
                0 <= i < messages.len() && messages[i].author == user && messages[i].id
                    == #[trigger] authored_ids(messages, user)[j] by {
            if j < authored_ids(rest, user).len() {
                let i = choose|i: int|
                    0 <= i < rest.len() && rest[i].author == user && rest[i].id == authored_ids(
                        rest,
                        user,
                    )[j];
                assert(messages[i] == rest[i]);
            } else {
                assert(messages[messages.len() - 1] == messages.last());
            }
        }
    }
}


/// Every message of `user` among `messages` has its id kept.
pub proof fn authored_ids_are_complete(messages: Seq<MessageSummary>, user: u64)
    ensures
        forall|i: int|
            0 <= i < messages.len() && messages[i].author == user ==> authored_ids(
                messages,
                user,
            ).contains(#[trigger] messages[i].id),
    decreases messages.len(),
{
    if messages.len() > 0 {
        let rest = messages.drop_last();
        authored_ids_are_complete(rest, user);
        let r = authored_ids(rest, user);
        let all = authored_ids(messages, user);
        assert forall|i: int|
            0 <= i < messages.len() && messages[i].author == user implies all.contains(
                #[trigger] messages[i].id,
            ) by {
            if i < messages.len() - 1 {
                assert(messages[i] == rest[i]);
                assert(r.contains(rest[i].id));
                let j = choose|j: int| 0 <= j < r.len() && r[j] == rest[i].id;
                if messages.last().author == user {
                    assert(all[j] == r[j]);
                }
            } else {
                assert(all[all.len() - 1] == messages.last().id);
            }
        }
    }
}

} // verus!
