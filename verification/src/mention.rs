//! Discord mentions, written as serenity's `Mention` displays them.
use vstd::prelude::*;
use crate::decimal::{decimal, push_decimal};

verus! {

/// How a user is mentioned: `<@id>`.
pub open spec fn user_mention(id: u64) -> Seq<char> {
    "<@"@ + decimal(id as nat) + ">"@
}

/// How a channel is mentioned: `<#id>`.
pub open spec fn channel_mention(id: u64) -> Seq<char> {
    "<#"@ + decimal(id as nat) + ">"@
}

/// Appends the mention of the user `id` to `s`.
pub fn push_user_mention(s: &mut String, id: u64)
    ensures
        final(s)@ == old(s)@ + user_mention(id),
{
    s.append("<@");
    push_decimal(s, id);
    s.append(">");
    assert(final(s)@ =~= old(s)@ + user_mention(id));
}

/// Appends the mention of the channel `id` to `s`.
pub fn push_channel_mention(s: &mut String, id: u64)
    ensures
        final(s)@ == old(s)@ + channel_mention(id),
{
    s.append("<#");
    push_decimal(s, id);
    s.append(">");
    assert(final(s)@ =~= old(s)@ + channel_mention(id));
}

} // verus!
