//! What holds over a run of calls: who is shown as typing, and what is shown of friends.

use vstd::prelude::*;

use crate::payload::PresenceStatus;
use crate::presence::{
    age, heartbeat_gone, heartbeat_key, heartbeat_now, heartbeat_of, lemma_peer_update_unique,
    lemma_set_typing_wf, lemma_without_wf, names_in_order, peers_by_name, typing_at, typing_in,
    typing_is, typing_key, typing_old, typing_user, HeartbeatModel, PeerModel, PresenceState,
    TypingModel, TypingState, PRESENCE_TTL, TYPING_TTL,
};
use crate::table::{
    first_row, lemma_filter_rows, lemma_first_row, lemma_first_row_kept, lemma_first_row_pruned,
    lemma_first_row_pushed, lemma_first_row_updated, lemma_first_row_without, lemma_ordered,
    lemma_unique_filtered, lemma_without, ordered, some_row, unique,
};
use crate::text::text_le;

verus! {

// -- typing ---------------------------------------------------------------------------------

/// A call on a tracker of typists, with the time at which it was made.
pub enum TypingCall {
    Said { conversation: Seq<char>, user: Seq<char>, typing: bool, at: u128 },
    Clear { user: Seq<char> },
    Ask { at: u128 },
}

/// The tracker after a run of calls on a new one.
pub open spec fn typing_after(calls: Seq<TypingCall>) -> TypingState
    decreases calls.len(),
{
    if calls.len() == 0 {
        TypingState { entries: Seq::empty(), ttl: Some(TYPING_TTL) }
    } else {
        let before = typing_after(calls.drop_last());
        match calls.last() {
            TypingCall::Said { conversation, user, typing, at } => before.set_typing(
                conversation,
                user,
                typing,
                at,
            ),
            TypingCall::Clear { user } => before.clear_user(user),
            TypingCall::Ask { at } => before.pruned(at),
        }
    }
}

/// The time of the last call that has one.
pub open spec fn typing_clock(calls: Seq<TypingCall>) -> u128
    decreases calls.len(),
{
    if calls.len() == 0 {
        0
    } else {
        match calls.last() {
            TypingCall::Said { at, .. } => at,
            TypingCall::Clear { .. } => typing_clock(calls.drop_last()),
            TypingCall::Ask { at } => at,
        }
    }
}

/// The clock never went back between the calls.
pub open spec fn typing_in_time(calls: Seq<TypingCall>) -> bool
    decreases calls.len(),
{
    calls.len() == 0 || (typing_in_time(calls.drop_last()) && typing_clock(calls.drop_last())
        <= typing_clock(calls))
}

/// When someone was last said to type in a conversation, if nothing said otherwise since.
pub open spec fn last_typed(
    calls: Seq<TypingCall>,
    conversation: Seq<char>,
    user: Seq<char>,
) -> Option<u128>
    decreases calls.len(),
{
    if calls.len() == 0 {
        None
    } else {
        let before = last_typed(calls.drop_last(), conversation, user);
        match calls.last() {
            TypingCall::Said { conversation: c, user: u, typing, at } => if c == conversation && u
                == user {
                if typing {
                    Some(at)
                } else {
                    None
                }
            } else {
                before
            },
            TypingCall::Clear { user: u } => if u == user {
                None
            } else {
                before
            },
            TypingCall::Ask { .. } => before,
        }
    }
}

proof fn lemma_typing_after(calls: Seq<TypingCall>, conversation: Seq<char>, user: Seq<char>)
    requires
        typing_in_time(calls),
    ensures
        typing_after(calls).wf(),
        typing_after(calls).ttl == Some(TYPING_TTL),
        match (
            first_row(typing_after(calls).entries, typing_is(conversation, user)),
            last_typed(calls, conversation, user),
        ) {
            (Some(entry), Some(at)) => entry.at == at && at <= typing_clock(calls),
            (None, Some(at)) => typing_clock(calls) - at > TYPING_TTL,
            (Some(_), None) => false,
            (None, None) => true,
        },
    decreases calls.len(),
{
    if calls.len() > 0 {
        let rest = calls.drop_last();
        lemma_typing_after(rest, conversation, user);
        let before = typing_after(rest);
        let p = typing_is(conversation, user);
        match calls.last() {
            TypingCall::Said { conversation: c, user: u, typing, at } => {
                let q = typing_is(c, u);
                let row = TypingModel { conversation_id: c, username: u, at };
                lemma_set_typing_wf(before, c, u, typing, at);
                lemma_first_row(before.entries, q);
                if c == conversation && u == user {
                    assert(p == q);
                    lemma_first_row_updated(before.entries, p, typing_at(at));
                    lemma_first_row_pushed(before.entries, p, row);
                    lemma_without(before.entries, p);
                    lemma_first_row(typing_after(calls).entries, p);
                } else {
                    lemma_first_row_kept(before.entries, q, typing_at(at), p);
                    lemma_first_row_pushed(before.entries, p, row);
                    lemma_first_row_without(before.entries, q, p);
                }
            },
            TypingCall::Clear { user: u } => {
                lemma_without_wf(before, typing_user(u));
                if u == user {
                    lemma_without(before.entries, typing_user(u));
                    lemma_first_row(typing_after(calls).entries, p);
                    let after = typing_after(calls).entries;
                    if some_row(after, p) {
                        let i: int = choose|i: int| 0 <= i < after.len() && p(#[trigger] after[i]);
                        assert(typing_user(u)(after[i]));
                    }
                } else {
                    lemma_first_row_without(before.entries, typing_user(u), p);
                }
            },
            TypingCall::Ask { at } => {
                lemma_without_wf(before, typing_old(before.lifetime(), at));
                lemma_first_row_pruned(
                    before.entries,
                    typing_key(),
                    typing_old(before.lifetime(), at),
                    p,
                );
            },
        }
    } else {
        lemma_first_row(typing_after(calls).entries, typing_is(conversation, user));
    }
}

/// Someone is shown as typing in a conversation exactly while the last that was said of
/// them there is that they type, no longer ago than the time limit. The names are in
/// strict order.
pub proof fn law_typists_are_those_who_last_typed(
    calls: Seq<TypingCall>,
    conversation: Seq<char>,
    now: u128,
    names: Seq<Seq<char>>,
    user: Seq<char>,
)
    requires
        typing_in_time(calls),
        typing_clock(calls) <= now,
        typing_after(calls).pruned(now).typists(conversation, names),
    ensures
        names.contains(user) <==> (last_typed(calls, conversation, user) is Some && now
            - last_typed(calls, conversation, user)->0 <= TYPING_TTL),
        forall|i: int, j: int|
            0 <= i < j < names.len() ==> text_le(#[trigger] names[i], #[trigger] names[j])
                && names[i] != names[j],
{
    lemma_typing_after(calls, conversation, user);
    let before = typing_after(calls);
    let after = before.pruned(now);
    let p = typing_is(conversation, user);
    lemma_without_wf(before, typing_old(before.lifetime(), now));
    lemma_first_row_pruned(before.entries, typing_key(), typing_old(before.lifetime(), now), p);
    lemma_first_row(after.entries, p);
    let here = after.entries.filter(typing_in(conversation));
    let listed = here.map_values(|e: TypingModel| e.username);
    lemma_unique_filtered(after.entries, typing_key(), typing_in(conversation));
    let outside = |e: TypingModel| !typing_in(conversation)(e);
    lemma_filter_rows(after.entries, typing_in(conversation), outside);
    assert forall|i: int| 0 <= i < here.len() implies (#[trigger] here[i]).conversation_id
        == conversation by {
        if here[i].conversation_id != conversation {
            assert(outside(here[i]));
        }
    }
    assert(listed.no_duplicates()) by {
        assert forall|i: int, j: int| 0 <= i < listed.len() && 0 <= j < listed.len() && i
            != j implies listed[i] != listed[j] by {
            if i < j {
                assert(typing_key()(here[i]) != typing_key()(here[j]));
            } else {
                assert(typing_key()(here[j]) != typing_key()(here[i]));
            }
        }
    }
    lemma_ordered(names, listed, names_in_order());
    let named = typing_user(user);
    lemma_filter_rows(after.entries, typing_in(conversation), named);
    let both = |e: TypingModel| typing_in(conversation)(e) && named(e);
    if names.contains(user) {
        assert(listed.contains(user));
        let i: int = choose|i: int| 0 <= i < listed.len() && listed[i] == user;
        assert(named(here[i]));
        let k: int = choose|k: int| 0 <= k < after.entries.len() && both(
            #[trigger] after.entries[k],
        );
        assert(p(after.entries[k]));
    }
    if some_row(after.entries, p) {
        let k: int = choose|k: int| 0 <= k < after.entries.len() && p(#[trigger] after.entries[k]);
        assert(both(after.entries[k]));
        let i: int = choose|i: int| 0 <= i < here.len() && named(#[trigger] here[i]);
        assert(listed[i] == user);
        assert(listed.contains(user));
    }
    assert forall|i: int, j: int| 0 <= i < j < names.len() implies text_le(
        #[trigger] names[i],
        #[trigger] names[j],
    ) && names[i] != names[j] by {
        assert(names_in_order()(names[i], names[j]));
    }
}

// -- presence -------------------------------------------------------------------------------

/// A call on a tracker of friends, with the time at which it was made.
pub enum PeerCall {
    Update { user: Seq<char>, status: PresenceStatus, at: u128 },
    Forget { user: Seq<char> },
    Prune { at: u128 },
}

/// The tracker after a run of calls on a new one. Calls that speak of the user alone leave
/// the friends as they are.
pub open spec fn peers_heard(calls: Seq<PeerCall>) -> PresenceState
    decreases calls.len(),
{
    if calls.len() == 0 {
        PresenceState {
            manual: PresenceStatus::Online,
            last_activity: 0,
            peers: Seq::empty(),
        }
    } else {
        let before = peers_heard(calls.drop_last());
        match calls.last() {
            PeerCall::Update { user, status, at } => before.peer_update(user, status, at),
            PeerCall::Forget { user } => before.peer_forget(user),
            PeerCall::Prune { at } => before.prune(at),
        }
    }
}

/// The time of the last call that has one.
pub open spec fn peers_clock(calls: Seq<PeerCall>) -> u128
    decreases calls.len(),
{
    if calls.len() == 0 {
        0
    } else {
        match calls.last() {
            PeerCall::Update { at, .. } => at,
            PeerCall::Forget { .. } => peers_clock(calls.drop_last()),
            PeerCall::Prune { at } => at,
        }
    }
}

/// The clock never went back between the calls.
pub open spec fn peers_in_time(calls: Seq<PeerCall>) -> bool
    decreases calls.len(),
{
    calls.len() == 0 || (peers_in_time(calls.drop_last()) && peers_clock(calls.drop_last())
        <= peers_clock(calls))
}

/// The last heartbeat of someone who was not forgotten since. One that claims to be
/// offline is none.
pub open spec fn last_heard(calls: Seq<PeerCall>, user: Seq<char>) -> Option<(PresenceStatus, u128)>
    decreases calls.len(),
{
    if calls.len() == 0 {
        None
    } else {
        let before = last_heard(calls.drop_last(), user);
        match calls.last() {
            PeerCall::Update { user: u, status, at } => if u == user && status
                != PresenceStatus::Offline {
                Some((status, at))
            } else {
                before
            },
            PeerCall::Forget { user: u } => if u == user {
                None
            } else {
                before
            },
            PeerCall::Prune { .. } => before,
        }
    }
}

proof fn lemma_peers_heard(calls: Seq<PeerCall>, user: Seq<char>)
    requires
        peers_in_time(calls),
    ensures
        unique(peers_heard(calls).peers, heartbeat_key()),
        match (
            first_row(peers_heard(calls).peers, heartbeat_of(user)),
            last_heard(calls, user),
        ) {
            (Some(beat), Some(heard)) => beat.status == heard.0 && beat.at == heard.1 && heard.1
                <= peers_clock(calls) && heard.0 != PresenceStatus::Offline,
            (None, Some(heard)) => peers_clock(calls) - heard.1 > 2 * PRESENCE_TTL,
            (Some(_), None) => false,
            (None, None) => true,
        },
    decreases calls.len(),
{
    if calls.len() > 0 {
        let rest = calls.drop_last();
        lemma_peers_heard(rest, user);
        let before = peers_heard(rest);
        let p = heartbeat_of(user);
        match calls.last() {
            PeerCall::Update { user: u, status, at } => {
                let q = heartbeat_of(u);
                let row = HeartbeatModel { username: u, status, at };
                lemma_peer_update_unique(before, u, status, at);
                lemma_first_row(before.peers, q);
                if u == user {
                    lemma_first_row_updated(before.peers, p, heartbeat_now(status, at));
                } else {
                    lemma_first_row_kept(before.peers, q, heartbeat_now(status, at), p);
                }
                lemma_first_row_pushed(before.peers, p, row);
            },
            PeerCall::Forget { user: u } => {
                let q = heartbeat_of(u);
                lemma_unique_filtered(before.peers, heartbeat_key(), |h: HeartbeatModel| !q(h));
                if u == user {
                    lemma_without(before.peers, p);
                    lemma_first_row(peers_heard(calls).peers, p);
                } else {
                    lemma_first_row_without(before.peers, q, p);
                }
            },
            PeerCall::Prune { at } => {
                let q = heartbeat_gone(at);
                lemma_unique_filtered(before.peers, heartbeat_key(), |h: HeartbeatModel| !q(h));
                lemma_first_row_pruned(before.peers, heartbeat_key(), q, p);
            },
        }
    } else {
        lemma_first_row(peers_heard(calls).peers, heartbeat_of(user));
    }
}

/// What is shown of someone is their last heartbeat, if they were not forgotten since and
/// it is recent; otherwise they are offline. So only the offline are not fresh.
pub proof fn law_shown_is_last_heard(calls: Seq<PeerCall>, user: Seq<char>, now: u128)
    requires
        peers_in_time(calls),
        peers_clock(calls) <= now,
    ensures
        ({
            let shown = peers_heard(calls).peer_status(user, now);
            let heard = last_heard(calls, user);
            &&& shown.username == user
            &&& shown.fresh <==> (heard is Some && now - (heard->0).1 <= PRESENCE_TTL)
            &&& shown.fresh ==> shown.status == (heard->0).0
            &&& !shown.fresh ==> shown.status == PresenceStatus::Offline
            &&& shown.fresh <==> shown.status != PresenceStatus::Offline
        }),
{
    lemma_peers_heard(calls, user);
}

/// The list of friends is in strict order of their names, with one entry for each friend
/// whose heartbeat is kept, and each entry is what is shown of that friend alone.
pub proof fn law_list_shows_each_friend_once(state: PresenceState, now: u128, list: Seq<PeerModel>)
    requires
        state.wf(),
        ordered(list, state.shown(now), peers_by_name()),
    ensures
        list.len() == state.peers.len(),
        forall|i: int, j: int|
            0 <= i < j < list.len() ==> text_le(
                (#[trigger] list[i]).username,
                (#[trigger] list[j]).username,
            ) && list[i].username != list[j].username,
        forall|i: int|
            0 <= i < list.len() ==> #[trigger] list[i] == state.peer_status(list[i].username, now)
                && some_row(state.peers, heartbeat_of(list[i].username)),
        forall|k: int|
            0 <= k < state.peers.len() ==> list.contains(
                state.peer_status((#[trigger] state.peers[k]).username, now),
            ),
{
    let shown = state.shown(now);
    assert(shown.no_duplicates()) by {
        assert forall|i: int, j: int| 0 <= i < shown.len() && 0 <= j < shown.len() && i
            != j implies shown[i] != shown[j] by {
            assert(shown[i].username == state.peers[i].username);
            assert(shown[j].username == state.peers[j].username);
            if i < j {
                assert(heartbeat_key()(state.peers[i]) != heartbeat_key()(state.peers[j]));
            } else {
                assert(heartbeat_key()(state.peers[j]) != heartbeat_key()(state.peers[i]));
            }
        }
    }
    lemma_ordered(list, shown, peers_by_name());
    assert forall|i: int| 0 <= i < list.len() implies #[trigger] list[i] == state.peer_status(
        list[i].username,
        now,
    ) && some_row(state.peers, heartbeat_of(list[i].username)) by {
        assert(list.contains(list[i]));
        let k: int = choose|k: int| 0 <= k < shown.len() && shown[k] == list[i];
        assert(heartbeat_of(list[i].username)(state.peers[k]));
    }
    assert forall|i: int, j: int| 0 <= i < j < list.len() implies text_le(
        (#[trigger] list[i]).username,
        (#[trigger] list[j]).username,
    ) && list[i].username != list[j].username by {
        assert(peers_by_name()(list[i], list[j]));
        assert(list[i] == state.peer_status(list[i].username, now));
        assert(list[j] == state.peer_status(list[j].username, now));
        assert(list[i] != list[j]);
    }
    assert forall|k: int| 0 <= k < state.peers.len() implies list.contains(
        state.peer_status((#[trigger] state.peers[k]).username, now),
    ) by {
        assert(shown[k] == state.peer_status(state.peers[k].username, now));
        assert(shown.contains(shown[k]));
    }
}

/// Pruning changes nothing that is shown: it keeps exactly the heartbeats that are not
/// long gone, and only drops friends who are shown as offline anyway.
pub proof fn law_pruning_changes_nothing_shown(
    state: PresenceState,
    now: u128,
    user: Seq<char>,
    transport_up: bool,
)
    requires
        state.wf(),
    ensures
        state.prune(now).peer_status(user, now) == state.peer_status(user, now),
        state.prune(now).manual == state.manual,
        state.prune(now).effective(transport_up, now) == state.effective(transport_up, now),
        some_row(state.prune(now).peers, heartbeat_of(user)) <==> (first_row(
            state.peers,
            heartbeat_of(user),
        ) is Some && age(first_row(state.peers, heartbeat_of(user))->0.at, now) <= 2
            * PRESENCE_TTL),
{
    let p = heartbeat_of(user);
    lemma_first_row_pruned(state.peers, heartbeat_key(), heartbeat_gone(now), p);
    lemma_first_row(state.prune(now).peers, p);
}

} // verus!
