//! Presence: how long it lasts, in seconds.

use vstd::prelude::*;

use crate::payload::PresenceStatus;
use crate::presence::laws::{
    last_heard, last_typed, law_shown_is_last_heard, law_typists_are_those_who_last_typed,
    peers_clock, peers_heard, peers_in_time, typing_after, typing_clock, typing_in_time, PeerCall,
    TypingCall,
};
use crate::presence::PresenceState;

verus! {

/// This many seconds, in the unit of the clock.
pub open spec fn seconds(n: int) -> int {
    n * 1_000_000_000
}

/// Without transport one is offline. Who asked not to be disturbed stays so, who chose to be
/// away is away, and whoever is online is away after five minutes without activity.
pub proof fn law_what_is_advertised(state: PresenceState, transport_up: bool, now: u128)
    requires
        state.wf(),
        state.last_activity <= now,
    ensures
        ({
            let shown = state.effective(transport_up, now);
            let idle = now - state.last_activity > seconds(300);
            &&& !transport_up ==> shown == PresenceStatus::Offline
            &&& transport_up && state.manual == PresenceStatus::Dnd ==> shown
                == PresenceStatus::Dnd
            &&& transport_up && state.manual == PresenceStatus::Away ==> shown
                == PresenceStatus::Away
            &&& transport_up && state.manual == PresenceStatus::Online && idle ==> shown
                == PresenceStatus::Away
            &&& transport_up && state.manual == PresenceStatus::Online && !idle ==> shown
                == PresenceStatus::Online
        }),
{
}

/// A choice of presence counts as activity and is kept; one cannot choose to be offline.
pub proof fn law_choice_is_kept(state: PresenceState, status: PresenceStatus, now: u128)
    ensures
        status != PresenceStatus::Offline ==> state.set_manual(status, now).manual == status
            && state.set_manual(status, now).last_activity == now,
        status == PresenceStatus::Offline ==> state.set_manual(status, now) == state,
        state.set_manual(status, now).peers == state.peers,
{
}

/// Someone is shown as typing for six seconds after they last typed.
pub proof fn law_typing_lasts_six_seconds(
    calls: Seq<TypingCall>,
    conversation: Seq<char>,
    now: u128,
    names: Seq<Seq<char>>,
    user: Seq<char>,
)
    requires
        typing_in_time(calls),
        typing_clock(calls) <= now,
        typing_after(calls).pruned(now).typists(conversation, names),
    ensures
        names.contains(user) <==> (last_typed(calls, conversation, user) is Some && now
            - last_typed(calls, conversation, user)->0 <= seconds(6)),
{
    law_typists_are_those_who_last_typed(calls, conversation, now, names, user);
}

/// A friend is shown as they last said for ninety seconds, and as offline after that.
pub proof fn law_heartbeats_last_ninety_seconds(
    calls: Seq<PeerCall>,
    user: Seq<char>,
    now: u128,
)
    requires
        peers_in_time(calls),
        peers_clock(calls) <= now,
    ensures
        ({
            let shown = peers_heard(calls).peer_status(user, now);
            let heard = last_heard(calls, user);
            &&& shown.fresh <==> (heard is Some && now - (heard->0).1 <= seconds(90))
            &&& shown.fresh ==> shown.status == (heard->0).0
            &&& !shown.fresh ==> shown.status == PresenceStatus::Offline
        }),
{
    law_shown_is_last_heard(calls, user, now);
}

/// A heartbeat to a contact says who it is from and the status that it was given, sealed to
/// the contact's key.
pub proof fn law_heartbeat_is_drafted(
    db: crate::database::DbModel,
    peer: Seq<char>,
    status: PresenceStatus,
)
    ensures
        ({
            let draft = crate::control::presence_draft(db, peer, status);
            &&& db.profile is None ==> draft is Err && draft->Err_0 == crate::error::Error::NoProfile
            &&& db.profile is Some && db.contact(peer) is None ==> draft is Err && draft->Err_0
                == crate::error::Error::UnknownContact
            &&& draft is Ok <==> db.profile is Some && db.contact(peer) is Some && db.contact(
                peer,
            )->0.x25519_pubkey is Some && db.contact(peer)->0.x25519_pubkey->0.len() == 32
            &&& draft is Ok ==> {
                &&& draft->Ok_0.peer_username == peer
                &&& Some(draft->Ok_0.recipient) == db.contact(peer)->0.x25519_pubkey
                &&& draft->Ok_0.payload == (crate::payload::PayloadModel::Presence {
                    from: db.profile->0.username,
                    status,
                })
            }
        }),
{
}

} // verus!
