//! Peers: what is noted and shown of the connections to them, and what comes over them.

use vstd::prelude::*;

use crate::bytes::from_be32;
use crate::coordinator::without_slashes;
use crate::error::Error;
use crate::table::{
    first_row, lemma_first_row, lemma_first_row_kept, lemma_first_row_pushed,
    lemma_first_row_updated,
};
use crate::transport::{
    counted, diagnosed, frame_body, peer_after, peer_is, peer_unknown,
    peers_after, relayed, send_finished, ConnectionState, DiagnosticsModel, NetworkPath, PeerEvent,
    PeerStateModel, SendOutcome, TransportDiagnostics,
};

verus! {

/// What happened last with a peer is noted of that peer alone: the reason where it failed, and
/// none where it did not.
pub proof fn law_event_is_noted_of_one_peer(
    peers: Seq<PeerStateModel>,
    id: Seq<char>,
    event: PeerEvent,
    u: Seq<char>,
)
    ensures
        ({
            let after = peers_after(peers, id, event);
            let noted = first_row(after, peer_is(id));
            &&& noted is Some
            &&& noted->0.endpoint_id == id
            &&& event is Failed ==> noted->0.last_error == Some(event->Failed_message)
                && noted->0.state == ConnectionState::Offline
            &&& !(event is Failed) ==> noted->0.last_error is None
            &&& u != id ==> first_row(after, peer_is(u)) == first_row(peers, peer_is(u))
        }),
{
    let p = peer_is(id);
    let q = peer_is(u);
    let f = peer_after(event);
    lemma_first_row(peers, p);
    lemma_first_row_updated(peers, p, f);
    lemma_first_row_pushed(peers, p, f(peer_unknown(id)));
    lemma_first_row_pushed(peers, q, f(peer_unknown(id)));
    if u != id {
        lemma_first_row_kept(peers, p, f, q);
    }
}

/// Every failure counts as one more attempt to reach a peer, up to the largest count.
pub proof fn law_failures_are_counted(n: u32)
    ensures
        n < u32::MAX ==> counted(n) == n + 1,
        n == u32::MAX ==> counted(n) == n,
{
}

/// A delivery is shown with the path that it took; a failure is not shown, only noted.
pub proof fn law_delivery_is_shown(
    before: Seq<PeerStateModel>,
    after: Seq<PeerStateModel>,
    id: Seq<char>,
    outcome: SendOutcome,
    shown: Option<TransportDiagnostics>,
)
    requires
        send_finished(before, after, id, outcome, shown),
    ensures
        shown is Some <==> outcome is Delivered,
        outcome is Delivered && outcome->via_relay ==> shown->0@.state
            == ConnectionState::RelayConnected && shown->0@.detail == "relayed path"@,
        outcome is Delivered && !outcome->via_relay ==> shown->0@.state
            == ConnectionState::DirectConnected && shown->0@.detail == "direct path"@,
        outcome is Delivered ==> shown->0@.peer_endpoint_id == id && shown->0@.last_error is None
            && first_row(after, peer_is(id)) is Some && first_row(after, peer_is(id))->0.state
            == shown->0@.state && first_row(after, peer_is(id))->0.reconnect_count
            == shown->0@.reconnect_count,
        outcome is Failed ==> first_row(after, peer_is(id)) is Some && first_row(
            after,
            peer_is(id),
        )->0.state == ConnectionState::Offline && first_row(after, peer_is(id))->0.last_error
            == Some(outcome->message@),
{
    let event = match outcome {
        SendOutcome::Delivered { via_relay } => PeerEvent::Delivered { via_relay },
        SendOutcome::Failed { message } => PeerEvent::Failed { message: message@ },
    };
    law_event_is_noted_of_one_peer(before, id, event, id);
    crate::transport::law_event_decides_state(before, id, event);
}

/// Every peer is shown once, as it stands, in words.
pub proof fn law_peers_are_shown(
    peers: Seq<PeerStateModel>,
    list: Seq<DiagnosticsModel>,
    i: int,
)
    requires
        diagnosed(peers, list),
    ensures
        list.len() == peers.len(),
        0 <= i < peers.len() ==> {
            let shown = list[i];
            &&& shown.peer_endpoint_id == peers[i].endpoint_id
            &&& shown.state == peers[i].state
            &&& shown.reconnect_count == peers[i].reconnect_count
            &&& shown.last_error == peers[i].last_error
            &&& peers[i].state == ConnectionState::DirectConnected ==> shown.detail
                == "Connected directly"@
            &&& peers[i].state == ConnectionState::RelayConnected ==> shown.detail
                == "Connected through relay"@
            &&& peers[i].state == ConnectionState::Offline ==> shown.detail == "Offline"@
            &&& peers[i].state == ConnectionState::Negotiating || peers[i].state
                == ConnectionState::Discovering ==> shown.detail == "Connecting"@
        },
{
}

/// A connection is relayed if the first path that is selected is, and while none is.
pub proof fn law_selected_path_decides(paths: Seq<NetworkPath>, at: int)
    ensures
        (forall|i: int| 0 <= i < paths.len() ==> !(#[trigger] paths[i]).selected) ==> relayed(
            paths,
        ),
        0 <= at < paths.len() && paths[at].selected && (forall|i: int|
            0 <= i < at ==> !(#[trigger] paths[i]).selected) ==> relayed(paths) == paths[at].relay,
    decreases paths.len(),
{
    let p = |p: NetworkPath| p.selected;
    lemma_first_row(paths, p);
    if paths.len() > 0 && !paths[0].selected {
        let rest = paths.drop_first();
        law_selected_path_decides(rest, at - 1);
        assert(first_row(paths, p) == first_row(rest, p));
    }
}

/// An acknowledgement is what follows its length, and one of another length is refused.
pub proof fn law_acknowledgements_are_as_long_as_told(bytes: Seq<u8>)
    ensures
        bytes.len() < 4 ==> frame_body(bytes) == Err::<Seq<u8>, Error>(Error::AckTooShort),
        bytes.len() >= 4 && from_be32(bytes.take(4)) != bytes.len() - 4 ==> frame_body(bytes)
            == Err::<Seq<u8>, Error>(Error::AckLength),
        bytes.len() >= 4 && from_be32(bytes.take(4)) == bytes.len() - 4 ==> frame_body(bytes)
            == Ok::<Seq<u8>, Error>(bytes.subrange(4, bytes.len() as int)),
{
}

/// A base address loses the slashes at its end, and nothing else.
pub proof fn law_only_slashes_are_dropped(url: Seq<char>)
    ensures
        ({
            let base = without_slashes(url);
            &&& base.len() <= url.len()
            &&& base == url.take(base.len() as int)
            &&& forall|i: int| base.len() <= i < url.len() ==> #[trigger] url[i] == '/'
            &&& base.len() > 0 ==> base.last() != '/'
        }),
    decreases url.len(),
{
    if url.len() > 0 && url.last() == '/' {
        law_only_slashes_are_dropped(url.drop_last());
        let base = without_slashes(url);
        assert(url.take(base.len() as int) =~= url.drop_last().take(base.len() as int));
        assert forall|i: int| base.len() <= i < url.len() implies #[trigger] url[i] == '/' by {
            if i < url.len() - 1 {
                assert(url.drop_last()[i] == '/');
            }
        }
    } else {
        assert(url.take(url.len() as int) =~= url);
    }
}

} // verus!
