//! The network layer's own rules: what state a peer is in, when to try again, which
//! frames and acknowledgements are accepted.
//!
//! Labels shown to the user stay free of network jargon: "Connected directly",
//! "Connected through relay", "Connecting", "Offline".

use base64::Engine;
use vstd::prelude::*;

use crate::bytes::{
    base64, base64_char, bytes_between, from_be32, lemma_be32_reads, lemma_sextet_range, sextet,
};
use crate::crypto::opened_view;
use crate::error::Error;
use crate::ids::Uuid;
use crate::protocol::{frame_prefix, validated, EnvelopeError, ProtocolEnvelope};
use crate::sync::{clock_fraction, doubled, JITTER_PARTS};
use crate::table::{
    find_row, first_row, lemma_first_row, lemma_first_row_pushed, lemma_first_row_skip,
    lemma_first_row_updated, upsert_row, upserted, views, Row,
};
use crate::text::{copy_opt_text, lemma_trimmed_fixed, opt_text, text_eq, trim, trimmed};

verus! {

/// The largest envelope that is accepted on a stream: 4 MiB.
pub const MAX_ENVELOPE_BYTES: usize = 4_194_304;

/// The longest wait before the jitter: 5 minutes, in seconds.
pub const BACKOFF_CAP_SECS: u64 = 300;

// -- waiting ------------------------------------------------------------------------------

/// The wait of an attempt to reconnect, in seconds.
pub open spec fn backoff(attempt: u32, sample: u32) -> int {
    let capped = doubled(1, attempt as nat, BACKOFF_CAP_SECS as int);
    capped + capped * (sample as int % JITTER_PARTS as int) / (4 * JITTER_PARTS as int)
}

/// The wait of an attempt to reconnect with a given jitter sample, in seconds.
pub fn backoff_delay_with(attempt: u32, sample: u32) -> (secs: u64)
    ensures
        secs == backoff(attempt, sample),
        1 <= secs < BACKOFF_CAP_SECS + BACKOFF_CAP_SECS / 4,
{
    let mut capped: u64 = 1;
    let mut left: u32 = attempt;
    while left > 0 && capped < BACKOFF_CAP_SECS
        invariant
            1 <= capped < 2 * BACKOFF_CAP_SECS,
            doubled(1, attempt as nat, BACKOFF_CAP_SECS as int) == doubled(
                capped as int,
                left as nat,
                BACKOFF_CAP_SECS as int,
            ),
        decreases left,
    {
        capped = 2 * capped;
        left -= 1;
    }
    if capped > BACKOFF_CAP_SECS {
        capped = BACKOFF_CAP_SECS;
    }
    assert(capped == doubled(1, attempt as nat, BACKOFF_CAP_SECS as int));
    let part: u64 = (sample % JITTER_PARTS) as u64;
    assert(capped * part <= 300 * 9_999 && capped * part < capped * 10_000) by (nonlinear_arith)
        requires
            1 <= capped <= 300,
            part <= 9_999,
    ;
    capped + capped * part / 40_000
}

/// The wait of an attempt to reconnect, in seconds: `min(5min, 1s * 2^attempt)`
/// plus up to 25% jitter.
pub fn backoff_delay(attempt: u32) -> (secs: u64)
    ensures
        exists|sample: u32| secs == #[trigger] backoff(attempt, sample),
        1 <= secs < BACKOFF_CAP_SECS + BACKOFF_CAP_SECS / 4,
{
    let sample: u32 = clock_fraction();
    backoff_delay_with(attempt, sample)
}

// -- peers --------------------------------------------------------------------------------

/// The state of the connection to a peer.
#[derive(Debug, Clone, Copy, PartialEq, Eq, Structural)]
pub enum ConnectionState {
    Discovering,
    Negotiating,
    DirectConnected,
    RelayConnected,
    Offline,
}

/// The words shown for a connection.
pub open spec fn connection_label(state: ConnectionState) -> Seq<char> {
    match state {
        ConnectionState::Discovering => "Connecting"@,
        ConnectionState::Negotiating => "Connecting"@,
        ConnectionState::DirectConnected => "Connected directly"@,
        ConnectionState::RelayConnected => "Connected through relay"@,
        ConnectionState::Offline => "Offline"@,
    }
}

impl ConnectionState {
    /// The words shown for the connection.
    pub fn label(self) -> (label: &'static str)
        ensures
            label@ == connection_label(self),
    {
        match self {
            ConnectionState::Discovering => "Connecting",
            ConnectionState::Negotiating => "Connecting",
            ConnectionState::DirectConnected => "Connected directly",
            ConnectionState::RelayConnected => "Connected through relay",
            ConnectionState::Offline => "Offline",
        }
    }
}

/// What the settings screen shows of a peer.
#[derive(Debug, Clone)]
pub struct TransportDiagnostics {
    pub peer_endpoint_id: String,
    pub state: ConnectionState,
    pub detail: String,
    pub reconnect_count: u32,
    pub last_error: Option<String>,
}

/// What a [`TransportDiagnostics`] holds.
pub struct DiagnosticsModel {
    pub peer_endpoint_id: Seq<char>,
    pub state: ConnectionState,
    pub detail: Seq<char>,
    pub reconnect_count: u32,
    pub last_error: Option<Seq<char>>,
}

impl View for TransportDiagnostics {
    type V = DiagnosticsModel;

    open spec fn view(&self) -> DiagnosticsModel {
        DiagnosticsModel {
            peer_endpoint_id: self.peer_endpoint_id@,
            state: self.state,
            detail: self.detail@,
            reconnect_count: self.reconnect_count,
            last_error: opt_text(self.last_error),
        }
    }
}

/// What is known of the connection to one peer.
#[derive(Debug, Clone)]
pub struct PeerState {
    pub endpoint_id: String,
    pub state: ConnectionState,
    pub reconnect_count: u32,
    pub last_error: Option<String>,
}

/// What a [`PeerState`] holds.
pub struct PeerStateModel {
    pub endpoint_id: Seq<char>,
    pub state: ConnectionState,
    pub reconnect_count: u32,
    pub last_error: Option<Seq<char>>,
}

impl View for PeerState {
    type V = PeerStateModel;

    open spec fn view(&self) -> PeerStateModel {
        PeerStateModel {
            endpoint_id: self.endpoint_id@,
            state: self.state,
            reconnect_count: self.reconnect_count,
            last_error: opt_text(self.last_error),
        }
    }
}

impl Row for PeerState {
    fn duplicate(&self) -> (copy: Self) {
        PeerState {
            endpoint_id: self.endpoint_id.clone(),
            state: self.state,
            reconnect_count: self.reconnect_count,
            last_error: copy_opt_text(&self.last_error),
        }
    }
}

/// What is known of the connections to all peers.
pub struct Peers {
    pub rows: Vec<PeerState>,
}

impl View for Peers {
    type V = Seq<PeerStateModel>;

    open spec fn view(&self) -> Seq<PeerStateModel> {
        views(self.rows@)
    }
}

/// How an attempt to send ended.
#[derive(Debug, Clone)]
pub enum SendOutcome {
    Delivered { via_relay: bool },
    Failed { message: String },
}

/// What happens to the connection to a peer.
pub enum PeerEvent {
    Sending,
    Delivered { via_relay: bool },
    Failed { message: Seq<char> },
}

pub open spec fn peer_is(id: Seq<char>) -> spec_fn(PeerStateModel) -> bool {
    |p: PeerStateModel| p.endpoint_id == id
}

/// A peer that nothing is known of.
pub open spec fn peer_unknown(id: Seq<char>) -> PeerStateModel {
    PeerStateModel {
        endpoint_id: id,
        state: ConnectionState::Offline,
        reconnect_count: 0,
        last_error: None,
    }
}

/// One more reconnect, as far as the counter goes.
pub open spec fn counted(n: u32) -> u32 {
    if n < u32::MAX {
        (n + 1) as u32
    } else {
        n
    }
}

/// What an event makes of a peer.
pub open spec fn peer_after(event: PeerEvent) -> spec_fn(PeerStateModel) -> PeerStateModel {
    |p: PeerStateModel|
        match event {
            PeerEvent::Sending => PeerStateModel {
                state: ConnectionState::Negotiating,
                last_error: None,
                ..p
            },
            PeerEvent::Delivered { via_relay } => PeerStateModel {
                state: if via_relay {
                    ConnectionState::RelayConnected
                } else {
                    ConnectionState::DirectConnected
                },
                last_error: None,
                ..p
            },
            PeerEvent::Failed { message } => PeerStateModel {
                state: ConnectionState::Offline,
                reconnect_count: counted(p.reconnect_count),
                last_error: Some(message),
                ..p
            },
        }
}

/// What an event makes of the peers.
pub open spec fn peers_after(peers: Seq<PeerStateModel>, id: Seq<char>, event: PeerEvent) -> Seq<
    PeerStateModel,
> {
    upserted(peers, peer_is(id), peer_after(event), peer_after(event)(peer_unknown(id)))
}

/// The state of a peer; offline where nothing is known of it.
pub open spec fn state_of(peers: Seq<PeerStateModel>, id: Seq<char>) -> ConnectionState {
    match first_row(peers, peer_is(id)) {
        Some(p) => p.state,
        None => ConnectionState::Offline,
    }
}

/// How often a peer had to be reconnected.
pub open spec fn reconnects_of(peers: Seq<PeerStateModel>, id: Seq<char>) -> u32 {
    match first_row(peers, peer_is(id)) {
        Some(p) => p.reconnect_count,
        None => 0,
    }
}

/// What the end of an attempt to send does: the peer's state is noted, and shown if the
/// envelope was delivered.
pub open spec fn send_finished(
    before: Seq<PeerStateModel>,
    after: Seq<PeerStateModel>,
    id: Seq<char>,
    outcome: SendOutcome,
    shown: Option<TransportDiagnostics>,
) -> bool {
    match outcome {
        SendOutcome::Delivered { via_relay } => {
            &&& after == peers_after(before, id, PeerEvent::Delivered { via_relay })
            &&& shown is Some
            &&& shown->0@ == (DiagnosticsModel {
                peer_endpoint_id: id,
                state: if via_relay {
                    ConnectionState::RelayConnected
                } else {
                    ConnectionState::DirectConnected
                },
                detail: if via_relay {
                    "relayed path"@
                } else {
                    "direct path"@
                },
                reconnect_count: reconnects_of(after, id),
                last_error: None,
            })
        },
        SendOutcome::Failed { message } => {
            &&& after == peers_after(before, id, PeerEvent::Failed { message: message@ })
            &&& shown is None
        },
    }
}

/// What is shown of the peers.
pub open spec fn diagnosed(peers: Seq<PeerStateModel>, list: Seq<DiagnosticsModel>) -> bool {
    &&& list.len() == peers.len()
    &&& forall|i: int|
        0 <= i < list.len() ==> #[trigger] list[i] == (DiagnosticsModel {
            peer_endpoint_id: peers[i].endpoint_id,
            state: peers[i].state,
            detail: connection_label(peers[i].state),
            reconnect_count: peers[i].reconnect_count,
            last_error: peers[i].last_error,
        })
}

impl Peers {
    pub fn new() -> (peers: Peers)
        ensures
            peers@ == Seq::<PeerStateModel>::empty(),
    {
        let peers = Peers { rows: Vec::new() };
        assert(peers@ =~= Seq::<PeerStateModel>::empty());
        peers
    }

    fn set_peer(
        &mut self,
        id: &str,
        state: ConnectionState,
        failure: &Option<String>,
        Ghost(event): Ghost<PeerEvent>,
    )
        requires
            forall|p: PeerStateModel| #[trigger]
                peer_after(event)(p) == (PeerStateModel {
                    endpoint_id: p.endpoint_id,
                    state,
                    reconnect_count: if failure is Some {
                        counted(p.reconnect_count)
                    } else {
                        p.reconnect_count
                    },
                    last_error: opt_text(*failure),
                }),
        ensures
            final(self)@ == peers_after(old(self)@, id@, event),
    {
        let test = |p: &PeerState| -> (b: bool)
            ensures
                b == peer_is(id@)(p@),
            { text_eq(p.endpoint_id.as_str(), id) };
        let change = |p: &PeerState| -> (n: PeerState)
            ensures
                n@ == (PeerStateModel {
                    endpoint_id: p@.endpoint_id,
                    state,
                    reconnect_count: if failure is Some {
                        counted(p@.reconnect_count)
                    } else {
                        p@.reconnect_count
                    },
                    last_error: opt_text(*failure),
                }),
            {
                let count: u32 = if failure.is_some() && p.reconnect_count < u32::MAX {
                    p.reconnect_count + 1
                } else {
                    p.reconnect_count
                };
                PeerState {
                    endpoint_id: p.endpoint_id.clone(),
                    state,
                    reconnect_count: count,
                    last_error: copy_opt_text(failure),
                }
            };
        let first: u32 = if failure.is_some() {
            1
        } else {
            0
        };
        let row = PeerState {
            endpoint_id: id.to_owned(),
            state,
            reconnect_count: first,
            last_error: copy_opt_text(failure),
        };
        assert(row@ == peer_after(event)(peer_unknown(id@)));
        upsert_row(
            &mut self.rows,
            test,
            change,
            row,
            Ghost(peer_is(id@)),
            Ghost(peer_after(event)),
        );
    }

    /// Notes that an envelope is on its way to a peer, unless the envelope is not
    /// acceptable.
    pub fn start_send(&mut self, id: &str, envelope: &ProtocolEnvelope) -> (r: Result<
        (),
        EnvelopeError,
    >)
        ensures
            r == validated(envelope@),
            r is Ok ==> final(self)@ == peers_after(old(self)@, id@, PeerEvent::Sending),
            r is Err ==> final(self)@ == old(self)@,
    {
        match envelope.validate() {
            Ok(_) => {
                self.set_peer(id, ConnectionState::Negotiating, &None, Ghost(PeerEvent::Sending));
                Ok(())
            },
            Err(e) => Err(e),
        }
    }


    /// Notes how sending to a peer ended. After a delivery the peer's diagnostics are
    /// returned; after a failure the peer is offline until the next attempt.
    pub fn finish_send(&mut self, id: &str, outcome: &SendOutcome) -> (shown: Option<
        TransportDiagnostics,
    >)
        ensures
            send_finished(old(self)@, final(self)@, id@, *outcome, shown),

    {
        match outcome {
            SendOutcome::Delivered { via_relay } => {
                let state = if *via_relay {
                    ConnectionState::RelayConnected
                } else {
                    ConnectionState::DirectConnected
                };
                self.set_peer(
                    id,
                    state,
                    &None,
                    Ghost(PeerEvent::Delivered { via_relay: *via_relay }),
                );
                let detail = if *via_relay {
                    "relayed path"
                } else {
                    "direct path"
                };
                Some(
                    TransportDiagnostics {
                        peer_endpoint_id: id.to_owned(),
                        state,
                        detail: detail.to_owned(),
                        reconnect_count: self.reconnect_count(id),
                        last_error: None,
                    },
                )
            },
            SendOutcome::Failed { message } => {
                let failure = Some(message.clone());
                self.set_peer(
                    id,
                    ConnectionState::Offline,
                    &failure,
                    Ghost(PeerEvent::Failed { message: message@ }),
                );
                None
            },
        }
    }

    fn reconnect_count(&self, id: &str) -> (count: u32)
        ensures
            count == reconnects_of(self@, id@),
    {
        let test = |p: &PeerState| -> (b: bool)
            ensures
                b == peer_is(id@)(p@),
            { text_eq(p.endpoint_id.as_str(), id) };
        match find_row(&self.rows, test, Ghost(peer_is(id@))) {
            Some(p) => p.reconnect_count,
            None => 0,
        }
    }

    /// The state of a peer; offline where nothing is known of it.
    pub fn peer_state(&self, id: &str) -> (state: ConnectionState)
        ensures
            state == state_of(self@, id@),
    {
        let test = |p: &PeerState| -> (b: bool)
            ensures
                b == peer_is(id@)(p@),
            { text_eq(p.endpoint_id.as_str(), id) };
        match find_row(&self.rows, test, Ghost(peer_is(id@))) {
            Some(p) => p.state,
            None => ConnectionState::Offline,
        }
    }


    /// What is known of every peer, with the words shown for its connection.
    pub fn diagnostics(&self) -> (list: Vec<TransportDiagnostics>)
        ensures
            diagnosed(self@, views(list@)),

    {
        let mut list: Vec<TransportDiagnostics> = Vec::new();
        let mut i: usize = 0;
        while i < self.rows.len()
            invariant
                i <= self.rows.len(),
                list.len() == i,
                forall|j: int|
                    0 <= j < i ==> (#[trigger] list@[j])@ == (DiagnosticsModel {
                        peer_endpoint_id: self@[j].endpoint_id,
                        state: self@[j].state,
                        detail: connection_label(self@[j].state),
                        reconnect_count: self@[j].reconnect_count,
                        last_error: self@[j].last_error,
                    }),
            decreases self.rows.len() - i,
        {
            let p = &self.rows[i];
            assert(self@[i as int] == p@);
            list.push(
                TransportDiagnostics {
                    peer_endpoint_id: p.endpoint_id.clone(),
                    state: p.state,
                    detail: p.state.label().to_owned(),
                    reconnect_count: p.reconnect_count,
                    last_error: copy_opt_text(&p.last_error),
                },
            );
            i += 1;
        }
        list
    }
}

/// After an event a peer is in the state that the event leads to.
pub proof fn law_event_decides_state(peers: Seq<PeerStateModel>, id: Seq<char>, event: PeerEvent)
    ensures
        state_of(peers_after(peers, id, event), id) == match event {
            PeerEvent::Sending => ConnectionState::Negotiating,
            PeerEvent::Delivered { via_relay } => if via_relay {
                ConnectionState::RelayConnected
            } else {
                ConnectionState::DirectConnected
            },
            PeerEvent::Failed { .. } => ConnectionState::Offline,
        },
        event is Failed ==> reconnects_of(peers_after(peers, id, event), id) == counted(
            reconnects_of(peers, id),
        ),
        !(event is Failed) ==> reconnects_of(peers_after(peers, id, event), id) == reconnects_of(
            peers,
            id,
        ),
{
    let p = peer_is(id);
    lemma_first_row(peers, p);
    lemma_first_row_updated(peers, p, peer_after(event));
    lemma_first_row_pushed(peers, p, peer_after(event)(peer_unknown(id)));
}

// -- frames and acknowledgements ------------------------------------------------------------

/// The acknowledgement of an envelope, returned on its stream.
#[derive(Debug, Clone, Copy)]
pub struct StreamAck {
    pub message_id: Uuid,
    pub received_at_ms: i64,
}

/// The acknowledgement of a received envelope.
pub fn ack_for(envelope: &ProtocolEnvelope, now_ms: i64) -> (ack: StreamAck)
    ensures
        ack.message_id@ == envelope@.message_id,
        ack.received_at_ms == now_ms,
{
    StreamAck { message_id: envelope.message_id, received_at_ms: now_ms }
}

/// Refuses an acknowledgement of another message.
pub fn judge_ack(ack: &StreamAck, envelope: &ProtocolEnvelope) -> (r: Result<(), Error>)
    ensures
        r == if ack.message_id@ == envelope@.message_id {
            Ok::<(), Error>(())
        } else {
            Err(Error::AckOfOther)
        },
{
    if ack.message_id.same(&envelope.message_id) {
        Ok(())
    } else {
        Err(Error::AckOfOther)
    }
}

/// The length that a prefix announces, if a frame may be so long.
pub fn announced_length(prefix: [u8; 4]) -> (len: Result<usize, Error>)
    ensures
        len == if 0 < from_be32(prefix@) <= MAX_ENVELOPE_BYTES {
            Ok::<usize, Error>(from_be32(prefix@) as usize)
        } else {
            Err(Error::FrameLength)
        },
{
    let len: u64 = prefix[0] as u64 * 0x100_0000 + prefix[1] as u64 * 0x1_0000 + prefix[2] as u64
        * 0x100 + prefix[3] as u64;
    if len == 0 || len > MAX_ENVELOPE_BYTES as u64 {
        Err(Error::FrameLength)
    } else {
        Ok(len as usize)
    }
}

/// The body of a frame, if its prefix tells its length.
pub open spec fn frame_body(bytes: Seq<u8>) -> Result<Seq<u8>, Error> {
    if bytes.len() < 4 {
        Err(Error::AckTooShort)
    } else if from_be32(bytes.take(4)) != bytes.len() - 4 {
        Err(Error::AckLength)
    } else {
        Ok(bytes.skip(4))
    }
}

/// The JSON of an acknowledgement frame.
pub fn decode_json_frame(bytes: &[u8]) -> (body: Result<Vec<u8>, Error>)
    ensures
        opened_view(body) == frame_body(bytes@),
{
    if bytes.len() < 4 {
        return Err(Error::AckTooShort);
    }
    let len: u64 = bytes[0] as u64 * 0x100_0000 + bytes[1] as u64 * 0x1_0000 + bytes[2] as u64
        * 0x100 + bytes[3] as u64;
    if len != (bytes.len() - 4) as u64 {
        return Err(Error::AckLength);
    }
    let body = bytes_between(bytes, 4, bytes.len());
    assert(body@ =~= bytes@.skip(4));
    Ok(body)
}

/// An acknowledgement that was framed is read back.
pub proof fn law_ack_frame_round_trip(body: Seq<u8>)
    requires
        body.len() < 0x1_0000_0000,
    ensures
        frame_body(frame_prefix(body) + body) == Ok::<Seq<u8>, Error>(body),
{
    let prefix = frame_prefix(body);
    lemma_be32_reads((body.len() % 0x1_0000_0000) as u32);
    assert((prefix + body).take(4) =~= prefix);
    assert((prefix + body).skip(4) =~= body);
}

/// One network path of a connection.
#[derive(Debug, Clone, Copy, PartialEq, Eq, Structural)]
pub struct NetworkPath {
    pub selected: bool,
    pub relay: bool,
}

/// Whether a connection goes through a relay: the first selected path decides.
/// While none is selected it counts as relayed, so that nothing claims more.
pub open spec fn relayed(paths: Seq<NetworkPath>) -> bool {
    match first_row(paths, |p: NetworkPath| p.selected) {
        Some(p) => p.relay,
        None => true,
    }
}

/// Whether a connection goes through a relay.
pub fn path_is_relay(paths: &Vec<NetworkPath>) -> (relay: bool)
    ensures
        relay == relayed(paths@),
{
    let ghost chosen = |p: NetworkPath| p.selected;
    let mut i: usize = 0;
    while i < paths.len()
        invariant
            i <= paths.len(),
            chosen == (|p: NetworkPath| p.selected),
            forall|j: int| 0 <= j < i ==> !chosen(#[trigger] paths@[j]),
        decreases paths.len() - i,
    {
        if paths[i].selected {
            proof {
                lemma_first_row_skip(paths@, i as int, chosen);
                assert(paths@.skip(i as int)[0] == paths@[i as int]);
            }
            return paths[i].relay;
        }
        i += 1;
    }
    proof {
        lemma_first_row_skip(paths@, i as int, chosen);
    }
    true
}

// -- endpoint bundles -------------------------------------------------------------------------

/// What `URL_SAFE_NO_PAD.decode` of the `base64` crate reads from a text.
pub uninterp spec fn bundle_bytes(text: Seq<char>) -> Option<Seq<u8>>;

/// Calls `base64::engine::general_purpose::URL_SAFE_NO_PAD.encode`. The result is
/// URL-safe base64 without padding, which `decode` of the same engine reads back.
#[verifier::external_body]
fn encode_base64(bytes: &[u8]) -> (text: String)
    ensures
        text@ == base64(bytes@),
        bundle_bytes(text@) == Some(bytes@),
{
    base64::engine::general_purpose::URL_SAFE_NO_PAD.encode(bytes)
}

/// Calls `base64::engine::general_purpose::URL_SAFE_NO_PAD.decode` and names what it
/// reads.
#[verifier::external_body]
fn decode_base64(text: &str) -> (bytes: Option<Vec<u8>>)
    ensures
        match (bytes, bundle_bytes(text@)) {
            (Some(b), Some(m)) => b@ == m,
            (None, None) => true,
            _ => false,
        },
{
    base64::engine::general_purpose::URL_SAFE_NO_PAD.decode(text).ok()
}

/// The bundle of an endpoint address whose JSON is given.
pub fn encode_bundle(json: &[u8]) -> (bundle: String)
    ensures
        bundle@ == base64(json@),
        bundle_bytes(bundle@) == Some(json@),
{
    encode_base64(json)
}

/// What reading a bundle comes to.
pub fn judge_bundle(bytes: Option<Vec<u8>>) -> (json: Result<Vec<u8>, Error>)
    ensures
        opened_view(json) == match bytes {
            Some(b) => Ok::<Seq<u8>, Error>(b@),
            None => Err(Error::BadBundle),
        },
{
    match bytes {
        Some(b) => Ok(b),
        None => Err(Error::BadBundle),
    }
}

/// The JSON of the endpoint address in a bundle, white space around it ignored.
pub fn decode_bundle(bundle: &str) -> (json: Result<Vec<u8>, Error>)
    ensures
        opened_view(json) == match bundle_bytes(trimmed(bundle@)) {
            Some(b) => Ok::<Seq<u8>, Error>(b),
            None => Err(Error::BadBundle),
        },
{
    judge_bundle(decode_base64(trim(bundle).as_str()))
}

/// No character of the alphabet is white space, so a bundle is read back as it was
/// written.
pub proof fn law_bundle_is_trimmed(json: Seq<u8>)
    ensures
        trimmed(base64(json)) == base64(json),
{
    let text = base64(json);
    if text.len() > 0 {
        lemma_sextet_range(json, 0);
        lemma_sextet_range(json, text.len() - 1);
        assert(text[0] == base64_char(sextet(json, 0)));
        assert(text.last() == base64_char(
            sextet(json, text.len() - 1),
        ));
    }
    lemma_trimmed_fixed(text);
}

} // verus!
