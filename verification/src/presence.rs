//! Ephemeral presence: who is typing, who is there.
//!
//! All of it lives in memory for a short time. None of it is stored, sent to the
//! coordinator or kept after a disconnect.

use vstd::prelude::*;

use crate::payload::PresenceStatus;
use crate::table::{
    delete_rows, find_row, first_row, lemma_filter_rows, lemma_first_row, lemma_unique_filtered,
    lemma_unique_pushed, lemma_unique_updated, lemma_without, ordered, select_rows, some_row,
    sort_rows, total_preorder, unique, upsert_row, upserted, views, without, Row,
};
use crate::text::{
    lemma_text_le_total, lemma_text_le_transitive, text_at_most, text_eq, text_le, texts,
};

pub mod laws;

verus! {

/// How long a typing indicator lasts: 6 seconds, in nanoseconds.
pub const TYPING_TTL: u128 = 6_000_000_000;

/// A friend whose last heartbeat is older than this is offline: 90 seconds, in
/// nanoseconds.
pub const PRESENCE_TTL: u128 = 90_000_000_000;

/// Without local activity for longer than this the user is away: 5 minutes, in
/// nanoseconds.
pub const AWAY_AFTER: u128 = 300_000_000_000;

/// A point of the system's monotonic clock.
#[verifier::external_type_specification]
#[verifier::external_body]
pub struct ExInstant(std::time::Instant);

/// Calls `std::time::Instant::now`. Nothing is stated of the time.
#[verifier::external_body]
fn clock_now() -> std::time::Instant {
    std::time::Instant::now()
}

/// Calls `std::time::Instant::elapsed`, in nanoseconds. Nothing is stated of the
/// time.
#[verifier::external_body]
fn nanos_since(start: &std::time::Instant) -> u128 {
    start.elapsed().as_nanos()
}

/// The time from `at` to `now`, which is nothing when `now` is earlier.
pub open spec fn age(at: u128, now: u128) -> int {
    if now >= at {
        now - at
    } else {
        0
    }
}

fn time_between(at: u128, now: u128) -> (d: u128)
    ensures
        d == age(at, now),
{
    if now >= at {
        now - at
    } else {
        0
    }
}

// -- typing ---------------------------------------------------------------------------

/// Someone typing in a conversation, and when they were last seen to.
#[derive(Debug, Clone)]
pub struct TypingEntry {
    pub conversation_id: String,
    pub username: String,
    pub at: u128,
}

/// What a [`TypingEntry`] holds.
pub struct TypingModel {
    pub conversation_id: Seq<char>,
    pub username: Seq<char>,
    pub at: u128,
}

impl View for TypingEntry {
    type V = TypingModel;

    open spec fn view(&self) -> TypingModel {
        TypingModel {
            conversation_id: self.conversation_id@,
            username: self.username@,
            at: self.at,
        }
    }
}

impl Row for TypingEntry {
    fn duplicate(&self) -> (copy: Self) {
        TypingEntry {
            conversation_id: self.conversation_id.clone(),
            username: self.username.clone(),
            at: self.at,
        }
    }
}

/// Who is typing where.
pub struct TypingTracker {
    start: std::time::Instant,
    entries: Vec<TypingEntry>,
    ttl: Option<u128>,
}

/// What a [`TypingTracker`] holds.
pub struct TypingState {
    pub entries: Seq<TypingModel>,
    pub ttl: Option<u128>,
}

impl View for TypingTracker {
    type V = TypingState;

    closed spec fn view(&self) -> TypingState {
        TypingState { entries: views(self.entries@), ttl: self.ttl }
    }
}

pub open spec fn typing_key() -> spec_fn(TypingModel) -> (Seq<char>, Seq<char>) {
    |e: TypingModel| (e.conversation_id, e.username)
}

pub open spec fn typing_is(conversation: Seq<char>, user: Seq<char>) -> spec_fn(TypingModel) -> bool {
    |e: TypingModel| e.conversation_id == conversation && e.username == user
}

pub open spec fn typing_user(user: Seq<char>) -> spec_fn(TypingModel) -> bool {
    |e: TypingModel| e.username == user
}

pub open spec fn typing_in(conversation: Seq<char>) -> spec_fn(TypingModel) -> bool {
    |e: TypingModel| e.conversation_id == conversation
}

pub open spec fn typing_old(ttl: u128, now: u128) -> spec_fn(TypingModel) -> bool {
    |e: TypingModel| age(e.at, now) > ttl
}

pub open spec fn typing_at(now: u128) -> spec_fn(TypingModel) -> TypingModel {
    |e: TypingModel| TypingModel { at: now, ..e }
}

impl TypingState {
    /// One entry for each person and conversation at most.
    pub open spec fn wf(self) -> bool {
        unique(self.entries, typing_key())
    }

    pub open spec fn lifetime(self) -> u128 {
        match self.ttl {
            Some(t) => t,
            None => TYPING_TTL,
        }
    }

    pub open spec fn set_typing(
        self,
        conversation: Seq<char>,
        user: Seq<char>,
        typing: bool,
        now: u128,
    ) -> TypingState {
        TypingState {
            entries: if typing {
                upserted(
                    self.entries,
                    typing_is(conversation, user),
                    typing_at(now),
                    TypingModel { conversation_id: conversation, username: user, at: now },
                )
            } else {
                without(self.entries, typing_is(conversation, user))
            },
            ..self
        }
    }

    pub open spec fn clear_user(self, user: Seq<char>) -> TypingState {
        TypingState { entries: without(self.entries, typing_user(user)), ..self }
    }

    pub open spec fn pruned(self, now: u128) -> TypingState {
        TypingState { entries: without(self.entries, typing_old(self.lifetime(), now)), ..self }
    }

    /// `names` are the people typing in a conversation, in the order of their
    /// names.
    pub open spec fn typists(self, conversation: Seq<char>, names: Seq<Seq<char>>) -> bool {
        ordered(
            names,
            self.entries.filter(typing_in(conversation)).map_values(|e: TypingModel| e.username),
            names_in_order(),
        )
    }
}

pub open spec fn names_in_order() -> spec_fn(Seq<char>, Seq<char>) -> bool {
    |a: Seq<char>, b: Seq<char>| text_le(a, b)
}

proof fn lemma_names_in_order_total()
    ensures
        total_preorder(names_in_order()),
{
    let le = names_in_order();
    assert forall|a: Seq<char>, b: Seq<char>| #[trigger] le(a, b) || le(b, a) by {
        lemma_text_le_total(a, b);
    }
    assert forall|a: Seq<char>, b: Seq<char>, c: Seq<char>| #[trigger]
        le(a, b) && #[trigger] le(b, c) implies le(a, c) by {
        lemma_text_le_transitive(a, b, c);
    }
}

impl Default for TypingTracker {
    /// Nobody is typing; entries last as long as usual.
    fn default() -> (tracker: TypingTracker)
        ensures
            tracker@ == (TypingState { entries: Seq::empty(), ttl: None }),
            tracker@.wf(),
    {
        let tracker = TypingTracker { start: clock_now(), entries: Vec::new(), ttl: None };
        assert(tracker@.entries =~= Seq::<TypingModel>::empty());
        tracker
    }
}

impl TypingTracker {
    /// Nobody is typing.
    pub fn new() -> (tracker: TypingTracker)
        ensures
            tracker@ == (TypingState { entries: Seq::empty(), ttl: Some(TYPING_TTL) }),
            tracker@.wf(),
    {
        TypingTracker::with_ttl(TYPING_TTL)
    }

    /// Nobody is typing; entries last as long as given, in nanoseconds.
    pub fn with_ttl(ttl: u128) -> (tracker: TypingTracker)
        ensures
            tracker@ == (TypingState { entries: Seq::empty(), ttl: Some(ttl) }),
            tracker@.wf(),
    {
        let tracker = TypingTracker { start: clock_now(), entries: Vec::new(), ttl: Some(ttl) };
        assert(tracker@.entries =~= Seq::<TypingModel>::empty());
        tracker
    }

    /// Notes at a given time that someone started or stopped typing.
    pub fn set_typing_at(&mut self, conversation_id: &str, username: &str, typing: bool, now: u128)
        ensures
            final(self)@ == old(self)@.set_typing(conversation_id@, username@, typing, now),
            old(self)@.wf() ==> final(self)@.wf(),
    {
        let ghost before = self@;
        let test = |e: &TypingEntry| -> (b: bool)
            ensures
                b == typing_is(conversation_id@, username@)(e@),
            {
                text_eq(e.conversation_id.as_str(), conversation_id) && text_eq(
                    e.username.as_str(),
                    username,
                )
            };
        if typing {
            let change = |e: &TypingEntry| -> (n: TypingEntry)
                ensures
                    n@ == typing_at(now)(e@),
                {
                    let mut entry = e.duplicate();
                    entry.at = now;
                    entry
                };
            upsert_row(
                &mut self.entries,
                test,
                change,
                TypingEntry {
                    conversation_id: conversation_id.to_owned(),
                    username: username.to_owned(),
                    at: now,
                },
                Ghost(typing_is(conversation_id@, username@)),
                Ghost(typing_at(now)),
            );
        } else {
            let _gone: usize = delete_rows(
                &mut self.entries,
                test,
                Ghost(typing_is(conversation_id@, username@)),
            );
        }
        proof {
            if before.wf() {
                lemma_set_typing_wf(before, conversation_id@, username@, typing, now);
            }
        }
    }

    /// Notes that someone started or stopped typing.
    pub fn set_typing(&mut self, conversation_id: &str, username: &str, typing: bool)
        ensures
            exists|now: u128|
                final(self)@ == #[trigger] old(self)@.set_typing(
                    conversation_id@,
                    username@,
                    typing,
                    now,
                ),
            old(self)@.wf() ==> final(self)@.wf(),
    {
        let now: u128 = nanos_since(&self.start);
        self.set_typing_at(conversation_id, username, typing, now);
    }

    /// Forgets someone who disconnected.
    pub fn clear_user(&mut self, username: &str)
        ensures
            final(self)@ == old(self)@.clear_user(username@),
            !some_row(final(self)@.entries, typing_user(username@)),
            old(self)@.wf() ==> final(self)@.wf(),
    {
        let ghost before = self@;
        let test = |e: &TypingEntry| -> (b: bool)
            ensures
                b == typing_user(username@)(e@),
            { text_eq(e.username.as_str(), username) };
        let _gone: usize = delete_rows(&mut self.entries, test, Ghost(typing_user(username@)));
        proof {
            lemma_without(before.entries, typing_user(username@));
            lemma_without_wf(before, typing_user(username@));
        }
    }

    /// Who is typing in a conversation at a given time, by name. Entries that have
    /// become too old are dropped.
    pub fn active_typists_at(&mut self, conversation_id: &str, now: u128) -> (names: Vec<String>)
        ensures
            final(self)@ == old(self)@.pruned(now),
            old(self)@.pruned(now).typists(conversation_id@, texts(names@)),
            old(self)@.wf() ==> final(self)@.wf(),
    {
        self.prune_at(now);
        let test = |e: &TypingEntry| -> (b: bool)
            ensures
                b == typing_in(conversation_id@)(e@),
            { text_eq(e.conversation_id.as_str(), conversation_id) };
        let here = select_rows(&self.entries, test, Ghost(typing_in(conversation_id@)));
        let ghost listed = views(here@).map_values(|e: TypingModel| e.username);
        let mut names: Vec<String> = Vec::new();
        let mut i: usize = 0;
        while i < here.len()
            invariant
                i <= here.len(),
                names.len() == i,
                forall|j: int| 0 <= j < i ==> (#[trigger] names@[j])@ == here@[j]@.username,
            decreases here.len() - i,
        {
            names.push(here[i].username.clone());
            i += 1;
        }
        assert(views(names@) =~= listed);
        proof {
            lemma_names_in_order_total();
        }
        let at_most = |a: &String, b: &String| -> (r: bool)
            ensures
                r == names_in_order()(a@, b@),
            { text_at_most(a.as_str(), b.as_str()) };
        let sorted = sort_rows(names, at_most, Ghost(names_in_order()));
        assert(texts(sorted@) =~= views(sorted@));
        sorted
    }

    /// Who is typing in a conversation, by name.
    pub fn active_typists(&mut self, conversation_id: &str) -> (names: Vec<String>)
        ensures
            exists|now: u128|
                final(self)@ == #[trigger] old(self)@.pruned(now) && final(self)@.typists(
                    conversation_id@,
                    texts(names@),
                ),
            old(self)@.wf() ==> final(self)@.wf(),
    {
        let now: u128 = nanos_since(&self.start);
        self.active_typists_at(conversation_id, now)
    }

    /// Drops the entries that are too old at a given time.
    fn prune_at(&mut self, now: u128)
        ensures
            final(self)@ == old(self)@.pruned(now),
            old(self)@.wf() ==> final(self)@.wf(),
    {
        let ghost before = self@;
        let ttl: u128 = match self.ttl {
            Some(t) => t,
            None => TYPING_TTL,
        };
        let test = |e: &TypingEntry| -> (b: bool)
            ensures
                b == typing_old(ttl, now)(e@),
            { time_between(e.at, now) > ttl };
        let _gone: usize = delete_rows(&mut self.entries, test, Ghost(typing_old(ttl, now)));
        proof {
            lemma_without_wf(before, typing_old(ttl, now));
        }
    }
}

/// Deleting entries leaves the others unique.
pub(crate) proof fn lemma_without_wf(state: TypingState, p: spec_fn(TypingModel) -> bool)
    ensures
        state.wf() ==> (TypingState { entries: without(state.entries, p), ..state }).wf(),
{
    if state.wf() {
        lemma_unique_filtered(state.entries, typing_key(), |e: TypingModel| !p(e));
    }
}

pub(crate) proof fn lemma_set_typing_wf(
    state: TypingState,
    conversation: Seq<char>,
    user: Seq<char>,
    typing: bool,
    now: u128,
)
    requires
        state.wf(),
    ensures
        state.set_typing(conversation, user, typing, now).wf(),
{
    let p = typing_is(conversation, user);
    if !typing {
        lemma_without_wf(state, p);
    } else if some_row(state.entries, p) {
        lemma_unique_updated(state.entries, typing_key(), p, typing_at(now));
    } else {
        assert forall|i: int| 0 <= i < state.entries.len() implies typing_key()(
            #[trigger] state.entries[i],
        ) != (conversation, user) by {
            assert(!p(state.entries[i]));
        }
        lemma_unique_pushed(
            state.entries,
            typing_key(),
            TypingModel { conversation_id: conversation, username: user, at: now },
        );
    }
}

// -- presence -----------------------------------------------------------------------------

/// What is shown of a friend.
#[derive(Debug, Clone)]
pub struct PeerPresence {
    pub username: String,
    pub status: PresenceStatus,
    /// Whether the last heartbeat is recent.
    pub fresh: bool,
}

/// What a [`PeerPresence`] holds.
pub struct PeerModel {
    pub username: Seq<char>,
    pub status: PresenceStatus,
    pub fresh: bool,
}

impl View for PeerPresence {
    type V = PeerModel;

    open spec fn view(&self) -> PeerModel {
        PeerModel { username: self.username@, status: self.status, fresh: self.fresh }
    }
}

impl Row for PeerPresence {
    fn duplicate(&self) -> (copy: Self) {
        PeerPresence { username: self.username.clone(), status: self.status, fresh: self.fresh }
    }
}

/// The last heartbeat of a friend.
#[derive(Debug, Clone)]
pub struct Heartbeat {
    pub username: String,
    pub status: PresenceStatus,
    pub at: u128,
}

/// What a [`Heartbeat`] holds.
pub struct HeartbeatModel {
    pub username: Seq<char>,
    pub status: PresenceStatus,
    pub at: u128,
}

impl View for Heartbeat {
    type V = HeartbeatModel;

    open spec fn view(&self) -> HeartbeatModel {
        HeartbeatModel { username: self.username@, status: self.status, at: self.at }
    }
}

impl Row for Heartbeat {
    fn duplicate(&self) -> (copy: Self) {
        Heartbeat { username: self.username.clone(), status: self.status, at: self.at }
    }
}

/// The user's own choice and the last heartbeats of friends.
pub struct PresenceTracker {
    start: std::time::Instant,
    manual: PresenceStatus,
    last_activity: u128,
    peers: Vec<Heartbeat>,
}

/// What a [`PresenceTracker`] holds.
pub struct PresenceState {
    pub manual: PresenceStatus,
    pub last_activity: u128,
    pub peers: Seq<HeartbeatModel>,
}

impl View for PresenceTracker {
    type V = PresenceState;

    closed spec fn view(&self) -> PresenceState {
        PresenceState {
            manual: self.manual,
            last_activity: self.last_activity,
            peers: views(self.peers@),
        }
    }
}

pub open spec fn heartbeat_key() -> spec_fn(HeartbeatModel) -> Seq<char> {
    |h: HeartbeatModel| h.username
}

pub open spec fn heartbeat_of(user: Seq<char>) -> spec_fn(HeartbeatModel) -> bool {
    |h: HeartbeatModel| h.username == user
}

pub open spec fn heartbeat_now(
    status: PresenceStatus,
    now: u128,
) -> spec_fn(HeartbeatModel) -> HeartbeatModel {
    |h: HeartbeatModel| HeartbeatModel { status, at: now, ..h }
}

pub open spec fn heartbeat_gone(now: u128) -> spec_fn(HeartbeatModel) -> bool {
    |h: HeartbeatModel| age(h.at, now) > 2 * PRESENCE_TTL
}

pub open spec fn peers_by_name() -> spec_fn(PeerModel, PeerModel) -> bool {
    |a: PeerModel, b: PeerModel| text_le(a.username, b.username)
}

impl PresenceState {
    /// The user never chose to be offline, no heartbeat says so, and there is one
    /// heartbeat for each friend at most.
    pub open spec fn wf(self) -> bool {
        &&& self.manual != PresenceStatus::Offline
        &&& unique(self.peers, heartbeat_key())
        &&& forall|i: int|
            0 <= i < self.peers.len() ==> (#[trigger] self.peers[i]).status
                != PresenceStatus::Offline
    }

    pub open spec fn set_manual(self, status: PresenceStatus, now: u128) -> PresenceState {
        if status == PresenceStatus::Offline {
            self
        } else {
            PresenceState { manual: status, last_activity: now, ..self }
        }
    }

    /// What is advertised: offline without transport, else the user's choice, with
    /// away in place of online after a while without activity. `Dnd` stays.
    pub open spec fn effective(self, transport_up: bool, now: u128) -> PresenceStatus {
        if !transport_up {
            PresenceStatus::Offline
        } else if self.manual == PresenceStatus::Dnd {
            PresenceStatus::Dnd
        } else if self.manual == PresenceStatus::Away || age(self.last_activity, now)
            > AWAY_AFTER {
            PresenceStatus::Away
        } else {
            PresenceStatus::Online
        }
    }

    pub open spec fn peer_update(
        self,
        user: Seq<char>,
        status: PresenceStatus,
        now: u128,
    ) -> PresenceState {
        if status == PresenceStatus::Offline {
            self
        } else {
            PresenceState {
                peers: upserted(
                    self.peers,
                    heartbeat_of(user),
                    heartbeat_now(status, now),
                    HeartbeatModel { username: user, status, at: now },
                ),
                ..self
            }
        }
    }

    pub open spec fn peer_forget(self, user: Seq<char>) -> PresenceState {
        PresenceState { peers: without(self.peers, heartbeat_of(user)), ..self }
    }

    pub open spec fn prune(self, now: u128) -> PresenceState {
        PresenceState { peers: without(self.peers, heartbeat_gone(now)), ..self }
    }

    /// What is shown of someone: the last heartbeat if it is recent, else offline.
    pub open spec fn peer_status(self, user: Seq<char>, now: u128) -> PeerModel {
        match first_row(self.peers, heartbeat_of(user)) {
            Some(h) => if age(h.at, now) <= PRESENCE_TTL {
                PeerModel { username: user, status: h.status, fresh: true }
            } else {
                PeerModel { username: user, status: PresenceStatus::Offline, fresh: false }
            },
            None => PeerModel { username: user, status: PresenceStatus::Offline, fresh: false },
        }
    }

    /// What is shown of each friend who sent a heartbeat.
    pub open spec fn shown(self, now: u128) -> Seq<PeerModel> {
        self.peers.map_values(|h: HeartbeatModel| self.peer_status(h.username, now))
    }
}

/// Deleting heartbeats keeps what holds of the others.
pub(crate) proof fn lemma_heartbeats_without(
    state: PresenceState,
    p: spec_fn(HeartbeatModel) -> bool,
)
    ensures
        state.wf() ==> (PresenceState { peers: without(state.peers, p), ..state }).wf(),
{
    if state.wf() {
        let keep = |h: HeartbeatModel| !p(h);
        let after = without(state.peers, p);
        lemma_unique_filtered(state.peers, heartbeat_key(), keep);
        let offline = |h: HeartbeatModel| h.status == PresenceStatus::Offline;
        lemma_filter_rows(state.peers, keep, offline);
        assert forall|i: int| 0 <= i < after.len() implies (#[trigger] after[i]).status
            != PresenceStatus::Offline by {
            if after[i].status == PresenceStatus::Offline {
                assert(offline(after[i]));
                let k: int = choose|k: int|
                    0 <= k < state.peers.len() && (|h: HeartbeatModel| keep(h) && offline(h))(
                        #[trigger] state.peers[k],
                    );
                assert(state.peers[k].status == PresenceStatus::Offline);
            }
        }
    }
}

/// A heartbeat leaves one for each friend.
pub(crate) proof fn lemma_peer_update_unique(
    state: PresenceState,
    user: Seq<char>,
    status: PresenceStatus,
    now: u128,
)
    requires
        unique(state.peers, heartbeat_key()),
    ensures
        unique(state.peer_update(user, status, now).peers, heartbeat_key()),
{
    let p = heartbeat_of(user);
    if status != PresenceStatus::Offline {
        if some_row(state.peers, p) {
            lemma_unique_updated(state.peers, heartbeat_key(), p, heartbeat_now(status, now));
        } else {
            assert forall|i: int| 0 <= i < state.peers.len() implies heartbeat_key()(
                #[trigger] state.peers[i],
            ) != user by {
                assert(!p(state.peers[i]));
            }
            lemma_unique_pushed(
                state.peers,
                heartbeat_key(),
                HeartbeatModel { username: user, status, at: now },
            );
        }
    }
}

proof fn lemma_peers_by_name_total()
    ensures
        total_preorder(peers_by_name()),
{
    let le = peers_by_name();
    assert forall|a: PeerModel, b: PeerModel| #[trigger] le(a, b) || le(b, a) by {
        lemma_text_le_total(a.username, b.username);
    }
    assert forall|a: PeerModel, b: PeerModel, c: PeerModel| #[trigger]
        le(a, b) && #[trigger] le(b, c) implies le(a, c) by {
        lemma_text_le_transitive(a.username, b.username, c.username);
    }
}

impl Default for PresenceTracker {
    fn default() -> (tracker: PresenceTracker)
        ensures
            tracker@ == (PresenceState {
                manual: PresenceStatus::Online,
                last_activity: 0,
                peers: Seq::empty(),
            }),
            tracker@.wf(),
    {
        PresenceTracker::new()
    }
}

impl PresenceTracker {
    /// The user is online and just active; no friend has been heard of.
    pub fn new() -> (tracker: PresenceTracker)
        ensures
            tracker@ == (PresenceState {
                manual: PresenceStatus::Online,
                last_activity: 0,
                peers: Seq::empty(),
            }),
            tracker@.wf(),
    {
        let tracker = PresenceTracker {
            start: clock_now(),
            manual: PresenceStatus::Online,
            last_activity: 0,
            peers: Vec::new(),
        };
        assert(tracker@.peers =~= Seq::<HeartbeatModel>::empty());
        tracker
    }

    /// Takes the user's choice at a given time. `Offline` cannot be chosen.
    pub fn set_manual_at(&mut self, status: PresenceStatus, now: u128) -> (taken: bool)
        ensures
            final(self)@ == old(self)@.set_manual(status, now),
            taken == (status != PresenceStatus::Offline),
            old(self)@.wf() ==> final(self)@.wf(),
    {
        if status == PresenceStatus::Offline {
            return false;
        }
        self.manual = status;
        self.last_activity = now;
        true
    }

    /// Takes the user's choice. `Offline` cannot be chosen.
    pub fn set_manual(&mut self, status: PresenceStatus) -> (taken: bool)
        ensures
            exists|now: u128| final(self)@ == #[trigger] old(self)@.set_manual(status, now),
            taken == (status != PresenceStatus::Offline),
            old(self)@.wf() ==> final(self)@.wf(),
    {
        let now: u128 = nanos_since(&self.start);
        self.set_manual_at(status, now)
    }

    pub fn manual(&self) -> (status: PresenceStatus)
        ensures
            status == self@.manual,
    {
        self.manual
    }

    /// Notes local activity.
    pub fn activity(&mut self)
        ensures
            exists|now: u128|
                final(self)@ == (PresenceState {
                    last_activity: #[trigger] id_time(now),
                    ..old(self)@
                }),
            old(self)@.wf() ==> final(self)@.wf(),
    {
        let now: u128 = nanos_since(&self.start);
        self.last_activity = now;
        assert(id_time(now) == now);
    }

    /// What is advertised at a given time.
    pub fn effective_at(&self, transport_up: bool, now: u128) -> (status: PresenceStatus)
        ensures
            status == self@.effective(transport_up, now),
    {
        if !transport_up {
            return PresenceStatus::Offline;
        }
        if self.manual == PresenceStatus::Dnd {
            return PresenceStatus::Dnd;
        }
        if self.manual == PresenceStatus::Away || time_between(self.last_activity, now)
            > AWAY_AFTER {
            return PresenceStatus::Away;
        }
        PresenceStatus::Online
    }

    /// What is advertised: offline without transport, else the user's choice, away
    /// after a while without activity.
    pub fn effective(&self, transport_up: bool) -> (status: PresenceStatus)
        ensures
            exists|now: u128| status == #[trigger] self@.effective(transport_up, now),
    {
        let now: u128 = nanos_since(&self.start);
        self.effective_at(transport_up, now)
    }

    /// Takes a friend's heartbeat at a given time. One that claims to be offline is
    /// ignored: only silence means that.
    pub fn peer_update_at(&mut self, username: &str, status: PresenceStatus, now: u128)
        ensures
            final(self)@ == old(self)@.peer_update(username@, status, now),
            old(self)@.wf() ==> final(self)@.wf(),
    {
        if status == PresenceStatus::Offline {
            return ;
        }
        let ghost before = self@;
        let test = |h: &Heartbeat| -> (b: bool)
            ensures
                b == heartbeat_of(username@)(h@),
            { text_eq(h.username.as_str(), username) };
        let change = |h: &Heartbeat| -> (n: Heartbeat)
            ensures
                n@ == heartbeat_now(status, now)(h@),
            {
                let mut beat = h.duplicate();
                beat.status = status;
                beat.at = now;
                beat
            };
        upsert_row(
            &mut self.peers,
            test,
            change,
            Heartbeat { username: username.to_owned(), status, at: now },
            Ghost(heartbeat_of(username@)),
            Ghost(heartbeat_now(status, now)),
        );
        proof {
            if before.wf() {
                let after = self@.peers;
                assert forall|i: int| 0 <= i < after.len() implies (#[trigger] after[i]).status
                    != PresenceStatus::Offline by {
                    if i < before.peers.len() {
                        assert(before.peers[i].status != PresenceStatus::Offline);
                    }
                }
                lemma_peer_update_unique(before, username@, status, now);
            }
        }
    }

    /// Takes a friend's heartbeat.
    pub fn peer_update(&mut self, username: &str, status: PresenceStatus)
        ensures
            exists|now: u128|
                final(self)@ == #[trigger] old(self)@.peer_update(username@, status, now),
            old(self)@.wf() ==> final(self)@.wf(),
    {
        let now: u128 = nanos_since(&self.start);
        self.peer_update_at(username, status, now);
    }

    /// Forgets a friend's heartbeat.
    pub fn peer_forget(&mut self, username: &str)
        ensures
            final(self)@ == old(self)@.peer_forget(username@),
            old(self)@.wf() ==> final(self)@.wf(),
    {
        let ghost before = self@;
        let test = |h: &Heartbeat| -> (b: bool)
            ensures
                b == heartbeat_of(username@)(h@),
            { text_eq(h.username.as_str(), username) };
        let _gone: usize = delete_rows(&mut self.peers, test, Ghost(heartbeat_of(username@)));
        proof {
            lemma_heartbeats_without(before, heartbeat_of(username@));
        }
    }

    /// What is shown of someone at a given time.
    pub fn peer_status_at(&self, username: &str, now: u128) -> (peer: PeerPresence)
        ensures
            peer@ == self@.peer_status(username@, now),
    {
        let test = |h: &Heartbeat| -> (b: bool)
            ensures
                b == heartbeat_of(username@)(h@),
            { text_eq(h.username.as_str(), username) };
        match find_row(&self.peers, test, Ghost(heartbeat_of(username@))) {
            Some(h) => if time_between(h.at, now) <= PRESENCE_TTL {
                PeerPresence { username: username.to_owned(), status: h.status, fresh: true }
            } else {
                PeerPresence {
                    username: username.to_owned(),
                    status: PresenceStatus::Offline,
                    fresh: false,
                }
            },
            None => PeerPresence {
                username: username.to_owned(),
                status: PresenceStatus::Offline,
                fresh: false,
            },
        }
    }

    /// What is shown of someone.
    pub fn peer_status(&self, username: &str) -> (peer: PeerPresence)
        ensures
            exists|now: u128| peer@ == #[trigger] self@.peer_status(username@, now),
    {
        let now: u128 = nanos_since(&self.start);
        self.peer_status_at(username, now)
    }

    /// What is shown of every friend who sent a heartbeat, by name, at a given time.
    pub fn list_at(&self, now: u128) -> (list: Vec<PeerPresence>)
        ensures
            ordered(views(list@), self@.shown(now), peers_by_name()),
    {
        let mut all: Vec<PeerPresence> = Vec::new();
        let mut i: usize = 0;
        while i < self.peers.len()
            invariant
                i <= self.peers.len(),
                all.len() == i,
                forall|j: int|
                    0 <= j < i ==> (#[trigger] all@[j])@ == self@.peer_status(
                        self.peers@[j]@.username,
                        now,
                    ),
            decreases self.peers.len() - i,
        {
            all.push(self.peer_status_at(self.peers[i].username.as_str(), now));
            i += 1;
        }
        assert(views(all@) =~= self@.shown(now));
        proof {
            lemma_peers_by_name_total();
        }
        let at_most = |a: &PeerPresence, b: &PeerPresence| -> (r: bool)
            ensures
                r == peers_by_name()(a@, b@),
            { text_at_most(a.username.as_str(), b.username.as_str()) };
        sort_rows(all, at_most, Ghost(peers_by_name()))
    }

    /// What is shown of every friend who sent a heartbeat, by name.
    pub fn list(&self) -> (list: Vec<PeerPresence>)
        ensures
            exists|now: u128|
                ordered(views(list@), #[trigger] self@.shown(now), peers_by_name()),
    {
        let now: u128 = nanos_since(&self.start);
        self.list_at(now)
    }

    /// Drops heartbeats that are long gone at a given time.
    pub fn prune_at(&mut self, now: u128)
        ensures
            final(self)@ == old(self)@.prune(now),
            old(self)@.wf() ==> final(self)@.wf(),
    {
        let ghost before = self@;
        let test = |h: &Heartbeat| -> (b: bool)
            ensures
                b == heartbeat_gone(now)(h@),
            { time_between(h.at, now) > 2 * PRESENCE_TTL };
        let _gone: usize = delete_rows(&mut self.peers, test, Ghost(heartbeat_gone(now)));
        proof {
            lemma_heartbeats_without(before, heartbeat_gone(now));
        }
    }

    /// Drops heartbeats that are long gone.
    pub fn prune(&mut self)
        ensures
            exists|now: u128| final(self)@ == #[trigger] old(self)@.prune(now),
            old(self)@.wf() ==> final(self)@.wf(),
    {
        let now: u128 = nanos_since(&self.start);
        self.prune_at(now);
    }
}

pub open spec fn id_time(now: u128) -> u128 {
    now
}

/// Nobody who has not been heard of lately is shown as anything but offline.
pub proof fn law_silence_is_offline(state: PresenceState, user: Seq<char>, now: u128)
    requires
        forall|i: int|
            0 <= i < state.peers.len() && (#[trigger] state.peers[i]).username == user ==> age(
                state.peers[i].at,
                now,
            ) > PRESENCE_TTL,
    ensures
        state.peer_status(user, now) == (PeerModel {
            username: user,
            status: PresenceStatus::Offline,
            fresh: false,
        }),
{
    lemma_first_row(state.peers, heartbeat_of(user));
}

/// Whoever asked not to be disturbed is never shown as away, however long they
/// are idle.
pub proof fn law_dnd_stays(state: PresenceState, now: u128)
    requires
        state.manual == PresenceStatus::Dnd,
    ensures
        state.effective(true, now) == PresenceStatus::Dnd,
{
}

} // verus!
