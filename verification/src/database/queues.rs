//! What waits: pending messages, handshakes, stashed envelopes, the mailbox
//! spool; and the sync cursors.

use vstd::prelude::*;

use crate::database::Database;
use crate::database::model::{
    bumped, cursor_advanced, cursor_is, handshake_backed_off, handshake_due, handshake_is,
    handshake_requeued, handshakes_soonest_first, mailbox_expired, mailbox_in_state, mailbox_is,
    mailbox_oldest_first, mailbox_waiting, message_is, number_advanced, number_is,
    pending_backed_off, pending_counted, pending_due, pending_id_is, pending_is, pending_of,
    pending_requeued, pending_soonest_first, spooled_of, stash_beyond, stash_expired, stash_is,
    stash_newest_first, stash_oldest_first, stashed_of, STASH_LIMIT,
};
use crate::error::Error;
use crate::records::{
    CursorRow, MailboxModel, MailboxRow, Message, NumberRow, PendingHandshake, PendingItem,
    PendingModel, SpooledObject, StashModel, StashRow, StashedEnvelope,
};
use crate::table::{
    any_row, delete_rows, find_row, limit_rows, ordered, ordered_limited, select_rows, some_row,
    sort_rows, update_rows, upsert_row, views, Row,
};
use crate::text::text_eq;

verus! {

fn bump(attempts: i64) -> (next: i64)
    ensures
        next == bumped(attempts),
{
    if attempts < i64::MAX {
        attempts + 1
    } else {
        attempts
    }
}

impl Database {
    /// Queues a message for a peer. A pair that is queued already only gets the
    /// new time and state.
    pub fn enqueue_pending(
        &mut self,
        id: &str,
        message_id: &str,
        peer_id: &str,
        next_attempt_at_ms: i64,
        state: &str,
    ) -> (result: Result<(), Error>)
        ensures
            old(self)@.may_enqueue(id@, message_id@, peer_id@) ==> result is Ok && final(self)@
                == old(self)@.enqueue_pending(
                id@,
                message_id@,
                peer_id@,
                next_attempt_at_ms,
                state@,
            ),
            !old(self)@.may_enqueue(id@, message_id@, peer_id@) ==> result == Err::<(), Error>(
                Error::Constraint,
            ) && final(self)@ == old(self)@,
    {
        let test = |r: &PendingItem| -> (b: bool)
            ensures
                b == pending_is(message_id@, peer_id@)(r@),
            {
                text_eq(r.message_id.as_str(), message_id) && text_eq(r.peer_id.as_str(), peer_id)
            };
        if !any_row(&self.pending, test, Ghost(pending_is(message_id@, peer_id@))) {
            let stored = |r: &Message| -> (b: bool)
                ensures
                    b == message_is(message_id@)(r@),
                { text_eq(r.id.as_str(), message_id) };
            let taken = |r: &PendingItem| -> (b: bool)
                ensures
                    b == pending_id_is(id@)(r@),
                { text_eq(r.id.as_str(), id) };
            if !any_row(&self.messages, stored, Ghost(message_is(message_id@))) || any_row(
                &self.pending,
                taken,
                Ghost(pending_id_is(id@)),
            ) {
                return Err(Error::Constraint);
            }
        }
        let change = |r: &PendingItem| -> (n: PendingItem)
            ensures
                n@ == pending_requeued(next_attempt_at_ms, state@)(r@),
            {
                let mut row = r.duplicate();
                row.next_attempt_at_ms = next_attempt_at_ms;
                row.state = state.to_owned();
                row
            };
        upsert_row(
            &mut self.pending,
            test,
            change,
            PendingItem {
                id: id.to_owned(),
                message_id: message_id.to_owned(),
                peer_id: peer_id.to_owned(),
                attempt_count: 0,
                next_attempt_at_ms,
                state: state.to_owned(),
            },
            Ghost(pending_is(message_id@, peer_id@)),
            Ghost(pending_requeued(next_attempt_at_ms, state@)),
        );
        Ok(())
    }

    pub fn get_pending(&self, message_id: &str, peer_id: &str) -> (item: Option<PendingItem>)
        ensures
            opt_pending(item) == self@.pending_item(message_id@, peer_id@),
    {
        let test = |r: &PendingItem| -> (b: bool)
            ensures
                b == pending_is(message_id@, peer_id@)(r@),
            {
                text_eq(r.message_id.as_str(), message_id) && text_eq(r.peer_id.as_str(), peer_id)
            };
        match find_row(&self.pending, test, Ghost(pending_is(message_id@, peer_id@))) {
            Some(r) => Some(r.duplicate()),
            None => None,
        }
    }

    /// What is due, the longest waiting first.
    pub fn list_due_pending(&self, now_ms: i64, limit: i64) -> (list: Vec<PendingItem>)
        ensures
            self@.due_listed(now_ms, limit as int, views(list@)),
    {
        let test = |r: &PendingItem| -> (b: bool)
            ensures
                b == pending_due(now_ms)(r@),
            { r.next_attempt_at_ms <= now_ms };
        let found = select_rows(&self.pending, test, Ghost(pending_due(now_ms)));
        let at_most = |a: &PendingItem, b: &PendingItem| -> (r: bool)
            ensures
                r == pending_soonest_first()(a@, b@),
            { a.next_attempt_at_ms <= b.next_attempt_at_ms };
        let rows = sort_rows(found, at_most, Ghost(pending_soonest_first()));
        assert(ordered(
            views(rows@),
            self@.pending.filter(pending_due(now_ms)),
            pending_soonest_first(),
        ));
        limit_rows(rows, limit)
    }

    pub fn backoff_pending(&mut self, message_id: &str, next_attempt_at_ms: i64)
        ensures
            final(self)@ == old(self)@.backoff_pending(message_id@, next_attempt_at_ms),
    {
        let test = |r: &PendingItem| -> (b: bool)
            ensures
                b == pending_of(message_id@)(r@),
            { text_eq(r.message_id.as_str(), message_id) };
        let change = |r: &PendingItem| -> (n: PendingItem)
            ensures
                n@ == pending_backed_off(next_attempt_at_ms)(r@),
            {
                let mut row = r.duplicate();
                row.attempt_count = bump(r.attempt_count);
                row.next_attempt_at_ms = next_attempt_at_ms;
                row.state = "retrying".to_owned();
                row
            };
        let _changed: usize = update_rows(
            &mut self.pending,
            test,
            change,
            Ghost(pending_of(message_id@)),
            Ghost(pending_backed_off(next_attempt_at_ms)),
        );
    }

    /// Counts one more failed attempt to reach a peer with a message.
    pub fn count_attempt(&mut self, message_id: &str, peer_id: &str)
        ensures
            final(self)@ == old(self)@.count_attempt(message_id@, peer_id@),
    {
        let test = |r: &PendingItem| -> (b: bool)
            ensures
                b == pending_is(message_id@, peer_id@)(r@),
            {
                text_eq(r.message_id.as_str(), message_id) && text_eq(r.peer_id.as_str(), peer_id)
            };
        let change = |r: &PendingItem| -> (n: PendingItem)
            ensures
                n@ == pending_counted()(r@),
            {
                let mut row = r.duplicate();
                row.attempt_count = bump(r.attempt_count);
                row
            };
        let _changed: usize = update_rows(
            &mut self.pending,
            test,
            change,
            Ghost(pending_is(message_id@, peer_id@)),
            Ghost(pending_counted()),
        );
    }

    pub fn dequeue_pending(&mut self, message_id: &str)
        ensures
            final(self)@ == old(self)@.dequeue_pending(message_id@),
    {
        let test = |r: &PendingItem| -> (b: bool)
            ensures
                b == pending_of(message_id@)(r@),
            { text_eq(r.message_id.as_str(), message_id) };
        let _gone: usize = delete_rows(&mut self.pending, test, Ghost(pending_of(message_id@)));
    }

    pub fn dequeue_pending_for(&mut self, message_id: &str, peer_id: &str)
        ensures
            final(self)@ == old(self)@.dequeue_pending_for(message_id@, peer_id@),
    {
        let test = |r: &PendingItem| -> (b: bool)
            ensures
                b == pending_is(message_id@, peer_id@)(r@),
            {
                text_eq(r.message_id.as_str(), message_id) && text_eq(r.peer_id.as_str(), peer_id)
            };
        let _gone: usize = delete_rows(
            &mut self.pending,
            test,
            Ghost(pending_is(message_id@, peer_id@)),
        );
    }

    /// Queues a friend ask or answer. One that is queued already only gets the
    /// new time.
    pub fn enqueue_handshake(
        &mut self,
        message_id: &str,
        peer_username: &str,
        envelope_json: &str,
        next_attempt_at_ms: i64,
    )
        ensures
            final(self)@ == old(self)@.enqueue_handshake(
                message_id@,
                peer_username@,
                envelope_json@,
                next_attempt_at_ms,
            ),
    {
        let test = |r: &PendingHandshake| -> (b: bool)
            ensures
                b == handshake_is(message_id@)(r@),
            { text_eq(r.message_id.as_str(), message_id) };
        let change = |r: &PendingHandshake| -> (n: PendingHandshake)
            ensures
                n@ == handshake_requeued(next_attempt_at_ms)(r@),
            {
                let mut row = r.duplicate();
                row.next_attempt_at_ms = next_attempt_at_ms;
                row
            };
        upsert_row(
            &mut self.handshakes,
            test,
            change,
            PendingHandshake {
                message_id: message_id.to_owned(),
                peer_username: peer_username.to_owned(),
                envelope_json: envelope_json.to_owned(),
                attempt_count: 0,
                next_attempt_at_ms,
            },
            Ghost(handshake_is(message_id@)),
            Ghost(handshake_requeued(next_attempt_at_ms)),
        );
    }

    /// What is due, the longest waiting first.
    pub fn list_due_handshakes(&self, now_ms: i64, limit: i64) -> (list: Vec<PendingHandshake>)
        ensures
            self@.handshakes_listed(now_ms, limit as int, views(list@)),
    {
        let test = |r: &PendingHandshake| -> (b: bool)
            ensures
                b == handshake_due(now_ms)(r@),
            { r.next_attempt_at_ms <= now_ms };
        let found = select_rows(&self.handshakes, test, Ghost(handshake_due(now_ms)));
        let at_most = |a: &PendingHandshake, b: &PendingHandshake| -> (r: bool)
            ensures
                r == handshakes_soonest_first()(a@, b@),
            { a.next_attempt_at_ms <= b.next_attempt_at_ms };
        let rows = sort_rows(found, at_most, Ghost(handshakes_soonest_first()));
        assert(ordered(
            views(rows@),
            self@.handshakes.filter(handshake_due(now_ms)),
            handshakes_soonest_first(),
        ));
        limit_rows(rows, limit)
    }

    pub fn backoff_handshake(&mut self, message_id: &str, next_attempt_at_ms: i64)
        ensures
            final(self)@ == old(self)@.backoff_handshake(message_id@, next_attempt_at_ms),
    {
        let test = |r: &PendingHandshake| -> (b: bool)
            ensures
                b == handshake_is(message_id@)(r@),
            { text_eq(r.message_id.as_str(), message_id) };
        let change = |r: &PendingHandshake| -> (n: PendingHandshake)
            ensures
                n@ == handshake_backed_off(next_attempt_at_ms)(r@),
            {
                let mut row = r.duplicate();
                row.attempt_count = bump(r.attempt_count);
                row.next_attempt_at_ms = next_attempt_at_ms;
                row
            };
        let _changed: usize = update_rows(
            &mut self.handshakes,
            test,
            change,
            Ghost(handshake_is(message_id@)),
            Ghost(handshake_backed_off(next_attempt_at_ms)),
        );
    }

    pub fn dequeue_handshake(&mut self, message_id: &str)
        ensures
            final(self)@ == old(self)@.dequeue_handshake(message_id@),
    {
        let test = |r: &PendingHandshake| -> (b: bool)
            ensures
                b == handshake_is(message_id@)(r@),
            { text_eq(r.message_id.as_str(), message_id) };
        let _gone: usize = delete_rows(&mut self.handshakes, test, Ghost(handshake_is(message_id@)));
    }

    /// Stashes a handshake envelope of an unknown sender, once per message id,
    /// and says whether it was new. Only the newest [`STASH_LIMIT`] stay.
    pub fn stash_envelope(
        &mut self,
        message_id: &str,
        endpoint_id: &str,
        envelope_json: &str,
        now_ms: i64,
        expires_at_ms: i64,
    ) -> (inserted: bool)
        ensures
            inserted == !some_row(old(self)@.stash, stash_is(message_id@)),
            old(self)@.stashed(
                (StashModel {
                    message_id: message_id@,
                    endpoint_id: endpoint_id@,
                    envelope_json: envelope_json@,
                    received_at_ms: now_ms,
                    expires_at_ms,
                }),
                final(self)@,
            ),
    {
        let ghost before = self@;
        let ghost row = StashModel {
            message_id: message_id@,
            endpoint_id: endpoint_id@,
            envelope_json: envelope_json@,
            received_at_ms: now_ms,
            expires_at_ms,
        };
        let test = |r: &StashRow| -> (b: bool)
            ensures
                b == stash_is(message_id@)(r@),
            { text_eq(r.message_id.as_str(), message_id) };
        let inserted = !any_row(&self.stash, test, Ghost(stash_is(message_id@)));
        if inserted {
            self.stash.push(
                StashRow {
                    message_id: message_id.to_owned(),
                    endpoint_id: endpoint_id.to_owned(),
                    envelope_json: envelope_json.to_owned(),
                    received_at_ms: now_ms,
                    expires_at_ms,
                },
            );
            assert(views(self.stash@) =~= before.stash.push(row));
        }
        assert(views(self.stash@) == before.stash_added(row));
        let mut all: Vec<StashRow> = Vec::new();
        let mut i: usize = 0;
        while i < self.stash.len()
            invariant
                i <= self.stash.len(),
                all.len() == i,
                forall|j: int| 0 <= j < i ==> (#[trigger] all@[j])@ == self.stash@[j]@,
            decreases self.stash.len() - i,
        {
            all.push(self.stash[i].duplicate());
            i += 1;
        }
        assert(views(all@) =~= before.stash_added(row));
        let at_most = |a: &StashRow, b: &StashRow| -> (r: bool)
            ensures
                r == stash_newest_first()(a@, b@),
            { a.received_at_ms >= b.received_at_ms };
        let newest = sort_rows(all, at_most, Ghost(stash_newest_first()));
        let kept = limit_rows(newest, STASH_LIMIT);
        let beyond = |r: &StashRow| -> (b: bool)
            ensures
                b == stash_beyond(views(kept@))(r@),
            {
                let wanted = r.message_id.as_str();
                let same = |k: &StashRow| -> (b: bool)
                    ensures
                        b == stash_is(wanted@)(k@),
                    { text_eq(k.message_id.as_str(), wanted) };
                !any_row(&kept, same, Ghost(stash_is(wanted@)))
            };
        let _gone: usize = delete_rows(&mut self.stash, beyond, Ghost(stash_beyond(views(kept@))));
        proof {
            assert(ordered_limited(
                views(kept@),
                before.stash_added(row),
                stash_newest_first(),
                STASH_LIMIT as int,
            ));
        }
        inserted
    }

    /// Drops the stashed envelopes that have expired and hands out the others,
    /// oldest first.
    pub fn list_stash(&mut self, now_ms: i64) -> (list: Vec<StashedEnvelope>)
        ensures
            final(self)@ == old(self)@.prune_stash(now_ms),
            old(self)@.stash_listed(now_ms, views(list@)),
    {
        let ghost before = self@;
        let expired = |r: &StashRow| -> (b: bool)
            ensures
                b == stash_expired(now_ms)(r@),
            { r.expires_at_ms <= now_ms };
        let _gone: usize = delete_rows(&mut self.stash, expired, Ghost(stash_expired(now_ms)));
        let mut all: Vec<StashRow> = Vec::new();
        let mut i: usize = 0;
        while i < self.stash.len()
            invariant
                i <= self.stash.len(),
                all.len() == i,
                forall|j: int| 0 <= j < i ==> (#[trigger] all@[j])@ == self.stash@[j]@,
            decreases self.stash.len() - i,
        {
            all.push(self.stash[i].duplicate());
            i += 1;
        }
        assert(views(all@) =~= before.prune_stash(now_ms).stash);
        let at_most = |a: &StashRow, b: &StashRow| -> (r: bool)
            ensures
                r == stash_oldest_first()(a@, b@),
            { a.received_at_ms <= b.received_at_ms };
        let rows = sort_rows(all, at_most, Ghost(stash_oldest_first()));
        let mut list: Vec<StashedEnvelope> = Vec::new();
        let mut k: usize = 0;
        while k < rows.len()
            invariant
                k <= rows.len(),
                list.len() == k,
                forall|j: int|
                    0 <= j < k ==> (#[trigger] list@[j])@ == stashed_of(views(rows@))[j],
            decreases rows.len() - k,
        {
            list.push(
                StashedEnvelope {
                    message_id: rows[k].message_id.clone(),
                    endpoint_id: rows[k].endpoint_id.clone(),
                    envelope_json: rows[k].envelope_json.clone(),
                },
            );
            k += 1;
        }
        assert(views(list@) =~= stashed_of(views(rows@)));
        list
    }

    pub fn unstash(&mut self, message_id: &str)
        ensures
            final(self)@ == old(self)@.unstash(message_id@),
    {
        let test = |r: &StashRow| -> (b: bool)
            ensures
                b == stash_is(message_id@)(r@),
            { text_eq(r.message_id.as_str(), message_id) };
        let _gone: usize = delete_rows(&mut self.stash, test, Ghost(stash_is(message_id@)));
    }

    /// Notes how far a peer has synced a conversation; the cursor never moves
    /// back.
    pub fn update_sync_cursor(
        &mut self,
        peer_id: &str,
        conversation_id: &str,
        last_sequence: i64,
        now_ms: i64,
    )
        ensures
            final(self)@ == old(self)@.update_sync_cursor(
                peer_id@,
                conversation_id@,
                last_sequence,
                now_ms,
            ),
    {
        let test = |r: &CursorRow| -> (b: bool)
            ensures
                b == cursor_is(peer_id@, conversation_id@)(r@),
            {
                text_eq(r.peer_id.as_str(), peer_id) && text_eq(
                    r.conversation_id.as_str(),
                    conversation_id,
                )
            };
        let change = |r: &CursorRow| -> (n: CursorRow)
            ensures
                n@ == cursor_advanced(last_sequence, now_ms)(r@),
            {
                let mut row = r.duplicate();
                if row.last_sequence < last_sequence {
                    row.last_sequence = last_sequence;
                }
                row.updated_at_ms = now_ms;
                row
            };
        upsert_row(
            &mut self.cursors,
            test,
            change,
            CursorRow {
                peer_id: peer_id.to_owned(),
                conversation_id: conversation_id.to_owned(),
                last_sequence,
                updated_at_ms: now_ms,
            },
            Ghost(cursor_is(peer_id@, conversation_id@)),
            Ghost(cursor_advanced(last_sequence, now_ms)),
        );
    }

    /// Uses up a number of a device in a conversation.
    pub fn use_number(
        &mut self,
        conversation_id: &str,
        device_id: &str,
        control: bool,
        number: i64,
    )
        ensures
            final(self)@ == old(self)@.use_number(
                conversation_id@,
                device_id@,
                control,
                number,
            ),
    {
        let row = NumberRow {
            conversation_id: conversation_id.to_owned(),
            device_id: device_id.to_owned(),
            control,
            last_number: number,
        };
        let test = |r: &NumberRow| -> (b: bool)
            ensures
                b == number_is(conversation_id@, device_id@, control)(r@),
            {
                text_eq(r.conversation_id.as_str(), conversation_id) && text_eq(
                    r.device_id.as_str(),
                    device_id,
                ) && r.control == control
            };
        let change = |r: &NumberRow| -> (n: NumberRow)
            ensures
                n@ == number_advanced(number)(r@),
            {
                let mut row = r.duplicate();
                if number > row.last_number {
                    row.last_number = number;
                }
                row
            };
        upsert_row(
            &mut self.numbers,
            test,
            change,
            row,
            Ghost(number_is(conversation_id@, device_id@, control)),
            Ghost(number_advanced(number)),
        );
    }

    /// How far a device has used up its numbers in a conversation.
    pub fn used_number(&self, conversation_id: &str, device_id: &str, control: bool) -> (used:
        Option<i64>)
        ensures
            used == self@.used_number(conversation_id@, device_id@, control),
    {
        let test = |r: &NumberRow| -> (b: bool)
            ensures
                b == number_is(conversation_id@, device_id@, control)(r@),
            {
                text_eq(r.conversation_id.as_str(), conversation_id) && text_eq(
                    r.device_id.as_str(),
                    device_id,
                ) && r.control == control
            };
        match find_row(
            &self.numbers,
            test,
            Ghost(number_is(conversation_id@, device_id@, control)),
        ) {
            Some(r) => Some(r.last_number),
            None => None,
        }
    }

    /// Spools an object for a recipient, once per id.
    pub fn spool_mailbox(
        &mut self,
        id: &str,
        recipient: &str,
        envelope_json: &str,
        now_ms: i64,
        expires_at_ms: i64,
    )
        ensures
            final(self)@ == old(self)@.spool_mailbox(
                (MailboxModel {
                    id: id@,
                    recipient_username: recipient@,
                    envelope_json: envelope_json@,
                    created_at_ms: now_ms,
                    expires_at_ms,
                    state: "pending"@,
                }),
            ),
    {
        let test = |r: &MailboxRow| -> (b: bool)
            ensures
                b == mailbox_is(id@)(r@),
            { text_eq(r.id.as_str(), id) };
        if !any_row(&self.mailbox, test, Ghost(mailbox_is(id@))) {
            let ghost before = views(self.mailbox@);
            let row = MailboxRow {
                id: id.to_owned(),
                recipient_username: recipient.to_owned(),
                envelope_json: envelope_json.to_owned(),
                created_at_ms: now_ms,
                expires_at_ms,
                state: "pending".to_owned(),
            };
            self.mailbox.push(row);
            assert(views(self.mailbox@) =~= before.push(row@));
        }
    }

    /// What waits for a recipient and has not expired, oldest first.
    pub fn collect_mailbox(&self, recipient: &str, now_ms: i64) -> (list: Vec<SpooledObject>)
        ensures
            self@.mailbox_listed(recipient@, now_ms, views(list@)),
    {
        let test = |r: &MailboxRow| -> (b: bool)
            ensures
                b == mailbox_waiting(recipient@, now_ms)(r@),
            {
                text_eq(r.recipient_username.as_str(), recipient) && text_eq(
                    r.state.as_str(),
                    "pending",
                ) && r.expires_at_ms > now_ms
            };
        let found = select_rows(&self.mailbox, test, Ghost(mailbox_waiting(recipient@, now_ms)));
        let at_most = |a: &MailboxRow, b: &MailboxRow| -> (r: bool)
            ensures
                r == mailbox_oldest_first()(a@, b@),
            { a.created_at_ms <= b.created_at_ms };
        let rows = sort_rows(found, at_most, Ghost(mailbox_oldest_first()));
        let mut list: Vec<SpooledObject> = Vec::new();
        let mut k: usize = 0;
        while k < rows.len()
            invariant
                k <= rows.len(),
                list.len() == k,
                forall|j: int|
                    0 <= j < k ==> (#[trigger] list@[j])@ == spooled_of(views(rows@))[j],
            decreases rows.len() - k,
        {
            list.push(
                SpooledObject {
                    id: rows[k].id.clone(),
                    envelope_json: rows[k].envelope_json.clone(),
                },
            );
            k += 1;
        }
        assert(views(list@) =~= spooled_of(views(rows@)));
        assert(ordered(
            views(rows@),
            self@.mailbox.filter(mailbox_waiting(recipient@, now_ms)),
            mailbox_oldest_first(),
        ));
        list
    }

    pub fn ack_mailbox(&mut self, id: &str)
        ensures
            final(self)@ == old(self)@.ack_mailbox(id@),
    {
        let test = |r: &MailboxRow| -> (b: bool)
            ensures
                b == mailbox_is(id@)(r@),
            { text_eq(r.id.as_str(), id) };
        let change = |r: &MailboxRow| -> (n: MailboxRow)
            ensures
                n@ == mailbox_in_state("acked"@)(r@),
            {
                let mut row = r.duplicate();
                row.state = "acked".to_owned();
                row
            };
        let _changed: usize = update_rows(
            &mut self.mailbox,
            test,
            change,
            Ghost(mailbox_is(id@)),
            Ghost(mailbox_in_state("acked"@)),
        );
    }

    /// Expires what waited too long and says how many objects those were.
    pub fn expire_mailbox(&mut self, now_ms: i64) -> (count: u64)
        ensures
            final(self)@ == old(self)@.expire_mailbox(now_ms),
            count == old(self)@.mailbox.filter(mailbox_expired(now_ms)).len(),
    {
        let test = |r: &MailboxRow| -> (b: bool)
            ensures
                b == mailbox_expired(now_ms)(r@),
            { text_eq(r.state.as_str(), "pending") && r.expires_at_ms <= now_ms };
        let change = |r: &MailboxRow| -> (n: MailboxRow)
            ensures
                n@ == mailbox_in_state("expired"@)(r@),
            {
                let mut row = r.duplicate();
                row.state = "expired".to_owned();
                row
            };
        let changed: usize = update_rows(
            &mut self.mailbox,
            test,
            change,
            Ghost(mailbox_expired(now_ms)),
            Ghost(mailbox_in_state("expired"@)),
        );
        changed as u64
    }
}

/// The pending item that was found.
pub open spec fn opt_pending(p: Option<PendingItem>) -> Option<PendingModel> {
    match p {
        Some(p) => Some(p@),
        None => None,
    }
}

} // verus!
