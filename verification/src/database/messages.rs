//! Message history.

use vstd::prelude::*;

use crate::database::Database;
use crate::database::model::{
    conversation_is, conversation_with_last, highest_number, holds_text, message_clash,
    message_deleted, message_edited, message_from, message_is, message_unread, message_with_status,
    messages_newest_first, messages_oldest_first, thread_match, thread_message, thread_type,
    PREVIEW_CHARS, SEARCH_CHARS,
};
use crate::error::Error;
use crate::records::{ConversationRow, Message, MessageModel};
use crate::table::{
    any_row, find_row, limit_rows, ordered, select_rows, sort_rows, update_rows, views, Row,
};
use crate::text::{char_lower, chars_of, copy_bytes, lowered, take_chars, text_eq};

verus! {

/// Whether threads show messages of this type.
fn shown_in_thread(message_type: &str) -> (shown: bool)
    ensures
        shown == thread_type(message_type@),
{
    text_eq(message_type, "Message") || text_eq(message_type, "FileOffer") || text_eq(
        message_type,
        "GroupMessage",
    )
}

/// Whether `text` holds `part`, ASCII letters compared without their case.
fn text_holds(text: &str, part: &str) -> (found: bool)
    ensures
        found == holds_text(text@, part@),
{
    let t = chars_of(text);
    let p = chars_of(part);
    if p.len() > t.len() {
        return false;
    }
    let last: usize = t.len() - p.len();
    let mut at: usize = 0;
    while at <= last
        invariant
            t@ == text@,
            p@ == part@,
            p.len() <= t.len(),
            last == t.len() - p.len(),
            at <= last + 1,
            forall|k: int|
                0 <= k < at ==> #[trigger] lowered(t@.subrange(k, k + p.len())) != lowered(p@),
        decreases last + 1 - at,
    {
        let mut i: usize = 0;
        while i < p.len() && char_lower(t[at + i]) == char_lower(p[i])
            invariant
                p.len() <= t.len(),
                at <= last,
                last == t.len() - p.len(),
                i <= p.len(),
                forall|k: int|
                    0 <= k < i ==> lowered(t@.subrange(at as int, at + p.len()))[k] == #[trigger] lowered(
                        p@,
                    )[k],
            decreases p.len() - i,
        {
            i += 1;
        }
        if i == p.len() {
            assert(lowered(t@.subrange(at as int, at + p.len())) =~= lowered(p@));
            return true;
        }
        assert(lowered(t@.subrange(at as int, at + p.len()))[i as int] != lowered(p@)[i as int]);
        if at == last {
            return false;
        }
        at += 1;
    }
    false
}

fn after_number(n: i64) -> (next: Result<i64, Error>)
    ensures
        n < i64::MAX ==> next == Ok::<i64, Error>((n + 1) as i64),
        n == i64::MAX ==> next == Err::<i64, Error>(Error::SequenceExhausted),
{
    if n == i64::MAX {
        Err(Error::SequenceExhausted)
    } else {
        Ok(n + 1)
    }
}

impl Database {
    /// Stores a message unless it is already there or its number is taken, and
    /// says whether it was stored. A new message becomes the last one of its
    /// conversation.
    pub fn insert_message(&mut self, message: &Message) -> (stored: Result<bool, Error>)
        ensures
            old(self)@.clashes(message@) ==> stored == Ok::<bool, Error>(false) && final(self)@
                == old(self)@,
            !old(self)@.clashes(message@) && old(self)@.has_conversation(message@.conversation_id)
                ==> stored == Ok::<bool, Error>(true) && final(self)@ == old(self)@.add_message(
                message@,
            ),
            !old(self)@.clashes(message@) && !old(self)@.has_conversation(message@.conversation_id)
                ==> stored == Err::<bool, Error>(Error::Constraint) && final(self)@ == old(self)@,
    {
        let clash = |r: &Message| -> (b: bool)
            ensures
                b == message_clash(message@)(r@),
            {
                text_eq(r.id.as_str(), message.id.as_str()) || (text_eq(
                    r.conversation_id.as_str(),
                    message.conversation_id.as_str(),
                ) && text_eq(r.sender_device_id.as_str(), message.sender_device_id.as_str())
                    && r.sequence == message.sequence)
            };
        if any_row(&self.messages, clash, Ghost(message_clash(message@))) {
            return Ok(false);
        }
        if !self.has_conversation(message.conversation_id.as_str()) {
            return Err(Error::Constraint);
        }
        let ghost before = self@;
        self.messages.push(message.duplicate());
        assert(views(self.messages@) =~= before.messages.push(message@));
        let preview = take_chars(message.body.as_str(), PREVIEW_CHARS);
        let test = |r: &ConversationRow| -> (b: bool)
            ensures
                b == conversation_is(message@.conversation_id)(r@),
            { text_eq(r.id.as_str(), message.conversation_id.as_str()) };
        let change = |r: &ConversationRow| -> (n: ConversationRow)
            ensures
                n@ == conversation_with_last(message@)(r@),
            {
                let mut row = r.duplicate();
                row.updated_at_ms = message.created_at_ms;
                row.last_message_id = Some(message.id.clone());
                row.last_message_preview = Some(preview.clone());
                row
            };
        let _changed: usize = update_rows(
            &mut self.conversations,
            test,
            change,
            Ghost(conversation_is(message@.conversation_id)),
            Ghost(conversation_with_last(message@)),
        );
        Ok(true)
    }

    /// The thread of a conversation, oldest first. Control messages (edits,
    /// deletions, acks, file chunks, commits) are applied elsewhere and stay out.
    pub fn list_messages(&self, conversation_id: &str, limit: i64) -> (list: Vec<Message>)
        ensures
            self@.thread_listed(conversation_id@, limit as int, views(list@)),
    {
        let test = |r: &Message| -> (b: bool)
            ensures
                b == thread_message(conversation_id@)(r@),
            {
                text_eq(r.conversation_id.as_str(), conversation_id) && r.deleted_at_ms.is_none()
                    && shown_in_thread(r.message_type.as_str())
            };
        let found = select_rows(&self.messages, test, Ghost(thread_message(conversation_id@)));
        let at_most = |a: &Message, b: &Message| -> (r: bool)
            ensures
                r == messages_oldest_first()(a@, b@),
            {
                a.created_at_ms < b.created_at_ms || (a.created_at_ms == b.created_at_ms
                    && a.sequence <= b.sequence)
            };
        let rows = sort_rows(found, at_most, Ghost(messages_oldest_first()));
        assert(ordered(
            views(rows@),
            self@.messages.filter(thread_message(conversation_id@)),
            messages_oldest_first(),
        ));
        limit_rows(rows, limit)
    }

    pub fn set_message_status(&mut self, id: &str, status: &str)
        ensures
            final(self)@ == old(self)@.set_message_status(id@, status@),
    {
        let test = |r: &Message| -> (b: bool)
            ensures
                b == message_is(id@)(r@),
            { text_eq(r.id.as_str(), id) };
        let change = |r: &Message| -> (n: Message)
            ensures
                n@ == message_with_status(status@)(r@),
            {
                let mut row = r.duplicate();
                row.status = status.to_owned();
                row
            };
        let _changed: usize = update_rows(
            &mut self.messages,
            test,
            change,
            Ghost(message_is(id@)),
            Ghost(message_with_status(status@)),
        );
    }

    pub fn edit_message(&mut self, id: &str, body: &str, ciphertext: &[u8], now_ms: i64)
        ensures
            final(self)@ == old(self)@.edit_message(id@, body@, ciphertext@, now_ms),
    {
        let test = |r: &Message| -> (b: bool)
            ensures
                b == message_is(id@)(r@),
            { text_eq(r.id.as_str(), id) };
        let change = |r: &Message| -> (n: Message)
            ensures
                n@ == message_edited(body@, ciphertext@, now_ms)(r@),
            {
                let mut row = r.duplicate();
                row.body = body.to_owned();
                row.ciphertext = copy_bytes(ciphertext);
                row.edited_at_ms = Some(now_ms);
                row
            };
        let _changed: usize = update_rows(
            &mut self.messages,
            test,
            change,
            Ghost(message_is(id@)),
            Ghost(message_edited(body@, ciphertext@, now_ms)),
        );
    }

    /// Marks a message deleted and forgets its body.
    pub fn tombstone_message(&mut self, id: &str, now_ms: i64)
        ensures
            final(self)@ == old(self)@.tombstone_message(id@, now_ms),
    {
        let test = |r: &Message| -> (b: bool)
            ensures
                b == message_is(id@)(r@),
            { text_eq(r.id.as_str(), id) };
        let change = |r: &Message| -> (n: Message)
            ensures
                n@ == message_deleted(now_ms)(r@),
            {
                let mut row = r.duplicate();
                row.body = String::new();
                row.deleted_at_ms = Some(now_ms);
                row
            };
        let _changed: usize = update_rows(
            &mut self.messages,
            test,
            change,
            Ghost(message_is(id@)),
            Ghost(message_deleted(now_ms)),
        );
    }

    /// The number that the device gives its next message in the conversation: one more
    /// than the highest that it used, starting at 1.
    pub fn next_sequence(&self, conversation_id: &str, sender_device_id: &str) -> (next: Result<
        i64,
        Error,
    >)
        ensures
            self@.next_number(conversation_id@, sender_device_id@) <= i64::MAX ==> next is Ok
                && next->Ok_0 == self@.next_number(conversation_id@, sender_device_id@),
            self@.next_number(conversation_id@, sender_device_id@) > i64::MAX ==> next == Err::<
                i64,
                Error,
            >(Error::SequenceExhausted),
    {
        let test = |r: &Message| -> (b: bool)
            ensures
                b == message_from(conversation_id@, sender_device_id@)(r@),
            {
                text_eq(r.conversation_id.as_str(), conversation_id) && text_eq(
                    r.sender_device_id.as_str(),
                    sender_device_id,
                )
            };
        let own = select_rows(
            &self.messages,
            test,
            Ghost(message_from(conversation_id@, sender_device_id@)),
        );
        let ghost rows = views(own@);
        let used = self.used_number(conversation_id, sender_device_id, false);
        if own.len() == 0 {
            return match used {
                Some(n) => after_number(n),
                None => Ok(1),
            };
        }
        let mut top: i64 = own[0].sequence;
        let mut i: usize = 1;
        assert(rows.take(1)[0] == rows[0]);
        while i < own.len()
            invariant
                1 <= i <= own.len(),
                rows == views(own@),
                top == highest_number(rows.take(i as int)),
            decreases own.len() - i,
        {
            assert(rows.take(i + 1).drop_last() =~= rows.take(i as int));
            assert(rows.take(i + 1).last() == own@[i as int]@);
            if own[i].sequence > top {
                top = own[i].sequence;
            }
            i += 1;
        }
        assert(rows.take(i as int) =~= rows);
        match used {
            Some(n) => if top < n {
                after_number(n)
            } else {
                after_number(top)
            },
            None => after_number(top),
        }
    }

    /// Case-insensitive substring search over the thread, newest first.
    pub fn search_messages(&self, conversation_id: &str, query: &str, limit: i64) -> (list: Vec<
        Message,
    >)
        ensures
            self@.search_listed(conversation_id@, query@, limit as int, views(list@)),
    {
        let wanted = take_chars(query, SEARCH_CHARS);
        let test = |r: &Message| -> (b: bool)
            ensures
                b == thread_match(conversation_id@, query@)(r@),
            {
                text_eq(r.conversation_id.as_str(), conversation_id) && r.deleted_at_ms.is_none()
                    && shown_in_thread(r.message_type.as_str()) && text_holds(
                    r.body.as_str(),
                    wanted.as_str(),
                )
            };
        let found = select_rows(
            &self.messages,
            test,
            Ghost(thread_match(conversation_id@, query@)),
        );
        let at_most = |a: &Message, b: &Message| -> (r: bool)
            ensures
                r == messages_newest_first()(a@, b@),
            { a.created_at_ms >= b.created_at_ms };
        let rows = sort_rows(found, at_most, Ghost(messages_newest_first()));
        assert(ordered(
            views(rows@),
            self@.messages.filter(thread_match(conversation_id@, query@)),
            messages_newest_first(),
        ));
        limit_rows(rows, limit)
    }

    pub fn get_message(&self, id: &str) -> (message: Option<Message>)
        ensures
            opt_message(message) == self@.message(id@),
    {
        let test = |r: &Message| -> (b: bool)
            ensures
                b == message_is(id@)(r@),
            { text_eq(r.id.as_str(), id) };
        match find_row(&self.messages, test, Ghost(message_is(id@))) {
            Some(r) => Some(r.duplicate()),
            None => None,
        }
    }

    /// How many messages of others were delivered and not yet read.
    pub fn unread_count(&self, conversation_id: &str, my_username: &str) -> (count: u64)
        ensures
            count == self@.unread(conversation_id@, my_username@),
    {
        let test = |r: &Message| -> (b: bool)
            ensures
                b == message_unread(conversation_id@, my_username@)(r@),
            {
                text_eq(r.conversation_id.as_str(), conversation_id) && !text_eq(
                    r.sender_username.as_str(),
                    my_username,
                ) && text_eq(r.status.as_str(), "delivered") && r.deleted_at_ms.is_none()
            };
        let found = select_rows(
            &self.messages,
            test,
            Ghost(message_unread(conversation_id@, my_username@)),
        );
        assert(views(found@).len() == found.len());
        found.len() as u64
    }
}

/// The message that was found.
pub open spec fn opt_message(m: Option<Message>) -> Option<MessageModel> {
    match m {
        Some(m) => Some(m@),
        None => None,
    }
}

} // verus!
