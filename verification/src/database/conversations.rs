//! Conversations and their members.

use vstd::prelude::*;

use crate::database::Database;
use crate::database::model::{
    conversation_is, conversation_previewed, conversation_renamed, conversations_latest_first,
    dm_with, file_in, group_is, group_key_of, joined, member_beyond, member_is, member_of,
    members_by_name, message_in, message_is, names_of, pending_of_any,
};
use crate::error::Error;
use crate::records::{
    Conversation, ConversationRow, ConversationRowModel, FileRow, GroupKeyRow, GroupRow,
    MemberModel, MemberRow, Message, PendingItem,
};
use crate::table::{
    any_row, delete_rows, find_row, ordered, select_rows, sort_rows, total_preorder, update_rows,
    upsert_row, views, Row,
};
use crate::text::{
    copy_opt_text, lemma_text_le_total, lemma_text_le_transitive, lists_text, opt_text,
    text_at_most, text_eq, texts,
};

verus! {

pub(crate) proof fn lemma_members_by_name_total()
    ensures
        total_preorder(members_by_name()),
{
    let le = members_by_name();
    assert forall|a: MemberModel, b: MemberModel| #[trigger] le(a, b) || le(b, a) by {
        lemma_text_le_total(a.username, b.username);
    }
    assert forall|a: MemberModel, b: MemberModel, c: MemberModel| #[trigger]
        le(a, b) && #[trigger] le(b, c) implies le(a, c) by {
        lemma_text_le_transitive(a.username, b.username, c.username);
    }
}

/// Lets each of `names` join the conversation.
fn join_members(members: &mut Vec<MemberRow>, conversation: &str, names: &Vec<String>, now_ms: i64)
    ensures
        views(final(members)@) == joined(
            views(old(members)@),
            conversation@,
            texts(names@),
            now_ms,
        ),
{
    let ghost start = views(members@);
    let ghost list = texts(names@);
    let mut i: usize = 0;
    assert(list.take(0) =~= Seq::<Seq<char>>::empty());
    while i < names.len()
        invariant
            i <= names.len(),
            list == texts(names@),
            views(members@) == joined(start, conversation@, list.take(i as int), now_ms),
        decreases names.len() - i,
    {
        let name = names[i].as_str();
        let test = |r: &MemberRow| -> (b: bool)
            ensures
                b == member_is(conversation@, name@)(r@),
            {
                text_eq(r.conversation_id.as_str(), conversation) && text_eq(
                    r.username.as_str(),
                    name,
                )
            };
        let ghost before = views(members@);
        proof {
            assert(list.take(i + 1).drop_last() =~= list.take(i as int));
            assert(list.take(i + 1).last() == name@);
        }
        if !any_row(members, test, Ghost(member_is(conversation@, name@))) {
            let row = MemberRow {
                conversation_id: conversation.to_owned(),
                username: name.to_owned(),
                added_at_ms: now_ms,
            };
            members.push(row);
            assert(views(members@) =~= before.push(row@));
        }
        i += 1;
    }
    assert(list.take(i as int) =~= list);
}

impl Database {
    /// Whether a conversation is stored.
    pub fn has_conversation(&self, id: &str) -> (found: bool)
        ensures
            found == self@.has_conversation(id@),
    {
        let test = |r: &ConversationRow| -> (b: bool)
            ensures
                b == conversation_is(id@)(r@),
            { text_eq(r.id.as_str(), id) };
        any_row(&self.conversations, test, Ghost(conversation_is(id@)))
    }

    /// Makes a conversation, or renames it, and lets `members` join it.
    pub fn create_conversation(
        &mut self,
        id: &str,
        kind: &str,
        name: &str,
        members: &Vec<String>,
        now_ms: i64,
    )
        ensures
            final(self)@ == old(self)@.create_conversation(
                id@,
                kind@,
                name@,
                texts(members@),
                now_ms,
            ),
    {
        let test = |r: &ConversationRow| -> (b: bool)
            ensures
                b == conversation_is(id@)(r@),
            { text_eq(r.id.as_str(), id) };
        let change = |r: &ConversationRow| -> (n: ConversationRow)
            ensures
                n@ == conversation_renamed(name@, now_ms)(r@),
            {
                let mut row = r.duplicate();
                row.name = name.to_owned();
                row.updated_at_ms = now_ms;
                row
            };
        upsert_row(
            &mut self.conversations,
            test,
            change,
            ConversationRow {
                id: id.to_owned(),
                kind: kind.to_owned(),
                name: name.to_owned(),
                created_at_ms: now_ms,
                updated_at_ms: now_ms,
                last_message_id: None,
                last_message_preview: None,
            },
            Ghost(conversation_is(id@)),
            Ghost(conversation_renamed(name@, now_ms)),
        );
        join_members(&mut self.members, id, members, now_ms);
    }

    pub fn rename_conversation(&mut self, id: &str, name: &str, now_ms: i64)
        ensures
            final(self)@ == old(self)@.rename_conversation(id@, name@, now_ms),
    {
        let test = |r: &ConversationRow| -> (b: bool)
            ensures
                b == conversation_is(id@)(r@),
            { text_eq(r.id.as_str(), id) };
        let change = |r: &ConversationRow| -> (n: ConversationRow)
            ensures
                n@ == conversation_renamed(name@, now_ms)(r@),
            {
                let mut row = r.duplicate();
                row.name = name.to_owned();
                row.updated_at_ms = now_ms;
                row
            };
        let _changed: usize = update_rows(
            &mut self.conversations,
            test,
            change,
            Ghost(conversation_is(id@)),
            Ghost(conversation_renamed(name@, now_ms)),
        );
    }

    /// Makes `members` the members of the conversation. Who stays keeps the time
    /// they were added.
    pub fn set_conversation_members(
        &mut self,
        conversation_id: &str,
        members: &Vec<String>,
        now_ms: i64,
    ) -> (result: Result<(), Error>)
        ensures
            (members.len() > 0 && !old(self)@.has_conversation(conversation_id@)) ==> result == Err::<
                (),
                Error,
            >(Error::Constraint) && final(self)@ == old(self)@,
            (members.len() == 0 || old(self)@.has_conversation(conversation_id@)) ==> result is Ok
                && final(self)@ == old(self)@.set_conversation_members(
                conversation_id@,
                texts(members@),
                now_ms,
            ),
    {
        if members.len() > 0 && !self.has_conversation(conversation_id) {
            return Err(Error::Constraint);
        }
        join_members(&mut self.members, conversation_id, members, now_ms);
        let ghost listed = texts(members@);
        let test = |r: &MemberRow| -> (b: bool)
            ensures
                b == member_beyond(conversation_id@, texts(members@))(r@),
            {
                text_eq(r.conversation_id.as_str(), conversation_id) && !lists_text(
                    members,
                    r.username.as_str(),
                )
            };
        let _gone: usize = delete_rows(
            &mut self.members,
            test,
            Ghost(member_beyond(conversation_id@, listed)),
        );
        Ok(())
    }

    pub fn remove_conversation_member(&mut self, conversation_id: &str, username: &str)
        ensures
            final(self)@ == old(self)@.remove_conversation_member(conversation_id@, username@),
    {
        let test = |r: &MemberRow| -> (b: bool)
            ensures
                b == member_is(conversation_id@, username@)(r@),
            {
                text_eq(r.conversation_id.as_str(), conversation_id) && text_eq(
                    r.username.as_str(),
                    username,
                )
            };
        let _gone: usize = delete_rows(
            &mut self.members,
            test,
            Ghost(member_is(conversation_id@, username@)),
        );
    }

    /// Deletes a conversation with everything that belongs to it.
    pub fn delete_conversation(&mut self, id: &str)
        ensures
            final(self)@ == old(self)@.delete_conversation(id@),
    {
        if !self.has_conversation(id) {
            return ;
        }
        let ghost before = self@;
        let in_it = |r: &Message| -> (b: bool)
            ensures
                b == message_in(id@)(r@),
            { text_eq(r.conversation_id.as_str(), id) };
        let going = select_rows(&self.messages, in_it, Ghost(message_in(id@)));
        let ghost gone = views(going@);
        let of_gone = |r: &PendingItem| -> (b: bool)
            ensures
                b == pending_of_any(views(going@))(r@),
            {
                let wanted = r.message_id.as_str();
                let same = |m: &Message| -> (b: bool)
                    ensures
                        b == message_is(wanted@)(m@),
                    { text_eq(m.id.as_str(), wanted) };
                any_row(&going, same, Ghost(message_is(wanted@)))
            };
        let _a: usize = delete_rows(&mut self.pending, of_gone, Ghost(pending_of_any(gone)));
        let _b: usize = delete_rows(&mut self.messages, in_it, Ghost(message_in(id@)));
        let is_it = |r: &ConversationRow| -> (b: bool)
            ensures
                b == conversation_is(id@)(r@),
            { text_eq(r.id.as_str(), id) };
        let _c: usize = delete_rows(&mut self.conversations, is_it, Ghost(conversation_is(id@)));
        let member = |r: &MemberRow| -> (b: bool)
            ensures
                b == member_of(id@)(r@),
            { text_eq(r.conversation_id.as_str(), id) };
        let _d: usize = delete_rows(&mut self.members, member, Ghost(member_of(id@)));
        let group = |r: &GroupRow| -> (b: bool)
            ensures
                b == group_is(id@)(r@),
            { text_eq(r.group_id.as_str(), id) };
        let _e: usize = delete_rows(&mut self.groups, group, Ghost(group_is(id@)));
        let key = |r: &GroupKeyRow| -> (b: bool)
            ensures
                b == group_key_of(id@)(r@),
            { text_eq(r.group_id.as_str(), id) };
        let _f: usize = delete_rows(&mut self.group_keys, key, Ghost(group_key_of(id@)));
        let file = |r: &FileRow| -> (b: bool)
            ensures
                b == file_in(id@)(r@),
            { text_eq(r.file.conversation_id.as_str(), id) };
        let _g: usize = delete_rows(&mut self.files, file, Ghost(file_in(id@)));
    }

    /// All conversations with their members, the latest change first.
    pub fn list_conversations(&self) -> (list: Vec<Conversation>)
        ensures
            self@.conversations_shown(views(list@)),
    {
        let mut all: Vec<ConversationRow> = Vec::new();
        let mut i: usize = 0;
        while i < self.conversations.len()
            invariant
                i <= self.conversations.len(),
                all.len() == i,
                forall|j: int| 0 <= j < i ==> (#[trigger] all@[j])@ == self.conversations@[j]@,
            decreases self.conversations.len() - i,
        {
            all.push(self.conversations[i].duplicate());
            i += 1;
        }
        assert(views(all@) =~= self@.conversations);
        let at_most = |a: &ConversationRow, b: &ConversationRow| -> (r: bool)
            ensures
                r == conversations_latest_first()(a@, b@),
            { a.updated_at_ms >= b.updated_at_ms };
        let rows = sort_rows(all, at_most, Ghost(conversations_latest_first()));
        let mut list: Vec<Conversation> = Vec::new();
        let mut k: usize = 0;
        while k < rows.len()
            invariant
                k <= rows.len(),
                list.len() == k,
                forall|j: int|
                    0 <= j < k ==> self@.conversation_shown(rows@[j]@, (#[trigger] list@[j])@),
            decreases rows.len() - k,
        {
            let members = self.conversation_members(rows[k].id.as_str());
            let shown = Conversation {
                id: rows[k].id.clone(),
                kind: rows[k].kind.clone(),
                name: rows[k].name.clone(),
                created_at_ms: rows[k].created_at_ms,
                updated_at_ms: rows[k].updated_at_ms,
                last_message_preview: copy_opt_text(&rows[k].last_message_preview),
                members,
            };
            list.push(shown);
            k += 1;
        }
        proof {
            let shown = views(list@);
            let sorted = views(rows@);
            assert forall|j: int| 0 <= j < sorted.len() implies self@.conversation_shown(
                sorted[j],
                #[trigger] shown[j],
            ) by {
                assert(shown[j] == list@[j]@);
            }
        }
        list
    }

    /// The members of a conversation in the order of their names.
    pub fn conversation_members(&self, conversation_id: &str) -> (names: Vec<String>)
        ensures
            self@.members_listed(conversation_id@, texts(names@)),
    {
        let test = |r: &MemberRow| -> (b: bool)
            ensures
                b == member_of(conversation_id@)(r@),
            { text_eq(r.conversation_id.as_str(), conversation_id) };
        let found = select_rows(&self.members, test, Ghost(member_of(conversation_id@)));
        proof {
            lemma_members_by_name_total();
        }
        let at_most = |a: &MemberRow, b: &MemberRow| -> (r: bool)
            ensures
                r == members_by_name()(a@, b@),
            { text_at_most(a.username.as_str(), b.username.as_str()) };
        let rows = sort_rows(found, at_most, Ghost(members_by_name()));
        let mut names: Vec<String> = Vec::new();
        let mut i: usize = 0;
        while i < rows.len()
            invariant
                i <= rows.len(),
                names.len() == i,
                forall|j: int| 0 <= j < i ==> (#[trigger] names@[j])@ == rows@[j]@.username,
            decreases rows.len() - i,
        {
            names.push(rows[i].username.clone());
            i += 1;
        }
        assert(texts(names@) =~= names_of(views(rows@)));
        assert(ordered(
            views(rows@),
            self@.members.filter(member_of(conversation_id@)),
            members_by_name(),
        ));
        names
    }

    /// Whether someone is a member of a conversation.
    pub fn is_member(&self, conversation_id: &str, username: &str) -> (found: bool)
        ensures
            found == self@.is_member(conversation_id@, username@),
    {
        let test = |r: &MemberRow| -> (b: bool)
            ensures
                b == member_is(conversation_id@, username@)(r@),
            {
                text_eq(r.conversation_id.as_str(), conversation_id) && text_eq(
                    r.username.as_str(),
                    username,
                )
            };
        any_row(&self.members, test, Ghost(member_is(conversation_id@, username@)))
    }

    /// The direct conversation with someone.
    pub fn find_dm_with(&self, username: &str) -> (id: Option<String>)
        ensures
            opt_text(id) == self@.dm_with(username@),
    {
        let test = |r: &ConversationRow| -> (b: bool)
            ensures
                b == dm_with(self@.members, username@)(r@),
            { text_eq(r.kind.as_str(), "dm") && self.is_member(r.id.as_str(), username) };
        match find_row(&self.conversations, test, Ghost(dm_with(self@.members, username@))) {
            Some(r) => Some(r.id.clone()),
            None => None,
        }
    }

    /// The stored row of a conversation.
    pub fn get_conversation(&self, id: &str) -> (row: Option<ConversationRow>)
        ensures
            opt_conversation(row) == self@.conversation(id@),
    {
        let test = |r: &ConversationRow| -> (b: bool)
            ensures
                b == conversation_is(id@)(r@),
            { text_eq(r.id.as_str(), id) };
        match find_row(&self.conversations, test, Ghost(conversation_is(id@))) {
            Some(r) => Some(r.duplicate()),
            None => None,
        }
    }

    pub fn set_conversation_preview(&mut self, conversation_id: &str, preview: &str, now_ms: i64)
        ensures
            final(self)@ == old(self)@.set_conversation_preview(
                conversation_id@,
                preview@,
                now_ms,
            ),
    {
        let test = |r: &ConversationRow| -> (b: bool)
            ensures
                b == conversation_is(conversation_id@)(r@),
            { text_eq(r.id.as_str(), conversation_id) };
        let change = |r: &ConversationRow| -> (n: ConversationRow)
            ensures
                n@ == conversation_previewed(preview@, now_ms)(r@),
            {
                let mut row = r.duplicate();
                row.last_message_preview = Some(preview.to_owned());
                row.updated_at_ms = now_ms;
                row
            };
        let _changed: usize = update_rows(
            &mut self.conversations,
            test,
            change,
            Ghost(conversation_is(conversation_id@)),
            Ghost(conversation_previewed(preview@, now_ms)),
        );
    }
}

/// The conversation that was found.
pub open spec fn opt_conversation(c: Option<ConversationRow>) -> Option<ConversationRowModel> {
    match c {
        Some(c) => Some(c@),
        None => None,
    }
}

} // verus!
