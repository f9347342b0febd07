//! What every statement keeps, and what the store as a whole promises.

use vstd::prelude::*;

use crate::database::DbModel;
use crate::database::model::{
    contact_is, contact_key, contact_resaved, contact_with_status, conversation_is,
    conversation_key, conversation_previewed, conversation_renamed, conversation_with_last,
    cursor_advanced, cursor_is, cursor_key, device_is, device_key, device_resaved, file_in, file_is,
    file_key_id, file_resaved, file_with_offer, group_is, group_key_for, group_key_id, group_key_is,
    group_key_of, group_resaved, handshake_backed_off, handshake_is, handshake_key,
    handshake_requeued, highest_number, joined, lemma_highest_number, mailbox_expired,
    mailbox_in_state, mailbox_is, mailbox_key, mailbox_waiting, member_beyond, member_is,
    member_key, member_of, message_clash, message_deleted, message_edited, message_from, message_in,
    message_is, message_key, message_number, message_with_status, number_advanced, number_is,
    number_key, pending_backed_off, pending_counted, pending_id_is, pending_is, pending_key,
    pending_of, pending_of_any, pending_pair, pending_requeued, request_is, request_key,
    request_with_status, setting_is, setting_key, setting_with_value, stash_beyond, stash_expired,
    stash_is, stash_key, stash_newest_first, thread_message, wrapped_key_id, STASH_LIMIT,
};
use crate::records::{
    ContactModel, ContactRowModel, ConversationRowModel, CursorModel, DeviceModel, FileRowModel,
    FileTransferModel, FriendRequestModel, GroupKeyModel, GroupModel, MailboxModel, MemberModel,
    MessageModel, NumberModel, PendingHandshakeModel, PendingModel, RequestRowModel, SettingModel,
    StashModel,
};
use crate::table::{
    first_row, lemma_filter_rows, lemma_first_row, lemma_first_row_kept, lemma_first_row_pushed,
    lemma_first_row_updated, lemma_unique_filtered, lemma_unique_pushed, lemma_unique_updated,
    lemma_without, limited, ordered, ordered_limited, some_row, unique, updated, upserted, without,
};

verus! {

// -- helpers --------------------------------------------------------------------------------------

/// A row of the filtered table is a row of the table.
proof fn lemma_kept_row<V>(rows: Seq<V>, keep: spec_fn(V) -> bool, i: int) -> (k: int)
    requires
        0 <= i < rows.filter(keep).len(),
    ensures
        0 <= k < rows.len(),
        rows[k] == rows.filter(keep)[i],
        keep(rows[k]),
{
    let row = rows.filter(keep)[i];
    let same = |r: V| r == row;
    assert(same(rows.filter(keep)[i]));
    lemma_filter_rows(rows, keep, same);
    let both = |r: V| keep(r) && same(r);
    let k: int = choose|k: int| 0 <= k < rows.len() && both(#[trigger] rows[k]);
    assert(rows[k] == row);
    k
}

/// An update that leaves alone what `q` looks at leaves a row that satisfies it.
proof fn lemma_some_updated<V>(
    rows: Seq<V>,
    p: spec_fn(V) -> bool,
    f: spec_fn(V) -> V,
    q: spec_fn(V) -> bool,
)
    requires
        some_row(rows, q),
        forall|r: V| q(r) ==> q(#[trigger] f(r)),
    ensures
        some_row(updated(rows, p, f), q),
{
    let i: int = choose|i: int| 0 <= i < rows.len() && q(#[trigger] rows[i]);
    assert(q(updated(rows, p, f)[i]));
}

proof fn lemma_some_pushed<V>(rows: Seq<V>, row: V, q: spec_fn(V) -> bool)
    requires
        some_row(rows, q) || q(row),
    ensures
        some_row(rows.push(row), q),
{
    if some_row(rows, q) {
        let i: int = choose|i: int| 0 <= i < rows.len() && q(#[trigger] rows[i]);
        assert(q(rows.push(row)[i]));
    } else {
        assert(q(rows.push(row)[rows.len() as int]));
    }
}

/// Inserting or updating on a key leaves the keys unique.
proof fn lemma_unique_upserted<V, K>(
    rows: Seq<V>,
    key: spec_fn(V) -> K,
    p: spec_fn(V) -> bool,
    f: spec_fn(V) -> V,
    row: V,
)
    requires
        unique(rows, key),
        forall|r: V| key(#[trigger] f(r)) == key(r),
        forall|r: V| #[trigger] p(r) == (key(r) == key(row)),
    ensures
        unique(upserted(rows, p, f, row), key),
{
    if some_row(rows, p) {
        lemma_unique_updated(rows, key, p, f);
    } else {
        assert forall|i: int| 0 <= i < rows.len() implies key(#[trigger] rows[i]) != key(row) by {
            assert(!p(rows[i]));
        }
        lemma_unique_pushed(rows, key, row);
    }
}

// -- people ---------------------------------------------------------------------------------------

/// Profile, settings, devices, contacts and requests keep the schema.
pub proof fn law_people_keep_schema(
    db: DbModel,
    name: Seq<char>,
    value: Seq<char>,
    device: DeviceModel,
    contact: ContactModel,
    request: FriendRequestModel,
    now_ms: i64,
)
    requires
        db.consistent(),
    ensures
        db.save_profile(name, value, now_ms).consistent(),
        db.set_setting(name, value).consistent(),
        db.save_device(device).consistent(),
        db.upsert_contact(contact, now_ms).consistent(),
        db.remove_contact(name).consistent(),
        db.set_contact_status(name, value).consistent(),
        db.save_friend_request(request, now_ms).consistent(),
        db.set_friend_request_status(name, value, now_ms).consistent(),
{
    lemma_unique_upserted(
        db.settings,
        setting_key(),
        setting_is(name),
        setting_with_value(value),
        SettingModel { key: name, value },
    );
    lemma_unique_upserted(
        db.devices,
        device_key(),
        device_is(device.id),
        device_resaved(device),
        device,
    );
    lemma_contact_upserted(db, contact, now_ms);
    lemma_unique_filtered(db.contacts, contact_key(), |r: ContactRowModel| !contact_is(name)(r));
    lemma_unique_updated(db.contacts, contact_key(), contact_is(name), contact_with_status(value));
    lemma_unique_upserted(
        db.requests,
        request_key(),
        request_is(request.id),
        request_with_status(request.status, now_ms),
        RequestRowModel { request, updated_at_ms: now_ms },
    );
    lemma_unique_updated(
        db.requests,
        request_key(),
        request_is(name),
        request_with_status(value, now_ms),
    );
}

proof fn lemma_contact_upserted(db: DbModel, contact: ContactModel, now_ms: i64)
    requires
        unique(db.contacts, contact_key()),
    ensures
        unique(db.upsert_contact(contact, now_ms).contacts, contact_key()),
{
    let p = contact_is(contact.username);
    let f = contact_resaved(contact);
    let rows = db.contacts;
    if some_row(rows, p) {
        let after = updated(rows, p, f);
        assert forall|i: int, j: int| 0 <= i < j < after.len() implies contact_key()(
            #[trigger] after[i],
        ) != contact_key()(#[trigger] after[j]) by {
            assert(contact_key()(after[i]) == contact_key()(rows[i]));
            assert(contact_key()(after[j]) == contact_key()(rows[j]));
        }
    } else {
        let row = ContactRowModel { contact, created_at_ms: now_ms };
        assert forall|i: int| 0 <= i < rows.len() implies contact_key()(#[trigger] rows[i])
            != contact_key()(row) by {
            assert(!p(rows[i]));
        }
        lemma_unique_pushed(rows, contact_key(), row);
    }
}

// -- conversations --------------------------------------------------------------------------------

proof fn lemma_joined(members: Seq<MemberModel>, id: Seq<char>, names: Seq<Seq<char>>, now_ms: i64)
    requires
        unique(members, member_key()),
    ensures
        unique(joined(members, id, names, now_ms), member_key()),
        forall|i: int|
            0 <= i < joined(members, id, names, now_ms).len() ==> (#[trigger] joined(
                members,
                id,
                names,
                now_ms,
            )[i]).conversation_id == id || members.contains(
                joined(members, id, names, now_ms)[i],
            ),
    decreases names.len(),
{
    if names.len() > 0 {
        lemma_joined(members, id, names.drop_last(), now_ms);
        let before = joined(members, id, names.drop_last(), now_ms);
        let p = member_is(id, names.last());
        if !some_row(before, p) {
            let row = MemberModel { conversation_id: id, username: names.last(), added_at_ms: now_ms };
            assert forall|i: int| 0 <= i < before.len() implies member_key()(#[trigger] before[i])
                != member_key()(row) by {
                assert(!p(before[i]));
            }
            lemma_unique_pushed(before, member_key(), row);
        }
    }
}

proof fn lemma_conversations_kept(before: DbModel, after: DbModel)
    requires
        before.consistent(),
        after == (DbModel { conversations: after.conversations, ..before }),
        unique(after.conversations, conversation_key()),
        forall|id: Seq<char>|
            before.has_conversation(id) ==> #[trigger] after.has_conversation(id),
    ensures
        after.consistent(),
{
    assert forall|i: int| 0 <= i < after.members.len() implies after.has_conversation(
        (#[trigger] after.members[i]).conversation_id,
    ) by {
        assert(before.has_conversation(before.members[i].conversation_id));
    }
    assert forall|i: int| 0 <= i < after.messages.len() implies after.has_conversation(
        (#[trigger] after.messages[i]).conversation_id,
    ) by {
        assert(before.has_conversation(before.messages[i].conversation_id));
    }
    assert forall|i: int| 0 <= i < after.pending.len() implies after.has_message(
        (#[trigger] after.pending[i]).message_id,
    ) by {
        assert(before.has_message(before.pending[i].message_id));
    }
    assert forall|i: int| 0 <= i < after.groups.len() implies after.has_conversation(
        (#[trigger] after.groups[i]).group_id,
    ) by {
        assert(before.has_conversation(before.groups[i].group_id));
    }
    assert forall|i: int| 0 <= i < after.group_keys.len() implies after.has_group(
        (#[trigger] after.group_keys[i]).group_id,
    ) by {
        assert(before.has_group(before.group_keys[i].group_id));
    }
    assert forall|i: int| 0 <= i < after.files.len() implies after.has_conversation(
        (#[trigger] after.files[i]).file.conversation_id,
    ) by {
        assert(before.has_conversation(before.files[i].file.conversation_id));
    }
}

proof fn lemma_conversation_updated(
    db: DbModel,
    p: spec_fn(ConversationRowModel) -> bool,
    f: spec_fn(ConversationRowModel) -> ConversationRowModel,
)
    requires
        db.consistent(),
        forall|r: ConversationRowModel| (#[trigger] f(r)).id == r.id,
    ensures
        (DbModel { conversations: updated(db.conversations, p, f), ..db }).consistent(),
{
    let after = DbModel { conversations: updated(db.conversations, p, f), ..db };
    lemma_unique_updated(db.conversations, conversation_key(), p, f);
    assert forall|id: Seq<char>| db.has_conversation(id) implies #[trigger] after.has_conversation(
        id,
    ) by {
        lemma_some_updated(db.conversations, p, f, conversation_is(id));
    }
    lemma_conversations_kept(db, after);
}

/// Making and changing conversations and their members keeps the schema.
pub proof fn law_conversations_keep_schema(
    db: DbModel,
    id: Seq<char>,
    kind: Seq<char>,
    name: Seq<char>,
    names: Seq<Seq<char>>,
    user: Seq<char>,
    now_ms: i64,
)
    requires
        db.consistent(),
    ensures
        db.create_conversation(id, kind, name, names, now_ms).consistent(),
        db.rename_conversation(id, name, now_ms).consistent(),
        db.set_conversation_preview(id, name, now_ms).consistent(),
        db.remove_conversation_member(id, user).consistent(),
        names.len() == 0 || db.has_conversation(id) ==> db.set_conversation_members(
            id,
            names,
            now_ms,
        ).consistent(),
{
    lemma_conversation_updated(db, conversation_is(id), conversation_renamed(name, now_ms));
    lemma_conversation_updated(db, conversation_is(id), conversation_previewed(name, now_ms));
    lemma_unique_filtered(db.members, member_key(), |r: MemberModel| !member_is(id, user)(r));
    let removed = db.remove_conversation_member(id, user);
    assert forall|i: int| 0 <= i < removed.members.len() implies removed.has_conversation(
        (#[trigger] removed.members[i]).conversation_id,
    ) by {
        let k = lemma_kept_row(db.members, |r: MemberModel| !member_is(id, user)(r), i);
        assert(db.has_conversation(db.members[k].conversation_id));
    }
    lemma_created_keeps(db, id, kind, name, names, now_ms);
    if names.len() == 0 || db.has_conversation(id) {
        lemma_members_set(db, id, names, now_ms);
    }
}

proof fn lemma_created_keeps(
    db: DbModel,
    id: Seq<char>,
    kind: Seq<char>,
    name: Seq<char>,
    names: Seq<Seq<char>>,
    now_ms: i64,
)
    requires
        db.consistent(),
    ensures
        db.create_conversation(id, kind, name, names, now_ms).consistent(),
{
    let after = db.create_conversation(id, kind, name, names, now_ms);
    let row = ConversationRowModel {
        id,
        kind,
        name,
        created_at_ms: now_ms,
        updated_at_ms: now_ms,
        last_message_id: None,
        last_message_preview: None,
    };
    let p = conversation_is(id);
    let f = conversation_renamed(name, now_ms);
    lemma_unique_upserted(db.conversations, conversation_key(), p, f, row);
    let shell = DbModel { conversations: after.conversations, ..db };
    assert forall|c: Seq<char>| db.has_conversation(c) implies #[trigger] shell.has_conversation(
        c,
    ) by {
        if some_row(db.conversations, p) {
            lemma_some_updated(db.conversations, p, f, conversation_is(c));
        } else {
            lemma_some_pushed(db.conversations, row, conversation_is(c));
        }
    }
    lemma_conversations_kept(db, shell);
    assert(shell.has_conversation(id)) by {
        if some_row(db.conversations, p) {
            lemma_some_updated(db.conversations, p, f, p);
        } else {
            lemma_some_pushed(db.conversations, row, p);
        }
    }
    lemma_members_joined(shell, id, names, now_ms);
}

proof fn lemma_members_joined(db: DbModel, id: Seq<char>, names: Seq<Seq<char>>, now_ms: i64)
    requires
        db.consistent(),
        names.len() == 0 || db.has_conversation(id),
    ensures
        (DbModel { members: joined(db.members, id, names, now_ms), ..db }).consistent(),
{
    let after = DbModel { members: joined(db.members, id, names, now_ms), ..db };
    lemma_joined(db.members, id, names, now_ms);
    assert forall|i: int| 0 <= i < after.members.len() implies after.has_conversation(
        (#[trigger] after.members[i]).conversation_id,
    ) by {
        if names.len() == 0 {
            assert(db.has_conversation(db.members[i].conversation_id));
        } else if after.members[i].conversation_id != id {
            assert(db.members.contains(after.members[i]));
            let k: int = choose|k: int|
                0 <= k < db.members.len() && db.members[k] == after.members[i];
            assert(db.has_conversation(db.members[k].conversation_id));
        }
    }
}

proof fn lemma_members_set(db: DbModel, id: Seq<char>, names: Seq<Seq<char>>, now_ms: i64)
    requires
        db.consistent(),
        names.len() == 0 || db.has_conversation(id),
    ensures
        db.set_conversation_members(id, names, now_ms).consistent(),
{
    lemma_members_joined(db, id, names, now_ms);
    let mid = DbModel { members: joined(db.members, id, names, now_ms), ..db };
    let keep = |r: MemberModel| !member_beyond(id, names)(r);
    lemma_unique_filtered(mid.members, member_key(), keep);
    let after = db.set_conversation_members(id, names, now_ms);
    assert forall|i: int| 0 <= i < after.members.len() implies after.has_conversation(
        (#[trigger] after.members[i]).conversation_id,
    ) by {
        let k = lemma_kept_row(mid.members, keep, i);
        assert(mid.has_conversation(mid.members[k].conversation_id));
    }
}

/// Deleting a conversation leaves nothing that refers to it.
pub proof fn law_delete_conversation_keeps_schema(db: DbModel, id: Seq<char>)
    requires
        db.consistent(),
    ensures
        db.delete_conversation(id).consistent(),
        !db.delete_conversation(id).has_conversation(id),
{
    if db.has_conversation(id) {
        lemma_deletion_keeps(db, id);
    }
}

proof fn lemma_deletion_keeps(db: DbModel, id: Seq<char>)
    requires
        db.consistent(),
        db.has_conversation(id),
    ensures
        db.delete_conversation(id).consistent(),
        !db.delete_conversation(id).has_conversation(id),
{
    let after = db.delete_conversation(id);
    let keep_c = |r: ConversationRowModel| !conversation_is(id)(r);
    let keep_m = |r: MemberModel| !member_of(id)(r);
    let keep_t = |r: MessageModel| !message_in(id)(r);
    let gone = db.messages.filter(message_in(id));
    let keep_p = |r: PendingModel| !pending_of_any(gone)(r);
    let keep_g = |r: GroupModel| !group_is(id)(r);
    let keep_k = |r: GroupKeyModel| !group_key_of(id)(r);
    let keep_f = |r: FileRowModel| !file_in(id)(r);
    lemma_unique_filtered(db.conversations, conversation_key(), keep_c);
    lemma_unique_filtered(db.members, member_key(), keep_m);
    lemma_unique_filtered(db.messages, message_key(), keep_t);
    lemma_unique_filtered(db.messages, message_number(), keep_t);
    lemma_unique_filtered(db.pending, pending_key(), keep_p);
    lemma_unique_filtered(db.pending, pending_pair(), keep_p);
    lemma_unique_filtered(db.groups, group_key_id(), keep_g);
    lemma_unique_filtered(db.group_keys, wrapped_key_id(), keep_k);
    lemma_unique_filtered(db.files, file_key_id(), keep_f);
    lemma_without(db.conversations, conversation_is(id));
    assert forall|c: Seq<char>| c != id && db.has_conversation(c) implies #[trigger] after.has_conversation(
        c,
    ) by {
        lemma_filter_rows(db.conversations, keep_c, conversation_is(c));
        let i: int = choose|i: int|
            0 <= i < db.conversations.len() && conversation_is(c)(#[trigger] db.conversations[i]);
        let both = |r: ConversationRowModel| keep_c(r) && conversation_is(c)(r);
        assert(both(db.conversations[i]));
    }
    assert forall|i: int| 0 <= i < after.members.len() implies after.has_conversation(
        (#[trigger] after.members[i]).conversation_id,
    ) by {
        let k = lemma_kept_row(db.members, keep_m, i);
        assert(db.has_conversation(db.members[k].conversation_id));
    }
    assert forall|i: int| 0 <= i < after.messages.len() implies after.has_conversation(
        (#[trigger] after.messages[i]).conversation_id,
    ) by {
        let k = lemma_kept_row(db.messages, keep_t, i);
        assert(db.has_conversation(db.messages[k].conversation_id));
    }
    assert forall|i: int| 0 <= i < after.pending.len() implies after.has_message(
        (#[trigger] after.pending[i]).message_id,
    ) by {
        let k = lemma_kept_row(db.pending, keep_p, i);
        let m = db.pending[k].message_id;
        assert(db.has_message(m));
        let j: int = choose|j: int|
            0 <= j < db.messages.len() && message_is(m)(#[trigger] db.messages[j]);
        if message_in(id)(db.messages[j]) {
            lemma_filter_rows(db.messages, message_in(id), message_is(m));
            let both = |r: MessageModel| message_in(id)(r) && message_is(m)(r);
            assert(both(db.messages[j]));
            assert(some_row(gone, message_is(m)));
        }
        lemma_filter_rows(db.messages, keep_t, message_is(m));
        let both = |r: MessageModel| keep_t(r) && message_is(m)(r);
        assert(both(db.messages[j]));
    }
    assert forall|i: int| 0 <= i < after.groups.len() implies after.has_conversation(
        (#[trigger] after.groups[i]).group_id,
    ) by {
        let k = lemma_kept_row(db.groups, keep_g, i);
        assert(db.has_conversation(db.groups[k].group_id));
    }
    assert forall|i: int| 0 <= i < after.group_keys.len() implies after.has_group(
        (#[trigger] after.group_keys[i]).group_id,
    ) by {
        let k = lemma_kept_row(db.group_keys, keep_k, i);
        let g = db.group_keys[k].group_id;
        assert(db.has_group(g));
        let j: int = choose|j: int|
            0 <= j < db.groups.len() && group_is(g)(#[trigger] db.groups[j]);
        lemma_filter_rows(db.groups, keep_g, group_is(g));
        let both = |r: GroupModel| keep_g(r) && group_is(g)(r);
        assert(both(db.groups[j]));
    }
    assert forall|i: int| 0 <= i < after.files.len() implies after.has_conversation(
        (#[trigger] after.files[i]).file.conversation_id,
    ) by {
        let k = lemma_kept_row(db.files, keep_f, i);
        assert(db.has_conversation(db.files[k].file.conversation_id));
    }
}

// -- messages -------------------------------------------------------------------------------------

/// Storing a new message of a known conversation keeps the schema.
pub proof fn law_message_keeps_schema(db: DbModel, m: MessageModel)
    requires
        db.consistent(),
        !db.clashes(m),
        db.has_conversation(m.conversation_id),
    ensures
        db.add_message(m).consistent(),
{
    let after = db.add_message(m);
    let shell = DbModel { conversations: after.conversations, ..db };
    lemma_conversation_updated(
        db,
        conversation_is(m.conversation_id),
        conversation_with_last(m),
    );
    assert forall|i: int| 0 <= i < db.messages.len() implies message_key()(
        #[trigger] db.messages[i],
    ) != message_key()(m) && message_number()(db.messages[i]) != message_number()(m) by {
        assert(!message_clash(m)(db.messages[i]));
    }
    lemma_unique_pushed(db.messages, message_key(), m);
    lemma_unique_pushed(db.messages, message_number(), m);
    assert(shell.has_conversation(m.conversation_id)) by {
        lemma_some_updated(
            db.conversations,
            conversation_is(m.conversation_id),
            conversation_with_last(m),
            conversation_is(m.conversation_id),
        );
    }
    assert forall|i: int| 0 <= i < after.messages.len() implies after.has_conversation(
        (#[trigger] after.messages[i]).conversation_id,
    ) by {
        if i < db.messages.len() {
            assert(shell.has_conversation(shell.messages[i].conversation_id));
        }
    }
    assert forall|i: int| 0 <= i < after.pending.len() implies after.has_message(
        (#[trigger] after.pending[i]).message_id,
    ) by {
        assert(db.has_message(db.pending[i].message_id));
        lemma_some_pushed(db.messages, m, message_is(db.pending[i].message_id));
    }
}

proof fn lemma_message_updated(
    db: DbModel,
    p: spec_fn(MessageModel) -> bool,
    f: spec_fn(MessageModel) -> MessageModel,
)
    requires
        db.consistent(),
        forall|r: MessageModel|
            (#[trigger] f(r)).id == r.id && f(r).conversation_id == r.conversation_id && f(
                r,
            ).sender_device_id == r.sender_device_id && f(r).sequence == r.sequence,
    ensures
        (DbModel { messages: updated(db.messages, p, f), ..db }).consistent(),
{
    let after = DbModel { messages: updated(db.messages, p, f), ..db };
    lemma_unique_updated(db.messages, message_key(), p, f);
    lemma_unique_updated(db.messages, message_number(), p, f);
    assert forall|i: int| 0 <= i < after.messages.len() implies after.has_conversation(
        (#[trigger] after.messages[i]).conversation_id,
    ) by {
        assert(db.has_conversation(db.messages[i].conversation_id));
    }
    assert forall|i: int| 0 <= i < after.pending.len() implies after.has_message(
        (#[trigger] after.pending[i]).message_id,
    ) by {
        assert(db.has_message(db.pending[i].message_id));
        lemma_some_updated(db.messages, p, f, message_is(db.pending[i].message_id));
    }
}

/// Changing a stored message keeps the schema.
pub proof fn law_message_changes_keep_schema(
    db: DbModel,
    id: Seq<char>,
    text: Seq<char>,
    ciphertext: Seq<u8>,
    now_ms: i64,
)
    requires
        db.consistent(),
    ensures
        db.set_message_status(id, text).consistent(),
        db.edit_message(id, text, ciphertext, now_ms).consistent(),
        db.tombstone_message(id, now_ms).consistent(),
{
    lemma_message_updated(db, message_is(id), message_with_status(text));
    lemma_message_updated(db, message_is(id), message_edited(text, ciphertext, now_ms));
    lemma_message_updated(db, message_is(id), message_deleted(now_ms));
}

/// A setting that was written is read back, and no other setting changes.
pub proof fn law_written_setting_is_read(
    db: DbModel,
    key: Seq<char>,
    value: Seq<char>,
    other: Seq<char>,
)
    ensures
        db.set_setting(key, value).setting(key) == Some(value),
        other != key ==> db.set_setting(key, value).setting(other) == db.setting(other),
{
    let p = setting_is(key);
    let f = setting_with_value(value);
    lemma_first_row(db.settings, p);
    lemma_first_row_updated(db.settings, p, f);
    lemma_first_row_pushed(db.settings, p, SettingModel { key, value });
    lemma_first_row_pushed(db.settings, setting_is(other), SettingModel { key, value });
    if other != key {
        lemma_first_row_kept(db.settings, p, f, setting_is(other));
    }
}

/// A contact that was stored is found with what it holds, and no other contact changes.
pub proof fn law_stored_contact_is_found(
    db: DbModel,
    contact: ContactModel,
    now_ms: i64,
    other: Seq<char>,
)
    ensures
        db.upsert_contact(contact, now_ms).contact(contact.username) == Some(contact),
        other != contact.username ==> db.upsert_contact(contact, now_ms).contact(other)
            == db.contact(other),
{
    let p = contact_is(contact.username);
    let f = contact_resaved(contact);
    let row = ContactRowModel { contact, created_at_ms: now_ms };
    lemma_first_row(db.contacts, p);
    lemma_first_row_updated(db.contacts, p, f);
    lemma_first_row_pushed(db.contacts, p, row);
    lemma_first_row_pushed(db.contacts, contact_is(other), row);
    if other != contact.username {
        lemma_first_row_kept(db.contacts, p, f, contact_is(other));
    }
}

/// A deleted message is neither shown nor found again, and its text is gone.
pub proof fn law_deleted_message_is_not_shown(db: DbModel, id: Seq<char>, now_ms: i64)
    ensures
        forall|conversation: Seq<char>, i: int|
            0 <= i < db.tombstone_message(id, now_ms).messages.len() && db.tombstone_message(
                id,
                now_ms,
            ).messages[i].id == id ==> !#[trigger] thread_message(conversation)(
                db.tombstone_message(id, now_ms).messages[i],
            ) && db.tombstone_message(id, now_ms).messages[i].body.len() == 0,
{
    let after = db.tombstone_message(id, now_ms);
    assert forall|conversation: Seq<char>, i: int|
        0 <= i < after.messages.len() && after.messages[i].id == id implies !#[trigger] thread_message(
        conversation,
    )(after.messages[i]) && after.messages[i].body.len() == 0 by {
        assert(message_is(id)(db.messages[i]));
    }
}

/// Storing a message twice is storing it once: a redelivery changes nothing.
pub proof fn law_messages_are_idempotent(db: DbModel, m: MessageModel)
    ensures
        db.insert_message(m).insert_message(m) == db.insert_message(m),
        db.insert_message(m).clashes(m),
{
    let once = db.insert_message(m);
    if !db.clashes(m) {
        assert(message_clash(m)(once.messages[db.messages.len() as int]));
        assert(once.clashes(m));
    }
}

/// A message that was stored is found under its id, with what it holds.
pub proof fn law_stored_message_is_found(db: DbModel, m: MessageModel)
    requires
        !db.clashes(m),
    ensures
        db.insert_message(m).message(m.id) == Some(m),
{
    let p = message_is(m.id);
    lemma_first_row(db.messages, p);
    if some_row(db.messages, p) {
        let i: int = choose|i: int| 0 <= i < db.messages.len() && p(#[trigger] db.messages[i]);
        assert(message_clash(m)(db.messages[i]));
    }
    lemma_first_row_pushed(db.messages, p, m);
}

/// The next number of a device in a conversation is higher than any that it used there,
/// so that a message under a new id and that number is always stored.
pub proof fn law_next_number_is_free(
    db: DbModel,
    conversation: Seq<char>,
    device: Seq<char>,
    m: MessageModel,
)
    requires
        m.conversation_id == conversation,
        m.sender_device_id == device,
        m.sequence == db.next_number(conversation, device),
        !db.has_message(m.id),
    ensures
        forall|i: int|
            0 <= i < db.messages.len() && (#[trigger] db.messages[i]).conversation_id == conversation
                && db.messages[i].sender_device_id == device ==> db.messages[i].sequence
                < db.next_number(conversation, device),
        !db.clashes(m),
{
    let p = message_from(conversation, device);
    let own = db.messages.filter(p);
    if own.len() > 0 {
        lemma_highest_number(own);
    }
    assert forall|i: int|
        0 <= i < db.messages.len() && (#[trigger] db.messages[i]).conversation_id == conversation
            && db.messages[i].sender_device_id == device implies db.messages[i].sequence
        < db.next_number(conversation, device) by {
        db.messages.lemma_filter_contains(p, i);
        let k: int = choose|k: int| 0 <= k < own.len() && own[k] == db.messages[i];
        assert(own[k].sequence <= highest_number(own));
    }
    assert forall|i: int| 0 <= i < db.messages.len() implies !message_clash(m)(
        #[trigger] db.messages[i],
    ) by {
        assert(!message_is(m.id)(db.messages[i]));
    }
}

// -- queues ---------------------------------------------------------------------------------------

/// The queues of pending messages keep the schema.
pub proof fn law_pending_keeps_schema(
    db: DbModel,
    id: Seq<char>,
    message: Seq<char>,
    peer: Seq<char>,
    state: Seq<char>,
    next_ms: i64,
)
    requires
        db.consistent(),
    ensures
        db.may_enqueue(id, message, peer) ==> db.enqueue_pending(
            id,
            message,
            peer,
            next_ms,
            state,
        ).consistent(),
        db.backoff_pending(message, next_ms).consistent(),
        db.count_attempt(message, peer).consistent(),
        db.dequeue_pending(message).consistent(),
        db.dequeue_pending_for(message, peer).consistent(),
{
    let row = PendingModel {
        id,
        message_id: message,
        peer_id: peer,
        attempt_count: 0,
        next_attempt_at_ms: next_ms,
        state,
    };
    let p = pending_is(message, peer);
    let f = pending_requeued(next_ms, state);
    lemma_unique_upserted(db.pending, pending_pair(), p, f, row);
    if db.may_enqueue(id, message, peer) {
        if some_row(db.pending, p) {
            lemma_unique_updated(db.pending, pending_key(), p, f);
        } else {
            assert forall|i: int| 0 <= i < db.pending.len() implies pending_key()(
                #[trigger] db.pending[i],
            ) != pending_key()(row) by {
                assert(!pending_id_is(id)(db.pending[i]));
            }
            lemma_unique_pushed(db.pending, pending_key(), row);
        }
        let after = db.enqueue_pending(id, message, peer, next_ms, state);
        assert forall|i: int| 0 <= i < after.pending.len() implies after.has_message(
            (#[trigger] after.pending[i]).message_id,
        ) by {
            if i < db.pending.len() {
                assert(db.has_message(db.pending[i].message_id));
            }
        }
    }
    lemma_unique_updated(db.pending, pending_key(), pending_of(message), pending_backed_off(next_ms));
    lemma_unique_updated(
        db.pending,
        pending_pair(),
        pending_of(message),
        pending_backed_off(next_ms),
    );
    let later = db.backoff_pending(message, next_ms);
    assert forall|i: int| 0 <= i < later.pending.len() implies later.has_message(
        (#[trigger] later.pending[i]).message_id,
    ) by {
        assert(db.has_message(db.pending[i].message_id));
    }
    lemma_unique_updated(db.pending, pending_key(), p, pending_counted());
    lemma_unique_updated(db.pending, pending_pair(), p, pending_counted());
    let counted = db.count_attempt(message, peer);
    assert forall|i: int| 0 <= i < counted.pending.len() implies counted.has_message(
        (#[trigger] counted.pending[i]).message_id,
    ) by {
        assert(db.has_message(db.pending[i].message_id));
    }
    lemma_pending_filtered(db, |r: PendingModel| !pending_of(message)(r));
    lemma_pending_filtered(db, |r: PendingModel| !pending_is(message, peer)(r));
}

proof fn lemma_pending_filtered(db: DbModel, keep: spec_fn(PendingModel) -> bool)
    requires
        db.consistent(),
    ensures
        (DbModel { pending: db.pending.filter(keep), ..db }).consistent(),
{
    let after = DbModel { pending: db.pending.filter(keep), ..db };
    lemma_unique_filtered(db.pending, pending_key(), keep);
    lemma_unique_filtered(db.pending, pending_pair(), keep);
    assert forall|i: int| 0 <= i < after.pending.len() implies after.has_message(
        (#[trigger] after.pending[i]).message_id,
    ) by {
        let k = lemma_kept_row(db.pending, keep, i);
        assert(db.has_message(db.pending[k].message_id));
    }
}

/// Handshakes, cursors, the stash and the mailbox spool keep the schema.
pub proof fn law_queues_keep_schema(
    db: DbModel,
    message: Seq<char>,
    peer: Seq<char>,
    json: Seq<char>,
    number: i64,
    next_ms: i64,
    object: MailboxModel,
)
    requires
        db.consistent(),
    ensures
        db.enqueue_handshake(message, peer, json, next_ms).consistent(),
        db.backoff_handshake(message, next_ms).consistent(),
        db.dequeue_handshake(message).consistent(),
        db.update_sync_cursor(peer, message, number, next_ms).consistent(),
        db.prune_stash(next_ms).consistent(),
        db.unstash(message).consistent(),
        db.spool_mailbox(object).consistent(),
        db.ack_mailbox(message).consistent(),
        db.expire_mailbox(next_ms).consistent(),
{
    lemma_unique_upserted(
        db.handshakes,
        handshake_key(),
        handshake_is(message),
        handshake_requeued(next_ms),
        PendingHandshakeModel {
            message_id: message,
            peer_username: peer,
            envelope_json: json,
            attempt_count: 0,
            next_attempt_at_ms: next_ms,
        },
    );
    lemma_unique_updated(
        db.handshakes,
        handshake_key(),
        handshake_is(message),
        handshake_backed_off(next_ms),
    );
    lemma_unique_filtered(
        db.handshakes,
        handshake_key(),
        |r: PendingHandshakeModel| !handshake_is(message)(r),
    );
    lemma_unique_upserted(
        db.cursors,
        cursor_key(),
        cursor_is(peer, message),
        cursor_advanced(number, next_ms),
        CursorModel {
            peer_id: peer,
            conversation_id: message,
            last_sequence: number,
            updated_at_ms: next_ms,
        },
    );
    lemma_unique_filtered(db.stash, stash_key(), |r: StashModel| !stash_expired(next_ms)(r));
    lemma_unique_filtered(db.stash, stash_key(), |r: StashModel| !stash_is(message)(r));
    if !some_row(db.mailbox, mailbox_is(object.id)) {
        assert forall|i: int| 0 <= i < db.mailbox.len() implies mailbox_key()(
            #[trigger] db.mailbox[i],
        ) != mailbox_key()(object) by {
            assert(!mailbox_is(object.id)(db.mailbox[i]));
        }
        lemma_unique_pushed(db.mailbox, mailbox_key(), object);
    }
    lemma_unique_updated(
        db.mailbox,
        mailbox_key(),
        mailbox_is(message),
        mailbox_in_state("acked"@),
    );
    lemma_unique_updated(
        db.mailbox,
        mailbox_key(),
        mailbox_expired(next_ms),
        mailbox_in_state("expired"@),
    );
}

/// Using up a number keeps the schema.
pub proof fn law_numbers_keep_schema(
    db: DbModel,
    conversation: Seq<char>,
    device: Seq<char>,
    control: bool,
    number: i64,
)
    requires
        db.consistent(),
    ensures
        db.use_number(conversation, device, control, number).consistent(),
{
    lemma_unique_upserted(
        db.numbers,
        number_key(),
        number_is(conversation, device, control),
        number_advanced(number),
        NumberModel {
            conversation_id: conversation,
            device_id: device,
            control,
            last_number: number,
        },
    );
}

/// A number that was used up is not given again, and neither is any that was used up
/// before.
pub proof fn law_used_number_is_not_given_again(
    db: DbModel,
    conversation: Seq<char>,
    device: Seq<char>,
    control: bool,
    number: i64,
    other_conversation: Seq<char>,
    other_device: Seq<char>,
    other_control: bool,
)
    ensures
        ({
            let after = db.use_number(conversation, device, control, number);
            let before_used = db.used_number(other_conversation, other_device, other_control);
            let after_used = after.used_number(other_conversation, other_device, other_control);
            &&& after.used_number(conversation, device, control) is Some
            &&& after.used_number(conversation, device, control)->0 >= number
            &&& db.used_number(conversation, device, control) is None ==> after.used_number(
                conversation,
                device,
                control,
            )->0 == number
            &&& db.used_number(conversation, device, control) is Some
                && db.used_number(conversation, device, control)->0 <= number
                ==> after.used_number(conversation, device, control)->0 == number
            &&& !control ==> after.next_number(conversation, device) > number
            &&& control ==> after.next_control(conversation, device) > number
            &&& before_used is Some ==> after_used is Some && after_used->0 >= before_used->0
        }),
{
    let p = number_is(conversation, device, control);
    let q = number_is(other_conversation, other_device, other_control);
    let f = number_advanced(number);
    let row = NumberModel {
        conversation_id: conversation,
        device_id: device,
        control,
        last_number: number,
    };
    lemma_first_row(db.numbers, p);
    lemma_first_row_updated(db.numbers, p, f);
    lemma_first_row_pushed(db.numbers, p, row);
    lemma_first_row_pushed(db.numbers, q, row);
    if conversation == other_conversation && device == other_device && control == other_control {
        assert(p == q);
    } else {
        lemma_first_row_kept(db.numbers, p, f, q);
    }
}

/// Nothing that is done to conversations, their messages, groups and keys gives a used
/// number back.
pub proof fn law_used_numbers_stay_used(
    db: DbModel,
    m: MessageModel,
    group: GroupModel,
    key: GroupKeyModel,
    file: FileTransferModel,
    names: Seq<Seq<char>>,
    text: Seq<char>,
    now_ms: i64,
)
    ensures
        db.insert_message(m).numbers == db.numbers,
        db.set_message_status(m.id, text).numbers == db.numbers,
        db.edit_message(m.id, text, m.ciphertext, now_ms).numbers == db.numbers,
        db.tombstone_message(m.id, now_ms).numbers == db.numbers,
        db.create_conversation(m.conversation_id, text, text, names, now_ms).numbers == db.numbers,
        db.set_conversation_members(m.conversation_id, names, now_ms).numbers == db.numbers,
        db.remove_conversation_member(m.conversation_id, text).numbers == db.numbers,
        db.rename_conversation(m.conversation_id, text, now_ms).numbers == db.numbers,
        db.delete_conversation(m.conversation_id).numbers == db.numbers,
        db.save_group(group.group_id, text, group.current_epoch, now_ms).numbers == db.numbers,
        db.save_wrapped_key(key).numbers == db.numbers,
        db.delete_wrapped_keys_for(group.group_id, text).numbers == db.numbers,
        db.save_file(file).numbers == db.numbers,
{
}

/// What is left in the mailbox under a new id waits for its recipient until it expires,
/// and once it is acknowledged it waits no more.
pub proof fn law_mail_waits_until_acknowledged(db: DbModel, object: MailboxModel, now_ms: i64)
    requires
        object.state == "pending"@,
        !some_row(db.mailbox, mailbox_is(object.id)),
    ensures
        db.spool_mailbox(object).mailbox.contains(object),
        object.expires_at_ms > now_ms ==> mailbox_waiting(object.recipient_username, now_ms)(
            object,
        ),
        forall|i: int, recipient: Seq<char>|
            0 <= i < db.spool_mailbox(object).ack_mailbox(object.id).mailbox.len()
                && db.spool_mailbox(object).ack_mailbox(object.id).mailbox[i].id == object.id
                ==> !#[trigger] mailbox_waiting(recipient, now_ms)(
                db.spool_mailbox(object).ack_mailbox(object.id).mailbox[i],
            ),
{
    reveal_strlit("acked");
    reveal_strlit("pending");
    assert("acked"@.len() != "pending"@.len());
    let there = db.spool_mailbox(object);
    assert(there.mailbox[db.mailbox.len() as int] == object);
    let after = there.ack_mailbox(object.id);
    assert forall|i: int, recipient: Seq<char>|
        0 <= i < after.mailbox.len() && after.mailbox[i].id
            == object.id implies !#[trigger] mailbox_waiting(recipient, now_ms)(
        after.mailbox[i],
    ) by {
        assert(mailbox_is(object.id)(there.mailbox[i]));
    }
}

/// The cursor of a peer never moves back.
pub proof fn law_cursor_never_moves_back(
    db: DbModel,
    peer: Seq<char>,
    conversation: Seq<char>,
    number: i64,
    now_ms: i64,
)
    ensures
        ({
            let p = cursor_is(peer, conversation);
            let after = db.update_sync_cursor(peer, conversation, number, now_ms);
            &&& first_row(after.cursors, p) is Some
            &&& first_row(after.cursors, p)->0.last_sequence >= number
            &&& first_row(db.cursors, p) is Some ==> first_row(after.cursors, p)->0.last_sequence
                >= first_row(db.cursors, p)->0.last_sequence
        }),
{
    let p = cursor_is(peer, conversation);
    let row = CursorModel {
        peer_id: peer,
        conversation_id: conversation,
        last_sequence: number,
        updated_at_ms: now_ms,
    };
    lemma_first_row(db.cursors, p);
    lemma_first_row_updated(db.cursors, p, cursor_advanced(number, now_ms));
    lemma_first_row_pushed(db.cursors, p, row);
}

// -- the stash ------------------------------------------------------------------------------------

proof fn lemma_multiset_rows<V>(a: Seq<V>, b: Seq<V>, i: int) -> (k: int)
    requires
        a.to_multiset() == b.to_multiset(),
        0 <= i < a.len(),
    ensures
        0 <= k < b.len(),
        b[k] == a[i],
{
    a.to_multiset_ensures();
    b.to_multiset_ensures();
    assert(a.contains(a[i]));
    assert(a.to_multiset().count(a[i]) > 0);
    assert(b.to_multiset().count(a[i]) > 0);
    assert(b.contains(a[i]));
    choose|k: int| 0 <= k < b.len() && b[k] == a[i]
}

/// Stashing keeps the schema, never holds an envelope twice and never holds more than
/// [`STASH_LIMIT`] of them.
pub proof fn law_stash_is_bounded(db: DbModel, row: StashModel, after: DbModel)
    requires
        db.consistent(),
        db.stashed(row, after),
    ensures
        after.consistent(),
        after.stash.len() <= STASH_LIMIT,
{
    let all = db.stash_added(row);
    let kept = choose|kept: Seq<StashModel>| #[trigger]
        ordered_limited(kept, all, stash_newest_first(), STASH_LIMIT as int) && after == (DbModel {
            stash: without(all, stash_beyond(kept)),
            ..db
        });
    if !some_row(db.stash, stash_is(row.message_id)) {
        assert forall|i: int| 0 <= i < db.stash.len() implies stash_key()(#[trigger] db.stash[i])
            != stash_key()(row) by {
            assert(!stash_is(row.message_id)(db.stash[i]));
        }
        lemma_unique_pushed(db.stash, stash_key(), row);
    }
    assert(unique(all, stash_key()));
    let keep = |r: StashModel| !stash_beyond(kept)(r);
    lemma_unique_filtered(all, stash_key(), keep);
    let ids = after.stash.map_values(|r: StashModel| r.message_id);
    let kept_ids = kept.map_values(|r: StashModel| r.message_id);
    assert(kept.len() <= STASH_LIMIT) by {
        let sorted = choose|s: Seq<StashModel>| #[trigger]
            ordered(s, all, stash_newest_first()) && kept == limited(
                s,
                STASH_LIMIT as int,
            );
    }
    assert(ids.no_duplicates()) by {
        assert forall|i: int, j: int| 0 <= i < ids.len() && 0 <= j < ids.len() && i != j implies ids[i]
            != ids[j] by {
            if i < j {
                assert(stash_key()(after.stash[i]) != stash_key()(after.stash[j]));
            } else {
                assert(stash_key()(after.stash[j]) != stash_key()(after.stash[i]));
            }
        }
    }
    assert forall|x: Seq<char>| ids.to_set().contains(x) implies kept_ids.to_set().contains(x) by {
        let i: int = choose|i: int| 0 <= i < ids.len() && ids[i] == x;
        let k = lemma_kept_row(all, keep, i);
        assert(some_row(kept, stash_is(x)));
        let j: int = choose|j: int| 0 <= j < kept.len() && stash_is(x)(#[trigger] kept[j]);
        assert(kept_ids[j] == x);
        assert(kept_ids.contains(x));
    }
    ids.unique_seq_to_set();
    kept_ids.lemma_cardinality_of_set();
    vstd::set_lib::lemma_len_subset(ids.to_set(), kept_ids.to_set());
}

/// An envelope that is not the oldest is still there after it was stashed: the newest
/// are the ones that stay.
pub proof fn law_stash_keeps_the_newest(db: DbModel, row: StashModel, after: DbModel, i: int, j: int)
    requires
        db.consistent(),
        db.stashed(row, after),
        0 <= i < db.stash_added(row).len(),
        0 <= j < db.stash_added(row).len(),
        db.stash_added(row)[i].received_at_ms > db.stash_added(row)[j].received_at_ms,
        some_row(after.stash, stash_is(db.stash_added(row)[j].message_id)),
    ensures
        some_row(after.stash, stash_is(db.stash_added(row)[i].message_id)),
{
    let all = db.stash_added(row);
    let le = stash_newest_first();
    let kept = choose|kept: Seq<StashModel>| #[trigger]
        ordered_limited(kept, all, le, STASH_LIMIT as int) && after == (DbModel {
            stash: without(all, stash_beyond(kept)),
            ..db
        });
    let sorted = choose|s: Seq<StashModel>| #[trigger]
        ordered(s, all, le) && kept == limited(s, STASH_LIMIT as int);
    let keep = |r: StashModel| !stash_beyond(kept)(r);
    let x = all[i];
    let y = all[j];
    if !some_row(db.stash, stash_is(row.message_id)) {
        assert forall|k: int| 0 <= k < db.stash.len() implies stash_key()(#[trigger] db.stash[k])
            != stash_key()(row) by {
            assert(!stash_is(row.message_id)(db.stash[k]));
        }
        lemma_unique_pushed(db.stash, stash_key(), row);
    }
    assert(unique(all, stash_key()));
    // `y` is among the rows that are kept.
    let q = stash_is(y.message_id);
    lemma_filter_rows(all, keep, q);
    let both = |r: StashModel| keep(r) && q(r);
    let a: int = choose|a: int| 0 <= a < all.len() && both(#[trigger] all[a]);
    assert(some_row(kept, stash_is(y.message_id)));
    let c: int = choose|c: int| 0 <= c < kept.len() && q(#[trigger] kept[c]);
    assert(kept[c] == sorted[c]);
    let d = lemma_multiset_rows(sorted, all, c);
    assert(all[d] == y) by {
        if d != j {
            if d < j {
                assert(stash_key()(all[d]) != stash_key()(all[j]));
            } else {
                assert(stash_key()(all[j]) != stash_key()(all[d]));
            }
        }
    }
    // `x` stands before `y` in the order, so it is kept too.
    let b = lemma_multiset_rows(all, sorted, i);
    if b > c {
        assert(le(sorted[c], sorted[b]));
    }
    assert(b < c);
    assert(kept[b] == x);
    assert(stash_is(x.message_id)(kept[b]));
    assert(some_row(kept, stash_is(x.message_id)));
    let qx = stash_is(x.message_id);
    lemma_filter_rows(all, keep, qx);
    let bothx = |r: StashModel| keep(r) && qx(r);
    assert(bothx(all[i]));
}

// -- groups and files ------------------------------------------------------------------------------

/// Groups and their wrapped keys keep the schema.
pub proof fn law_groups_keep_schema(
    db: DbModel,
    group: Seq<char>,
    name: Seq<char>,
    epoch: i64,
    key: GroupKeyModel,
    user: Seq<char>,
    now_ms: i64,
)
    requires
        db.consistent(),
    ensures
        db.has_conversation(group) ==> db.save_group(group, name, epoch, now_ms).consistent(),
        db.has_group(key.group_id) ==> db.save_wrapped_key(key).consistent(),
        db.delete_wrapped_keys_for(group, user).consistent(),
{
    let row = GroupModel {
        group_id: group,
        name,
        current_epoch: epoch,
        created_at_ms: now_ms,
        updated_at_ms: now_ms,
    };
    let p = group_is(group);
    let f = group_resaved(name, epoch, now_ms);
    if db.has_conversation(group) {
        lemma_unique_upserted(db.groups, group_key_id(), p, f, row);
        let after = db.save_group(group, name, epoch, now_ms);
        assert forall|i: int| 0 <= i < after.groups.len() implies after.has_conversation(
            (#[trigger] after.groups[i]).group_id,
        ) by {
            if i < db.groups.len() {
                assert(db.has_conversation(db.groups[i].group_id));
            }
        }
        assert forall|i: int| 0 <= i < after.group_keys.len() implies after.has_group(
            (#[trigger] after.group_keys[i]).group_id,
        ) by {
            let g = db.group_keys[i].group_id;
            assert(db.has_group(g));
            if some_row(db.groups, p) {
                lemma_some_updated(db.groups, p, f, group_is(g));
            } else {
                lemma_some_pushed(db.groups, row, group_is(g));
            }
        }
    }
    let same = group_key_is(key.group_id, key.epoch, key.wrapped_for);
    let keep = |r: GroupKeyModel| !same(r);
    if db.has_group(key.group_id) {
        lemma_unique_filtered(db.group_keys, wrapped_key_id(), keep);
        let rest = without(db.group_keys, same);
        assert forall|i: int| 0 <= i < rest.len() implies wrapped_key_id()(#[trigger] rest[i])
            != wrapped_key_id()(key) by {
            let k = lemma_kept_row(db.group_keys, keep, i);
        }
        lemma_unique_pushed(rest, wrapped_key_id(), key);
        let after = db.save_wrapped_key(key);
        assert forall|i: int| 0 <= i < after.group_keys.len() implies after.has_group(
            (#[trigger] after.group_keys[i]).group_id,
        ) by {
            if i < rest.len() {
                let k = lemma_kept_row(db.group_keys, keep, i);
                assert(db.has_group(db.group_keys[k].group_id));
            }
        }
    }
    let others = |r: GroupKeyModel| !group_key_for(group, user)(r);
    lemma_unique_filtered(db.group_keys, wrapped_key_id(), others);
    let fewer = db.delete_wrapped_keys_for(group, user);
    assert forall|i: int| 0 <= i < fewer.group_keys.len() implies fewer.has_group(
        (#[trigger] fewer.group_keys[i]).group_id,
    ) by {
        let k = lemma_kept_row(db.group_keys, others, i);
        assert(db.has_group(db.group_keys[k].group_id));
    }
}

/// File transfers keep the schema.
pub proof fn law_files_keep_schema(
    db: DbModel,
    file: FileTransferModel,
    id: Seq<char>,
    offer_json: Seq<char>,
)
    requires
        db.consistent(),
    ensures
        some_row(db.files, file_is(file.id)) || db.has_conversation(file.conversation_id)
            ==> db.save_file(file).consistent(),
        db.save_offer_json(id, offer_json).consistent(),
{
    let p = file_is(file.id);
    let f = file_resaved(file);
    let row = FileRowModel { file, offer_json: None };
    if some_row(db.files, p) || db.has_conversation(file.conversation_id) {
        lemma_unique_upserted(db.files, file_key_id(), p, f, row);
        let after = db.save_file(file);
        assert forall|i: int| 0 <= i < after.files.len() implies after.has_conversation(
            (#[trigger] after.files[i]).file.conversation_id,
        ) by {
            if i < db.files.len() {
                assert(db.has_conversation(db.files[i].file.conversation_id));
            }
        }
    }
    lemma_unique_updated(db.files, file_key_id(), file_is(id), file_with_offer(offer_json));
    let offered = db.save_offer_json(id, offer_json);
    assert forall|i: int| 0 <= i < offered.files.len() implies offered.has_conversation(
        (#[trigger] offered.files[i]).file.conversation_id,
    ) by {
        assert(db.has_conversation(db.files[i].file.conversation_id));
    }
}

/// Logging out forgets everything that belongs to the identity, and no setting.
pub proof fn law_wipe_keeps_settings(db: DbModel, key: Seq<char>)
    requires
        db.consistent(),
    ensures
        db.wiped().consistent(),
        db.wiped().setting(key) == db.setting(key),
        db.wiped().profile is None,
        db.wiped().contacts.len() == 0,
        db.wiped().conversations.len() == 0,
        db.wiped().messages.len() == 0,
        db.wiped().group_keys.len() == 0,
        db.wiped().pending.len() == 0,
        db.wiped().handshakes.len() == 0,
{
}

} // verus!
