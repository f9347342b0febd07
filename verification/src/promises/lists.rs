//! Listings of conversations, groups, files, mail and what is stashed.

use vstd::prelude::*;

use crate::database::model::{
    conversations_latest_first, file_in, files_of, mailbox_oldest_first, mailbox_waiting,
    spooled_of, stash_expired, stash_oldest_first, stashed_of,
};
use crate::database::DbModel;
use crate::groups::lemma_members_listed_once;
use crate::promises::belongs;
use crate::promises::messages::{lemma_belongs, lemma_filtered_from};
use crate::records::{
    ConversationModel, ConversationRowModel, FileTransferModel, GroupInfoModel, MailboxModel,
    SpooledObjectModel, StashModel, StashedEnvelopeModel,
};
use crate::table::{lemma_ordered, ordered};

verus! {

/// The names are those of everyone in a conversation, each once.
pub open spec fn names_all(
    db: DbModel,
    conversation: Seq<char>,
    names: Seq<Seq<char>>,
) -> bool {
    &&& names.no_duplicates()
    &&& forall|u: Seq<char>| #[trigger] names.contains(u) <==> belongs(db, conversation, u)
    &&& forall|i: int, j: int|
        0 <= i < j < names.len() ==> crate::text::text_le(#[trigger] names[i], #[trigger] names[j])
}

/// The members of a conversation are everyone in it, each once, by name.
pub proof fn law_members_are_everyone(
    db: DbModel,
    conversation: Seq<char>,
    names: Seq<Seq<char>>,
)
    requires
        db.consistent(),
        db.members_listed(conversation, names),
    ensures
        names_all(db, conversation, names),
{
    lemma_members_listed_once(db, conversation, names, Seq::empty());
    assert forall|u: Seq<char>| #[trigger] names.contains(u) <==> belongs(db, conversation, u) by {
        lemma_members_listed_once(db, conversation, names, u);
        lemma_belongs(db, conversation, u);
    }
    let rows = choose|rows: Seq<crate::records::MemberModel>| #[trigger]
        ordered(
            rows,
            db.members.filter(crate::database::model::member_of(conversation)),
            crate::database::model::members_by_name(),
        ) && names == crate::database::model::names_of(rows);
    assert forall|i: int, j: int| 0 <= i < j < names.len() implies crate::text::text_le(
        #[trigger] names[i],
        #[trigger] names[j],
    ) by {
        assert(crate::database::model::members_by_name()(rows[i], rows[j]));
    }
}

/// What is shown of a conversation is what is stored of it.
pub open spec fn shows(db: DbModel, row: ConversationRowModel, c: ConversationModel) -> bool {
    &&& c.id == row.id
    &&& c.kind == row.kind
    &&& c.name == row.name
    &&& c.created_at_ms == row.created_at_ms
    &&& c.updated_at_ms == row.updated_at_ms
    &&& c.last_message_preview == row.last_message_preview
    &&& names_all(db, row.id, c.members)
}

/// Every conversation is shown, as it is stored and with everyone in it, the latest change
/// first; nothing else is.
pub proof fn law_conversations_are_shown(
    db: DbModel,
    shown: Seq<ConversationModel>,
    at: int,
    place: int,
)
    requires
        db.consistent(),
        db.conversations_shown(shown),
    ensures
        shown.len() == db.conversations.len(),
        0 <= at < db.conversations.len() ==> exists|j: int|
            0 <= j < shown.len() && shows(db, db.conversations[at], #[trigger] shown[j]),
        0 <= place < shown.len() ==> exists|i: int|
            0 <= i < db.conversations.len() && shows(
                db,
                #[trigger] db.conversations[i],
                shown[place],
            ),
        forall|i: int, j: int|
            0 <= i < j < shown.len() ==> (#[trigger] shown[i]).updated_at_ms >= (
            #[trigger] shown[j]).updated_at_ms,
{
    let rows = choose|rows: Seq<ConversationRowModel>| #[trigger]
        ordered(rows, db.conversations, conversations_latest_first()) && rows.len() == shown.len()
            && forall|i: int|
            0 <= i < rows.len() ==> db.conversation_shown(rows[i], #[trigger] shown[i]);
    lemma_ordered(rows, db.conversations, conversations_latest_first());
    if 0 <= at < db.conversations.len() {
        assert(db.conversations.contains(db.conversations[at]));
        assert(rows.contains(db.conversations[at]));
        let j: int = choose|j: int| 0 <= j < rows.len() && rows[j] == db.conversations[at];
        assert(db.conversation_shown(rows[j], shown[j]));
        law_members_are_everyone(db, rows[j].id, shown[j].members);
    }
    if 0 <= place < shown.len() {
        assert(rows.contains(rows[place]));
        let i: int = choose|i: int|
            0 <= i < db.conversations.len() && db.conversations[i] == rows[place];
        assert(db.conversation_shown(rows[place], shown[place]));
        law_members_are_everyone(db, rows[place].id, shown[place].members);
        assert(shows(db, db.conversations[i], shown[place]));
    }
    assert forall|i: int, j: int| 0 <= i < j < shown.len() implies (
    #[trigger] shown[i]).updated_at_ms >= (#[trigger] shown[j]).updated_at_ms by {
        assert(conversations_latest_first()(rows[i], rows[j]));
        assert(db.conversation_shown(rows[i], shown[i]));
        assert(db.conversation_shown(rows[j], shown[j]));
    }
}

/// A group that is loaded is as it is stored, with everyone in it; one that is not stored is
/// not found.
pub proof fn law_loaded_group_is_as_stored(
    db: DbModel,
    id: Seq<char>,
    info: Option<GroupInfoModel>,
    name: Seq<char>,
    epoch: i64,
)
    requires
        db.consistent(),
        db.group_listed(id, info),
    ensures
        (forall|i: int| 0 <= i < db.groups.len() ==> (#[trigger] db.groups[i]).group_id != id)
            ==> info is None,
        crate::promises::groups::group_at(db, id, name, epoch) ==> {
            &&& info is Some
            &&& info->0.group_id == id
            &&& info->0.name == name
            &&& info->0.current_epoch == epoch
            &&& names_all(db, id, info->0.members)
        },
{
    let p = crate::database::model::group_is(id);
    crate::table::lemma_first_row(db.groups, p);
    if db.group(id) is Some {
        let k: int = choose|k: int| 0 <= k < db.groups.len() && db.groups[k] == db.group(id)->0;
        assert(db.groups[k].group_id == id);
        law_members_are_everyone(db, id, info->0.members);
    }
    if crate::promises::groups::group_at(db, id, name, epoch) {
        let k: int = choose|k: int|
            0 <= k < db.groups.len() && (#[trigger] db.groups[k]).group_id == id;
        assert(p(db.groups[k]));
    }
}

/// The files of a conversation, and no others.
pub proof fn law_files_of_a_conversation(db: DbModel, conversation: Seq<char>, f: FileTransferModel)
    ensures
        db.files_listed(conversation).contains(f) <==> f.conversation_id == conversation
            && exists|i: int| 0 <= i < db.files.len() && (#[trigger] db.files[i]).file == f,
{
    let here = db.files.filter(file_in(conversation));
    let files = files_of(here);
    let list = files.reverse();
    if list.contains(f) {
        let j: int = choose|j: int| 0 <= j < list.len() && list[j] == f;
        let k = files.len() - 1 - j;
        assert(files[k] == f);
        lemma_filtered_from(db.files, file_in(conversation), k);
        let i: int = choose|i: int| 0 <= i < db.files.len() && db.files[i] == here[k];
        assert(db.files[i].file == f);
    }
    if f.conversation_id == conversation && exists|i: int|
        0 <= i < db.files.len() && (#[trigger] db.files[i]).file == f {
        let i: int = choose|i: int| 0 <= i < db.files.len() && (#[trigger] db.files[i]).file == f;
        db.files.lemma_filter_contains(file_in(conversation), i);
        let k: int = choose|k: int| 0 <= k < here.len() && here[k] == db.files[i];
        assert(files[k] == f);
        assert(list[files.len() - 1 - k] == f);
    }
}

/// What is collected for someone is the mail that waits for them and has not expired, the
/// oldest first, with its envelopes.
pub proof fn law_collected_mail_is_what_waits(
    db: DbModel,
    recipient: Seq<char>,
    now_ms: i64,
    list: Seq<SpooledObjectModel>,
    at: int,
    place: int,
)
    requires
        db.mailbox_listed(recipient, now_ms, list),
    ensures
        0 <= at < db.mailbox.len() && db.mailbox[at].recipient_username == recipient
            && db.mailbox[at].state == "pending"@ && db.mailbox[at].expires_at_ms > now_ms
            ==> list.contains(
            SpooledObjectModel {
                id: db.mailbox[at].id,
                envelope_json: db.mailbox[at].envelope_json,
            },
        ),
        0 <= place < list.len() ==> exists|i: int|
            {
                let m = #[trigger] db.mailbox[i];
                &&& 0 <= i < db.mailbox.len()
                &&& m.id == list[place].id
                &&& m.envelope_json == list[place].envelope_json
                &&& m.recipient_username == recipient
                &&& m.state == "pending"@
                &&& m.expires_at_ms > now_ms
            },
{
    let p = mailbox_waiting(recipient, now_ms);
    let of = db.mailbox.filter(p);
    let rows = choose|rows: Seq<MailboxModel>| #[trigger]
        ordered(rows, of, mailbox_oldest_first()) && list == spooled_of(rows);
    lemma_ordered(rows, of, mailbox_oldest_first());
    if 0 <= at < db.mailbox.len() && p(db.mailbox[at]) {
        db.mailbox.lemma_filter_contains(p, at);
        assert(rows.contains(db.mailbox[at]));
        let k: int = choose|k: int| 0 <= k < rows.len() && rows[k] == db.mailbox[at];
        assert(list[k].id == db.mailbox[at].id);
        assert(list[k] == (SpooledObjectModel {
            id: db.mailbox[at].id,
            envelope_json: db.mailbox[at].envelope_json,
        }));
    }
    if 0 <= place < list.len() {
        let j = place;
        assert(rows.contains(rows[j]));
        let k: int = choose|k: int| 0 <= k < of.len() && of[k] == rows[j];
        lemma_filtered_from(db.mailbox, p, k);
        let i: int = choose|i: int| 0 <= i < db.mailbox.len() && db.mailbox[i] == of[k];
        assert(db.mailbox[i].id == list[j].id);
    }
}

/// What is stashed and has not expired is listed as it came.
pub proof fn law_stash_is_listed(
    db: DbModel,
    now_ms: i64,
    list: Seq<StashedEnvelopeModel>,
    at: int,
    place: int,
)
    requires
        db.stash_listed(now_ms, list),
    ensures
        0 <= at < db.stash.len() && db.stash[at].expires_at_ms > now_ms ==> list.contains(
            StashedEnvelopeModel {
                message_id: db.stash[at].message_id,
                endpoint_id: db.stash[at].endpoint_id,
                envelope_json: db.stash[at].envelope_json,
            },
        ),
        0 <= place < list.len() ==> exists|i: int|
            {
                let m = #[trigger] db.stash[i];
                &&& 0 <= i < db.stash.len()
                &&& m.message_id == list[place].message_id
                &&& m.endpoint_id == list[place].endpoint_id
                &&& m.envelope_json == list[place].envelope_json
                &&& m.expires_at_ms > now_ms
            },
{
    let gone = stash_expired(now_ms);
    let keep = |r: StashModel| !gone(r);
    let of = db.prune_stash(now_ms).stash;
    let rows = choose|rows: Seq<StashModel>| #[trigger]
        ordered(rows, of, stash_oldest_first()) && list == stashed_of(rows);
    lemma_ordered(rows, of, stash_oldest_first());
    if 0 <= at < db.stash.len() && db.stash[at].expires_at_ms > now_ms {
        db.stash.lemma_filter_contains(keep, at);
        assert(rows.contains(db.stash[at]));
        let k: int = choose|k: int| 0 <= k < rows.len() && rows[k] == db.stash[at];
        assert(list[k] == (StashedEnvelopeModel {
            message_id: db.stash[at].message_id,
            endpoint_id: db.stash[at].endpoint_id,
            envelope_json: db.stash[at].envelope_json,
        }));
    }
    if 0 <= place < list.len() {
        let j = place;
        assert(rows.contains(rows[j]));
        let k: int = choose|k: int| 0 <= k < of.len() && of[k] == rows[j];
        lemma_filtered_from(db.stash, keep, k);
        let i: int = choose|i: int| 0 <= i < db.stash.len() && db.stash[i] == of[k];
        assert(db.stash[i].message_id == list[j].message_id);
    }
}

/// Mail is collected in the order in which it came, each once.
pub proof fn law_mail_is_collected_in_order(
    db: DbModel,
    recipient: Seq<char>,
    now_ms: i64,
    list: Seq<SpooledObjectModel>,
    i: int,
    j: int,
    earlier: int,
    later: int,
)
    requires
        db.consistent(),
        db.mailbox_listed(recipient, now_ms, list),
        0 <= i < j < list.len(),
        0 <= earlier < db.mailbox.len(),
        0 <= later < db.mailbox.len(),
        db.mailbox[earlier].id == list[i].id,
        db.mailbox[later].id == list[j].id,
    ensures
        earlier != later,
        db.mailbox[earlier].created_at_ms <= db.mailbox[later].created_at_ms,
{
    let p = mailbox_waiting(recipient, now_ms);
    let of = db.mailbox.filter(p);
    let rows = choose|rows: Seq<MailboxModel>| #[trigger]
        ordered(rows, of, mailbox_oldest_first()) && list == spooled_of(rows);
    lemma_ordered(rows, of, mailbox_oldest_first());
    let key = crate::database::model::mailbox_key();
    crate::table::lemma_unique_filtered(db.mailbox, key, p);
    assert forall|place: int, at: int|
        0 <= place < rows.len() && 0 <= at < db.mailbox.len() && (#[trigger] db.mailbox[at]).id
            == (#[trigger] rows[place]).id implies rows[place] == db.mailbox[at] by {
        assert(rows.contains(rows[place]));
        let k: int = choose|k: int| 0 <= k < of.len() && of[k] == rows[place];
        lemma_filtered_from(db.mailbox, p, k);
        let n: int = choose|n: int| 0 <= n < db.mailbox.len() && db.mailbox[n] == of[k];
        assert(key(db.mailbox[n]) == key(db.mailbox[at]));
        assert(n == at);
    }
    assert(rows[i] == db.mailbox[earlier]);
    assert(rows[j] == db.mailbox[later]);
    assert(of.no_duplicates()) by {
        assert forall|a: int, b: int| 0 <= a < b < of.len() implies of[a] != of[b] by {
            assert(key(of[a]) != key(of[b]));
        }
    }
    assert(rows[i] != rows[j]);
}

/// Stashed handshakes are tried in the order in which they came, each once.
pub proof fn law_stash_is_tried_in_order(
    db: DbModel,
    now_ms: i64,
    list: Seq<StashedEnvelopeModel>,
    i: int,
    j: int,
    earlier: int,
    later: int,
)
    requires
        db.consistent(),
        db.stash_listed(now_ms, list),
        0 <= i < j < list.len(),
        0 <= earlier < db.stash.len(),
        0 <= later < db.stash.len(),
        db.stash[earlier].message_id == list[i].message_id,
        db.stash[later].message_id == list[j].message_id,
    ensures
        earlier != later,
        db.stash[earlier].received_at_ms <= db.stash[later].received_at_ms,
{
    let gone = stash_expired(now_ms);
    let keep = |r: StashModel| !gone(r);
    let of = db.prune_stash(now_ms).stash;
    let rows = choose|rows: Seq<StashModel>| #[trigger]
        ordered(rows, of, stash_oldest_first()) && list == stashed_of(rows);
    lemma_ordered(rows, of, stash_oldest_first());
    let key = crate::database::model::stash_key();
    crate::table::lemma_unique_filtered(db.stash, key, keep);
    assert forall|place: int, at: int|
        0 <= place < rows.len() && 0 <= at < db.stash.len() && (#[trigger] db.stash[at]).message_id
            == (#[trigger] rows[place]).message_id implies rows[place] == db.stash[at] by {
        assert(rows.contains(rows[place]));
        let k: int = choose|k: int| 0 <= k < of.len() && of[k] == rows[place];
        lemma_filtered_from(db.stash, keep, k);
        let n: int = choose|n: int| 0 <= n < db.stash.len() && db.stash[n] == of[k];
        assert(key(db.stash[n]) == key(db.stash[at]));
        assert(n == at);
    }
    assert(rows[i] == db.stash[earlier]);
    assert(rows[j] == db.stash[later]);
    assert(of.no_duplicates()) by {
        assert forall|a: int, b: int| 0 <= a < b < of.len() implies of[a] != of[b] by {
            assert(key(of[a]) != key(of[b]));
        }
    }
    assert(rows[i] != rows[j]);
}

} // verus!
