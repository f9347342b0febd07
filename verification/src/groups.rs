//! Groups: creation, membership, key rotation and group messages.
//!
//! Each epoch of a group has a random 32-byte key, which seals the messages and
//! is wrapped for each member. Every change of the membership rotates the key,
//! so that whoever was removed cannot read what follows.

use vstd::prelude::*;
use vstd::string::*;
use vstd::utf8::*;

use crate::bytes::{
    array_32, be64, from_be64, hex, hex_decode_32, hex_decoded_32, hex_encode, law_hex_round_trip,
    lemma_be64_reads, read_be64, to_unsigned, unsigned_bits,
};
use crate::crypto::{
    aead_fits, dm_opened, group_key_context, group_nonce_bytes, group_opened, group_sealed,
    key_unwrapped, key_view, law_group_nonces_differ, open_group, opened_view, random_32,
    unwrap_group_key, wrap_group_key, x25519_public, GROUP_NONCE_BYTES,
};
use crate::database::model::{
    conversation_is, group_is, group_key_for, group_key_is, group_resaved, member_before, member_is,
    member_of, members_by_name, names_of,
};
use crate::database::{Database, DbModel};
use crate::envelope::{
    box_of, build_envelope, carried, conversation_uuid, conversation_uuid_of, envelope_of,
    group_sealed_in, seal_group_payload,
};
use crate::error::Error;
use crate::friends::{Draft, DraftModel};
use crate::identity::{DeviceIdentity, IdentityModel};
use crate::ids::{uuid_text, Uuid};
use crate::payload::{ChatPayload, PayloadModel};
use crate::protocol::ProtocolEnvelope;
use crate::records::{Contact, ContactModel, GroupKeyModel, GroupKeyRow, MemberModel};
use crate::routing::key_received;
use crate::table::{
    lemma_filter_rows, lemma_filter_step, lemma_first_row, lemma_first_row_pushed,
    lemma_first_row_updated, lemma_first_row_without, lemma_ordered, lemma_unique_filtered,
    lemma_without, ordered, some_row, unique, views, without,
};
use crate::text::{
    chars_of, copy_bytes, copy_opt_text, copy_texts, lemma_text_le_antisymmetric, lists_text,
    opt_text, text_eq, texts, trim, trimmed,
};

verus! {

// -- the numbers of an epoch ----------------------------------------------------------

/// Into how many shares the numbers of an epoch are divided, one for each member.
pub const SHARES: u64 = 65_536;

/// How many numbers a share holds.
pub const SHARE_NUMBERS: u64 = 281_474_976_710_656;

/// Where in a share the numbers of control messages begin; those of messages lie below.
pub const CONTROL_START: u64 = 140_737_488_355_328;

/// The number that is sealed under, for a number of a member's own and their share.
pub open spec fn share_number(share: nat, sequence: u64) -> Result<u64, Error> {
    if sequence >= SHARE_NUMBERS {
        Err(Error::SequenceExhausted)
    } else if share >= SHARES {
        Err(Error::ShareExhausted)
    } else {
        Ok((share * SHARE_NUMBERS + sequence) as u64)
    }
}

fn number_in_share(share: u64, sequence: u64) -> (number: Result<u64, Error>)
    ensures
        number == share_number(share as nat, sequence),
{
    if sequence >= SHARE_NUMBERS {
        return Err(Error::SequenceExhausted);
    }
    if share >= SHARES {
        return Err(Error::ShareExhausted);
    }
    Ok(share * SHARE_NUMBERS + sequence)
}

/// A number that was sealed under tells the number of its sender's own that is expected:
/// it is that number in some share, or that number itself.
pub open spec fn tells(number: int, sequence: u64) -> bool {
    number == sequence || number % (SHARE_NUMBERS as int) == sequence
}

/// The number that a group message was sealed under.
pub open spec fn sealed_number(boxed: Seq<u8>) -> int {
    from_be64(boxed.subrange(4, 12))
}

/// What a group message holds for a reader who expects a number of its sender's own.
pub open spec fn share_opened(key: Seq<u8>, sequence: u64, boxed: Seq<u8>) -> Result<
    Seq<u8>,
    Error,
> {
    if boxed.len() < GROUP_NONCE_BYTES + 16 {
        Err(Error::GroupTooShort)
    } else if !tells(sealed_number(boxed), sequence) {
        Err(Error::GroupSequenceMismatch)
    } else {
        group_opened(key, sealed_number(boxed) as u64, boxed)
    }
}

fn open_in_share(key: &[u8; 32], sequence: u64, boxed: &[u8]) -> (text: Result<Vec<u8>, Error>)
    ensures
        opened_view(text) == share_opened(key@, sequence, boxed@),
{
    if boxed.len() < GROUP_NONCE_BYTES + 16 {
        return Err(Error::GroupTooShort);
    }
    let number: u64 = read_be64(boxed, 4);
    if number != sequence && number % SHARE_NUMBERS != sequence {
        return Err(Error::GroupSequenceMismatch);
    }
    open_group(key, number, boxed)
}

/// What opens under the number that it was sealed under opens under the number of its
/// sender's own.
pub proof fn lemma_share_opens(key: Seq<u8>, number: u64, sequence: u64, text: Seq<u8>)
    requires
        tells(number as int, sequence),
    ensures
        group_sealed(key, number, text).len() >= GROUP_NONCE_BYTES + 16 ==> share_opened(
            key,
            sequence,
            group_sealed(key, number, text),
        ) == group_opened(key, number, group_sealed(key, number, text)),
{
    let boxed = group_sealed(key, number, text);
    lemma_be64_reads(number);
    assert(boxed.subrange(4, 12) =~= be64(number));
}

/// Where a name first stands in a list.
pub open spec fn first_place(names: Seq<Seq<char>>, name: Seq<char>) -> nat
    decreases names.len(),
{
    if names.len() == 0 || names[0] == name {
        0
    } else {
        1 + first_place(names.drop_first(), name)
    }
}

/// A listed name has a place of its own.
pub proof fn lemma_first_place(names: Seq<Seq<char>>, name: Seq<char>)
    ensures
        first_place(names, name) <= names.len(),
        names.contains(name) ==> first_place(names, name) < names.len() && names[first_place(
            names,
            name,
        ) as int] == name,
    decreases names.len(),
{
    if names.len() > 0 && names[0] != name {
        let rest = names.drop_first();
        lemma_first_place(rest, name);
        if names.contains(name) {
            let k: int = choose|k: int| 0 <= k < names.len() && names[k] == name;
            assert(rest[k - 1] == name);
        }
    }
}

fn place_of(names: &Vec<String>, name: &str) -> (place: u64)
    ensures
        place == first_place(texts(names@), name@),
{
    let ghost all = texts(names@);
    let mut i: usize = 0;
    assert(all.skip(0) =~= all);
    while i < names.len() && !text_eq(names[i].as_str(), name)
        invariant
            i <= names.len(),
            all == texts(names@),
            first_place(all, name@) == i + first_place(all.skip(i as int), name@),
        decreases names.len() - i,
    {
        assert(all.skip(i as int)[0] == all[i as int]);
        assert(all.skip(i as int).drop_first() =~= all.skip(i + 1));
        i += 1;
    }
    if i < names.len() {
        assert(all.skip(i as int)[0] == all[i as int]);
    }
    i as u64
}

// -- members and their keys ---------------------------------------------------------

/// The encryption key of a contact.
pub open spec fn contact_key_of(contact: ContactModel) -> Option<Seq<u8>> {
    match contact.x25519_pubkey {
        Some(k) => if k.len() == 32 {
            Some(k)
        } else {
            None
        },
        None => None,
    }
}

/// The encryption key of a contact.
pub fn contact_pub(contact: &Contact) -> (key: Option<[u8; 32]>)
    ensures
        match (key, contact_key_of(contact@)) {
            (Some(k), Some(m)) => k@ == m,
            (None, None) => true,
            _ => false,
        },
{
    match &contact.x25519_pubkey {
        Some(k) => if k.len() == 32 {
            Some(array_32(k.as_slice()))
        } else {
            None
        },
        None => None,
    }
}

/// Reads an encryption key in hex.
pub fn contact_pub_from_hex(hex: &str) -> (key: Result<[u8; 32], Error>)
    ensures
        key_view(key) == hex_decoded_32(hex@),
{
    hex_decode_32(hex)
}

/// Someone is a friend.
pub open spec fn is_friend(db: DbModel, username: Seq<char>) -> bool {
    db.contact(username) is Some && db.contact(username)->0.status == "friend"@
}

/// Whether someone is a friend.
pub fn friend_known(db: &Database, username: &str) -> (b: bool)
    ensures
        b == is_friend(db@, username@),
{
    match db.find_contact(username) {
        Some(c) => text_eq(c.status.as_str(), "friend"),
        None => false,
    }
}

/// The key for which an epoch key is wrapped for the member at `index`, or why
/// it cannot be wrapped.
pub open spec fn member_key(
    db: DbModel,
    my_key: Seq<u8>,
    me: Seq<char>,
    members: Seq<Seq<char>>,
    index: int,
) -> Result<Seq<u8>, Error> {
    if members[index] == me {
        Ok(my_key)
    } else {
        match db.contact(members[index]) {
            None => Err(Error::MemberNotFriend(index as usize)),
            Some(contact) => match contact_key_of(contact) {
                None => Err(Error::MemberKeyMissing(index as usize)),
                Some(key) => Ok(key),
            },
        }
    }
}

impl DbModel {
    /// The store with these wrapped keys, in order.
    pub open spec fn save_keys(self, rows: Seq<GroupKeyModel>) -> DbModel
        decreases rows.len(),
    {
        if rows.len() == 0 {
            self
        } else {
            self.save_keys(rows.drop_last()).save_wrapped_key(rows.last())
        }
    }
}

/// The facts that a rotation hands out: who rotates which group to which epoch,
/// with which key.
pub struct RotationModel {
    pub identity: IdentityModel,
    pub me: Seq<char>,
    pub group_id: Seq<char>,
    pub group_name: Seq<char>,
    pub members: Seq<Seq<char>>,
    pub epoch: i64,
    pub group_key: Seq<u8>,
}

pub open spec fn rotation(
    identity: IdentityModel,
    me: Seq<char>,
    group_id: Seq<char>,
    group_name: Seq<char>,
    members: Seq<Seq<char>>,
    epoch: i64,
    group_key: Seq<u8>,
) -> RotationModel {
    RotationModel { identity, me, group_id, group_name, members, epoch, group_key }
}

impl RotationModel {
    pub open spec fn my_key(self) -> Seq<u8> {
        x25519_public(self.identity.x_secret)
    }

    /// `row` holds the epoch key wrapped for the member at `index`, who can open
    /// it.
    pub open spec fn wraps(self, db: DbModel, row: GroupKeyModel, index: int) -> bool {
        &&& member_key(db, self.my_key(), self.me, self.members, index) is Ok
        &&& row.group_id == self.group_id
        &&& row.epoch == self.epoch
        &&& row.wrapped_for == self.members[index]
        &&& row.wrapper_x_pub == Some(self.my_key())
        &&& row.share == Some(first_place(self.members, self.members[index]) as u64)
        &&& box_of(
            row.wrapped_key,
            self.identity.x_secret,
            member_key(db, self.my_key(), self.me, self.members, index)->Ok_0,
            group_key_context(),
            self.group_key,
        )
    }

    /// `rows` hold the epoch key wrapped for the first members, one each.
    pub open spec fn wrapped_first(self, db: DbModel, rows: Seq<GroupKeyModel>) -> bool {
        &&& rows.len() <= self.members.len()
        &&& forall|i: int| 0 <= i < rows.len() ==> self.wraps(db, #[trigger] rows[i], i)
    }

    /// What the member at `index` is told of the new epoch.
    pub open spec fn key_draft(self, db: DbModel, wrapped_key: Seq<u8>, index: int) -> DraftModel {
        DraftModel {
            peer_username: self.members[index],
            recipient: member_key(db, self.my_key(), self.me, self.members, index)->Ok_0,
            context: self.group_id,
            conversation_id: self.group_id,
            payload: PayloadModel::GroupKey {
                from: self.me,
                group_id: self.group_id,
                epoch: self.epoch,
                members: self.members,
                group_name: self.group_name,
                wrapped_key,
                wrapper_x_pub_hex: hex(self.my_key()),
            },
        }
    }

    /// What the first members but this one are told of the new epoch.
    pub open spec fn key_drafts(self, db: DbModel, rows: Seq<GroupKeyModel>) -> Seq<DraftModel>
        decreases rows.len(),
    {
        if rows.len() == 0 {
            Seq::empty()
        } else {
            let n = rows.len() - 1;
            let before = self.key_drafts(db, rows.drop_last());
            if self.members[n] == self.me {
                before
            } else {
                before.push(self.key_draft(db, rows.last().wrapped_key, n))
            }
        }
    }

    /// The outcome of handing out the key: every member has it wrapped in the
    /// store and every other member is told; or the first member who cannot have
    /// it is named, and those before them have it.
    pub open spec fn distributed(
        self,
        before: DbModel,
        after: DbModel,
        outcome: Result<Seq<DraftModel>, Error>,
    ) -> bool {
        exists|rows: Seq<GroupKeyModel>|
            {
                &&& #[trigger] self.wrapped_first(before, rows)
                &&& after == before.save_keys(rows)
                &&& match outcome {
                    Ok(drafts) => rows.len() == self.members.len() && drafts == self.key_drafts(
                        before,
                        rows,
                    ),
                    Err(e) => rows.len() < self.members.len() && member_key(
                        before,
                        self.my_key(),
                        self.me,
                        self.members,
                        rows.len() as int,
                    ) == Err::<Seq<u8>, Error>(e),
                }
            }
    }
}

/// The drafts by their views.
pub open spec fn drafts_view(r: Result<Vec<Draft>, Error>) -> Result<Seq<DraftModel>, Error> {
    match r {
        Ok(drafts) => Ok(views(drafts@)),
        Err(e) => Err(e),
    }
}

/// Hands out an epoch key: wraps it for every member and drafts a message to
/// every other member.
fn distribute_epoch_key(
    db: &mut Database,
    identity: &DeviceIdentity,
    my_username: &str,
    group_id: &str,
    group_name: &str,
    members: &Vec<String>,
    epoch: i64,
    group_key: &[u8; 32],
) -> (drafts: Result<Vec<Draft>, Error>)
    requires
        old(db)@.has_group(group_id@),
    ensures
        (RotationModel {
            identity: identity@,
            me: my_username@,
            group_id: group_id@,
            group_name: group_name@,
            members: texts(members@),
            epoch,
            group_key: group_key@,
        }).distributed(old(db)@, final(db)@, drafts_view(drafts)),
{
    let ghost before = db@;
    let ghost rotation = RotationModel {
        identity: identity@,
        me: my_username@,
        group_id: group_id@,
        group_name: group_name@,
        members: texts(members@),
        epoch,
        group_key: group_key@,
    };
    let my_public = identity.public();
    let mut drafts: Vec<Draft> = Vec::new();
    let ghost mut rows: Seq<GroupKeyModel> = Seq::empty();
    let mut i: usize = 0;
    assert(views(drafts@) =~= rotation.key_drafts(before, rows));
    while i < members.len()
        invariant
            i <= members.len(),
            before == old(db)@,
            before.has_group(group_id@),
            my_public.x_pubkey@ == x25519_public(identity@.x_secret),
            rotation == (RotationModel {
                identity: identity@,
                me: my_username@,
                group_id: group_id@,
                group_name: group_name@,
                members: texts(members@),
                epoch,
                group_key: group_key@,
            }),
            rows.len() == i,
            rotation.wrapped_first(before, rows),
            db@ == before.save_keys(rows),
            db@.groups == before.groups,
            db@.contacts == before.contacts,
            views(drafts@) == rotation.key_drafts(before, rows),
        decreases members.len() - i,
    {
        let member = members[i].as_str();
        assert(rotation.members[i as int] == member@);
        let mine = text_eq(member, my_username);
        let key: [u8; 32];
        if mine {
            key = my_public.x_pubkey;
        } else {
            let contact = match db.find_contact(member) {
                Some(c) => c,
                None => {
                    return Err(Error::MemberNotFriend(i));
                },
            };
            key = match contact_pub(&contact) {
                Some(k) => k,
                None => {
                    return Err(Error::MemberKeyMissing(i));
                },
            };
        }
        let ghost row_index = i as int;
        assert(member_key(before, rotation.my_key(), rotation.me, rotation.members, row_index)
            == Ok::<Seq<u8>, Error>(key@));
        let wrapped = match wrap_group_key(&identity.x_secret, &key, group_key) {
            Ok(w) => w,
            Err(e) => {
                return Err(e);
            },
        };
        assert(box_of(
            wrapped@,
            identity@.x_secret,
            key@,
            group_key_context(),
            group_key@,
        ));
        let place: u64 = place_of(members, member);
        let saved = db.save_key_row(
            GroupKeyRow {
                group_id: group_id.to_owned(),
                epoch,
                wrapped_for: member.to_owned(),
                wrapped_key: copy_bytes(wrapped.as_slice()),
                wrapper_x_pub: Some(copy_bytes(my_public.x_pubkey.as_slice())),
                share: Some(place),
            },
        );
        let ghost row = GroupKeyModel {
            group_id: group_id@,
            epoch,
            wrapped_for: member@,
            wrapped_key: wrapped@,
            wrapper_x_pub: Some(my_public.x_pubkey@),
            share: Some(place),
        };
        proof {
            assert(rotation.wraps(before, row, row_index));
            let more = rows.push(row);
            assert(more.drop_last() =~= rows);
            assert(more.last() == row);
            assert forall|k: int| 0 <= k < more.len() implies rotation.wraps(
                before,
                #[trigger] more[k],
                k,
            ) by {
                if k < rows.len() {
                    assert(rotation.wraps(before, rows[k], k));
                }
            }
            rows = more;
        }
        if !mine {
            let draft = Draft {
                peer_username: member.to_owned(),
                recipient: key,
                context: group_id.to_owned(),
                conversation_id: group_id.to_owned(),
                payload: ChatPayload::GroupKey {
                    from: my_username.to_owned(),
                    group_id: group_id.to_owned(),
                    epoch,
                    members: copy_texts(members),
                    group_name: group_name.to_owned(),
                    wrapped_key: wrapped,
                    wrapper_x_pub_hex: hex_encode(my_public.x_pubkey.as_slice()),
                },
            };
            let ghost so_far = views(drafts@);
            let ghost drafted = draft@;
            drafts.push(draft);
            proof {
                assert(views(drafts@) =~= so_far.push(drafted));
                assert(drafted == rotation.key_draft(before, row.wrapped_key, row_index));
            }
        }
        i += 1;
    }
    Ok(drafts)
}

// -- creating and changing groups -----------------------------------------------------

/// The name that a group gets.
pub open spec fn group_name_of(raw: Seq<char>) -> Result<Seq<char>, Error> {
    let name = trimmed(raw);
    if 1 <= name.len() <= 64 {
        Ok(name)
    } else {
        Err(Error::GroupNameLength)
    }
}

fn valid_group_name(raw: &str) -> (name: Result<String, Error>)
    ensures
        match (name, group_name_of(raw@)) {
            (Ok(a), Ok(b)) => a@ == b,
            (Err(a), Err(b)) => a == b,
            _ => false,
        },
{
    let name = trim(raw);
    let chars = chars_of(name.as_str());
    if chars.len() == 0 || chars.len() > 64 {
        return Err(Error::GroupNameLength);
    }
    Ok(name)
}

/// The listed people, and this one.
pub open spec fn with_me(members: Seq<Seq<char>>, me: Seq<char>) -> Seq<Seq<char>> {
    if members.contains(me) {
        members
    } else {
        members.push(me)
    }
}

/// The first of `members` who is neither this user nor a friend.
pub open spec fn first_stranger(
    db: DbModel,
    me: Seq<char>,
    members: Seq<Seq<char>>,
    index: int,
) -> bool {
    &&& 0 <= index < members.len()
    &&& members[index] != me
    &&& !is_friend(db, members[index])
    &&& forall|j: int|
        0 <= j < index ==> #[trigger] members[j] == me || is_friend(db, members[j])
}

/// All of `members` are friends or this user.
pub open spec fn all_friends(db: DbModel, me: Seq<char>, members: Seq<Seq<char>>) -> bool {
    forall|j: int|
        0 <= j < members.len() ==> #[trigger] members[j] == me || is_friend(db, members[j])
}

fn find_stranger(db: &Database, me: &str, members: &Vec<String>) -> (index: Option<usize>)
    ensures
        match index {
            Some(i) => first_stranger(db@, me@, texts(members@), i as int),
            None => all_friends(db@, me@, texts(members@)),
        },
{
    let ghost list = texts(members@);
    let mut i: usize = 0;
    while i < members.len()
        invariant
            i <= members.len(),
            list == texts(members@),
            forall|j: int|
                0 <= j < i ==> #[trigger] list[j] == me@ || is_friend(db@, list[j]),
        decreases members.len() - i,
    {
        let member = members[i].as_str();
        assert(list[i as int] == member@);
        if !text_eq(member, me) && !friend_known(db, member) {
            return Some(i);
        }
        i += 1;
    }
    None
}

/// The store with a new group.
pub open spec fn group_made(
    db: DbModel,
    group_id: Seq<char>,
    name: Seq<char>,
    members: Seq<Seq<char>>,
    now_ms: i64,
) -> DbModel {
    db.create_conversation(group_id, "group"@, name, members, now_ms).save_group(
        group_id,
        name,
        1,
        now_ms,
    )
}

/// What creating a group does: a bad name, no members or someone who is no friend change
/// nothing; else the group is made with its first epoch, whose key is handed out.
pub open spec fn group_created(
    before: DbModel,
    after: DbModel,
    identity: IdentityModel,
    me: Seq<char>,
    name: Seq<char>,
    members: Seq<Seq<char>>,
    id: Seq<char>,
    group_key: Seq<u8>,
    now_ms: i64,
    made: Result<(String, Vec<Draft>), Error>,
) -> bool {
    match group_name_of(name) {
        Err(e) => made == Err::<(String, Vec<Draft>), Error>(e) && after == before,
        Ok(title) => if members.len() == 0 {
            made == Err::<(String, Vec<Draft>), Error>(Error::GroupEmpty) && after == before
        } else {
            let all = with_me(members, me);
            if all_friends(before, me, all) {
                let outcome = match made {
                    Ok(m) => Ok(views(m.1@)),
                    Err(e) => Err(e),
                };
                &&& rotation(identity, me, id, title, all, 1, group_key).distributed(
                    group_made(before, id, title, all, now_ms),
                    after,
                    outcome,
                )
                &&& made is Ok ==> made->Ok_0.0@ == id && carried(id)
            } else {
                &&& after == before
                &&& made is Err
                &&& made->Err_0 is MemberNotFriend
                &&& first_stranger(before, me, all, made->Err_0->MemberNotFriend_0 as int)
            }
        },
    }
}

/// Makes a group with the id `fresh`: its conversation, its first epoch with the
/// given key wrapped for every member, and a draft to every other member.
pub fn create_group_as(
    db: &mut Database,
    identity: &DeviceIdentity,
    my_username: &str,
    name: &str,
    members: &Vec<String>,
    fresh: Uuid,
    group_key: &[u8; 32],
    now_ms: i64,
) -> (made: Result<(String, Vec<Draft>), Error>)
    ensures
        group_created(
            old(db)@,
            final(db)@,
            identity@,
            my_username@,
            name@,
            texts(members@),
            uuid_text(fresh@),
            group_key@,
            now_ms,
            made,
        ),
{
    let title = match valid_group_name(name) {
        Ok(t) => t,
        Err(e) => {
            return Err(e);
        },
    };
    if members.len() == 0 {
        return Err(Error::GroupEmpty);
    }
    let mut all = copy_texts(members);
    if !lists_text(members, my_username) {
        let ghost listed = texts(all@);
        all.push(my_username.to_owned());
        assert(texts(all@) =~= listed.push(my_username@));
    }
    match find_stranger(db, my_username, &all) {
        Some(i) => {
            return Err(Error::MemberNotFriend(i));
        },
        None => {},
    }
    let id = fresh.to_text();
    db.create_conversation(id.as_str(), "group", title.as_str(), &all, now_ms);
    proof {
        lemma_created(old(db)@, id@, "group"@, title@, texts(all@), now_ms);
    }
    let saved = db.save_group(id.as_str(), title.as_str(), 1, now_ms);
    proof {
        lemma_group_saved(
            old(db)@.create_conversation(id@, "group"@, title@, texts(all@), now_ms),
            id@,
            title@,
            1,
            now_ms,
        );
    }
    match distribute_epoch_key(
        db,
        identity,
        my_username,
        id.as_str(),
        title.as_str(),
        &all,
        1,
        group_key,
    ) {
        Ok(drafts) => Ok((id, drafts)),
        Err(e) => Err(e),
    }
}

/// A conversation that was just made, or renamed, is there.
pub(crate) proof fn lemma_created(
    db: DbModel,
    id: Seq<char>,
    kind: Seq<char>,
    name: Seq<char>,
    members: Seq<Seq<char>>,
    now_ms: i64,
)
    ensures
        db.create_conversation(id, kind, name, members, now_ms).has_conversation(id),
{
    let after = db.create_conversation(id, kind, name, members, now_ms);
    let p = conversation_is(id);
    if some_row(db.conversations, p) {
        let i: int = choose|i: int| 0 <= i < db.conversations.len() && p(#[trigger] db.conversations[i]);
        assert(p(after.conversations[i]));
    } else {
        assert(p(after.conversations[db.conversations.len() as int]));
    }
}

/// A group that was just saved is there.
pub(crate) proof fn lemma_group_saved(
    db: DbModel,
    id: Seq<char>,
    name: Seq<char>,
    epoch: i64,
    now_ms: i64,
)
    ensures
        db.save_group(id, name, epoch, now_ms).has_group(id),
{
    let after = db.save_group(id, name, epoch, now_ms);
    let p = group_is(id);
    if some_row(db.groups, p) {
        let i: int = choose|i: int| 0 <= i < db.groups.len() && p(#[trigger] db.groups[i]);
        assert(p(after.groups[i]));
    } else {
        assert(p(after.groups[db.groups.len() as int]));
    }
}

/// Makes a group with a new id and a new random key.
pub fn create_group(
    db: &mut Database,
    identity: &DeviceIdentity,
    my_username: &str,
    name: &str,
    members: &Vec<String>,
    now_ms: i64,
) -> (made: Result<(String, Vec<Draft>), Error>)
    ensures
        exists|id: Seq<u8>, key: Seq<u8>|
            key.len() == 32 && #[trigger] group_created(
                old(db)@,
                final(db)@,
                identity@,
                my_username@,
                name@,
                texts(members@),
                uuid_text(id),
                key,
                now_ms,
                made,
            ),
{
    let fresh = Uuid::new_v4();
    let key = random_32();
    let made = create_group_as(db, identity, my_username, name, members, fresh, &key, now_ms);
    assert(key@.len() == 32 && group_created(
        old(db)@,
        db@,
        identity@,
        my_username@,
        name@,
        texts(members@),
        uuid_text(fresh@),
        key@,
        now_ms,
        made,
    ));
    made
}

/// The outcome of a rotation: the group's next epoch has the given key, handed out
/// to its members.
pub open spec fn epoch_rotated(
    identity: IdentityModel,
    me: Seq<char>,
    group_id: Seq<char>,
    group_key: Seq<u8>,
    now_ms: i64,
    before: DbModel,
    after: DbModel,
    outcome: Result<Seq<DraftModel>, Error>,
) -> bool {
    match before.group(group_id) {
        None => outcome == Err::<Seq<DraftModel>, Error>(Error::UnknownGroup) && after == before,
        Some(group) => if group.current_epoch == i64::MAX {
            outcome == Err::<Seq<DraftModel>, Error>(Error::EpochExhausted) && after == before
        } else {
            exists|names: Seq<Seq<char>>|
                #![trigger before.members_listed(group_id, names)]
                {
                    let epoch = (group.current_epoch + 1) as i64;
                    &&& before.members_listed(group_id, names)
                    &&& rotation(
                        identity,
                        me,
                        group_id,
                        group.name,
                        names,
                        epoch,
                        group_key,
                    ).distributed(
                        before.save_group(group_id, group.name, epoch, now_ms),
                        after,
                        outcome,
                    )
                }
        },
    }
}

/// Rotates a group to its next epoch with the given key.
pub fn rotate_epoch_as(
    db: &mut Database,
    identity: &DeviceIdentity,
    my_username: &str,
    group_id: &str,
    group_key: &[u8; 32],
    now_ms: i64,
) -> (drafts: Result<Vec<Draft>, Error>)
    ensures
        epoch_rotated(
            identity@,
            my_username@,
            group_id@,
            group_key@,
            now_ms,
            old(db)@,
            final(db)@,
            drafts_view(drafts),
        ),
{
    let group = match db.load_group(group_id) {
        Some(g) => g,
        None => {
            return Err(Error::UnknownGroup);
        },
    };
    if group.current_epoch == i64::MAX {
        return Err(Error::EpochExhausted);
    }
    let epoch: i64 = group.current_epoch + 1;
    let members = db.conversation_members(group_id);
    proof {
        lemma_first_row(db@.groups, group_is(group_id@));
        lemma_group_saved(db@, group_id@, group.name@, epoch, now_ms);
    }
    let saved = db.save_group(group_id, group.name.as_str(), epoch, now_ms);
    distribute_epoch_key(
        db,
        identity,
        my_username,
        group_id,
        group.name.as_str(),
        &members,
        epoch,
        group_key,
    )
}

/// Rotates a group to its next epoch with a new random key. Every change of the
/// membership ends here.
pub fn rotate_epoch(
    db: &mut Database,
    identity: &DeviceIdentity,
    my_username: &str,
    group_id: &str,
    now_ms: i64,
) -> (drafts: Result<Vec<Draft>, Error>)
    ensures
        exists|key: Seq<u8>|
            key.len() == 32 && #[trigger] epoch_rotated(
                identity@,
                my_username@,
                group_id@,
                key,
                now_ms,
                old(db)@,
                final(db)@,
                drafts_view(drafts),
            ),
{
    let key = random_32();
    rotate_epoch_as(db, identity, my_username, group_id, &key, now_ms)
}

/// The store after each of `members` but this user joined the group.
pub open spec fn members_added(
    db: DbModel,
    me: Seq<char>,
    group_id: Seq<char>,
    members: Seq<Seq<char>>,
    now_ms: i64,
) -> DbModel
    decreases members.len(),
{
    if members.len() == 0 {
        db
    } else {
        let before = members_added(db, me, group_id, members.drop_last(), now_ms);
        if members.last() == me {
            before
        } else {
            before.create_conversation(group_id, "group"@, ""@, seq![members.last()], now_ms)
        }
    }
}

proof fn lemma_members_added_contacts(
    db: DbModel,
    me: Seq<char>,
    group_id: Seq<char>,
    members: Seq<Seq<char>>,
    now_ms: i64,
)
    ensures
        members_added(db, me, group_id, members, now_ms).contacts == db.contacts,
    decreases members.len(),
{
    if members.len() > 0 {
        lemma_members_added_contacts(db, me, group_id, members.drop_last(), now_ms);
    }
}

/// What adding members to a group does: they join and the key is rotated; where one of
/// them is no friend, those before them have joined and nothing was rotated.
pub open spec fn members_join(
    before: DbModel,
    after: DbModel,
    identity: IdentityModel,
    me: Seq<char>,
    group_id: Seq<char>,
    added: Seq<Seq<char>>,
    group_key: Seq<u8>,
    now_ms: i64,
    outcome: Result<Seq<DraftModel>, Error>,
) -> bool {
    if all_friends(before, me, added) {
        epoch_rotated(
            identity,
            me,
            group_id,
            group_key,
            now_ms,
            members_added(before, me, group_id, added, now_ms),
            after,
            outcome,
        )
    } else {
        &&& outcome is Err
        &&& outcome->Err_0 is MemberNotFriend
        &&& first_stranger(before, me, added, outcome->Err_0->MemberNotFriend_0 as int)
        &&& after == members_added(
            before,
            me,
            group_id,
            added.take(outcome->Err_0->MemberNotFriend_0 as int),
            now_ms,
        )
    }
}

/// Adds friends to a group, then rotates its key. Where one of them is no friend,
/// those before them have joined and nothing was rotated.
pub fn add_members_as(
    db: &mut Database,
    identity: &DeviceIdentity,
    my_username: &str,
    group_id: &str,
    new_members: &Vec<String>,
    group_key: &[u8; 32],
    now_ms: i64,
) -> (drafts: Result<Vec<Draft>, Error>)
    ensures
        members_join(
            old(db)@,
            final(db)@,
            identity@,
            my_username@,
            group_id@,
            texts(new_members@),
            group_key@,
            now_ms,
            drafts_view(drafts),
        ),
{
    let ghost before = db@;
    let ghost list = texts(new_members@);
    let mut i: usize = 0;
    assert(list.take(0) =~= Seq::<Seq<char>>::empty());
    while i < new_members.len()
        invariant
            i <= new_members.len(),
            before == old(db)@,
            list == texts(new_members@),
            db@ == members_added(before, my_username@, group_id@, list.take(i as int), now_ms),
            forall|j: int|
                0 <= j < i ==> #[trigger] list[j] == my_username@ || is_friend(before, list[j]),
        decreases new_members.len() - i,
    {
        let member = new_members[i].as_str();
        proof {
            lemma_members_added_contacts(
                before,
                my_username@,
                group_id@,
                list.take(i as int),
                now_ms,
            );
            assert(list[i as int] == member@);
            assert(list.take(i + 1).drop_last() =~= list.take(i as int));
            assert(list.take(i + 1).last() == member@);
        }
        if !text_eq(member, my_username) {
            if !friend_known(db, member) {
                assert(first_stranger(before, my_username@, list, i as int));
                return Err(Error::MemberNotFriend(i));
            }
            let mut one: Vec<String> = Vec::new();
            one.push(member.to_owned());
            assert(texts(one@) =~= seq![member@]);
            db.create_conversation(group_id, "group", "", &one, now_ms);
        }
        i += 1;
    }
    assert(list.take(i as int) =~= list);
    rotate_epoch_as(db, identity, my_username, group_id, group_key, now_ms)
}

/// The store after each of `members` left the group and lost the keys that were
/// wrapped for them.
pub open spec fn members_removed(
    db: DbModel,
    group_id: Seq<char>,
    members: Seq<Seq<char>>,
) -> DbModel
    decreases members.len(),
{
    if members.len() == 0 {
        db
    } else {
        members_removed(db, group_id, members.drop_last()).remove_conversation_member(
            group_id,
            members.last(),
        ).delete_wrapped_keys_for(group_id, members.last())
    }
}

/// What removing members from a group does: they leave and the key is rotated. Where this
/// user is among them, those before have been removed and nothing was rotated.
pub open spec fn members_leave(
    before: DbModel,
    after: DbModel,
    identity: IdentityModel,
    me: Seq<char>,
    group_id: Seq<char>,
    removed: Seq<Seq<char>>,
    group_key: Seq<u8>,
    now_ms: i64,
    outcome: Result<Seq<DraftModel>, Error>,
) -> bool {
    if removed.contains(me) {
        &&& outcome == Err::<Seq<DraftModel>, Error>(Error::RemovesSelf)
        &&& exists|i: int|
            {
                &&& 0 <= i < removed.len()
                &&& #[trigger] removed[i] == me
                &&& !removed.take(i).contains(me)
                &&& after == members_removed(before, group_id, removed.take(i))
            }
    } else {
        epoch_rotated(
            identity,
            me,
            group_id,
            group_key,
            now_ms,
            members_removed(before, group_id, removed),
            after,
            outcome,
        )
    }
}

/// Removes members from a group, then rotates its key. Where this user is among
/// them, those before have been removed and nothing was rotated.
pub fn remove_members_as(
    db: &mut Database,
    identity: &DeviceIdentity,
    my_username: &str,
    group_id: &str,
    remove: &Vec<String>,
    group_key: &[u8; 32],
    now_ms: i64,
) -> (drafts: Result<Vec<Draft>, Error>)
    ensures
        members_leave(
            old(db)@,
            final(db)@,
            identity@,
            my_username@,
            group_id@,
            texts(remove@),
            group_key@,
            now_ms,
            drafts_view(drafts),
        ),
{
    let ghost before = db@;
    let ghost list = texts(remove@);
    let mut i: usize = 0;
    assert(list.take(0) =~= Seq::<Seq<char>>::empty());
    while i < remove.len()
        invariant
            i <= remove.len(),
            before == old(db)@,
            list == texts(remove@),
            db@ == members_removed(before, group_id@, list.take(i as int)),
            forall|j: int| 0 <= j < i ==> #[trigger] list[j] != my_username@,
        decreases remove.len() - i,
    {
        let member = remove[i].as_str();
        assert(list[i as int] == member@);
        if text_eq(member, my_username) {
            proof {
                assert(list.contains(my_username@));
                let first = list.take(i as int);
                assert forall|j: int| 0 <= j < first.len() implies first[j] != my_username@ by {
                    assert(list[j] != my_username@);
                }
                assert(!first.contains(my_username@));
            }
            return Err(Error::RemovesSelf);
        }
        proof {
            assert(list.take(i + 1).drop_last() =~= list.take(i as int));
            assert(list.take(i + 1).last() == member@);
        }
        db.remove_conversation_member(group_id, member);
        db.delete_wrapped_keys_for(group_id, member);
        i += 1;
    }
    assert(list.take(i as int) =~= list);
    assert(!list.contains(my_username@));
    rotate_epoch_as(db, identity, my_username, group_id, group_key, now_ms)
}

/// Adds friends to a group and rotates to a new random key.
pub fn add_members(
    db: &mut Database,
    identity: &DeviceIdentity,
    my_username: &str,
    group_id: &str,
    new_members: &Vec<String>,
    now_ms: i64,
) -> (drafts: Result<Vec<Draft>, Error>)
    ensures
        exists|key: Seq<u8>|
            key.len() == 32 && #[trigger] members_join(
                old(db)@,
                final(db)@,
                identity@,
                my_username@,
                group_id@,
                texts(new_members@),
                key,
                now_ms,
                drafts_view(drafts),
            ),
{
    let key = random_32();
    add_members_as(db, identity, my_username, group_id, new_members, &key, now_ms)
}

/// Removes members from a group and rotates to a new random key.
pub fn remove_members(
    db: &mut Database,
    identity: &DeviceIdentity,
    my_username: &str,
    group_id: &str,
    remove: &Vec<String>,
    now_ms: i64,
) -> (drafts: Result<Vec<Draft>, Error>)
    ensures
        exists|key: Seq<u8>|
            key.len() == 32 && #[trigger] members_leave(
                old(db)@,
                final(db)@,
                identity@,
                my_username@,
                group_id@,
                texts(remove@),
                key,
                now_ms,
                drafts_view(drafts),
            ),
{
    let key = random_32();
    remove_members_as(db, identity, my_username, group_id, remove, &key, now_ms)
}

// -- receiving and using keys -----------------------------------------------------------

/// The epoch that a group is at; 0 where it is not known.
pub open spec fn epoch_known(db: DbModel, group_id: Seq<char>) -> i64 {
    match db.group(group_id) {
        Some(g) => g.current_epoch,
        None => 0,
    }
}

/// The store with a group's shell as a rotation tells it.
pub open spec fn group_synced(
    db: DbModel,
    group_id: Seq<char>,
    name: Seq<char>,
    members: Seq<Seq<char>>,
    epoch: i64,
    now_ms: i64,
) -> DbModel {
    db.create_conversation(
        group_id,
        "group"@,
        name,
        members,
        now_ms,
    ).set_conversation_members(group_id, members, now_ms).save_group(group_id, name, epoch, now_ms)
}

/// Takes a rotation that another member made: brings the group's shell and
/// membership up to date and stores the key that was wrapped for this user. A
/// rotation to an epoch that is not newer changes nothing. Whoever finds
/// themselves removed drops their keys and keeps the history.
pub fn receive_group_key(db: &mut Database, my_username: &str, payload: &ChatPayload, now_ms: i64) -> (r:
    Result<(), Error>)
    ensures
        key_received(old(db)@, final(db)@, my_username@, payload@, now_ms, r),
{
    match payload {
        ChatPayload::GroupKey {
            from: _,
            group_id,
            epoch,
            members,
            group_name,
            wrapped_key,
            wrapper_x_pub_hex,
        } => {
            if !lists_text(members, my_username) {
                db.delete_wrapped_keys_for(group_id.as_str(), my_username);
                return db.set_conversation_members(group_id.as_str(), members, now_ms);
            }
            let known: i64 = match db.load_group(group_id.as_str()) {
                Some(g) => g.current_epoch,
                None => 0,
            };
            if known >= *epoch {
                return Ok(());
            }
            db.create_conversation(
                group_id.as_str(),
                "group",
                group_name.as_str(),
                members,
                now_ms,
            );
            proof {
                lemma_created(
                    old(db)@,
                    group_id@,
                    "group"@,
                    group_name@,
                    texts(members@),
                    now_ms,
                );
            }
            let listed = db.set_conversation_members(group_id.as_str(), members, now_ms);
            proof {
                lemma_group_saved(db@, group_id@, group_name@, *epoch, now_ms);
            }
            let saved = db.save_group(group_id.as_str(), group_name.as_str(), *epoch, now_ms);
            let wrapper = match contact_pub_from_hex(wrapper_x_pub_hex.as_str()) {
                Ok(k) => k,
                Err(e) => {
                    return Err(e);
                },
            };
            db.save_key_row(
                GroupKeyRow {
                    group_id: group_id.clone(),
                    epoch: *epoch,
                    wrapped_for: my_username.to_owned(),
                    wrapped_key: copy_bytes(wrapped_key.as_slice()),
                    wrapper_x_pub: Some(copy_bytes(wrapper.as_slice())),
                    share: Some(place_of(members, my_username)),
                },
            )
        },
        _ => Err(Error::NotAGroupKey),
    }
}

/// Stores the key of an epoch that was wrapped for this user, and notes their share of the
/// epoch with it.
pub fn store_own_epoch_wrap(
    db: &mut Database,
    group_id: &str,
    epoch: i64,
    my_username: &str,
    wrapped_for_me: &[u8],
    wrapper_x_pub: &[u8; 32],
) -> (r: Result<(), Error>)
    ensures
        old(db)@.has_group(group_id@) ==> r is Ok && final(db)@ == old(db)@.save_wrapped_key(
            (GroupKeyModel {
                group_id: group_id@,
                epoch,
                wrapped_for: my_username@,
                wrapped_key: wrapped_for_me@,
                wrapper_x_pub: Some(wrapper_x_pub@),
                share: Some(old(db)@.share_of(group_id@, epoch, my_username@) as u64),
            }),
        ),
        !old(db)@.has_group(group_id@) ==> r == Err::<(), Error>(Error::Constraint) && final(db)@
            == old(db)@,
{
    db.save_wrapped_group_key_from(
        group_id,
        epoch,
        my_username,
        wrapped_for_me,
        wrapper_x_pub.as_slice(),
    )
}

/// The key of an epoch, unwrapped with this device's secret.
pub open spec fn epoch_key(
    db: DbModel,
    secret: Seq<u8>,
    group_id: Seq<char>,
    epoch: i64,
    me: Seq<char>,
) -> Result<Seq<u8>, Error> {
    match db.group_key(group_id, epoch, me) {
        None => Err(Error::NoEpochKey),
        Some(row) => match row.wrapper_x_pub {
            Some(wrapper) => if wrapper.len() == 32 {
                key_unwrapped(dm_opened(secret, wrapper, group_key_context(), row.wrapped_key))
            } else {
                Err(Error::BadWrapperKey)
            },
            None => key_unwrapped(
                dm_opened(secret, x25519_public(secret), group_key_context(), row.wrapped_key),
            ),
        },
    }
}

/// The key of an epoch, as far as it was wrapped for this user. Where it is not
/// noted who wrapped it, it was this device.
pub fn own_epoch_key(
    db: &Database,
    identity: &DeviceIdentity,
    group_id: &str,
    epoch: i64,
    my_username: &str,
) -> (key: Result<[u8; 32], Error>)
    ensures
        key_view(key) == epoch_key(db@, identity@.x_secret, group_id@, epoch, my_username@),
{
    match db.load_wrapped_group_key_with_sender(group_id, epoch, my_username) {
        None => Err(Error::NoEpochKey),
        Some(wrap) => {
            let wrapper_pub: [u8; 32];
            match &wrap.1 {
                Some(bytes) => {
                    if bytes.len() != 32 {
                        return Err(Error::BadWrapperKey);
                    }
                    wrapper_pub = array_32(bytes.as_slice());
                },
                None => {
                    wrapper_pub = identity.public().x_pubkey;
                },
            }
            unwrap_group_key(&identity.x_secret, &wrapper_pub, wrap.0.as_slice())
        },
    }
}

/// A group text of this user, for the current epoch of the group.
pub fn group_text(
    db: &Database,
    group_id: &str,
    my_username: &str,
    body: &str,
    reply_to: &Option<String>,
) -> (payload: Result<ChatPayload, Error>)
    ensures
        match db@.group(group_id@) {
            None => payload == Err::<ChatPayload, Error>(Error::UnknownGroup),
            Some(group) => payload is Ok && payload->Ok_0@ == (PayloadModel::Text {
                from: my_username@,
                body: body@,
                reply_to: opt_text(*reply_to),
                epoch: Some(group.current_epoch),
            }),
        },
{
    match db.load_group(group_id) {
        None => Err(Error::UnknownGroup),
        Some(group) => Ok(
            ChatPayload::Text {
                from: my_username.to_owned(),
                body: body.to_owned(),
                reply_to: copy_opt_text(reply_to),
                epoch: Some(group.current_epoch),
            },
        ),
    }
}

/// What sealing with the key of an epoch comes to, under a number of the sender's own in
/// the sender's share.
pub open spec fn epoch_sealed(
    db: DbModel,
    secret: Seq<u8>,
    group_id: Seq<char>,
    epoch: i64,
    me: Seq<char>,
    sequence: u64,
    json: Seq<u8>,
    sealed: Result<Seq<u8>, Error>,
) -> bool {
    match epoch_key(db, secret, group_id, epoch, me) {
        Err(e) => sealed == Err::<Seq<u8>, Error>(e),
        Ok(key) => match share_number(db.share_of(group_id, epoch, me), sequence) {
            Err(e) => sealed == Err::<Seq<u8>, Error>(e),
            Ok(number) => if !aead_fits(json.len()) {
                sealed == Err::<Seq<u8>, Error>(Error::GroupSealFailed)
            } else {
                &&& sealed == Ok::<Seq<u8>, Error>(group_sealed(key, number, json))
                &&& share_opened(key, sequence, group_sealed(key, number, json)) == Ok::<
                    Seq<u8>,
                    Error,
                >(json)
            },
        },
    }
}

pub(crate) fn seal_in_epoch(
    db: &Database,
    identity: &DeviceIdentity,
    group_id: &str,
    epoch: i64,
    my_username: &str,
    sequence: u64,
    json: &[u8],
) -> (sealed: Result<Vec<u8>, Error>)
    ensures
        epoch_sealed(
            db@,
            identity@.x_secret,
            group_id@,
            epoch,
            my_username@,
            sequence,
            json@,
            opened_view(sealed),
        ),
{
    let key = match own_epoch_key(db, identity, group_id, epoch, my_username) {
        Ok(k) => k,
        Err(e) => {
            return Err(e);
        },
    };
    let share: u64 = db.share_of(group_id, epoch, my_username);
    let number: u64 = match number_in_share(share, sequence) {
        Ok(n) => n,
        Err(e) => {
            return Err(e);
        },
    };
    proof {
        lemma_number_tells(share as nat, sequence);
        lemma_share_opens(key@, number, sequence, json@);
    }
    seal_group_payload(&key, number, json)
}

/// A number in a share tells the number of its sender's own.
pub proof fn lemma_number_tells(share: nat, sequence: u64)
    ensures
        share_number(share, sequence) matches Ok(number) ==> tells(number as int, sequence)
            && number as int % (SHARE_NUMBERS as int) == sequence && number as int
            / (SHARE_NUMBERS as int) == share,
{
    if sequence < SHARE_NUMBERS && share < SHARES {
        assert((share * SHARE_NUMBERS + sequence) % (SHARE_NUMBERS as int) == sequence && (share
            * SHARE_NUMBERS + sequence) / (SHARE_NUMBERS as int) == share) by (nonlinear_arith)
            requires
                0 <= sequence < SHARE_NUMBERS,
                SHARE_NUMBERS == 281_474_976_710_656,
        ;
        assert(share * SHARE_NUMBERS + sequence <= u64::MAX);
    }
}

/// Seals the JSON of a group payload with the key of the group's current epoch,
/// and tells that epoch. The number is one of the sender's own; no other member seals
/// under the same number of the epoch.
pub fn seal_group_text(
    db: &Database,
    identity: &DeviceIdentity,
    group_id: &str,
    my_username: &str,
    json: &[u8],
    sequence: u64,
) -> (sealed: Result<(Vec<u8>, i64), Error>)
    ensures
        match db@.group(group_id@) {
            None => sealed == Err::<(Vec<u8>, i64), Error>(Error::UnknownGroup),
            Some(group) => {
                &&& sealed is Ok ==> sealed->Ok_0.1 == group.current_epoch
                &&& epoch_sealed(
                    db@,
                    identity@.x_secret,
                    group_id@,
                    group.current_epoch,
                    my_username@,
                    sequence,
                    json@,
                    match sealed {
                        Ok(s) => Ok(s.0@),
                        Err(e) => Err(e),
                    },
                )
            },
        },
{
    let group = match db.load_group(group_id) {
        None => {
            return Err(Error::UnknownGroup);
        },
        Some(g) => g,
    };
    match seal_in_epoch(
        db,
        identity,
        group_id,
        group.current_epoch,
        my_username,
        sequence,
        json,
    ) {
        Ok(c) => Ok((c, group.current_epoch)),
        Err(e) => Err(e),
    }
}

/// What a group message holds under the key of an epoch.
pub open spec fn opened_at(
    db: DbModel,
    secret: Seq<u8>,
    group_id: Seq<char>,
    epoch: i64,
    me: Seq<char>,
    sequence: u64,
    boxed: Seq<u8>,
) -> Result<Seq<u8>, Error> {
    match epoch_key(db, secret, group_id, epoch, me) {
        Ok(key) => share_opened(key, sequence, boxed),
        Err(e) => Err(e),
    }
}

/// Opens a group message of an epoch; the result is the payload's JSON.
pub fn open_group_text(
    db: &Database,
    identity: &DeviceIdentity,
    group_id: &str,
    epoch: i64,
    my_username: &str,
    sequence: u64,
    boxed: &[u8],
) -> (json: Result<Vec<u8>, Error>)
    ensures
        opened_view(json) == opened_at(
            db@,
            identity@.x_secret,
            group_id@,
            epoch,
            my_username@,
            sequence,
            boxed@,
        ),
{
    match own_epoch_key(db, identity, group_id, epoch, my_username) {
        Ok(key) => open_in_share(&key, sequence, boxed),
        Err(e) => Err(e),
    }
}

/// The newest epoch below a bound whose key is held for someone.
pub open spec fn newest_below(
    keys: Seq<GroupKeyModel>,
    group_id: Seq<char>,
    me: Seq<char>,
    bound: int,
) -> Option<i64>
    decreases keys.len(),
{
    if keys.len() == 0 {
        None
    } else {
        let rest = newest_below(keys.drop_last(), group_id, me, bound);
        let key = keys.last();
        if key.group_id == group_id && key.wrapped_for == me && key.epoch < bound && (rest is None
            || rest->0 < key.epoch) {
            Some(key.epoch)
        } else {
            rest
        }
    }
}

/// What is found is below the bound, and no held epoch is between the two.
pub proof fn lemma_newest_below(
    keys: Seq<GroupKeyModel>,
    group_id: Seq<char>,
    me: Seq<char>,
    bound: int,
)
    ensures
        newest_below(keys, group_id, me, bound) matches Some(e) ==> e < bound,
        forall|i: int|
            0 <= i < keys.len() && (#[trigger] keys[i]).group_id == group_id && keys[i].wrapped_for
                == me && keys[i].epoch < bound ==> newest_below(keys, group_id, me, bound) is Some
                && keys[i].epoch <= newest_below(keys, group_id, me, bound)->0,
    decreases keys.len(),
{
    if keys.len() > 0 {
        let rest = keys.drop_last();
        lemma_newest_below(rest, group_id, me, bound);
        assert forall|i: int|
            0 <= i < keys.len() && (#[trigger] keys[i]).group_id == group_id && keys[i].wrapped_for
                == me && keys[i].epoch < bound implies newest_below(keys, group_id, me, bound)
            is Some && keys[i].epoch <= newest_below(keys, group_id, me, bound)->0 by {
            if i < rest.len() {
                assert(rest[i] == keys[i]);
            }
        }
    }
}

/// The epochs below a bound whose keys are held for someone, newest first.
pub open spec fn held_below(
    keys: Seq<GroupKeyModel>,
    group_id: Seq<char>,
    me: Seq<char>,
    bound: int,
) -> Seq<i64>
    decreases bound - i64::MIN,
{
    match newest_below(keys, group_id, me, bound) {
        None => Seq::empty(),
        Some(e) => if e < bound && i64::MIN < bound {
            seq![e] + held_below(keys, group_id, me, e as int)
        } else {
            Seq::empty()
        },
    }
}

/// The epoch that a group is at, or the first.
pub open spec fn epoch_or_first(db: DbModel, group_id: Seq<char>) -> i64 {
    match db.group(group_id) {
        Some(g) => g.current_epoch,
        None => 1,
    }
}

/// The epochs to try: the hinted one, then the current one and the older ones whose keys
/// are still held, newest first.
pub open spec fn epochs_to_try(
    db: DbModel,
    group_id: Seq<char>,
    me: Seq<char>,
    hint: Option<i64>,
) -> Seq<i64> {
    let current = epoch_or_first(db, group_id);
    let head = match hint {
        Some(h) => seq![h],
        None => Seq::empty(),
    };
    head + seq![current] + held_below(db.group_keys, group_id, me, current as int)
}

/// The first epoch of the list under which a message opens, and what it holds;
/// where there is none, what the last one came to.
pub open spec fn first_opened(
    db: DbModel,
    secret: Seq<u8>,
    group_id: Seq<char>,
    me: Seq<char>,
    sequence: u64,
    boxed: Seq<u8>,
    epochs: Seq<i64>,
) -> Result<(Seq<u8>, i64), Error>
    decreases epochs.len(),
{
    if epochs.len() == 0 {
        Err(Error::NoEpochKey)
    } else {
        match opened_at(db, secret, group_id, epochs[0], me, sequence, boxed) {
            Ok(text) => Ok((text, epochs[0])),
            Err(e) => if epochs.len() == 1 {
                Err(e)
            } else {
                first_opened(db, secret, group_id, me, sequence, boxed, epochs.drop_first())
            },
        }
    }
}

fn find_newest_below(db: &Database, group_id: &str, my_username: &str, bound: i64) -> (epoch: Option<
    i64,
>)
    ensures
        epoch == newest_below(db@.group_keys, group_id@, my_username@, bound as int),
{
    let ghost keys = db@.group_keys;
    let mut found: Option<i64> = None;
    let mut i: usize = 0;
    assert(keys.take(0) =~= Seq::<GroupKeyModel>::empty());
    while i < db.group_keys.len()
        invariant
            i <= db.group_keys.len(),
            keys == views(db.group_keys@),
            found == newest_below(keys.take(i as int), group_id@, my_username@, bound as int),
        decreases db.group_keys.len() - i,
    {
        assert(keys.take(i + 1).drop_last() =~= keys.take(i as int));
        assert(keys.take(i + 1).last() == db.group_keys@[i as int]@);
        let key = &db.group_keys[i];
        if text_eq(key.group_id.as_str(), group_id) && text_eq(
            key.wrapped_for.as_str(),
            my_username,
        ) && key.epoch < bound {
            let newer = match found {
                Some(e) => e < key.epoch,
                None => true,
            };
            if newer {
                found = Some(key.epoch);
            }
        }
        i += 1;
    }
    assert(keys.take(i as int) =~= keys);
    found
}

fn list_epochs(db: &Database, group_id: &str, my_username: &str, hint: Option<i64>) -> (epochs: Vec<
    i64,
>)
    ensures
        epochs@ == epochs_to_try(db@, group_id@, my_username@, hint),
        epochs@.len() > 0,
{
    let current: i64 = match db.load_group(group_id) {
        Some(g) => g.current_epoch,
        None => 1,
    };
    let mut epochs: Vec<i64> = Vec::new();
    match hint {
        Some(h) => {
            epochs.push(h);
        },
        None => {},
    }
    epochs.push(current);
    let ghost goal = epochs_to_try(db@, group_id@, my_username@, hint);
    let ghost keys = db@.group_keys;
    let mut bound: i64 = current;
    assert(goal =~= epochs@ + held_below(keys, group_id@, my_username@, bound as int));
    loop
        invariant
            keys == db@.group_keys,
            epochs.len() > 0,
            goal == epochs@ + held_below(keys, group_id@, my_username@, bound as int),
        ensures
            newest_below(keys, group_id@, my_username@, bound as int) is None,
        decreases bound - i64::MIN,
    {
        match find_newest_below(db, group_id, my_username, bound) {
            None => {
                break;
            },
            Some(epoch) => {
                proof {
                    lemma_newest_below(keys, group_id@, my_username@, bound as int);
                }
                epochs.push(epoch);
                assert(goal =~= epochs@ + held_below(keys, group_id@, my_username@, epoch as int));
                bound = epoch;
            },
        }
    }
    assert(held_below(keys, group_id@, my_username@, bound as int) =~= Seq::<i64>::empty());
    assert(epochs@ =~= goal);
    epochs
}

/// Opens a group message without trusting any claimed epoch: the hinted epoch
/// first, if there is a hint, then the newest one and the older ones whose keys
/// are still there. The result is the payload's JSON and the epoch whose key
/// opened it.
pub fn open_group_best(
    db: &Database,
    identity: &DeviceIdentity,
    group_id: &str,
    my_username: &str,
    sequence: u64,
    boxed: &[u8],
    hint_epoch: Option<i64>,
) -> (opened: Result<(Vec<u8>, i64), Error>)
    ensures
        best_view(opened) == first_opened(
            db@,
            identity@.x_secret,
            group_id@,
            my_username@,
            sequence,
            boxed@,
            epochs_to_try(db@, group_id@, my_username@, hint_epoch),
        ),
{
    let epochs = list_epochs(db, group_id, my_username, hint_epoch);
    let mut last_error = Error::NoEpochKey;
    let mut i: usize = 0;
    assert(epochs@.skip(0) =~= epochs@);
    while i < epochs.len()
        invariant
            i <= epochs.len(),
            epochs@.len() > 0,
            epochs@ == epochs_to_try(db@, group_id@, my_username@, hint_epoch),
            i < epochs.len() ==> first_opened(
                db@,
                identity@.x_secret,
                group_id@,
                my_username@,
                sequence,
                boxed@,
                epochs@,
            ) == first_opened(
                db@,
                identity@.x_secret,
                group_id@,
                my_username@,
                sequence,
                boxed@,
                epochs@.skip(i as int),
            ),
            i == epochs.len() ==> first_opened(
                db@,
                identity@.x_secret,
                group_id@,
                my_username@,
                sequence,
                boxed@,
                epochs@,
            ) == Err::<(Seq<u8>, i64), Error>(last_error),
        decreases epochs.len() - i,
    {
        assert(epochs@.skip(i as int)[0] == epochs@[i as int]);
        assert(epochs@.skip(i as int).drop_first() =~= epochs@.skip(i + 1));
        match open_group_text(
            db,
            identity,
            group_id,
            epochs[i],
            my_username,
            sequence,
            boxed,
        ) {
            Ok(json) => {
                return Ok((json, epochs[i]));
            },
            Err(e) => {
                last_error = e;
            },
        }
        i += 1;
    }
    Err(last_error)
}

/// The outcome, with the bytes taken by their view.
pub open spec fn best_view(r: Result<(Vec<u8>, i64), Error>) -> Result<(Seq<u8>, i64), Error> {
    match r {
        Ok(o) => Ok((o.0@, o.1)),
        Err(e) => Err(e),
    }
}

// -- renaming -----------------------------------------------------------------------------

/// A payload to be sealed once, with a group's key, and sent to its other members.
#[derive(Debug)]
pub struct GroupDraft {
    pub group_id: String,
    pub key: [u8; 32],
    /// The sender's own number, and that number in the sender's share.
    pub sequence: u64,
    pub number: u64,
    pub payload: ChatPayload,
    pub members: Vec<String>,
}

/// The people of a list but this one.
pub open spec fn others(names: Seq<Seq<char>>, me: Seq<char>) -> Seq<Seq<char>> {
    names.filter(other_than(me))
}

pub open spec fn other_than(me: Seq<char>) -> spec_fn(Seq<char>) -> bool {
    |n: Seq<char>| n != me
}

/// The members of a conversation but this user, in the order of their names.
pub fn other_members(db: &Database, conversation_id: &str, my_username: &str) -> (names: Vec<String>)
    ensures
        exists|all: Seq<Seq<char>>| #[trigger]
            db@.members_listed(conversation_id@, all) && texts(names@) == others(
                all,
                my_username@,
            ),
{
    let all = db.conversation_members(conversation_id);
    let ghost list = texts(all@);
    let ghost keep = |n: Seq<char>| n != my_username@;
    let mut names: Vec<String> = Vec::new();
    let mut i: usize = 0;
    proof {
        reveal(Seq::filter);
        assert(texts(names@) =~= list.take(0).filter(keep));
    }
    while i < all.len()
        invariant
            i <= all.len(),
            list == texts(all@),
            keep == (|n: Seq<char>| n != my_username@),
            texts(names@) == list.take(i as int).filter(keep),
        decreases all.len() - i,
    {
        proof {
            lemma_filter_step(list, i as int, keep);
        }
        if !text_eq(all[i].as_str(), my_username) {
            let ghost so_far = texts(names@);
            names.push(all[i].clone());
            assert(texts(names@) =~= so_far.push(list[i as int]));
        }
        i += 1;
    }
    assert(list.take(i as int) =~= list);
    assert(texts(names@) == others(list, my_username@));
    names
}

/// The store with a group under a new name.
pub open spec fn group_renamed(
    db: DbModel,
    group_id: Seq<char>,
    name: Seq<char>,
    epoch: i64,
    now_ms: i64,
) -> DbModel {
    db.rename_conversation(group_id, name, now_ms).save_group(group_id, name, epoch, now_ms)
}

/// What renaming a group does.
pub open spec fn rename_done(
    before: DbModel,
    after: DbModel,
    identity: IdentityModel,
    device: Seq<u8>,
    me: Seq<char>,
    group_id: Seq<char>,
    name: Seq<char>,
    now_ms: i64,
    draft: Result<GroupDraft, Error>,
) -> bool {
    match (group_name_of(name), before.group(group_id)) {
        (Err(e), _) => draft == Err::<GroupDraft, Error>(e) && after == before,
        (Ok(_), None) => draft == Err::<GroupDraft, Error>(Error::UnknownGroup) && after
            == before,
        (Ok(title), Some(group)) => {
            let epoch = group.current_epoch;
            let renamed = group_renamed(before, group_id, title, epoch, now_ms);
            let number = before.next_number(group_id, uuid_text(device));
            let share = renamed.share_of(group_id, epoch, me);
            &&& draft is Err ==> after == renamed
            &&& match epoch_key(renamed, identity.x_secret, group_id, epoch, me) {
                Err(e) => draft == Err::<GroupDraft, Error>(e),
                Ok(key) => if number >= CONTROL_START {
                    draft == Err::<GroupDraft, Error>(Error::SequenceExhausted)
                } else if share_number(share, unsigned_bits(number)) is Err {
                    draft == Err::<GroupDraft, Error>(
                        share_number(share, unsigned_bits(number))->Err_0,
                    )
                } else {
                    &&& draft is Ok
                    &&& after == renamed.use_number(
                        group_id,
                        uuid_text(device),
                        false,
                        number as i64,
                    )
                    &&& draft->Ok_0.group_id@ == group_id
                    &&& draft->Ok_0.key@ == key
                    &&& draft->Ok_0.sequence == unsigned_bits(number)
                    &&& draft->Ok_0.number == share_number(share, unsigned_bits(number))->Ok_0
                    &&& tells(draft->Ok_0.number as int, draft->Ok_0.sequence)
                    &&& draft->Ok_0.payload@ == (PayloadModel::GroupMeta {
                        from: me,
                        group_id: group_id,
                        name: title,
                        epoch: Some(epoch),
                    })
                    &&& exists|all: Seq<Seq<char>>| #[trigger]
                        before.members_listed(group_id, all) && texts(
                            draft->Ok_0.members@,
                        ) == others(all, me)
                },
            }
        },
    }
}

/// Renames a group and drafts the news for its other members.
pub fn rename_group(
    db: &mut Database,
    identity: &DeviceIdentity,
    device_uuid: Uuid,
    my_username: &str,
    group_id: &str,
    name: &str,
    now_ms: i64,
) -> (draft: Result<GroupDraft, Error>)
    ensures
        rename_done(
            old(db)@,
            final(db)@,
            identity@,
            device_uuid@,
            my_username@,
            group_id@,
            name@,
            now_ms,
            draft,
        ),
{
    let title = match valid_group_name(name) {
        Ok(t) => t,
        Err(e) => {
            return Err(e);
        },
    };
    let group = match db.load_group(group_id) {
        Some(g) => g,
        None => {
            return Err(Error::UnknownGroup);
        },
    };
    proof {
        lemma_first_row(db@.groups, group_is(group_id@));
    }
    db.rename_conversation(group_id, title.as_str(), now_ms);
    let saved = db.save_group(group_id, title.as_str(), group.current_epoch, now_ms);
    let key = match own_epoch_key(db, identity, group_id, group.current_epoch, my_username) {
        Ok(k) => k,
        Err(e) => {
            return Err(e);
        },
    };
    let device = device_uuid.to_text();
    let sequence: i64 = match db.next_sequence(group_id, device.as_str()) {
        Ok(n) => n,
        Err(e) => {
            return Err(e);
        },
    };
    if sequence >= CONTROL_START as i64 {
        return Err(Error::SequenceExhausted);
    }
    let share: u64 = db.share_of(group_id, group.current_epoch, my_username);
    proof {
        lemma_number_tells(share as nat, unsigned_bits(sequence as int));
    }
    let number: u64 = match number_in_share(share, to_unsigned(sequence)) {
        Ok(n) => n,
        Err(e) => {
            return Err(e);
        },
    };
    let members = other_members(db, group_id, my_username);
    proof {
        let all = choose|all: Seq<Seq<char>>| #[trigger]
            db@.members_listed(group_id@, all) && texts(members@) == others(all, my_username@);
        assert(old(db)@.members_listed(group_id@, all));
    }
    db.use_number(group_id, device.as_str(), false, sequence);
    Ok(
        GroupDraft {
            group_id: group_id.to_owned(),
            key,
            sequence: to_unsigned(sequence),
            number,
            payload: ChatPayload::GroupMeta {
                from: my_username.to_owned(),
                group_id: group_id.to_owned(),
                name: title,
                epoch: Some(group.current_epoch),
            },
            members,
        },
    )
}

/// Seals the JSON of a group draft and builds its envelope under the given ids. The draft
/// is used up with its number.
pub fn seal_group_draft_as(
    identity: &DeviceIdentity,
    device_uuid: Uuid,
    draft: GroupDraft,
    json: &[u8],
    stand_in: Uuid,
    message: Uuid,
    now_ms: i64,
) -> (envelope: Result<ProtocolEnvelope, Error>)
    ensures
        envelope is Ok ==> envelope->Ok_0@ == envelope_of(
            identity@,
            device_uuid@,
            conversation_uuid_of(draft.group_id@, stand_in@),
            message@,
            draft.payload@.message_type(),
            draft.sequence,
            envelope->Ok_0@.ciphertext,
            now_ms,
        ),
        group_sealed_in(
            match envelope {
                Ok(e) => Ok(e.ciphertext),
                Err(e) => Err(e),
            },
            draft.key@,
            draft.number,
            json@,
        ),
{
    match seal_group_payload(&draft.key, draft.number, json) {
        Ok(ciphertext) => {
            let envelope = build_envelope(
                identity,
                device_uuid,
                conversation_uuid(draft.group_id.as_str(), stand_in),
                message,
                draft.payload.message_type(),
                draft.sequence,
                ciphertext,
                now_ms,
            );
            assert(envelope@.ciphertext == ciphertext@);
            Ok(envelope)
        },
        Err(e) => Err(e),
    }
}

// -- what rotation is for -----------------------------------------------------------------

/// Wrapping keys touches nothing but the wrapped keys.
pub proof fn lemma_save_keys_frame(db: DbModel, rows: Seq<GroupKeyModel>)
    ensures
        db.save_keys(rows) == (DbModel { group_keys: db.save_keys(rows).group_keys, ..db }),
    decreases rows.len(),
{
    if rows.len() > 0 {
        lemma_save_keys_frame(db, rows.drop_last());
    }
}

/// A key that was just saved is the one that is found.
pub proof fn lemma_saved_key_found(db: DbModel, key: GroupKeyModel)
    ensures
        db.save_wrapped_key(key).group_key(key.group_id, key.epoch, key.wrapped_for) == Some(key),
{
    let p = group_key_is(key.group_id, key.epoch, key.wrapped_for);
    lemma_without(db.group_keys, p);
    lemma_first_row_pushed(without(db.group_keys, p), p, key);
}

proof fn lemma_no_key_saved(db: DbModel, rows: Seq<GroupKeyModel>, group: Seq<char>, user: Seq<char>)
    requires
        !some_row(db.group_keys, group_key_for(group, user)),
        forall|i: int| 0 <= i < rows.len() ==> (#[trigger] rows[i]).wrapped_for != user,
    ensures
        !some_row(db.save_keys(rows).group_keys, group_key_for(group, user)),
    decreases rows.len(),
{
    if rows.len() > 0 {
        let rest = rows.drop_last();
        assert forall|i: int| 0 <= i < rest.len() implies (#[trigger] rest[i]).wrapped_for
            != user by {
            assert(rest[i] == rows[i]);
        }
        lemma_no_key_saved(db, rest, group, user);
        let last = rows.last();
        let before = db.save_keys(rest).group_keys;
        let p = group_key_is(last.group_id, last.epoch, last.wrapped_for);
        let q = group_key_for(group, user);
        let kept = without(before, p);
        lemma_filter_rows(before, |r: GroupKeyModel| !p(r), q);
        let after = kept.push(last);
        if some_row(after, q) {
            let i: int = choose|i: int| 0 <= i < after.len() && q(#[trigger] after[i]);
            if i < kept.len() {
                assert(q(kept[i]));
                let both = |r: GroupKeyModel| !p(r) && q(r);
                let j: int = choose|j: int| 0 <= j < before.len() && both(#[trigger] before[j]);
                assert(q(before[j]));
            } else {
                assert(rows[rows.len() - 1].wrapped_for != user);
            }
        }
    }
}

proof fn lemma_members_removed(db: DbModel, group: Seq<char>, gone: Seq<Seq<char>>, user: Seq<char>)
    requires
        gone.contains(user),
    ensures
        !some_row(members_removed(db, group, gone).group_keys, group_key_for(group, user)),
        !members_removed(db, group, gone).is_member(group, user),
    decreases gone.len(),
{
    let rest = members_removed(db, group, gone.drop_last());
    let last = gone.last();
    let p = group_key_for(group, last);
    let q = group_key_for(group, user);
    let m = member_is(group, last);
    let n = member_is(group, user);
    if last == user {
        lemma_without(rest.group_keys, p);
        lemma_without(rest.members, m);
    } else {
        let i: int = choose|i: int| 0 <= i < gone.len() && gone[i] == user;
        assert(gone.drop_last()[i] == user);
        lemma_members_removed(db, group, gone.drop_last(), user);
        lemma_filter_rows(rest.group_keys, |r: GroupKeyModel| !p(r), q);
        lemma_filter_rows(
            rest.members,
            |r: MemberModel| !m(r),
            n,
        );
        if some_row(without(rest.group_keys, p), q) {
            let both = |r: GroupKeyModel| !p(r) && q(r);
            let j: int = choose|j: int|
                0 <= j < rest.group_keys.len() && both(#[trigger] rest.group_keys[j]);
            assert(q(rest.group_keys[j]));
        }
        if some_row(without(rest.members, m), n) {
            let both = |r: MemberModel| !m(r) && n(r);
            let j: int = choose|j: int|
                0 <= j < rest.members.len() && both(#[trigger] rest.members[j]);
            assert(n(rest.members[j]));
        }
    }
}

/// Only members are listed as members.
pub proof fn lemma_listed_is_member(
    db: DbModel,
    conversation: Seq<char>,
    names: Seq<Seq<char>>,
    user: Seq<char>,
)
    requires
        db.members_listed(conversation, names),
        names.contains(user),
    ensures
        db.is_member(conversation, user),
{
    let of = db.members.filter(member_of(conversation));
    let rows = choose|rows: Seq<MemberModel>| #[trigger]
        ordered(rows, of, members_by_name()) && names
            == names_of(rows);
    let i: int = choose|i: int| 0 <= i < names.len() && names[i] == user;
    let row = rows[i];
    assert(rows.contains(row));
    rows.to_multiset_ensures();
    of.to_multiset_ensures();
    assert(rows.to_multiset().count(row) > 0);
    assert(of.to_multiset().count(row) > 0);
    assert(of.contains(row));
    let j: int = choose|j: int| 0 <= j < of.len() && of[j] == row;
    let n = member_is(conversation, user);
    let any = |r: MemberModel| r == row;
    assert(any(of[j]));
    assert(some_row(of, any));
    lemma_filter_rows(
        db.members,
        member_of(conversation),
        any,
    );
    let both = |r: MemberModel|
        member_of(conversation)(r) && any(r);
    let k: int = choose|k: int| 0 <= k < db.members.len() && both(#[trigger] db.members[k]);
    assert(n(db.members[k]));
}

/// Whoever was removed from a group has no key of it: neither one of an earlier
/// epoch, nor one of the epoch that the removal started. So they cannot read what
/// is sent from then on.
pub proof fn law_removed_member_has_no_key(
    identity: IdentityModel,
    me: Seq<char>,
    group: Seq<char>,
    key: Seq<u8>,
    now_ms: i64,
    before: DbModel,
    removed: Seq<Seq<char>>,
    after: DbModel,
    outcome: Result<Seq<DraftModel>, Error>,
    user: Seq<char>,
)
    requires
        removed.contains(user),
        epoch_rotated(
            identity,
            me,
            group,
            key,
            now_ms,
            members_removed(before, group, removed),
            after,
            outcome,
        ),
    ensures
        !some_row(after.group_keys, group_key_for(group, user)),
        outcome matches Ok(drafts) ==> forall|i: int|
            0 <= i < drafts.len() ==> (#[trigger] drafts[i]).peer_username != user,
{
    let mid = members_removed(before, group, removed);
    lemma_members_removed(before, group, removed, user);
    if mid.group(group) is Some && mid.group(group)->0.current_epoch != i64::MAX {
        let g = mid.group(group)->0;
        let epoch = (g.current_epoch + 1) as i64;
        let saved = mid.save_group(group, g.name, epoch, now_ms);
        let names = choose|names: Seq<Seq<char>>|
            #![trigger mid.members_listed(group, names)]
            mid.members_listed(group, names) && rotation(
                identity,
                me,
                group,
                g.name,
                names,
                epoch,
                key,
            ).distributed(saved, after, outcome);
        let r = rotation(identity, me, group, g.name, names, epoch, key);
        let rows = choose|rows: Seq<GroupKeyModel>|
            {
                &&& #[trigger] r.wrapped_first(saved, rows)
                &&& after == saved.save_keys(rows)
                &&& match outcome {
                    Ok(drafts) => rows.len() == r.members.len() && drafts == r.key_drafts(
                        saved,
                        rows,
                    ),
                    Err(e) => rows.len() < r.members.len() && member_key(
                        saved,
                        r.my_key(),
                        r.me,
                        r.members,
                        rows.len() as int,
                    ) == Err::<Seq<u8>, Error>(e),
                }
            };
        assert forall|i: int| 0 <= i < rows.len() implies (#[trigger] rows[i]).wrapped_for
            != user by {
            assert(r.wraps(saved, rows[i], i));
            if names[i] == user {
                assert(names.contains(user));
                lemma_listed_is_member(mid, group, names, user);
            }
        }
        lemma_no_key_saved(saved, rows, group, user);
        if outcome is Ok {
            lemma_drafts_to_members(r, saved, rows, user);
        }
    }
}

proof fn lemma_drafts_to_members(
    r: RotationModel,
    db: DbModel,
    rows: Seq<GroupKeyModel>,
    user: Seq<char>,
)
    requires
        r.wrapped_first(db, rows),
        forall|i: int| 0 <= i < rows.len() ==> (#[trigger] rows[i]).wrapped_for != user,
    ensures
        forall|i: int|
            0 <= i < r.key_drafts(db, rows).len() ==> (#[trigger] r.key_drafts(
                db,
                rows,
            )[i]).peer_username != user,
    decreases rows.len(),
{
    if rows.len() > 0 {
        let rest = rows.drop_last();
        assert forall|i: int| 0 <= i < rest.len() implies r.wraps(db, #[trigger] rest[i], i) by {
            assert(rest[i] == rows[i]);
        }
        assert forall|i: int| 0 <= i < rest.len() implies (#[trigger] rest[i]).wrapped_for
            != user by {
            assert(rest[i] == rows[i]);
        }
        lemma_drafts_to_members(r, db, rest, user);
        let n = rows.len() - 1;
        assert(r.wraps(db, rows[n], n));
        assert(rows[n].wrapped_for != user);
    }
}

/// One of the drafts is for this user.
pub open spec fn drafted_for(drafts: Seq<DraftModel>, user: Seq<char>) -> bool {
    exists|i: int| 0 <= i < drafts.len() && (#[trigger] drafts[i]).peer_username == user
}

/// No two of the drafts are for the same user.
pub open spec fn drafted_once(drafts: Seq<DraftModel>) -> bool {
    forall|i: int, j: int|
        0 <= i < j < drafts.len() ==> (#[trigger] drafts[i]).peer_username != (
        #[trigger] drafts[j]).peer_username
}

/// Every member is listed, and each of them once.
pub(crate) proof fn lemma_members_listed_once(
    db: DbModel,
    conversation: Seq<char>,
    names: Seq<Seq<char>>,
    user: Seq<char>,
)
    requires
        db.members_listed(conversation, names),
        unique(db.members, crate::database::model::member_key()),
    ensures
        names.contains(user) <==> db.is_member(conversation, user),
        names.no_duplicates(),
{
    let key = crate::database::model::member_key();
    let p = member_of(conversation);
    let of = db.members.filter(p);
    let rows = choose|rows: Seq<MemberModel>| #[trigger]
        ordered(rows, of, members_by_name()) && names == names_of(rows);
    lemma_unique_filtered(db.members, key, p);
    assert(of.no_duplicates()) by {
        assert forall|i: int, j: int| 0 <= i < of.len() && 0 <= j < of.len() && i
            != j implies of[i] != of[j] by {
            if i < j {
                assert(key(of[i]) != key(of[j]));
            } else {
                assert(key(of[j]) != key(of[i]));
            }
        }
    }
    lemma_ordered(rows, of, members_by_name());
    let elsewhere = |r: MemberModel| !p(r);
    lemma_filter_rows(db.members, p, elsewhere);
    assert forall|i: int| 0 <= i < of.len() implies (#[trigger] of[i]).conversation_id
        == conversation by {
        if of[i].conversation_id != conversation {
            assert(elsewhere(of[i]));
        }
    }
    assert forall|i: int, j: int| 0 <= i < names.len() && 0 <= j < names.len() && i
        != j implies names[i] != names[j] by {
        assert(rows.contains(rows[i]) && rows.contains(rows[j]));
        assert(rows[i] != rows[j]);
        let k: int = choose|k: int| 0 <= k < of.len() && of[k] == rows[i];
        let l: int = choose|l: int| 0 <= l < of.len() && of[l] == rows[j];
        assert(k != l);
        if k < l {
            assert(key(of[k]) != key(of[l]));
        } else {
            assert(key(of[l]) != key(of[k]));
        }
    }
    if names.contains(user) {
        lemma_listed_is_member(db, conversation, names, user);
    }
    if db.is_member(conversation, user) {
        let n = member_is(conversation, user);
        let k: int = choose|k: int| 0 <= k < db.members.len() && n(#[trigger] db.members[k]);
        db.members.lemma_filter_contains(p, k);
        assert(of.contains(db.members[k]));
        assert(rows.contains(db.members[k]));
        let i: int = choose|i: int| 0 <= i < rows.len() && rows[i] == db.members[k];
        assert(names[i] == user);
    }
}

pub(crate) proof fn lemma_drafts_are_for_others(r: RotationModel, db: DbModel, rows: Seq<GroupKeyModel>)
    requires
        r.members.no_duplicates(),
        rows.len() <= r.members.len(),
    ensures
        drafted_once(r.key_drafts(db, rows)),
        forall|user: Seq<char>| #[trigger]
            drafted_for(r.key_drafts(db, rows), user) <==> user != r.me && r.members.take(
                rows.len() as int,
            ).contains(user),
    decreases rows.len(),
{
    let drafts = r.key_drafts(db, rows);
    if rows.len() > 0 {
        let rest = rows.drop_last();
        let n = rows.len() - 1;
        let before = r.key_drafts(db, rest);
        lemma_drafts_are_for_others(r, db, rest);
        let first = r.members.take(n);
        let all = r.members.take(rows.len() as int);
        assert(all =~= first.push(r.members[n]));
        assert(!first.contains(r.members[n]));
        assert(!drafted_for(before, r.members[n]));
        assert forall|user: Seq<char>| #[trigger] drafted_for(drafts, user) <==> user != r.me
            && all.contains(user) by {
            if drafted_for(before, user) {
                let i: int = choose|i: int|
                    0 <= i < before.len() && (#[trigger] before[i]).peer_username == user;
                assert(drafts[i] == before[i]);
                let k: int = choose|k: int| 0 <= k < first.len() && first[k] == user;
                assert(all[k] == user);
            }
            if user == r.members[n] && user != r.me {
                assert(drafts[drafts.len() - 1].peer_username == user);
                assert(all[n] == user);
            }
            if drafted_for(drafts, user) {
                let i: int = choose|i: int|
                    0 <= i < drafts.len() && (#[trigger] drafts[i]).peer_username == user;
                if i < before.len() {
                    assert(before[i].peer_username == user);
                }
            }
            if all.contains(user) {
                let k: int = choose|k: int| 0 <= k < all.len() && all[k] == user;
                if k < n {
                    assert(first[k] == user);
                }
            }
        }
        assert forall|i: int, j: int| 0 <= i < j < drafts.len() implies (
        #[trigger] drafts[i]).peer_username != (#[trigger] drafts[j]).peer_username by {
            assert(drafts[i] == before[i]);
            if j < before.len() {
                assert(drafts[j] == before[j]);
            } else {
                assert(before[i].peer_username != r.members[n]);
            }
        }
    } else {
        assert(r.members.take(0) =~= Seq::<Seq<char>>::empty());
    }
}

/// A rotation that succeeds drafts one message for each other member and none for anyone
/// else.
pub proof fn law_rotation_tells_each_member_once(
    identity: IdentityModel,
    me: Seq<char>,
    group: Seq<char>,
    key: Seq<u8>,
    now_ms: i64,
    before: DbModel,
    after: DbModel,
    drafts: Seq<DraftModel>,
    user: Seq<char>,
)
    requires
        unique(before.members, crate::database::model::member_key()),
        epoch_rotated(identity, me, group, key, now_ms, before, after, Ok(drafts)),
    ensures
        drafted_once(drafts),
        drafted_for(drafts, user) <==> user != me && before.is_member(group, user),
{
    let g = before.group(group)->0;
    let epoch = (g.current_epoch + 1) as i64;
    let saved = before.save_group(group, g.name, epoch, now_ms);
    let names = choose|names: Seq<Seq<char>>|
        #![trigger before.members_listed(group, names)]
        before.members_listed(group, names) && rotation(
            identity,
            me,
            group,
            g.name,
            names,
            epoch,
            key,
        ).distributed(saved, after, Ok(drafts));
    let r = rotation(identity, me, group, g.name, names, epoch, key);
    let rows = choose|rows: Seq<GroupKeyModel>|
        {
            &&& #[trigger] r.wrapped_first(saved, rows)
            &&& after == saved.save_keys(rows)
            &&& rows.len() == r.members.len()
            &&& drafts == r.key_drafts(saved, rows)
        };
    lemma_members_listed_once(before, group, names, user);
    lemma_drafts_are_for_others(r, saved, rows);
    assert(names.take(rows.len() as int) =~= names);
}

/// Members that are not removed stay, and nobody joins.
pub(crate) proof fn lemma_members_remaining(
    db: DbModel,
    group: Seq<char>,
    gone: Seq<Seq<char>>,
    user: Seq<char>,
)
    requires
        unique(db.members, crate::database::model::member_key()),
    ensures
        unique(
            members_removed(db, group, gone).members,
            crate::database::model::member_key(),
        ),
        members_removed(db, group, gone).is_member(group, user) <==> db.is_member(group, user)
            && !gone.contains(user),
    decreases gone.len(),
{
    if gone.len() > 0 {
        let rest = members_removed(db, group, gone.drop_last());
        let last = gone.last();
        let m = member_is(group, last);
        let n = member_is(group, user);
        lemma_members_remaining(db, group, gone.drop_last(), user);
        lemma_unique_filtered(
            rest.members,
            crate::database::model::member_key(),
            |r: MemberModel| !m(r),
        );
        assert(gone =~= gone.drop_last().push(last));
        if gone.contains(user) {
            lemma_members_removed(db, group, gone, user);
        } else {
            assert(!gone.drop_last().contains(user)) by {
                if gone.drop_last().contains(user) {
                    let i: int = choose|i: int|
                        0 <= i < gone.drop_last().len() && gone.drop_last()[i] == user;
                    assert(gone[i] == user);
                }
            }
            assert(gone[gone.len() - 1] != user);
            lemma_first_row_without(rest.members, m, n);
            lemma_first_row(rest.members, n);
            lemma_first_row(without(rest.members, m), n);
        }
    }
}

/// Whoever stays in a group is told its new key once; the removed, and strangers, are told
/// nothing.
pub proof fn law_removal_tells_the_remaining(
    identity: IdentityModel,
    me: Seq<char>,
    group: Seq<char>,
    key: Seq<u8>,
    now_ms: i64,
    before: DbModel,
    removed: Seq<Seq<char>>,
    after: DbModel,
    drafts: Seq<DraftModel>,
    user: Seq<char>,
)
    requires
        before.consistent(),
        epoch_rotated(
            identity,
            me,
            group,
            key,
            now_ms,
            members_removed(before, group, removed),
            after,
            Ok(drafts),
        ),
    ensures
        drafted_once(drafts),
        drafted_for(drafts, user) <==> user != me && before.is_member(group, user)
            && !removed.contains(user),
{
    lemma_members_remaining(before, group, removed, user);
    law_rotation_tells_each_member_once(
        identity,
        me,
        group,
        key,
        now_ms,
        members_removed(before, group, removed),
        after,
        drafts,
        user,
    );
}

/// A rotation takes the group to its next epoch and no further.
pub proof fn law_rotation_advances_epoch(
    identity: IdentityModel,
    me: Seq<char>,
    group: Seq<char>,
    key: Seq<u8>,
    now_ms: i64,
    before: DbModel,
    after: DbModel,
    outcome: Result<Seq<DraftModel>, Error>,
)
    requires
        epoch_rotated(identity, me, group, key, now_ms, before, after, outcome),
        before.group(group) is Some,
        before.group(group)->0.current_epoch < i64::MAX,
    ensures
        after.group(group) is Some,
        after.group(group)->0.current_epoch == before.group(group)->0.current_epoch + 1,
        after.group(group)->0.name == before.group(group)->0.name,
        after.members == before.members,
{
    let g = before.group(group)->0;
    let epoch = (g.current_epoch + 1) as i64;
    let saved = before.save_group(group, g.name, epoch, now_ms);
    let names = choose|names: Seq<Seq<char>>|
        #![trigger before.members_listed(group, names)]
        before.members_listed(group, names) && rotation(
            identity,
            me,
            group,
            g.name,
            names,
            epoch,
            key,
        ).distributed(saved, after, outcome);
    let r = rotation(identity, me, group, g.name, names, epoch, key);
    let rows = choose|rows: Seq<GroupKeyModel>|
        #[trigger] r.wrapped_first(saved, rows) && after == saved.save_keys(rows);
    lemma_save_keys_frame(saved, rows);
    lemma_first_row(before.groups, group_is(group));
    lemma_first_row_updated(
        before.groups,
        group_is(group),
        group_resaved(g.name, epoch, now_ms),
    );
}

proof fn lemma_other_epoch_kept(
    db: DbModel,
    rows: Seq<GroupKeyModel>,
    group: Seq<char>,
    epoch: i64,
    member: Seq<char>,
)
    requires
        forall|i: int| 0 <= i < rows.len() ==> (#[trigger] rows[i]).epoch != epoch,
    ensures
        db.save_keys(rows).group_key(group, epoch, member) == db.group_key(group, epoch, member),
    decreases rows.len(),
{
    if rows.len() > 0 {
        let rest = rows.drop_last();
        let last = rows.last();
        assert forall|i: int| 0 <= i < rest.len() implies (#[trigger] rest[i]).epoch != epoch by {
            assert(rest[i] == rows[i]);
        }
        lemma_other_epoch_kept(db, rest, group, epoch, member);
        assert(rows[rows.len() - 1].epoch != epoch);
        let gone = group_key_is(last.group_id, last.epoch, last.wrapped_for);
        let p = group_key_is(group, epoch, member);
        let keys = db.save_keys(rest).group_keys;
        lemma_first_row_without(keys, gone, p);
        lemma_first_row_pushed(without(keys, gone), p, last);
    }
}

/// History stays readable: a rotation leaves the keys of the epochs up to then as they were,
/// so that what was sealed in them opens as before.
pub proof fn law_rotation_keeps_older_keys(
    identity: IdentityModel,
    me: Seq<char>,
    group: Seq<char>,
    key: Seq<u8>,
    now_ms: i64,
    before: DbModel,
    after: DbModel,
    outcome: Result<Seq<DraftModel>, Error>,
    epoch: i64,
    member: Seq<char>,
    secret: Seq<u8>,
)
    requires
        epoch_rotated(identity, me, group, key, now_ms, before, after, outcome),
        before.group(group) is Some ==> epoch <= before.group(group)->0.current_epoch,
    ensures
        after.group_key(group, epoch, member) == before.group_key(group, epoch, member),
        epoch_key(after, secret, group, epoch, member) == epoch_key(
            before,
            secret,
            group,
            epoch,
            member,
        ),
{
    if before.group(group) is Some && before.group(group)->0.current_epoch != i64::MAX {
        let g = before.group(group)->0;
        let next = (g.current_epoch + 1) as i64;
        let saved = before.save_group(group, g.name, next, now_ms);
        let names = choose|names: Seq<Seq<char>>|
            #![trigger before.members_listed(group, names)]
            before.members_listed(group, names) && rotation(
                identity,
                me,
                group,
                g.name,
                names,
                next,
                key,
            ).distributed(saved, after, outcome);
        let r = rotation(identity, me, group, g.name, names, next, key);
        let rows = choose|rows: Seq<GroupKeyModel>|
            #[trigger] r.wrapped_first(saved, rows) && after == saved.save_keys(rows);
        assert forall|i: int| 0 <= i < rows.len() implies (#[trigger] rows[i]).epoch != epoch by {
            assert(r.wraps(saved, rows[i], i));
        }
        lemma_other_epoch_kept(saved, rows, group, epoch, member);
    }
}

/// Taking a rotation that someone else made leaves the keys of all other epochs as they
/// were, too.
pub proof fn law_received_key_keeps_older_keys(
    db: DbModel,
    row: GroupKeyModel,
    name: Seq<char>,
    members: Seq<Seq<char>>,
    now_ms: i64,
    epoch: i64,
    secret: Seq<u8>,
)
    requires
        epoch != row.epoch,
    ensures
        ({
            let after = group_synced(db, row.group_id, name, members, row.epoch, now_ms)
                .save_wrapped_key(row);
            epoch_key(after, secret, row.group_id, epoch, row.wrapped_for) == epoch_key(
                db,
                secret,
                row.group_id,
                epoch,
                row.wrapped_for,
            )
        }),
{
    let synced = group_synced(db, row.group_id, name, members, row.epoch, now_ms);
    let gone = group_key_is(row.group_id, row.epoch, row.wrapped_for);
    let p = group_key_is(row.group_id, epoch, row.wrapped_for);
    lemma_first_row_without(synced.group_keys, gone, p);
    lemma_first_row_pushed(without(synced.group_keys, gone), p, row);
}

/// A key that was wrapped for someone reaches them: once they have taken the
/// rotation, the epoch's key is what the sender handed out.
pub proof fn law_wrapped_key_reaches_member(
    sender_secret: Seq<u8>,
    member_secret: Seq<u8>,
    group_key: Seq<u8>,
    wrapped_key: Seq<u8>,
    synced: DbModel,
    group: Seq<char>,
    epoch: i64,
    member: Seq<char>,
    share: Option<u64>,
)
    requires
        member_secret.len() == 32,
        group_key.len() == 32,
        x25519_public(sender_secret).len() == 32,
        box_of(
            wrapped_key,
            sender_secret,
            x25519_public(member_secret),
            group_key_context(),
            group_key,
        ),
    ensures
        hex_decoded_32(hex(x25519_public(sender_secret))) == Ok::<Seq<u8>, Error>(
            x25519_public(sender_secret),
        ),
        epoch_key(
            synced.save_wrapped_key(
                (GroupKeyModel {
                    group_id: group,
                    epoch,
                    wrapped_for: member,
                    wrapped_key,
                    wrapper_x_pub: Some(x25519_public(sender_secret)),
                    share,
                }),
            ),
            member_secret,
            group,
            epoch,
            member,
        ) == Ok::<Seq<u8>, Error>(group_key),
{
    law_hex_round_trip(x25519_public(sender_secret));
    lemma_saved_key_found(
        synced,
        GroupKeyModel {
            group_id: group,
            epoch,
            wrapped_for: member,
            wrapped_key,
            wrapper_x_pub: Some(x25519_public(sender_secret)),
            share,
        },
    );
}

proof fn lemma_held_below(
    keys: Seq<GroupKeyModel>,
    group_id: Seq<char>,
    me: Seq<char>,
    bound: int,
)
    ensures
        forall|i: int|
            0 <= i < held_below(keys, group_id, me, bound).len() ==> #[trigger] held_below(
                keys,
                group_id,
                me,
                bound,
            )[i] < bound,
        forall|i: int, j: int|
            0 <= i < j < held_below(keys, group_id, me, bound).len() ==> #[trigger] held_below(
                keys,
                group_id,
                me,
                bound,
            )[i] > #[trigger] held_below(keys, group_id, me, bound)[j],
        forall|k: int|
            0 <= k < keys.len() && (#[trigger] keys[k]).group_id == group_id && keys[k].wrapped_for
                == me && keys[k].epoch < bound ==> held_below(keys, group_id, me, bound).contains(
                keys[k].epoch,
            ),
    decreases bound - i64::MIN,
{
    lemma_newest_below(keys, group_id, me, bound);
    let list = held_below(keys, group_id, me, bound);
    match newest_below(keys, group_id, me, bound) {
        None => {},
        Some(e) => {
            let rest = held_below(keys, group_id, me, e as int);
            lemma_held_below(keys, group_id, me, e as int);
            assert(list[0] == e);
            assert forall|i: int| 0 <= i < list.len() implies #[trigger] list[i] < bound by {
                if i > 0 {
                    assert(list[i] == rest[i - 1]);
                }
            }
            assert forall|i: int, j: int| 0 <= i < j < list.len() implies #[trigger] list[i]
                > #[trigger] list[j] by {
                assert(list[j] == rest[j - 1]);
                if i > 0 {
                    assert(list[i] == rest[i - 1]);
                }
            }
            assert forall|k: int|
                0 <= k < keys.len() && (#[trigger] keys[k]).group_id == group_id
                    && keys[k].wrapped_for == me && keys[k].epoch < bound implies list.contains(
                keys[k].epoch,
            ) by {
                if keys[k].epoch < e {
                    assert(rest.contains(keys[k].epoch));
                    let at: int = choose|at: int|
                        0 <= at < rest.len() && rest[at] == keys[k].epoch;
                    assert(list[at + 1] == keys[k].epoch);
                } else {
                    assert(list[0] == keys[k].epoch);
                }
            }
        },
    }
}

/// Behind the hint the current epoch is tried first, and then each older one whose key is
/// held, newest first.
pub proof fn law_epochs_newest_first(
    db: DbModel,
    group: Seq<char>,
    me: Seq<char>,
    hint: Option<i64>,
)
    ensures
        ({
            let list = epochs_to_try(db, group, me, hint);
            let start: int = if hint is Some {
                1
            } else {
                0
            };
            &&& hint is Some ==> list[0] == hint->0
            &&& list.len() > start && list[start] == epoch_or_first(db, group)
            &&& forall|i: int, j: int|
                start <= i < j < list.len() ==> #[trigger] list[i] > #[trigger] list[j]
            &&& forall|k: int|
                0 <= k < db.group_keys.len() && (#[trigger] db.group_keys[k]).group_id == group
                    && db.group_keys[k].wrapped_for == me && db.group_keys[k].epoch
                    <= epoch_or_first(db, group) ==> list.contains(db.group_keys[k].epoch)
        }),
{
    let list = epochs_to_try(db, group, me, hint);
    let current = epoch_or_first(db, group);
    let start: int = if hint is Some {
        1
    } else {
        0
    };
    let rest = held_below(db.group_keys, group, me, current as int);
    lemma_held_below(db.group_keys, group, me, current as int);
    assert forall|i: int, j: int| start <= i < j < list.len() implies #[trigger] list[i]
        > #[trigger] list[j] by {
        assert(list[j] == rest[j - start - 1]);
        if i > start {
            assert(list[i] == rest[i - start - 1]);
        }
    }
    assert forall|k: int|
        0 <= k < db.group_keys.len() && (#[trigger] db.group_keys[k]).group_id == group
            && db.group_keys[k].wrapped_for == me && db.group_keys[k].epoch
            <= current implies list.contains(db.group_keys[k].epoch) by {
        let e = db.group_keys[k].epoch;
        if e < current {
            assert(rest.contains(e));
            let at: int = choose|at: int| 0 <= at < rest.len() && rest[at] == e;
            assert(list[at + start + 1] == e);
        } else {
            assert(list[start] == e);
        }
    }
}

proof fn lemma_first_opened(
    db: DbModel,
    secret: Seq<u8>,
    group: Seq<char>,
    me: Seq<char>,
    sequence: u64,
    boxed: Seq<u8>,
    epochs: Seq<i64>,
)
    ensures
        match first_opened(db, secret, group, me, sequence, boxed, epochs) {
            Ok(opened) => epochs.contains(opened.1) && opened_at(
                db,
                secret,
                group,
                opened.1,
                me,
                sequence,
                boxed,
            ) == Ok::<Seq<u8>, Error>(opened.0),
            Err(_) => forall|i: int|
                0 <= i < epochs.len() ==> opened_at(
                    db,
                    secret,
                    group,
                    #[trigger] epochs[i],
                    me,
                    sequence,
                    boxed,
                ) is Err,
        },
    decreases epochs.len(),
{
    if epochs.len() > 0 {
        let rest = epochs.drop_first();
        lemma_first_opened(db, secret, group, me, sequence, boxed, rest);
        assert(epochs.contains(epochs[0]));
        if opened_at(db, secret, group, epochs[0], me, sequence, boxed) is Err && epochs.len() > 1 {
            match first_opened(db, secret, group, me, sequence, boxed, rest) {
                Ok(opened) => {
                    let at: int = choose|at: int| 0 <= at < rest.len() && rest[at] == opened.1;
                    assert(epochs[at + 1] == opened.1);
                },
                Err(_) => {
                    assert forall|i: int| 0 <= i < epochs.len() implies opened_at(
                        db,
                        secret,
                        group,
                        #[trigger] epochs[i],
                        me,
                        sequence,
                        boxed,
                    ) is Err by {
                        if i > 0 {
                            assert(rest[i - 1] == epochs[i]);
                        }
                    }
                },
            }
        }
    }
}

/// History stays readable, however many epochs ago it was written: what the held key of
/// an epoch up to the current one opens is opened, whatever the hint is, and the epoch
/// that is told is one whose key opened it. What no tried key opens is refused.
pub proof fn law_held_epochs_open(
    db: DbModel,
    secret: Seq<u8>,
    group: Seq<char>,
    me: Seq<char>,
    sequence: u64,
    boxed: Seq<u8>,
    hint: Option<i64>,
    epoch: i64,
)
    requires
        epoch <= epoch_or_first(db, group),
        db.group_key(group, epoch, me) is Some,
    ensures
        ({
            let list = epochs_to_try(db, group, me, hint);
            let best = first_opened(db, secret, group, me, sequence, boxed, list);
            &&& opened_at(db, secret, group, epoch, me, sequence, boxed) is Ok ==> best is Ok
            &&& best matches Ok(opened) ==> opened_at(
                db,
                secret,
                group,
                opened.1,
                me,
                sequence,
                boxed,
            ) == Ok::<Seq<u8>, Error>(opened.0)
            &&& (opened_at(db, secret, group, epoch, me, sequence, boxed) is Ok && forall|other: i64|
                other != epoch && #[trigger] list.contains(other) ==> opened_at(
                    db,
                    secret,
                    group,
                    other,
                    me,
                    sequence,
                    boxed,
                ) is Err) ==> best == Ok::<(Seq<u8>, i64), Error>(
                (opened_at(db, secret, group, epoch, me, sequence, boxed)->Ok_0, epoch),
            )
            &&& (forall|other: i64| #[trigger]
                list.contains(other) ==> opened_at(
                    db,
                    secret,
                    group,
                    other,
                    me,
                    sequence,
                    boxed,
                ) is Err) ==> best is Err
        }),
{
    let list = epochs_to_try(db, group, me, hint);
    law_epochs_newest_first(db, group, me, hint);
    lemma_first_opened(db, secret, group, me, sequence, boxed, list);
    lemma_first_row(db.group_keys, group_key_is(group, epoch, me));
    let row = db.group_key(group, epoch, me)->0;
    let k: int = choose|k: int| 0 <= k < db.group_keys.len() && db.group_keys[k] == row;
    assert(list.contains(db.group_keys[k].epoch));
    let at: int = choose|at: int| 0 <= at < list.len() && list[at] == epoch;
    assert(list[at] == epoch);
}

/// No pair of key and nonce repeats within an epoch. Whoever hands out an epoch notes the
/// shares of its members, and whoever takes its key notes their own: those of different
/// members differ. So two seals of one epoch have different nonces unless they are of one
/// member under one number of that member's own.
pub proof fn law_epoch_nonces_differ(
    members: Seq<Seq<char>>,
    a: Seq<char>,
    b: Seq<char>,
    a_sequence: u64,
    b_sequence: u64,
)
    requires
        members.contains(a),
        members.contains(b),
        a != b || a_sequence != b_sequence,
    ensures
        ({
            let x = share_number(first_place(members, a), a_sequence);
            let y = share_number(first_place(members, b), b_sequence);
            x is Ok && y is Ok ==> x->Ok_0 != y->Ok_0 && group_nonce_bytes(x->Ok_0)
                != group_nonce_bytes(y->Ok_0)
        }),
{
    let x = share_number(first_place(members, a), a_sequence);
    let y = share_number(first_place(members, b), b_sequence);
    lemma_first_place(members, a);
    lemma_first_place(members, b);
    if x is Ok && y is Ok {
        lemma_number_tells(first_place(members, a), a_sequence);
        lemma_number_tells(first_place(members, b), b_sequence);
        law_group_nonces_differ(x->Ok_0, y->Ok_0);
    }
}

/// The share of a member that is not noted is their place in the list of the members, by
/// name. Storing a key keeps the share that its member has, and notes it.
pub proof fn law_listed_shares_are_places(
    db: DbModel,
    row: GroupKeyModel,
    names: Seq<Seq<char>>,
)
    requires
        db.consistent(),
        db.members_listed(row.group_id, names),
        names.contains(row.wrapped_for),
    ensures
        unnoted(db, row.group_id, row.epoch, row.wrapped_for) ==> db.share_of(
            row.group_id,
            row.epoch,
            row.wrapped_for,
        ) == first_place(names, row.wrapped_for),
        row.share == Some(db.share_of(row.group_id, row.epoch, row.wrapped_for) as u64)
            && names.len() <= u64::MAX ==> db.save_wrapped_key(row).share_of(
            row.group_id,
            row.epoch,
            row.wrapped_for,
        ) == db.share_of(row.group_id, row.epoch, row.wrapped_for),
{
    lemma_rank_is_place(db, row.group_id, names, row.wrapped_for);
    lemma_saved_key_found(db, row);
    lemma_first_place(names, row.wrapped_for);
}

/// No share of the epoch is noted for a member.
pub open spec fn unnoted(db: DbModel, group: Seq<char>, epoch: i64, member: Seq<char>) -> bool {
    match db.group_key(group, epoch, member) {
        Some(row) => row.share is None,
        None => true,
    }
}

proof fn lemma_rank_is_place(
    db: DbModel,
    group: Seq<char>,
    names: Seq<Seq<char>>,
    user: Seq<char>,
)
    requires
        unique(db.members, crate::database::model::member_key()),
        db.members_listed(group, names),
        names.contains(user),
    ensures
        db.members.filter(member_before(group, user)).len() == first_place(names, user),
{
    let key = crate::database::model::member_key();
    let p = member_before(group, user);
    let before = db.members.filter(p);
    let k = first_place(names, user) as int;
    let rows = choose|rows: Seq<MemberModel>| #[trigger]
        ordered(rows, db.members.filter(member_of(group)), members_by_name()) && names
            == names_of(rows);
    lemma_first_place(names, user);
    lemma_members_listed_once(db, group, names, user);
    lemma_unique_filtered(db.members, key, p);
    let first = names.take(k);
    let ahead = before.map_values(|r: MemberModel| r.username);
    let outside = |r: MemberModel| !p(r);
    lemma_filter_rows(db.members, p, outside);
    assert forall|i: int| 0 <= i < before.len() implies p(#[trigger] before[i]) by {
        if !p(before[i]) {
            assert(outside(before[i]));
        }
    }
    assert(ahead.no_duplicates()) by {
        assert forall|i: int, j: int| 0 <= i < ahead.len() && 0 <= j < ahead.len() && i
            != j implies ahead[i] != ahead[j] by {
            assert(p(before[i]) && p(before[j]));
            if i < j {
                assert(key(before[i]) != key(before[j]));
            } else {
                assert(key(before[j]) != key(before[i]));
            }
        }
    }
    assert(first.no_duplicates());
    assert forall|name: Seq<char>| ahead.contains(name) <==> first.contains(name) by {
        let named = |r: MemberModel| r.username == name;
        let both = |r: MemberModel| p(r) && named(r);
        lemma_filter_rows(db.members, p, named);
        lemma_members_listed_once(db, group, names, name);
        if ahead.contains(name) {
            let i: int = choose|i: int| 0 <= i < ahead.len() && ahead[i] == name;
            assert(p(before[i]) && named(before[i]));
            let m: int = choose|m: int| 0 <= m < db.members.len() && both(#[trigger] db.members[m]);
            assert(member_is(group, name)(db.members[m]));
            let j: int = choose|j: int| 0 <= j < names.len() && names[j] == name;
            if j >= k {
                assert(j != k);
                assert(members_by_name()(rows[k], rows[j]));
                lemma_text_le_antisymmetric(name, user);
            }
            assert(first[j] == name);
        }
        if first.contains(name) {
            let j: int = choose|j: int| 0 <= j < first.len() && first[j] == name;
            assert(names[j] == name);
            assert(names.contains(name));
            assert(members_by_name()(rows[j], rows[k]));
            let m: int = choose|m: int|
                0 <= m < db.members.len() && member_is(group, name)(#[trigger] db.members[m]);
            assert(both(db.members[m]));
            let i: int = choose|i: int| 0 <= i < before.len() && named(#[trigger] before[i]);
            assert(ahead[i] == name);
        }
    }
    ahead.unique_seq_to_set();
    first.unique_seq_to_set();
    assert(ahead.to_set() =~= first.to_set()) by {
        assert forall|name: Seq<char>| ahead.to_set().contains(name) <==> first.to_set().contains(
            name,
        ) by {
            assert(ahead.contains(name) <==> first.contains(name));
        }
    }
}

/// The shares of an epoch are the places in the list of members that goes with its key:
/// in the store of whoever hands the key out, and in the store of whoever takes it.
pub proof fn law_shares_are_places(
    db: DbModel,
    r: RotationModel,
    rows: Seq<GroupKeyModel>,
    index: int,
    synced: DbModel,
    row: GroupKeyModel,
)
    requires
        0 <= index < r.members.len(),
        rows.len() == r.members.len(),
        r.wrapped_first(db, rows),
        row.group_id == r.group_id,
        row.epoch == r.epoch,
        row.wrapped_for == r.members[index],
        row.share == Some(first_place(r.members, r.members[index]) as u64),
        r.members.len() <= u64::MAX,
    ensures
        db.save_keys(rows).share_of(r.group_id, r.epoch, r.members[index]) == first_place(
            r.members,
            r.members[index],
        ),
        synced.save_wrapped_key(row).share_of(r.group_id, r.epoch, r.members[index])
            == first_place(r.members, r.members[index]),
{
    let name = r.members[index];
    assert(r.members.contains(name));
    lemma_first_place(r.members, name);
    lemma_saved_key_found(synced, row);
    lemma_saved_share(db, r, rows, rows.len() as int, name, index);
    assert(rows.take(rows.len() as int) =~= rows);
}

proof fn lemma_saved_share(
    db: DbModel,
    r: RotationModel,
    rows: Seq<GroupKeyModel>,
    n: int,
    name: Seq<char>,
    index: int,
)
    requires
        0 <= index < n <= rows.len(),
        rows.len() <= r.members.len(),
        r.wrapped_first(db, rows),
        name == r.members[index],
    ensures
        db.save_keys(rows.take(n)).group_key(r.group_id, r.epoch, name) is Some,
        db.save_keys(rows.take(n)).group_key(r.group_id, r.epoch, name)->0.share == Some(
            first_place(r.members, name) as u64,
        ),
    decreases n,
{
    let some = rows.take(n);
    let last = rows[n - 1];
    assert(r.wraps(db, last, n - 1));
    assert(some.drop_last() =~= rows.take(n - 1));
    assert(some.last() == last);
    let before = db.save_keys(rows.take(n - 1));
    if last.wrapped_for == name {
        lemma_saved_key_found(before, last);
    } else {
        assert(index < n - 1);
        lemma_saved_share(db, r, rows, n - 1, name, index);
        let p = group_key_is(r.group_id, r.epoch, name);
        let gone = group_key_is(last.group_id, last.epoch, last.wrapped_for);
        lemma_first_row_without(before.group_keys, gone, p);
        lemma_first_row_pushed(without(before.group_keys, gone), p, last);
    }
}

} // verus!
