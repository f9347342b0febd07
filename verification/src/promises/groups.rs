//! Groups: who belongs to them, which epoch they are in, and who has its key.

use vstd::prelude::*;

use crate::bytes::hex_decoded_32;
use crate::database::model::{
    conversation_is, group_is, group_key_for, group_key_is, joined, member_beyond, member_is,
};
use crate::database::DbModel;
use crate::error::Error;
use crate::friends::{Draft, DraftModel};
use crate::groups::{
    drafted_for, drafted_once, epoch_known, epoch_rotated, group_created, group_made, group_renamed,
    group_synced, lemma_drafts_are_for_others, lemma_save_keys_frame, members_added,
    members_removed, rename_done, rotation, with_me, GroupDraft, RotationModel,
};
use crate::identity::IdentityModel;
use crate::messaging::{group_left, Sending};
use crate::payload::PayloadModel;
use crate::promises::belongs;
use crate::promises::messages::{everyone_but, lemma_belongs, lemma_filtered_from, lemma_peers};
use crate::records::{GroupKeyModel, MemberModel};
use crate::routing::key_received;
use crate::table::{lemma_first_row, some_row, views, without};
use crate::text::{texts, trimmed};

verus! {

/// The members of every other conversation are as they were.
pub open spec fn others_unmoved(before: DbModel, after: DbModel, group: Seq<char>) -> bool {
    forall|c: Seq<char>, u: Seq<char>|
        c != group ==> (#[trigger] belongs(after, c, u) <==> belongs(before, c, u))
}

/// A group is stored under this name, in this epoch, and under no other.
pub open spec fn group_at(db: DbModel, group: Seq<char>, name: Seq<char>, epoch: i64) -> bool {
    &&& exists|i: int| 0 <= i < db.groups.len() && (#[trigger] db.groups[i]).group_id == group
    &&& forall|i: int|
        0 <= i < db.groups.len() && (#[trigger] db.groups[i]).group_id == group
            ==> db.groups[i].name == name && db.groups[i].current_epoch == epoch
}

/// Members of other conversations neither come nor go with someone who joins or is removed.
proof fn lemma_joined_elsewhere(
    members: Seq<MemberModel>,
    id: Seq<char>,
    names: Seq<Seq<char>>,
    now_ms: i64,
    c: Seq<char>,
    u: Seq<char>,
)
    ensures
        some_row(joined(members, id, names, now_ms), member_is(c, u)) <==> some_row(
            members,
            member_is(c, u),
        ) || (c == id && names.contains(u)),
    decreases names.len(),
{
    let p = member_is(c, u);
    let after = joined(members, id, names, now_ms);
    if names.len() > 0 {
        let rest = names.drop_last();
        let before = joined(members, id, rest, now_ms);
        lemma_joined_elsewhere(members, id, rest, now_ms, c, u);
        assert(names =~= rest.push(names.last()));
        if rest.contains(u) {
            let k: int = choose|k: int| 0 <= k < rest.len() && rest[k] == u;
            assert(names[k] == u);
        }
        assert(names[names.len() - 1] == names.last());
        if some_row(before, p) {
            let k: int = choose|k: int| 0 <= k < before.len() && p(#[trigger] before[k]);
            assert(p(after[k]));
        }
        if !some_row(before, member_is(id, names.last())) {
            if c == id && u == names.last() {
                assert(p(after[before.len() as int]));
            }
        }
        if some_row(after, p) {
            let k: int = choose|k: int| 0 <= k < after.len() && p(#[trigger] after[k]);
            if k < before.len() {
                assert(p(before[k]));
            }
        }
    }
}

proof fn lemma_without_row<V>(rows: Seq<V>, gone: spec_fn(V) -> bool, p: spec_fn(V) -> bool)
    ensures
        some_row(without(rows, gone), p) <==> exists|i: int|
            0 <= i < rows.len() && p(#[trigger] rows[i]) && !gone(rows[i]),
{
    let keep = |r: V| !gone(r);
    let kept = without(rows, gone);
    if some_row(kept, p) {
        let i: int = choose|i: int| 0 <= i < kept.len() && p(#[trigger] kept[i]);
        lemma_filtered_from(rows, keep, i);
        let k: int = choose|k: int| 0 <= k < rows.len() && rows[k] == kept[i];
        assert(p(rows[k]) && !gone(rows[k]));
    }
    if exists|i: int| 0 <= i < rows.len() && p(#[trigger] rows[i]) && !gone(rows[i]) {
        let i: int = choose|i: int|
            0 <= i < rows.len() && p(#[trigger] rows[i]) && !gone(rows[i]);
        rows.lemma_filter_contains(keep, i);
        let k: int = choose|k: int| 0 <= k < kept.len() && kept[k] == rows[i];
        assert(p(kept[k]));
    }
}

/// Setting the members of a conversation leaves exactly those that are listed.
pub proof fn law_set_members_are_the_listed(
    db: DbModel,
    group: Seq<char>,
    names: Seq<Seq<char>>,
    now_ms: i64,
)
    ensures
        ({
            let after = db.set_conversation_members(group, names, now_ms);
            &&& forall|u: Seq<char>| #[trigger] belongs(after, group, u) <==> names.contains(u)
            &&& others_unmoved(db, after, group)
        }),
{
    let after = db.set_conversation_members(group, names, now_ms);
    let all = joined(db.members, group, names, now_ms);
    let gone = member_beyond(group, names);
    assert forall|c: Seq<char>, u: Seq<char>|
        (#[trigger] belongs(after, c, u)) == if c == group {
            names.contains(u)
        } else {
            belongs(db, c, u)
        } by {
        let p = member_is(c, u);
        lemma_belongs(after, c, u);
        lemma_belongs(db, c, u);
        lemma_joined_elsewhere(db.members, group, names, now_ms, c, u);
        lemma_without_row(all, gone, p);
        if some_row(all, p) {
            let k: int = choose|k: int| 0 <= k < all.len() && p(#[trigger] all[k]);
            if c != group || names.contains(u) {
                assert(p(all[k]) && !gone(all[k]));
            }
        }
    }
}

/// Creating a conversation, or joining one, adds those that are listed and nobody else.
pub proof fn law_created_members_are_added(
    db: DbModel,
    id: Seq<char>,
    kind: Seq<char>,
    name: Seq<char>,
    names: Seq<Seq<char>>,
    now_ms: i64,
)
    ensures
        ({
            let after = db.create_conversation(id, kind, name, names, now_ms);
            &&& forall|u: Seq<char>| #[trigger]
                belongs(after, id, u) <==> belongs(db, id, u) || names.contains(u)
            &&& others_unmoved(db, after, id)
        }),
{
    let after = db.create_conversation(id, kind, name, names, now_ms);
    assert forall|c: Seq<char>, u: Seq<char>|
        (#[trigger] belongs(after, c, u)) == (belongs(db, c, u) || (c == id && names.contains(
            u,
        ))) by {
        lemma_belongs(after, c, u);
        lemma_belongs(db, c, u);
        lemma_joined_elsewhere(db.members, id, names, now_ms, c, u);
    }
}

/// Removing someone from a conversation removes them from it, and nobody else.
pub proof fn law_removed_member_is_gone(db: DbModel, conversation: Seq<char>, user: Seq<char>)
    ensures
        ({
            let after = db.remove_conversation_member(conversation, user);
            forall|c: Seq<char>, u: Seq<char>| #[trigger]
                belongs(after, c, u) <==> belongs(db, c, u) && !(c == conversation && u == user)
        }),
{
    let after = db.remove_conversation_member(conversation, user);
    assert forall|c: Seq<char>, u: Seq<char>| #[trigger]
        belongs(after, c, u) <==> belongs(db, c, u) && !(c == conversation && u == user) by {
        let p = member_is(c, u);
        let gone = member_is(conversation, user);
        lemma_belongs(after, c, u);
        lemma_belongs(db, c, u);
        lemma_without_row(db.members, gone, p);
        if some_row(db.members, p) {
            let k: int = choose|k: int| 0 <= k < db.members.len() && p(#[trigger] db.members[k]);
            if !(c == conversation && u == user) {
                assert(p(db.members[k]) && !gone(db.members[k]));
            }
        }
    }
}

/// Saving a group stores its name and epoch, and changes no other group.
pub proof fn law_saved_group_is_there(
    db: DbModel,
    group: Seq<char>,
    name: Seq<char>,
    epoch: i64,
    now_ms: i64,
)
    ensures
        group_at(db.save_group(group, name, epoch, now_ms), group, name, epoch),
        forall|other: Seq<char>, n: Seq<char>, e: i64|
            other != group && #[trigger] group_at(db, other, n, e) ==> group_at(
                db.save_group(group, name, epoch, now_ms),
                other,
                n,
                e,
            ),
{
    let after = db.save_group(group, name, epoch, now_ms);
    let p = group_is(group);
    if some_row(db.groups, p) {
        let k: int = choose|k: int| 0 <= k < db.groups.len() && p(#[trigger] db.groups[k]);
        assert(after.groups[k].group_id == group);
    } else {
        assert(after.groups[db.groups.len() as int].group_id == group);
        assert forall|i: int| 0 <= i < db.groups.len() implies (#[trigger] db.groups[i]).group_id
            != group by {
            assert(!p(db.groups[i]));
        }
    }
    assert forall|other: Seq<char>, n: Seq<char>, e: i64|
        other != group && #[trigger] group_at(db, other, n, e) implies group_at(
        after,
        other,
        n,
        e,
    ) by {
        let k: int = choose|k: int|
            0 <= k < db.groups.len() && (#[trigger] db.groups[k]).group_id == other;
        assert(after.groups[k].group_id == other);
        assert forall|i: int|
            0 <= i < after.groups.len() && (#[trigger] after.groups[i]).group_id
                == other implies after.groups[i].name == n && after.groups[i].current_epoch == e by {
            if i < db.groups.len() {
                assert(db.groups[i].group_id == other);
            }
        }
    }
}

/// A wrapped key is stored for this member and epoch.
pub open spec fn wrapped_for(
    db: DbModel,
    group: Seq<char>,
    epoch: i64,
    member: Seq<char>,
    wrapped_key: Seq<u8>,
    wrapper: Option<Seq<u8>>,
) -> bool {
    exists|i: int|
        0 <= i < db.group_keys.len() && (#[trigger] db.group_keys[i]).group_id == group
            && db.group_keys[i].epoch == epoch && db.group_keys[i].wrapped_for == member
            && db.group_keys[i].wrapped_key == wrapped_key && db.group_keys[i].wrapper_x_pub
            == wrapper
}

/// Saving a wrapped key stores it in place of the one for the same member and epoch; every
/// other key stays.
pub proof fn law_saved_key_is_there(db: DbModel, key: GroupKeyModel)
    ensures
        wrapped_for(
            db.save_wrapped_key(key),
            key.group_id,
            key.epoch,
            key.wrapped_for,
            key.wrapped_key,
            key.wrapper_x_pub,
        ),
        forall|g: Seq<char>, e: i64, m: Seq<char>, k: Seq<u8>, w: Option<Seq<u8>>|
            !(g == key.group_id && e == key.epoch && m == key.wrapped_for) ==> (
            #[trigger] wrapped_for(db.save_wrapped_key(key), g, e, m, k, w) <==> wrapped_for(
                db,
                g,
                e,
                m,
                k,
                w,
            )),
        forall|k: Seq<u8>, w: Option<Seq<u8>>| #[trigger]
            wrapped_for(
                db.save_wrapped_key(key),
                key.group_id,
                key.epoch,
                key.wrapped_for,
                k,
                w,
            ) ==> k == key.wrapped_key && w == key.wrapper_x_pub,
{
    let after = db.save_wrapped_key(key);
    let gone = group_key_is(key.group_id, key.epoch, key.wrapped_for);
    let kept = without(db.group_keys, gone);
    assert(after.group_keys == kept.push(key));
    assert(after.group_keys[kept.len() as int] == key);
    assert forall|g: Seq<char>, e: i64, m: Seq<char>, k: Seq<u8>, w: Option<Seq<u8>>|
        (#[trigger] wrapped_for(after, g, e, m, k, w)) == if g == key.group_id && e == key.epoch
            && m == key.wrapped_for {
            k == key.wrapped_key && w == key.wrapper_x_pub
        } else {
            wrapped_for(db, g, e, m, k, w)
        } by {
        let p = |r: GroupKeyModel|
            r.group_id == g && r.epoch == e && r.wrapped_for == m && r.wrapped_key == k
                && r.wrapper_x_pub == w;
        lemma_without_row(db.group_keys, gone, p);
        if wrapped_for(after, g, e, m, k, w) {
            let i: int = choose|i: int|
                0 <= i < after.group_keys.len() && p(#[trigger] after.group_keys[i]);
            if i < kept.len() {
                assert(p(kept[i]));
            }
        }
        if wrapped_for(db, g, e, m, k, w) {
            let i: int = choose|i: int|
                0 <= i < db.group_keys.len() && p(#[trigger] db.group_keys[i]);
            if !gone(db.group_keys[i]) {
                assert(p(db.group_keys[i]) && !gone(db.group_keys[i]));
                let j: int = choose|j: int| 0 <= j < kept.len() && p(#[trigger] kept[j]);
                assert(p(after.group_keys[j]));
            }
        }
    }
}

/// Someone has no key of a group.
pub open spec fn keyless(db: DbModel, group: Seq<char>, member: Seq<char>) -> bool {
    forall|i: int|
        0 <= i < db.group_keys.len() ==> !((#[trigger] db.group_keys[i]).group_id == group
            && db.group_keys[i].wrapped_for == member)
}

/// Dropping someone's keys of a group drops all of these and no other.
pub proof fn law_dropped_keys_are_gone(db: DbModel, group: Seq<char>, member: Seq<char>)
    ensures
        keyless(db.delete_wrapped_keys_for(group, member), group, member),
        forall|g: Seq<char>, e: i64, m: Seq<char>, k: Seq<u8>, w: Option<Seq<u8>>|
            !(g == group && m == member) ==> (#[trigger] wrapped_for(
                db.delete_wrapped_keys_for(group, member),
                g,
                e,
                m,
                k,
                w,
            ) <==> wrapped_for(db, g, e, m, k, w)),
{
    let after = db.delete_wrapped_keys_for(group, member);
    let gone = group_key_for(group, member);
    let keep = |r: GroupKeyModel| !gone(r);
    assert forall|i: int| 0 <= i < after.group_keys.len() implies !((
    #[trigger] after.group_keys[i]).group_id == group && after.group_keys[i].wrapped_for
        == member) by {
        lemma_filtered_from(db.group_keys, keep, i);
    }
    assert forall|g: Seq<char>, e: i64, m: Seq<char>, k: Seq<u8>, w: Option<Seq<u8>>|
        !(g == group && m == member) implies (#[trigger] wrapped_for(after, g, e, m, k, w)
        <==> wrapped_for(db, g, e, m, k, w)) by {
        let p = |r: GroupKeyModel|
            r.group_id == g && r.epoch == e && r.wrapped_for == m && r.wrapped_key == k
                && r.wrapper_x_pub == w;
        lemma_without_row(db.group_keys, gone, p);
        if wrapped_for(after, g, e, m, k, w) {
            let i: int = choose|i: int|
                0 <= i < after.group_keys.len() && p(#[trigger] after.group_keys[i]);
            assert(p(after.group_keys[i]));
        }
        if wrapped_for(db, g, e, m, k, w) {
            let i: int = choose|i: int|
                0 <= i < db.group_keys.len() && p(#[trigger] db.group_keys[i]);
            assert(p(db.group_keys[i]) && !gone(db.group_keys[i]));
            let j: int = choose|j: int|
                0 <= j < after.group_keys.len() && p(#[trigger] after.group_keys[j]);
            assert(p(after.group_keys[j]));
        }
    }
}

/// Taking a newer rotation that lists this user leaves the group as it was told: exactly the
/// listed people belong to it, it has the told name and epoch, and the key that was wrapped
/// for this user is stored beside the older ones. Nothing else changes.
pub proof fn law_taken_rotation_is_as_told(
    before: DbModel,
    after: DbModel,
    me: Seq<char>,
    from: Seq<char>,
    group: Seq<char>,
    epoch: i64,
    members: Seq<Seq<char>>,
    name: Seq<char>,
    wrapped_key: Seq<u8>,
    wrapper_x_pub_hex: Seq<char>,
    now_ms: i64,
    r: Result<(), Error>,
)
    requires
        key_received(
            before,
            after,
            me,
            PayloadModel::GroupKey {
                from,
                group_id: group,
                epoch,
                members,
                group_name: name,
                wrapped_key,
                wrapper_x_pub_hex,
            },
            now_ms,
            r,
        ),
        members.contains(me),
        epoch > 0,
        forall|i: int|
            0 <= i < before.groups.len() && (#[trigger] before.groups[i]).group_id == group
                ==> before.groups[i].current_epoch < epoch,
        hex_decoded_32(wrapper_x_pub_hex) is Ok,
    ensures
        r is Ok,
        forall|u: Seq<char>| #[trigger] belongs(after, group, u) <==> members.contains(u),
        others_unmoved(before, after, group),
        group_at(after, group, name, epoch),
        wrapped_for(
            after,
            group,
            epoch,
            me,
            wrapped_key,
            Some(hex_decoded_32(wrapper_x_pub_hex)->Ok_0),
        ),
        forall|g: Seq<char>, e: i64, m: Seq<char>, k: Seq<u8>, w: Option<Seq<u8>>|
            !(g == group && e == epoch && m == me) ==> (#[trigger] wrapped_for(
                after,
                g,
                e,
                m,
                k,
                w,
            ) <==> wrapped_for(before, g, e, m, k, w)),
        exists|i: int|
            0 <= i < after.conversations.len() && (#[trigger] after.conversations[i]).id == group
                && after.conversations[i].name == name,
        after.messages == before.messages,
        after.contacts == before.contacts,
{
    let p = group_is(group);
    lemma_first_row(before.groups, p);
    if before.group(group) is Some {
        let k: int = choose|k: int|
            0 <= k < before.groups.len() && before.groups[k] == before.group(group)->0;
        assert(before.groups[k].group_id == group);
    }
    assert(epoch_known(before, group) < epoch);
    let made = before.create_conversation(group, "group"@, name, members, now_ms);
    let set = made.set_conversation_members(group, members, now_ms);
    let synced = group_synced(before, group, name, members, epoch, now_ms);
    law_created_members_are_added(before, group, "group"@, name, members, now_ms);
    law_set_members_are_the_listed(made, group, members, now_ms);
    law_saved_group_is_there(set, group, name, epoch, now_ms);
    let wrapper = hex_decoded_32(wrapper_x_pub_hex)->Ok_0;
    let key = GroupKeyModel {
        group_id: group,
        epoch,
        wrapped_for: me,
        wrapped_key,
        wrapper_x_pub: Some(wrapper),
        share: Some(crate::groups::first_place(members, me) as u64),
    };
    assert(after == synced.save_wrapped_key(key));
    law_saved_key_is_there(synced, key);
    assert(synced.group_keys == before.group_keys);
    assert forall|g: Seq<char>, e: i64, m: Seq<char>, k: Seq<u8>, w: Option<Seq<u8>>|
        !(g == group && e == epoch && m == me) implies (#[trigger] wrapped_for(
        after,
        g,
        e,
        m,
        k,
        w,
    ) <==> wrapped_for(before, g, e, m, k, w)) by {
        assert(wrapped_for(synced, g, e, m, k, w) <==> wrapped_for(before, g, e, m, k, w));
    }
    assert(after.members == set.members);
    assert forall|u: Seq<char>| #[trigger] belongs(after, group, u) <==> members.contains(u) by {
        assert(belongs(set, group, u) <==> members.contains(u));
    }
    assert forall|c: Seq<char>, u: Seq<char>| c != group implies (#[trigger] belongs(after, c, u)
        <==> belongs(before, c, u)) by {
        assert(belongs(set, c, u) <==> belongs(made, c, u));
    }
    assert(group_at(after, group, name, epoch)) by {
        assert(after.groups == set.save_group(group, name, epoch, now_ms).groups);
    }
    let q = conversation_is(group);
    if some_row(before.conversations, q) {
        let k: int = choose|k: int|
            0 <= k < before.conversations.len() && q(#[trigger] before.conversations[k]);
        assert(after.conversations[k].id == group && after.conversations[k].name == name);
    } else {
        let k = before.conversations.len() as int;
        assert(after.conversations[k].id == group && after.conversations[k].name == name);
    }
}

/// Whoever is no longer listed has no key of the group left, and sees who still belongs to
/// it; the history stays.
pub proof fn law_removed_user_drops_their_keys(
    before: DbModel,
    after: DbModel,
    me: Seq<char>,
    from: Seq<char>,
    group: Seq<char>,
    epoch: i64,
    members: Seq<Seq<char>>,
    name: Seq<char>,
    wrapped_key: Seq<u8>,
    wrapper_x_pub_hex: Seq<char>,
    now_ms: i64,
    r: Result<(), Error>,
)
    requires
        key_received(
            before,
            after,
            me,
            PayloadModel::GroupKey {
                from,
                group_id: group,
                epoch,
                members,
                group_name: name,
                wrapped_key,
                wrapper_x_pub_hex,
            },
            now_ms,
            r,
        ),
        !members.contains(me),
        exists|i: int|
            0 <= i < before.conversations.len() && (#[trigger] before.conversations[i]).id == group,
    ensures
        r is Ok,
        keyless(after, group, me),
        forall|u: Seq<char>| #[trigger] belongs(after, group, u) <==> members.contains(u),
        others_unmoved(before, after, group),
        after.messages == before.messages,
        after.groups == before.groups,
        after.conversations == before.conversations,
{
    let i: int = choose|i: int|
        0 <= i < before.conversations.len() && (#[trigger] before.conversations[i]).id == group;
    assert(conversation_is(group)(before.conversations[i]));
    let dropped = before.delete_wrapped_keys_for(group, me);
    law_dropped_keys_are_gone(before, group, me);
    law_set_members_are_the_listed(dropped, group, members, now_ms);
    assert forall|c: Seq<char>, u: Seq<char>| c != group implies (#[trigger] belongs(after, c, u)
        <==> belongs(before, c, u)) by {
        assert(belongs(dropped, c, u) <==> belongs(before, c, u));
    }
}

/// A rotation that is not newer changes nothing.
pub proof fn law_old_rotation_changes_nothing(
    before: DbModel,
    after: DbModel,
    me: Seq<char>,
    from: Seq<char>,
    at: int,
    epoch: i64,
    members: Seq<Seq<char>>,
    name: Seq<char>,
    wrapped_key: Seq<u8>,
    wrapper_x_pub_hex: Seq<char>,
    now_ms: i64,
    r: Result<(), Error>,
)
    requires
        before.consistent(),
        0 <= at < before.groups.len(),
        key_received(
            before,
            after,
            me,
            PayloadModel::GroupKey {
                from,
                group_id: before.groups[at].group_id,
                epoch,
                members,
                group_name: name,
                wrapped_key,
                wrapper_x_pub_hex,
            },
            now_ms,
            r,
        ),
        members.contains(me),
        epoch <= before.groups[at].current_epoch,
    ensures
        r is Ok,
        after == before,
{
    lemma_group_row(before, at);
}

proof fn lemma_group_row(db: DbModel, at: int)
    requires
        db.consistent(),
        0 <= at < db.groups.len(),
    ensures
        db.group(db.groups[at].group_id) == Some(db.groups[at]),
{
    let p = group_is(db.groups[at].group_id);
    let key = crate::database::model::group_key_id();
    lemma_first_row(db.groups, p);
    assert(p(db.groups[at]));
    let row = db.group(db.groups[at].group_id)->0;
    let k: int = choose|k: int| 0 <= k < db.groups.len() && db.groups[k] == row;
    if k < at {
        assert(key(db.groups[k]) != key(db.groups[at]));
    } else if at < k {
        assert(key(db.groups[at]) != key(db.groups[k]));
    }
}

/// What a draft tells of an epoch is what it is: who handed out which epoch of which group,
/// under which name, and to whom. It is for the key that its reader is known by.
pub open spec fn tells_epoch(
    d: DraftModel,
    db: DbModel,
    me: Seq<char>,
    group: Seq<char>,
    name: Seq<char>,
    epoch: i64,
    members: Seq<Seq<char>>,
) -> bool {
    &&& d.payload is GroupKey
    &&& d.payload->GroupKey_from == me
    &&& d.payload->GroupKey_group_id == group
    &&& d.payload->GroupKey_epoch == epoch
    &&& d.payload->GroupKey_members == members
    &&& d.payload->GroupKey_group_name == name
    &&& d.context == group
    &&& d.conversation_id == group
    &&& d.peer_username != me
    &&& db.contact(d.peer_username) is Some
    &&& db.contact(d.peer_username)->0.x25519_pubkey == Some(d.recipient)
}

proof fn lemma_drafts_tell(
    r: RotationModel,
    db: DbModel,
    after: DbModel,
    drafts: Seq<DraftModel>,
)
    requires
        r.distributed(db, after, Ok(drafts)),
    ensures
        after == (DbModel { group_keys: after.group_keys, ..db }),
        forall|i: int|
            0 <= i < drafts.len() ==> tells_epoch(
                #[trigger] drafts[i],
                db,
                r.me,
                r.group_id,
                r.group_name,
                r.epoch,
                r.members,
            ),
        r.members.no_duplicates() ==> drafted_once(drafts) && forall|u: Seq<char>| #[trigger]
            drafted_for(drafts, u) <==> u != r.me && r.members.contains(u),
{
    let rows = choose|rows: Seq<GroupKeyModel>|
        {
            &&& #[trigger] r.wrapped_first(db, rows)
            &&& rows.len() == r.members.len()
            &&& after == db.save_keys(rows)
            &&& drafts == r.key_drafts(db, rows)
        };
    lemma_save_keys_frame(db, rows);
    assert forall|i: int| 0 <= i < drafts.len() implies tells_epoch(
        #[trigger] drafts[i],
        db,
        r.me,
        r.group_id,
        r.group_name,
        r.epoch,
        r.members,
    ) by {
        let k: int = crate::arrival::lemma_draft_is_for_member(r, db, rows, i);
        assert(r.wraps(db, rows[k], k));
    }
    if r.members.no_duplicates() {
        lemma_drafts_are_for_others(r, db, rows);
        assert(r.members.take(rows.len() as int) =~= r.members);
    }
}

/// A group that was made has the people that it was made with, its maker among them, its
/// trimmed name, and the first epoch; each of the others is told of it once.
pub proof fn law_made_group_is_as_asked(
    before: DbModel,
    after: DbModel,
    identity: IdentityModel,
    me: Seq<char>,
    name: Seq<char>,
    members: Seq<Seq<char>>,
    id: Seq<char>,
    key: Seq<u8>,
    now_ms: i64,
    made: Result<(String, Vec<Draft>), Error>,
)
    requires
        group_created(before, after, identity, me, name, members, id, key, now_ms, made),
        made is Ok,
        before.consistent(),
        forall|i: int|
            0 <= i < before.conversations.len() ==> (#[trigger] before.conversations[i]).id != id,
        forall|i: int| 0 <= i < before.groups.len() ==> (#[trigger] before.groups[i]).group_id != id,
    ensures
        made->Ok_0.0@ == id,
        1 <= trimmed(name).len() <= 64,
        members.len() >= 1,
        forall|i: int|
            0 <= i < members.len() && #[trigger] members[i] != me ==> before.contact(members[i])
                is Some && before.contact(members[i])->0.status == "friend"@,
        forall|u: Seq<char>| #[trigger]
            belongs(after, id, u) <==> u == me || members.contains(u),
        others_unmoved(before, after, id),
        group_at(after, id, trimmed(name), 1),
        exists|i: int|
            0 <= i < after.conversations.len() && (#[trigger] after.conversations[i]).id == id
                && after.conversations[i].kind == "group"@ && after.conversations[i].name
                == trimmed(name),
        forall|i: int|
            0 <= i < made->Ok_0.1@.len() ==> {
                let payload = (#[trigger] made->Ok_0.1@[i])@.payload;
                &&& payload is GroupKey
                &&& payload->GroupKey_group_id == id
                &&& payload->GroupKey_epoch == 1
                &&& payload->GroupKey_group_name == trimmed(name)
                &&& forall|u: Seq<char>| #[trigger]
                    payload->GroupKey_members.contains(u) <==> u == me || members.contains(u)
            },
        members.no_duplicates() ==> drafted_once(views(made->Ok_0.1@)) && forall|u: Seq<char>|
            #[trigger] drafted_for(views(made->Ok_0.1@), u) <==> u != me && members.contains(u),
        after.messages == before.messages,
        after.contacts == before.contacts,
{
    let title = trimmed(name);
    let all = with_me(members, me);
    let r = rotation(identity, me, id, title, all, 1, key);
    let shell = group_made(before, id, title, all, now_ms);
    let made_conversation = before.create_conversation(id, "group"@, title, all, now_ms);
    let drafts = views(made->Ok_0.1@);
    lemma_drafts_tell(r, shell, after, drafts);
    law_created_members_are_added(before, id, "group"@, title, all, now_ms);
    law_saved_group_is_there(made_conversation, id, title, 1, now_ms);
    assert forall|u: Seq<char>| #[trigger] all.contains(u) <==> u == me || members.contains(u) by {
        if members.contains(u) && !members.contains(me) {
            let k: int = choose|k: int| 0 <= k < members.len() && members[k] == u;
            assert(all[k] == u);
        }
        if u == me && !members.contains(me) {
            assert(all[members.len() as int] == me);
        }
    }
    assert(after.members == made_conversation.members);
    assert(after.groups == shell.groups);
    assert(after.conversations == made_conversation.conversations);
    assert forall|u: Seq<char>| #[trigger] belongs(after, id, u) <==> u == me || members.contains(
        u,
    ) by {
        assert(belongs(made_conversation, id, u) <==> belongs(before, id, u) || all.contains(u));
        if belongs(before, id, u) {
            let k: int = choose|k: int|
                0 <= k < before.members.len() && (#[trigger] before.members[k]).conversation_id
                    == id && before.members[k].username == u;
            assert(before.has_conversation(before.members[k].conversation_id));
            let q = conversation_is(id);
            let j: int = choose|j: int|
                0 <= j < before.conversations.len() && q(#[trigger] before.conversations[j]);
            assert(before.conversations[j].id == id);
        }
    }
    assert forall|c: Seq<char>, u: Seq<char>| c != id implies (#[trigger] belongs(after, c, u)
        <==> belongs(before, c, u)) by {
        assert(belongs(made_conversation, c, u) <==> belongs(before, c, u));
    }
    let q = conversation_is(id);
    assert(!some_row(before.conversations, q)) by {
        if some_row(before.conversations, q) {
            let j: int = choose|j: int|
                0 <= j < before.conversations.len() && q(#[trigger] before.conversations[j]);
            assert(before.conversations[j].id == id);
        }
    }
    assert(after.conversations[before.conversations.len() as int].id == id);
    assert forall|i: int| 0 <= i < members.len() && #[trigger] members[i] != me implies
        before.contact(members[i]) is Some && before.contact(members[i])->0.status
        == "friend"@ by {
        assert(all[i] == members[i]);
    }
    assert forall|i: int| 0 <= i < made->Ok_0.1@.len() implies {
        let payload = (#[trigger] made->Ok_0.1@[i])@.payload;
        &&& payload is GroupKey
        &&& payload->GroupKey_group_id == id
        &&& payload->GroupKey_epoch == 1
        &&& payload->GroupKey_group_name == trimmed(name)
        &&& payload->GroupKey_members == all
    } by {
        assert(drafts[i] == made->Ok_0.1@[i]@);
    }
    if members.no_duplicates() {
        assert(all.no_duplicates());
        assert forall|u: Seq<char>| #[trigger] drafted_for(drafts, u) <==> u != me
            && members.contains(u) by {
            assert(all.contains(u) <==> u == me || members.contains(u));
        }
    }
}

/// A rotation moves a group on by one epoch and keeps its name and its members; what the
/// others are told says so.
pub proof fn law_rotation_moves_on(
    identity: IdentityModel,
    me: Seq<char>,
    group: Seq<char>,
    key: Seq<u8>,
    now_ms: i64,
    before: DbModel,
    after: DbModel,
    drafts: Seq<DraftModel>,
    name: Seq<char>,
    epoch: i64,
)
    requires
        epoch_rotated(identity, me, group, key, now_ms, before, after, Ok(drafts)),
        before.consistent(),
        group_at(before, group, name, epoch),
    ensures
        epoch < i64::MAX,
        group_at(after, group, name, (epoch + 1) as i64),
        after.members == before.members,
        after.messages == before.messages,
        after.conversations == before.conversations,
        forall|i: int|
            0 <= i < drafts.len() ==> {
                let d = #[trigger] drafts[i];
                &&& d.payload is GroupKey
                &&& d.payload->GroupKey_from == me
                &&& d.payload->GroupKey_group_id == group
                &&& d.payload->GroupKey_epoch == epoch + 1
                &&& d.payload->GroupKey_group_name == name
                &&& forall|u: Seq<char>| #[trigger]
                    d.payload->GroupKey_members.contains(u) <==> belongs(before, group, u)
            },
{
    let k: int = choose|k: int|
        0 <= k < before.groups.len() && (#[trigger] before.groups[k]).group_id == group;
    lemma_group_row(before, k);
    let g = before.group(group)->0;
    let next = (g.current_epoch + 1) as i64;
    let saved = before.save_group(group, g.name, next, now_ms);
    let names = choose|names: Seq<Seq<char>>|
        #![trigger before.members_listed(group, names)]
        before.members_listed(group, names) && rotation(
            identity,
            me,
            group,
            g.name,
            names,
            next,
            key,
        ).distributed(saved, after, Ok(drafts));
    let r = rotation(identity, me, group, g.name, names, next, key);
    lemma_drafts_tell(r, saved, after, drafts);
    law_saved_group_is_there(before, group, name, next, now_ms);
    assert(after.groups == saved.groups);
    assert(group_at(after, group, name, next)) by {
        assert(group_at(saved, group, name, next));
    }
    assert forall|u: Seq<char>| #[trigger] names.contains(u) <==> belongs(before, group, u) by {
        crate::groups::lemma_members_listed_once(before, group, names, u);
        lemma_belongs(before, group, u);
    }
    assert forall|i: int| 0 <= i < drafts.len() implies {
        let d = #[trigger] drafts[i];
        &&& d.payload is GroupKey
        &&& d.payload->GroupKey_from == me
        &&& d.payload->GroupKey_group_id == group
        &&& d.payload->GroupKey_epoch == epoch + 1
        &&& d.payload->GroupKey_group_name == name
        &&& d.payload->GroupKey_members == names
    } by {
        assert(tells_epoch(drafts[i], saved, me, group, g.name, next, names));
    }
}

/// Those who are added to a group belong to it, beside those who did; nobody else joins, and
/// other conversations keep their members.
pub proof fn law_added_members_belong(
    db: DbModel,
    me: Seq<char>,
    group: Seq<char>,
    added: Seq<Seq<char>>,
    now_ms: i64,
    u: Seq<char>,
)
    ensures
        belongs(members_added(db, me, group, added, now_ms), group, u) <==> belongs(db, group, u)
            || (u != me && added.contains(u)),
        others_unmoved(db, members_added(db, me, group, added, now_ms), group),
        members_added(db, me, group, added, now_ms).groups == db.groups,
        members_added(db, me, group, added, now_ms).messages == db.messages,
    decreases added.len(),
{
    if added.len() > 0 {
        let rest = added.drop_last();
        let last = added.last();
        let before = members_added(db, me, group, rest, now_ms);
        let after = members_added(db, me, group, added, now_ms);
        law_added_members_belong(db, me, group, rest, now_ms, u);
        assert(added =~= rest.push(last));
        if rest.contains(u) {
            let k: int = choose|k: int| 0 <= k < rest.len() && rest[k] == u;
            assert(added[k] == u);
        }
        assert(added[added.len() - 1] == last);
        if last != me {
            law_created_members_are_added(before, group, "group"@, ""@, seq![last], now_ms);
            assert(seq![last].contains(u) <==> u == last) by {
                assert(seq![last][0] == last);
            }
        }
        assert forall|c: Seq<char>, v: Seq<char>| c != group implies (#[trigger] belongs(
            after,
            c,
            v,
        ) <==> belongs(db, c, v)) by {
            assert(belongs(before, c, v) <==> belongs(db, c, v));
        }
    }
}

/// Those who are removed from a group do not belong to it any more and have no key of it;
/// everybody else stays, and other conversations keep their members.
pub proof fn law_removed_members_are_gone(
    db: DbModel,
    group: Seq<char>,
    removed: Seq<Seq<char>>,
    u: Seq<char>,
)
    ensures
        belongs(members_removed(db, group, removed), group, u) <==> belongs(db, group, u)
            && !removed.contains(u),
        removed.contains(u) ==> keyless(members_removed(db, group, removed), group, u),
        others_unmoved(db, members_removed(db, group, removed), group),
        members_removed(db, group, removed).groups == db.groups,
        members_removed(db, group, removed).messages == db.messages,
        members_removed(db, group, removed).conversations == db.conversations,
    decreases removed.len(),
{
    if removed.len() > 0 {
        let rest = removed.drop_last();
        let last = removed.last();
        let before = members_removed(db, group, rest);
        let left = before.remove_conversation_member(group, last);
        let after = members_removed(db, group, removed);
        law_removed_members_are_gone(db, group, rest, u);
        law_removed_member_is_gone(before, group, last);
        law_dropped_keys_are_gone(left, group, last);
        assert(removed =~= rest.push(last));
        if rest.contains(u) {
            let k: int = choose|k: int| 0 <= k < rest.len() && rest[k] == u;
            assert(removed[k] == u);
        }
        assert(removed[removed.len() - 1] == last);
        assert(after.members == left.members);
        assert(belongs(after, group, u) <==> belongs(left, group, u));
        assert forall|c: Seq<char>, v: Seq<char>| c != group implies (#[trigger] belongs(
            after,
            c,
            v,
        ) <==> belongs(db, c, v)) by {
            assert(belongs(left, c, v) <==> belongs(before, c, v));
            assert(belongs(before, c, v) <==> belongs(db, c, v));
        }
        if removed.contains(u) && u != last {
            let gone = group_key_for(group, last);
            let keep = |r: GroupKeyModel| !gone(r);
            assert forall|i: int| 0 <= i < after.group_keys.len() implies !((
            #[trigger] after.group_keys[i]).group_id == group && after.group_keys[i].wrapped_for
                == u) by {
                lemma_filtered_from(before.group_keys, keep, i);
                let k: int = choose|k: int|
                    0 <= k < before.group_keys.len() && before.group_keys[k]
                        == after.group_keys[i];
                assert(!(before.group_keys[k].group_id == group
                    && before.group_keys[k].wrapped_for == u));
            }
        }
    }
}

/// A group that was renamed has its new name, trimmed, here and in what everyone else is
/// told; its epoch and members stay.
pub proof fn law_renamed_group_has_its_name(
    before: DbModel,
    after: DbModel,
    identity: IdentityModel,
    device: Seq<u8>,
    me: Seq<char>,
    group: Seq<char>,
    name: Seq<char>,
    now_ms: i64,
    draft: Result<GroupDraft, Error>,
    old_name: Seq<char>,
    epoch: i64,
)
    requires
        rename_done(before, after, identity, device, me, group, name, now_ms, draft),
        draft is Ok,
        before.consistent(),
        group_at(before, group, old_name, epoch),
    ensures
        1 <= trimmed(name).len() <= 64,
        group_at(after, group, trimmed(name), epoch),
        after.conversations.len() == before.conversations.len(),
        forall|i: int|
            0 <= i < before.conversations.len() ==> {
                let row = #[trigger] after.conversations[i];
                &&& row.id == before.conversations[i].id
                &&& row.kind == before.conversations[i].kind
                &&& before.conversations[i].id == group ==> row.name == trimmed(name)
                &&& before.conversations[i].id != group ==> row == before.conversations[i]
            },
        after.members == before.members,
        after.messages == before.messages,
        after.group_keys == before.group_keys,
        draft->Ok_0.group_id@ == group,
        draft->Ok_0.payload@ == (PayloadModel::GroupMeta {
            from: me,
            group_id: group,
            name: trimmed(name),
            epoch: Some(epoch),
        }),
        everyone_but(before, group, me, texts(draft->Ok_0.members@)),
{
    let k: int = choose|k: int|
        0 <= k < before.groups.len() && (#[trigger] before.groups[k]).group_id == group;
    lemma_group_row(before, k);
    let title = trimmed(name);
    let renamed = before.rename_conversation(group, title, now_ms);
    law_saved_group_is_there(renamed, group, title, epoch, now_ms);
    let saved = group_renamed(before, group, title, epoch, now_ms);
    assert(group_at(saved, group, title, epoch));
    assert(after.groups == saved.groups);
    assert(crate::messaging::peers_are(before, group, me, texts(draft->Ok_0.members@)));
    lemma_peers(before, group, me, texts(draft->Ok_0.members@));
}

/// Whoever leaves a group does not belong to it and has no key of it; everybody else stays,
/// the history stays, and everybody else is sent the farewell.
pub proof fn law_leaver_is_gone(
    before: DbModel,
    after: DbModel,
    identity: IdentityModel,
    device: Seq<u8>,
    group: Seq<char>,
    json: Seq<u8>,
    message: Seq<u8>,
    stand_in: Seq<u8>,
    now_ms: i64,
    r: Result<Sending, Error>,
)
    requires
        group_left(
            before,
            after,
            identity,
            device,
            group,
            json,
            message,
            stand_in,
            now_ms,
            r,
        ),
        r is Ok,
        before.consistent(),
        before.profile is Some,
    ensures
        keyless(after, group, before.profile->0.username),
        forall|c: Seq<char>, u: Seq<char>| #[trigger]
            belongs(after, c, u) <==> belongs(before, c, u) && !(c == group && u
                == before.profile->0.username),
        after.messages == before.messages,
        after.conversations == before.conversations,
        everyone_but(before, group, before.profile->0.username, texts(r->Ok_0.peers@)),
{
    let me = before.profile->0.username;
    let dropped = before.delete_wrapped_keys_for(group, me);
    let left = dropped.remove_conversation_member(group, me);
    law_dropped_keys_are_gone(before, group, me);
    law_removed_member_is_gone(dropped, group, me);
    assert(after.members == left.members);
    assert(after.group_keys == dropped.group_keys);
    assert forall|c: Seq<char>, u: Seq<char>| #[trigger]
        belongs(after, c, u) <==> belongs(before, c, u) && !(c == group && u == me) by {
        assert(belongs(left, c, u) <==> belongs(dropped, c, u) && !(c == group && u == me));
        assert(belongs(dropped, c, u) <==> belongs(before, c, u));
    }
    lemma_peers(before, group, me, texts(r->Ok_0.peers@));
}

proof fn lemma_added_consistent(
    db: DbModel,
    me: Seq<char>,
    group: Seq<char>,
    added: Seq<Seq<char>>,
    now_ms: i64,
)
    requires
        db.consistent(),
    ensures
        members_added(db, me, group, added, now_ms).consistent(),
    decreases added.len(),
{
    if added.len() > 0 {
        lemma_added_consistent(db, me, group, added.drop_last(), now_ms);
        crate::database::laws::law_conversations_keep_schema(
            members_added(db, me, group, added.drop_last(), now_ms),
            group,
            "group"@,
            ""@,
            seq![added.last()],
            me,
            now_ms,
        );
    }
}

proof fn lemma_removed_consistent(db: DbModel, group: Seq<char>, removed: Seq<Seq<char>>)
    requires
        db.consistent(),
    ensures
        members_removed(db, group, removed).consistent(),
    decreases removed.len(),
{
    if removed.len() > 0 {
        let before = members_removed(db, group, removed.drop_last());
        let last = removed.last();
        lemma_removed_consistent(db, group, removed.drop_last());
        crate::database::laws::law_conversations_keep_schema(
            before,
            group,
            "group"@,
            ""@,
            Seq::empty(),
            last,
            0,
        );
        crate::database::laws::law_groups_keep_schema(
            before.remove_conversation_member(group, last),
            group,
            ""@,
            0,
            GroupKeyModel {
                group_id: group,
                epoch: 0,
                wrapped_for: last,
                wrapped_key: Seq::empty(),
                wrapper_x_pub: None,
                share: None,
            },
            last,
            0,
        );
    }
}

/// Friends who are added belong to the group, beside those who did, and the group moves on by
/// one epoch. Whoever is no friend is refused, and the epoch stays.
pub proof fn law_adding_members(
    before: DbModel,
    after: DbModel,
    identity: IdentityModel,
    me: Seq<char>,
    group: Seq<char>,
    added: Seq<Seq<char>>,
    key: Seq<u8>,
    now_ms: i64,
    outcome: Result<Seq<DraftModel>, Error>,
    name: Seq<char>,
    epoch: i64,
    u: Seq<char>,
    at: int,
)
    requires
        crate::groups::members_join(
            before,
            after,
            identity,
            me,
            group,
            added,
            key,
            now_ms,
            outcome,
        ),
        before.consistent(),
        group_at(before, group, name, epoch),
    ensures
        outcome is Ok ==> {
            &&& group_at(after, group, name, (epoch + 1) as i64)
            &&& belongs(after, group, u) <==> belongs(before, group, u) || (u != me
                && added.contains(u))
            &&& others_unmoved(before, after, group)
            &&& after.messages == before.messages
        },
        0 <= at < added.len() && added[at] != me && (before.contact(added[at]) is None
            || before.contact(added[at])->0.status != "friend"@) ==> outcome is Err
            && outcome->Err_0 is MemberNotFriend && group_at(after, group, name, epoch),
{
    let joined = members_added(before, me, group, added, now_ms);
    lemma_added_consistent(before, me, group, added, now_ms);
    law_added_members_belong(before, me, group, added, now_ms, u);
    assert(joined.groups == before.groups);
    if outcome is Ok {
        let drafts = outcome->Ok_0;
        assert(group_at(joined, group, name, epoch));
        law_rotation_moves_on(
            identity,
            me,
            group,
            key,
            now_ms,
            joined,
            after,
            drafts,
            name,
            epoch,
        );
        assert(after.members == joined.members);
        assert forall|c: Seq<char>, v: Seq<char>| c != group implies (#[trigger] belongs(
            after,
            c,
            v,
        ) <==> belongs(before, c, v)) by {
            assert(belongs(joined, c, v) <==> belongs(before, c, v));
        }
        assert(belongs(after, group, u) <==> belongs(joined, group, u));
    }
    if 0 <= at < added.len() && added[at] != me && (before.contact(added[at]) is None
        || before.contact(added[at])->0.status != "friend"@) {
        assert(!crate::groups::all_friends(before, me, added)) by {
            assert(!crate::groups::is_friend(before, added[at]));
            if crate::groups::all_friends(before, me, added) {
                assert(added[at] == me || crate::groups::is_friend(before, added[at]));
            }
        }
        let n = outcome->Err_0->MemberNotFriend_0 as int;
        law_added_members_belong(before, me, group, added.take(n), now_ms, u);
        assert(after.groups == before.groups);
    }
}

/// Whoever is removed does not belong to the group any more and has no key of it; everybody
/// else stays, and the group moves on by one epoch. Nobody removes themselves.
pub proof fn law_removing_members(
    before: DbModel,
    after: DbModel,
    identity: IdentityModel,
    me: Seq<char>,
    group: Seq<char>,
    removed: Seq<Seq<char>>,
    key: Seq<u8>,
    now_ms: i64,
    outcome: Result<Seq<DraftModel>, Error>,
    name: Seq<char>,
    epoch: i64,
    u: Seq<char>,
)
    requires
        crate::groups::members_leave(
            before,
            after,
            identity,
            me,
            group,
            removed,
            key,
            now_ms,
            outcome,
        ),
        before.consistent(),
        group_at(before, group, name, epoch),
    ensures
        removed.contains(me) ==> outcome == Err::<Seq<DraftModel>, Error>(Error::RemovesSelf)
            && group_at(after, group, name, epoch),
        outcome is Ok ==> {
            &&& group_at(after, group, name, (epoch + 1) as i64)
            &&& belongs(after, group, u) <==> belongs(before, group, u) && !removed.contains(u)
            &&& removed.contains(u) ==> keyless(after, group, u)
            &&& others_unmoved(before, after, group)
            &&& after.messages == before.messages
        },
{
    let left = members_removed(before, group, removed);
    lemma_removed_consistent(before, group, removed);
    law_removed_members_are_gone(before, group, removed, u);
    if removed.contains(me) {
        let i: int = choose|i: int|
            {
                &&& 0 <= i < removed.len()
                &&& #[trigger] removed[i] == me
                &&& !removed.take(i).contains(me)
                &&& after == members_removed(before, group, removed.take(i))
            };
        law_removed_members_are_gone(before, group, removed.take(i), u);
        assert(after.groups == before.groups);
    }
    if outcome is Ok {
        let drafts = outcome->Ok_0;
        assert(group_at(left, group, name, epoch)) by {
            assert(left.groups == before.groups);
        }
        law_rotation_moves_on(identity, me, group, key, now_ms, left, after, drafts, name, epoch);
        assert(after.members == left.members);
        assert forall|c: Seq<char>, v: Seq<char>| c != group implies (#[trigger] belongs(
            after,
            c,
            v,
        ) <==> belongs(before, c, v)) by {
            assert(belongs(left, c, v) <==> belongs(before, c, v));
        }
        assert(belongs(after, group, u) <==> belongs(left, group, u));
        if removed.contains(u) {
            crate::groups::law_removed_member_has_no_key(
                identity,
                me,
                group,
                key,
                now_ms,
                before,
                removed,
                after,
                outcome,
                u,
            );
            assert forall|i: int| 0 <= i < after.group_keys.len() implies !((
            #[trigger] after.group_keys[i]).group_id == group && after.group_keys[i].wrapped_for
                == u) by {
                assert(!group_key_for(group, u)(after.group_keys[i]));
            }
        }
    }
}

} // verus!
