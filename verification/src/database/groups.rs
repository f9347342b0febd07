//! Groups and their wrapped epoch keys.

use vstd::prelude::*;

use crate::database::Database;
use crate::database::model::{group_is, group_key_for, group_key_is, group_resaved, member_before};
use crate::error::Error;
use crate::records::{GroupInfo, GroupInfoModel, GroupKeyModel, GroupKeyRow, GroupRow, MemberRow};
use crate::table::{any_row, delete_rows, find_row, select_rows, upsert_row, views, Row};
use crate::text::{copy_bytes, copy_opt_bytes, opt_bytes, text_at_most, text_eq};

verus! {

/// A stored epoch-key wrap plus the wrapper's X25519 key, if known.
pub type StoredGroupKeyWrap = (Vec<u8>, Option<Vec<u8>>);

impl Database {
    /// Stores a group, or its new name and epoch.
    pub fn save_group(&mut self, group_id: &str, name: &str, epoch: i64, now_ms: i64) -> (result:
        Result<(), Error>)
        ensures
            (old(self)@.has_group(group_id@) || old(self)@.has_conversation(group_id@)) ==> result
                is Ok && final(self)@ == old(self)@.save_group(group_id@, name@, epoch, now_ms),
            !(old(self)@.has_group(group_id@) || old(self)@.has_conversation(group_id@)) ==> result
                == Err::<(), Error>(Error::Constraint) && final(self)@ == old(self)@,
    {
        let test = |r: &GroupRow| -> (b: bool)
            ensures
                b == group_is(group_id@)(r@),
            { text_eq(r.group_id.as_str(), group_id) };
        if !any_row(&self.groups, test, Ghost(group_is(group_id@))) && !self.has_conversation(
            group_id,
        ) {
            return Err(Error::Constraint);
        }
        let change = |r: &GroupRow| -> (n: GroupRow)
            ensures
                n@ == group_resaved(name@, epoch, now_ms)(r@),
            {
                let mut row = r.duplicate();
                row.name = name.to_owned();
                row.current_epoch = epoch;
                row.updated_at_ms = now_ms;
                row
            };
        upsert_row(
            &mut self.groups,
            test,
            change,
            GroupRow {
                group_id: group_id.to_owned(),
                name: name.to_owned(),
                current_epoch: epoch,
                created_at_ms: now_ms,
                updated_at_ms: now_ms,
            },
            Ghost(group_is(group_id@)),
            Ghost(group_resaved(name@, epoch, now_ms)),
        );
        Ok(())
    }

    /// A group with its members.
    pub fn load_group(&self, group_id: &str) -> (group: Option<GroupInfo>)
        ensures
            self@.group_listed(group_id@, opt_group(group)),
    {
        let test = |r: &GroupRow| -> (b: bool)
            ensures
                b == group_is(group_id@)(r@),
            { text_eq(r.group_id.as_str(), group_id) };
        match find_row(&self.groups, test, Ghost(group_is(group_id@))) {
            Some(r) => Some(
                GroupInfo {
                    group_id: group_id.to_owned(),
                    name: r.name.clone(),
                    current_epoch: r.current_epoch,
                    members: self.conversation_members(group_id),
                },
            ),
            None => None,
        }
    }

    /// Whether a group is stored.
    pub fn has_group(&self, group_id: &str) -> (found: bool)
        ensures
            found == self@.has_group(group_id@),
    {
        let test = |r: &GroupRow| -> (b: bool)
            ensures
                b == group_is(group_id@)(r@),
            { text_eq(r.group_id.as_str(), group_id) };
        any_row(&self.groups, test, Ghost(group_is(group_id@)))
    }

    /// Stores an epoch key wrapped for a member.
    pub fn save_key_row(&mut self, row: GroupKeyRow) -> (result: Result<(), Error>)
        ensures
            old(self)@.has_group(row@.group_id) ==> result is Ok && final(self)@
                == old(self)@.save_wrapped_key(row@),
            !old(self)@.has_group(row@.group_id) ==> result == Err::<(), Error>(Error::Constraint)
                && final(self)@ == old(self)@,
    {
        if !self.has_group(row.group_id.as_str()) {
            return Err(Error::Constraint);
        }
        let ghost key = row@;
        let same = |r: &GroupKeyRow| -> (b: bool)
            ensures
                b == group_key_is(row@.group_id, row@.epoch, row@.wrapped_for)(r@),
            {
                text_eq(r.group_id.as_str(), row.group_id.as_str()) && r.epoch == row.epoch
                    && text_eq(r.wrapped_for.as_str(), row.wrapped_for.as_str())
            };
        let _gone: usize = delete_rows(
            &mut self.group_keys,
            same,
            Ghost(group_key_is(row@.group_id, row@.epoch, row@.wrapped_for)),
        );
        let ghost rest = views(self.group_keys@);
        self.group_keys.push(row);
        assert(views(self.group_keys@) =~= rest.push(key));
        Ok(())
    }

    /// Stores an epoch key wrapped for a member, wrapper unknown. The member's share of the
    /// epoch is noted with it.
    pub fn save_wrapped_group_key(
        &mut self,
        group_id: &str,
        epoch: i64,
        wrapped_for: &str,
        wrapped_key: &[u8],
    ) -> (result: Result<(), Error>)
        ensures
            old(self)@.has_group(group_id@) ==> result is Ok && final(self)@
                == old(self)@.save_wrapped_key(
                (GroupKeyModel {
                    group_id: group_id@,
                    epoch,
                    wrapped_for: wrapped_for@,
                    wrapped_key: wrapped_key@,
                    wrapper_x_pub: None,
                    share: Some(old(self)@.share_of(group_id@, epoch, wrapped_for@) as u64),
                }),
            ),
            !old(self)@.has_group(group_id@) ==> result == Err::<(), Error>(Error::Constraint)
                && final(self)@ == old(self)@,
    {
        let share: u64 = self.share_of(group_id, epoch, wrapped_for);
        self.save_key_row(
            GroupKeyRow {
                group_id: group_id.to_owned(),
                epoch,
                wrapped_for: wrapped_for.to_owned(),
                wrapped_key: copy_bytes(wrapped_key),
                wrapper_x_pub: None,
                share: Some(share),
            },
        )
    }

    /// Stores an epoch key wrapped for a member, and whose public key unwraps it. The
    /// member's share of the epoch is noted with it.
    pub fn save_wrapped_group_key_from(
        &mut self,
        group_id: &str,
        epoch: i64,
        wrapped_for: &str,
        wrapped_key: &[u8],
        wrapper_x_pub: &[u8],
    ) -> (result: Result<(), Error>)
        ensures
            old(self)@.has_group(group_id@) ==> result is Ok && final(self)@
                == old(self)@.save_wrapped_key(
                (GroupKeyModel {
                    group_id: group_id@,
                    epoch,
                    wrapped_for: wrapped_for@,
                    wrapped_key: wrapped_key@,
                    wrapper_x_pub: Some(wrapper_x_pub@),
                    share: Some(old(self)@.share_of(group_id@, epoch, wrapped_for@) as u64),
                }),
            ),
            !old(self)@.has_group(group_id@) ==> result == Err::<(), Error>(Error::Constraint)
                && final(self)@ == old(self)@,
    {
        let share: u64 = self.share_of(group_id, epoch, wrapped_for);
        self.save_key_row(
            GroupKeyRow {
                group_id: group_id.to_owned(),
                epoch,
                wrapped_for: wrapped_for.to_owned(),
                wrapped_key: copy_bytes(wrapped_key),
                wrapper_x_pub: Some(copy_bytes(wrapper_x_pub)),
                share: Some(share),
            },
        )
    }

    pub fn load_wrapped_group_key_with_sender(
        &self,
        group_id: &str,
        epoch: i64,
        wrapped_for: &str,
    ) -> (wrap: Option<StoredGroupKeyWrap>)
        ensures
            match (wrap, self@.group_key(group_id@, epoch, wrapped_for@)) {
                (Some(w), Some(k)) => w.0@ == k.wrapped_key && opt_bytes(w.1) == k.wrapper_x_pub,
                (None, None) => true,
                _ => false,
            },
    {
        let same = |r: &GroupKeyRow| -> (b: bool)
            ensures
                b == group_key_is(group_id@, epoch, wrapped_for@)(r@),
            {
                text_eq(r.group_id.as_str(), group_id) && r.epoch == epoch && text_eq(
                    r.wrapped_for.as_str(),
                    wrapped_for,
                )
            };
        match find_row(
            &self.group_keys,
            same,
            Ghost(group_key_is(group_id@, epoch, wrapped_for@)),
        ) {
            Some(r) => Some(
                (copy_bytes(r.wrapped_key.as_slice()), copy_opt_bytes(&r.wrapper_x_pub)),
            ),
            None => None,
        }
    }

    pub fn load_wrapped_group_key(&self, group_id: &str, epoch: i64, wrapped_for: &str) -> (key:
        Option<Vec<u8>>)
        ensures
            opt_bytes(key) == match self@.group_key(group_id@, epoch, wrapped_for@) {
                Some(k) => Some(k.wrapped_key),
                None => None,
            },
    {
        match self.load_wrapped_group_key_with_sender(group_id, epoch, wrapped_for) {
            Some(wrap) => Some(wrap.0),
            None => None,
        }
    }

    /// The share of an epoch's numbers that a member has: the one that is noted with their
    /// key, or else their place among the members.
    pub fn share_of(&self, group_id: &str, epoch: i64, username: &str) -> (share: u64)
        ensures
            share == self@.share_of(group_id@, epoch, username@),
    {
        let test = |r: &GroupKeyRow| -> (b: bool)
            ensures
                b == group_key_is(group_id@, epoch, username@)(r@),
            {
                text_eq(r.group_id.as_str(), group_id) && r.epoch == epoch && text_eq(
                    r.wrapped_for.as_str(),
                    username,
                )
            };
        let noted = match find_row(
            &self.group_keys,
            test,
            Ghost(group_key_is(group_id@, epoch, username@)),
        ) {
            Some(r) => r.share,
            None => None,
        };
        match noted {
            Some(share) => share,
            None => {
                let before = |r: &MemberRow| -> (b: bool)
                    ensures
                        b == member_before(group_id@, username@)(r@),
                    {
                        text_eq(r.conversation_id.as_str(), group_id) && !text_eq(
                            r.username.as_str(),
                            username,
                        ) && text_at_most(r.username.as_str(), username)
                    };
                let rows = select_rows(
                    &self.members,
                    before,
                    Ghost(member_before(group_id@, username@)),
                );
                assert(views(rows@).len() == rows.len());
                rows.len() as u64
            },
        }
    }

    pub fn delete_wrapped_keys_for(&mut self, group_id: &str, username: &str)
        ensures
            final(self)@ == old(self)@.delete_wrapped_keys_for(group_id@, username@),
    {
        let test = |r: &GroupKeyRow| -> (b: bool)
            ensures
                b == group_key_for(group_id@, username@)(r@),
            {
                text_eq(r.group_id.as_str(), group_id) && text_eq(r.wrapped_for.as_str(), username)
            };
        let _gone: usize = delete_rows(
            &mut self.group_keys,
            test,
            Ghost(group_key_for(group_id@, username@)),
        );
    }
}

/// The group that was found.
pub open spec fn opt_group(g: Option<GroupInfo>) -> Option<GroupInfoModel> {
    match g {
        Some(g) => Some(g@),
        None => None,
    }
}

} // verus!
