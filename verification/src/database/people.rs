//! The profile, settings, devices, contacts and friend requests.

use vstd::prelude::*;

use crate::database::Database;
use crate::database::model::{
    contact_is, contact_resaved, contact_with_status, contacts_by_name, contacts_of, device_is,
    device_resaved, request_has, request_is, request_with_status, requests_newest_first,
    requests_of, setting_is, setting_with_value,
};
use crate::records::{
    Contact, ContactModel, ContactRow, DeviceRecord, FriendRequest, ProfileRow, RequestRow,
    SettingRow,
};
use crate::table::{
    delete_rows, find_row, select_rows, some_row, sort_rows, total_preorder, update_rows,
    upsert_row, views, Row,
};
use crate::text::{
    copy_bytes, lemma_text_le_total, lemma_text_le_transitive, opt_text, text_at_most, text_eq,
};

verus! {

pub(crate) proof fn lemma_contacts_by_name_total()
    ensures
        total_preorder(contacts_by_name()),
{
    let le = contacts_by_name();
    assert forall|a: ContactModel, b: ContactModel| #[trigger] le(a, b) || le(b, a) by {
        lemma_text_le_total(a.username, b.username);
    }
    assert forall|a: ContactModel, b: ContactModel, c: ContactModel| #[trigger]
        le(a, b) && #[trigger] le(b, c) implies le(a, c) by {
        lemma_text_le_transitive(a.username, b.username, c.username);
    }
}

impl Database {
    /// Stores the profile; an existing one keeps the time it was made.
    pub fn save_profile(&mut self, username: &str, display_name: &str, now_ms: i64)
        ensures
            final(self)@ == old(self)@.save_profile(username@, display_name@, now_ms),
    {
        let created_at_ms: i64 = match &self.profile {
            Some(p) => p.created_at_ms,
            None => now_ms,
        };
        self.profile = Some(
            ProfileRow {
                username: username.to_owned(),
                display_name: display_name.to_owned(),
                created_at_ms,
            },
        );
    }

    pub fn profile_exists(&self) -> (exists: bool)
        ensures
            exists == self@.profile is Some,
    {
        self.profile.is_some()
    }

    /// The username and the display name.
    pub fn load_profile(&self) -> (profile: Option<(String, String)>)
        ensures
            match (profile, self@.profile) {
                (Some(p), Some(m)) => p.0@ == m.username && p.1@ == m.display_name,
                (None, None) => true,
                _ => false,
            },
    {
        match &self.profile {
            Some(p) => Some((p.username.clone(), p.display_name.clone())),
            None => None,
        }
    }

    pub fn set_setting(&mut self, key: &str, value: &str)
        ensures
            final(self)@ == old(self)@.set_setting(key@, value@),
    {
        let test = |r: &SettingRow| -> (b: bool)
            ensures
                b == setting_is(key@)(r@),
            { text_eq(r.key.as_str(), key) };
        let change = |r: &SettingRow| -> (n: SettingRow)
            ensures
                n@ == setting_with_value(value@)(r@),
            { SettingRow { key: r.key.clone(), value: value.to_owned() } };
        upsert_row(
            &mut self.settings,
            test,
            change,
            SettingRow { key: key.to_owned(), value: value.to_owned() },
            Ghost(setting_is(key@)),
            Ghost(setting_with_value(value@)),
        );
    }

    pub fn get_setting(&self, key: &str) -> (value: Option<String>)
        ensures
            opt_text(value) == self@.setting(key@),
    {
        let test = |r: &SettingRow| -> (b: bool)
            ensures
                b == setting_is(key@)(r@),
            { text_eq(r.key.as_str(), key) };
        match find_row(&self.settings, test, Ghost(setting_is(key@))) {
            Some(r) => Some(r.value.clone()),
            None => None,
        }
    }

    /// Stores a device; of a known one the keys and the time it was made stay.
    pub fn save_device(&mut self, device: &DeviceRecord)
        ensures
            final(self)@ == old(self)@.save_device(device@),
    {
        let test = |r: &DeviceRecord| -> (b: bool)
            ensures
                b == device_is(device@.id)(r@),
            { text_eq(r.id.as_str(), device.id.as_str()) };
        let change = |r: &DeviceRecord| -> (n: DeviceRecord)
            ensures
                n@ == device_resaved(device@)(r@),
            {
                DeviceRecord {
                    id: r.id.clone(),
                    username: device.username.clone(),
                    device_name: device.device_name.clone(),
                    ed25519_pubkey: copy_bytes(r.ed25519_pubkey.as_slice()),
                    x25519_pubkey: copy_bytes(r.x25519_pubkey.as_slice()),
                    iroh_endpoint_id: device.iroh_endpoint_id.clone(),
                    created_at_ms: r.created_at_ms,
                    revoked_at_ms: device.revoked_at_ms,
                }
            };
        upsert_row(
            &mut self.devices,
            test,
            change,
            device.duplicate(),
            Ghost(device_is(device@.id)),
            Ghost(device_resaved(device@)),
        );
    }

    /// The device that was made last.
    pub fn load_device(&self) -> (device: Option<DeviceRecord>)
        ensures
            match device {
                Some(d) => {
                    &&& self@.devices.contains(d@)
                    &&& forall|i: int|
                        0 <= i < self@.devices.len() ==> (#[trigger] self@.devices[i]).created_at_ms
                            <= d.created_at_ms
                },
                None => self@.devices.len() == 0,
            },
    {
        if self.devices.len() == 0 {
            return None;
        }
        let mut best: usize = 0;
        let mut i: usize = 1;
        while i < self.devices.len()
            invariant
                1 <= i <= self.devices.len(),
                best < i,
                forall|j: int|
                    0 <= j < i ==> (#[trigger] self@.devices[j]).created_at_ms
                        <= self@.devices[best as int].created_at_ms,
            decreases self.devices.len() - i,
        {
            if self.devices[i].created_at_ms > self.devices[best].created_at_ms {
                best = i;
            }
            i += 1;
        }
        let device = self.devices[best].duplicate();
        assert(self@.devices[best as int] == device@);
        Some(device)
    }

    /// Stores a contact; a known one keeps only the time it was first stored.
    pub fn upsert_contact(&mut self, contact: &Contact, now_ms: i64)
        ensures
            final(self)@ == old(self)@.upsert_contact(contact@, now_ms),
    {
        let test = |r: &ContactRow| -> (b: bool)
            ensures
                b == contact_is(contact@.username)(r@),
            { text_eq(r.contact.username.as_str(), contact.username.as_str()) };
        let change = |r: &ContactRow| -> (n: ContactRow)
            ensures
                n@ == contact_resaved(contact@)(r@),
            { ContactRow { contact: contact.duplicate(), created_at_ms: r.created_at_ms } };
        upsert_row(
            &mut self.contacts,
            test,
            change,
            ContactRow { contact: contact.duplicate(), created_at_ms: now_ms },
            Ghost(contact_is(contact@.username)),
            Ghost(contact_resaved(contact@)),
        );
    }

    /// Says whether there was such a contact.
    pub fn remove_contact(&mut self, username: &str) -> (removed: bool)
        ensures
            final(self)@ == old(self)@.remove_contact(username@),
            removed == some_row(old(self)@.contacts, contact_is(username@)),
    {
        let test = |r: &ContactRow| -> (b: bool)
            ensures
                b == contact_is(username@)(r@),
            { text_eq(r.contact.username.as_str(), username) };
        let count: usize = delete_rows(&mut self.contacts, test, Ghost(contact_is(username@)));
        count > 0
    }

    pub fn set_contact_status(&mut self, username: &str, status: &str)
        ensures
            final(self)@ == old(self)@.set_contact_status(username@, status@),
    {
        let test = |r: &ContactRow| -> (b: bool)
            ensures
                b == contact_is(username@)(r@),
            { text_eq(r.contact.username.as_str(), username) };
        let change = |r: &ContactRow| -> (n: ContactRow)
            ensures
                n@ == contact_with_status(status@)(r@),
            {
                let mut row = r.duplicate();
                row.contact.status = status.to_owned();
                row
            };
        let _changed: usize = update_rows(
            &mut self.contacts,
            test,
            change,
            Ghost(contact_is(username@)),
            Ghost(contact_with_status(status@)),
        );
    }

    /// The contacts in the order of their usernames.
    pub fn list_contacts(&self) -> (contacts: Vec<Contact>)
        ensures
            self@.contacts_listed(views(contacts@)),
    {
        let mut all: Vec<Contact> = Vec::new();
        let mut i: usize = 0;
        while i < self.contacts.len()
            invariant
                i <= self.contacts.len(),
                all.len() == i,
                forall|j: int| 0 <= j < i ==> (#[trigger] all@[j])@ == self.contacts@[j]@.contact,
            decreases self.contacts.len() - i,
        {
            all.push(self.contacts[i].contact.duplicate());
            i += 1;
        }
        assert(views(all@) =~= contacts_of(self@.contacts));
        proof {
            lemma_contacts_by_name_total();
        }
        let at_most = |a: &Contact, b: &Contact| -> (r: bool)
            ensures
                r == contacts_by_name()(a@, b@),
            { text_at_most(a.username.as_str(), b.username.as_str()) };
        sort_rows(all, at_most, Ghost(contacts_by_name()))
    }

    pub fn find_contact(&self, username: &str) -> (contact: Option<Contact>)
        ensures
            opt_contact(contact) == self@.contact(username@),
    {
        let test = |r: &ContactRow| -> (b: bool)
            ensures
                b == contact_is(username@)(r@),
            { text_eq(r.contact.username.as_str(), username) };
        match find_row(&self.contacts, test, Ghost(contact_is(username@))) {
            Some(r) => Some(r.contact.duplicate()),
            None => None,
        }
    }

    /// Stores a friend request; of a known one only the status changes.
    pub fn save_friend_request(&mut self, request: &FriendRequest, now_ms: i64)
        ensures
            final(self)@ == old(self)@.save_friend_request(request@, now_ms),
    {
        let test = |r: &RequestRow| -> (b: bool)
            ensures
                b == request_is(request@.id)(r@),
            { text_eq(r.request.id.as_str(), request.id.as_str()) };
        let change = |r: &RequestRow| -> (n: RequestRow)
            ensures
                n@ == request_with_status(request@.status, now_ms)(r@),
            {
                let mut row = r.duplicate();
                row.request.status = request.status.clone();
                row.updated_at_ms = now_ms;
                row
            };
        upsert_row(
            &mut self.requests,
            test,
            change,
            RequestRow { request: request.duplicate(), updated_at_ms: now_ms },
            Ghost(request_is(request@.id)),
            Ghost(request_with_status(request@.status, now_ms)),
        );
    }

    pub fn set_friend_request_status(&mut self, id: &str, status: &str, now_ms: i64)
        ensures
            final(self)@ == old(self)@.set_friend_request_status(id@, status@, now_ms),
    {
        let test = |r: &RequestRow| -> (b: bool)
            ensures
                b == request_is(id@)(r@),
            { text_eq(r.request.id.as_str(), id) };
        let change = |r: &RequestRow| -> (n: RequestRow)
            ensures
                n@ == request_with_status(status@, now_ms)(r@),
            {
                let mut row = r.duplicate();
                row.request.status = status.to_owned();
                row.updated_at_ms = now_ms;
                row
            };
        let _changed: usize = update_rows(
            &mut self.requests,
            test,
            change,
            Ghost(request_is(id@)),
            Ghost(request_with_status(status@, now_ms)),
        );
    }

    /// The friend requests with the given status (or all), newest first.
    pub fn list_friend_requests(&self, status_filter: Option<&str>) -> (requests: Vec<FriendRequest>)
        ensures
            self@.requests_listed(opt_str(status_filter), views(requests@)),
    {
        let ghost wanted = request_has(opt_str(status_filter));
        let mut all: Vec<FriendRequest> = Vec::new();
        let mut i: usize = 0;
        while i < self.requests.len()
            invariant
                i <= self.requests.len(),
                all.len() == i,
                forall|j: int| 0 <= j < i ==> (#[trigger] all@[j])@ == self.requests@[j]@.request,
            decreases self.requests.len() - i,
        {
            all.push(self.requests[i].request.duplicate());
            i += 1;
        }
        assert(views(all@) =~= requests_of(self@.requests));
        let test = |r: &FriendRequest| -> (b: bool)
            ensures
                b == request_has(opt_str(status_filter))(r@),
            {
                match status_filter {
                    Some(s) => text_eq(r.status.as_str(), s),
                    None => true,
                }
            };
        let found = select_rows(&all, test, Ghost(wanted));
        let at_most = |a: &FriendRequest, b: &FriendRequest| -> (r: bool)
            ensures
                r == requests_newest_first()(a@, b@),
            { a.created_at_ms >= b.created_at_ms };
        sort_rows(found, at_most, Ghost(requests_newest_first()))
    }
}

/// The contact that was found.
pub open spec fn opt_contact(c: Option<Contact>) -> Option<ContactModel> {
    match c {
        Some(c) => Some(c@),
        None => None,
    }
}

/// The text that was given.
pub open spec fn opt_str(s: Option<&str>) -> Option<Seq<char>> {
    match s {
        Some(s) => Some(s@),
        None => None,
    }
}

} // verus!
