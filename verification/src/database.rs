//! The local store: the authoritative history of this device.
//!
//! Plaintext bodies live here, since the device is inside the trust boundary.
//! What leaves the device (transport envelopes, mailbox objects, coordinator
//! records) carries ciphertext only.
//!
//! [`Database`] holds the tables; its view is a [`DbModel`], on which each
//! method states exactly what it reads or how it changes the tables.

use vstd::prelude::*;

use crate::records::ProfileModel;
use crate::records::{
    ContactRow, ConversationRow, CursorRow, DeviceRecord, FileRow, GroupKeyRow, GroupRow,
    MailboxRow, MemberRow, Message, NumberRow, PendingHandshake, PendingItem, ProfileRow,
    RequestRow, SettingRow, StashRow,
};
use crate::table::views;

pub mod conversations;
pub mod files;
pub mod groups;
pub mod laws;
pub mod messages;
pub mod model;
pub mod people;
pub mod queues;

pub use model::DbModel;

verus! {

/// The tables of the store.
#[derive(Debug, Clone)]
pub struct Database {
    pub profile: Option<ProfileRow>,
    pub settings: Vec<SettingRow>,
    pub devices: Vec<DeviceRecord>,
    pub contacts: Vec<ContactRow>,
    pub requests: Vec<RequestRow>,
    pub conversations: Vec<ConversationRow>,
    pub members: Vec<MemberRow>,
    pub messages: Vec<Message>,
    pub pending: Vec<PendingItem>,
    pub handshakes: Vec<PendingHandshake>,
    pub stash: Vec<StashRow>,
    pub cursors: Vec<CursorRow>,
    pub numbers: Vec<NumberRow>,
    pub groups: Vec<GroupRow>,
    pub group_keys: Vec<GroupKeyRow>,
    pub files: Vec<FileRow>,
    pub mailbox: Vec<MailboxRow>,
}

pub open spec fn profile_view(profile: Option<ProfileRow>) -> Option<ProfileModel> {
    match profile {
        Some(p) => Some(p@),
        None => None,
    }
}

impl View for Database {
    type V = DbModel;

    open spec fn view(&self) -> DbModel {
        DbModel {
            profile: profile_view(self.profile),
            settings: views(self.settings@),
            devices: views(self.devices@),
            contacts: views(self.contacts@),
            requests: views(self.requests@),
            conversations: views(self.conversations@),
            members: views(self.members@),
            messages: views(self.messages@),
            pending: views(self.pending@),
            handshakes: views(self.handshakes@),
            stash: views(self.stash@),
            cursors: views(self.cursors@),
            numbers: views(self.numbers@),
            groups: views(self.groups@),
            group_keys: views(self.group_keys@),
            files: views(self.files@),
            mailbox: views(self.mailbox@),
        }
    }
}

impl Database {
    /// An empty store.
    pub fn in_memory() -> (db: Database)
        ensures
            db@ == DbModel::empty(),
            db@.consistent(),
    {
        let db = Database {
            profile: None,
            settings: Vec::new(),
            devices: Vec::new(),
            contacts: Vec::new(),
            requests: Vec::new(),
            conversations: Vec::new(),
            members: Vec::new(),
            messages: Vec::new(),
            pending: Vec::new(),
            handshakes: Vec::new(),
            stash: Vec::new(),
            cursors: Vec::new(),
            numbers: Vec::new(),
            groups: Vec::new(),
            group_keys: Vec::new(),
            files: Vec::new(),
            mailbox: Vec::new(),
        };
        proof {
            let m = db@;
            let e = DbModel::empty();
            assert(m.settings =~= e.settings);
            assert(m.devices =~= e.devices);
            assert(m.contacts =~= e.contacts);
            assert(m.requests =~= e.requests);
            assert(m.conversations =~= e.conversations);
            assert(m.members =~= e.members);
            assert(m.messages =~= e.messages);
            assert(m.pending =~= e.pending);
            assert(m.handshakes =~= e.handshakes);
            assert(m.stash =~= e.stash);
            assert(m.cursors =~= e.cursors);
            assert(m.numbers =~= e.numbers);
            assert(m.groups =~= e.groups);
            assert(m.group_keys =~= e.group_keys);
            assert(m.files =~= e.files);
            assert(m.mailbox =~= e.mailbox);
        }
        db
    }

    /// Resets what belongs to an identity, as on logout: profile, device record,
    /// contacts, requests, conversations with their history, groups with their
    /// keys, pending work, cursors, numbers, file rows and the mailbox spool. The
    /// settings are preferences and survive.
    pub fn wipe_user_data(&mut self)
        ensures
            final(self)@ == old(self)@.wiped(),
            final(self)@.setting("coordinator"@) == old(self)@.setting("coordinator"@),
    {
        self.profile = None;
        self.devices = Vec::new();
        self.contacts = Vec::new();
        self.requests = Vec::new();
        self.conversations = Vec::new();
        self.members = Vec::new();
        self.messages = Vec::new();
        self.pending = Vec::new();
        self.handshakes = Vec::new();
        self.cursors = Vec::new();
        self.numbers = Vec::new();
        self.groups = Vec::new();
        self.group_keys = Vec::new();
        self.files = Vec::new();
        self.mailbox = Vec::new();
        proof {
            let m = self@;
            let e = DbModel::empty();
            assert(m.devices =~= e.devices);
            assert(m.contacts =~= e.contacts);
            assert(m.requests =~= e.requests);
            assert(m.conversations =~= e.conversations);
            assert(m.members =~= e.members);
            assert(m.messages =~= e.messages);
            assert(m.pending =~= e.pending);
            assert(m.handshakes =~= e.handshakes);
            assert(m.cursors =~= e.cursors);
            assert(m.numbers =~= e.numbers);
            assert(m.groups =~= e.groups);
            assert(m.group_keys =~= e.group_keys);
            assert(m.files =~= e.files);
            assert(m.mailbox =~= e.mailbox);
        }
    }
}

} // verus!
