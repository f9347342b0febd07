//! The coordinator: a directory of usernames, friend-request metadata and a mailbox
//! of ciphertext for people who are offline.
//!
//! Two coordinators are known. The local one needs neither account nor network: a
//! directory file on this machine, and the mailbox spool of the store. The cloud
//! one is a worker behind HTTP, which only ever sees ciphertext.

use vstd::prelude::*;
use vstd::string::*;

use crate::error::Error;
use crate::files::{join_path, joined_path};
use crate::table::{
    find_row, first_row, lemma_first_row, lemma_first_row_pushed, lemma_first_row_updated,
    select_rows, upsert_row, upserted, views, Row,
};
use crate::text::{chars_of, string_of, text_eq};

verus! {

/// How long mailbox objects and stashed envelopes are kept: 7 days, in
/// milliseconds.
pub const MAILBOX_TTL_MS: i64 = 604_800_000;

/// A public directory entry. It is an alias, no proof of identity: the signing key
/// is confirmed out of band or on first use.
#[derive(Debug, Clone)]
pub struct DirectoryRecord {
    pub username: String,
    pub display_name: String,
    pub ed_pubkey_hex: String,
    pub x_pubkey_hex: String,
    pub endpoint_id: String,
    pub endpoint_bundle: String,
    pub updated_at_ms: i64,
}

/// What a [`DirectoryRecord`] holds.
pub struct DirectoryModel {
    pub username: Seq<char>,
    pub display_name: Seq<char>,
    pub ed_pubkey_hex: Seq<char>,
    pub x_pubkey_hex: Seq<char>,
    pub endpoint_id: Seq<char>,
    pub endpoint_bundle: Seq<char>,
    pub updated_at_ms: i64,
}

impl View for DirectoryRecord {
    type V = DirectoryModel;

    open spec fn view(&self) -> DirectoryModel {
        DirectoryModel {
            username: self.username@,
            display_name: self.display_name@,
            ed_pubkey_hex: self.ed_pubkey_hex@,
            x_pubkey_hex: self.x_pubkey_hex@,
            endpoint_id: self.endpoint_id@,
            endpoint_bundle: self.endpoint_bundle@,
            updated_at_ms: self.updated_at_ms,
        }
    }
}

impl Row for DirectoryRecord {
    fn duplicate(&self) -> (copy: Self) {
        DirectoryRecord {
            username: self.username.clone(),
            display_name: self.display_name.clone(),
            ed_pubkey_hex: self.ed_pubkey_hex.clone(),
            x_pubkey_hex: self.x_pubkey_hex.clone(),
            endpoint_id: self.endpoint_id.clone(),
            endpoint_bundle: self.endpoint_bundle.clone(),
            updated_at_ms: self.updated_at_ms,
        }
    }
}

/// Ciphertext that waits for someone who is offline.
#[derive(Debug, Clone)]
pub struct MailboxObject {
    pub id: String,
    pub envelope_json: String,
    pub created_at_ms: i64,
    pub expires_at_ms: i64,
}

/// What a [`MailboxObject`] holds.
pub struct MailboxObjectModel {
    pub id: Seq<char>,
    pub envelope_json: Seq<char>,
    pub created_at_ms: i64,
    pub expires_at_ms: i64,
}

impl View for MailboxObject {
    type V = MailboxObjectModel;

    open spec fn view(&self) -> MailboxObjectModel {
        MailboxObjectModel {
            id: self.id@,
            envelope_json: self.envelope_json@,
            created_at_ms: self.created_at_ms,
            expires_at_ms: self.expires_at_ms,
        }
    }
}

impl Row for MailboxObject {
    fn duplicate(&self) -> (copy: Self) {
        MailboxObject {
            id: self.id.clone(),
            envelope_json: self.envelope_json.clone(),
            created_at_ms: self.created_at_ms,
            expires_at_ms: self.expires_at_ms,
        }
    }
}

/// A published friend request, without any content.
#[derive(Debug, Clone)]
pub struct FriendDirective {
    pub id: String,
    pub from_username: String,
    pub from_display_name: String,
    pub from_ed_pubkey_hex: String,
    pub from_x_pubkey_hex: String,
    pub status: String,
    pub created_at_ms: i64,
}

/// What a [`FriendDirective`] holds.
pub struct DirectiveModel {
    pub id: Seq<char>,
    pub from_username: Seq<char>,
    pub from_display_name: Seq<char>,
    pub from_ed_pubkey_hex: Seq<char>,
    pub from_x_pubkey_hex: Seq<char>,
    pub status: Seq<char>,
    pub created_at_ms: i64,
}

impl View for FriendDirective {
    type V = DirectiveModel;

    open spec fn view(&self) -> DirectiveModel {
        DirectiveModel {
            id: self.id@,
            from_username: self.from_username@,
            from_display_name: self.from_display_name@,
            from_ed_pubkey_hex: self.from_ed_pubkey_hex@,
            from_x_pubkey_hex: self.from_x_pubkey_hex@,
            status: self.status@,
            created_at_ms: self.created_at_ms,
        }
    }
}

impl Row for FriendDirective {
    fn duplicate(&self) -> (copy: Self) {
        FriendDirective {
            id: self.id.clone(),
            from_username: self.from_username.clone(),
            from_display_name: self.from_display_name.clone(),
            from_ed_pubkey_hex: self.from_ed_pubkey_hex.clone(),
            from_x_pubkey_hex: self.from_x_pubkey_hex.clone(),
            status: self.status.clone(),
            created_at_ms: self.created_at_ms,
        }
    }
}

/// A friend request in the local directory, with the person it is for.
#[derive(Debug, Clone)]
pub struct AddressedDirective {
    pub to_username: String,
    pub directive: FriendDirective,
}

/// What a [`AddressedDirective`] holds.
pub struct AddressedModel {
    pub to_username: Seq<char>,
    pub directive: DirectiveModel,
}

impl View for AddressedDirective {
    type V = AddressedModel;

    open spec fn view(&self) -> AddressedModel {
        AddressedModel {
            to_username: self.to_username@,
            directive: self.directive@,
        }
    }
}

impl Row for AddressedDirective {
    fn duplicate(&self) -> (copy: Self) {
        AddressedDirective {
            to_username: self.to_username.clone(),
            directive: self.directive.duplicate(),
        }
    }
}

// -- the local coordinator ---------------------------------------------------------------

/// The coordinator without an account. Its directory is a file on this machine, and
/// its mailbox takes only what is addressed to the local user, since there is no
/// server to leave anything else with.
pub struct LocalCoordinator {
    pub dir: String,
    pub owner_username: String,
}

/// What the local directory file holds.
pub struct LocalDirectory {
    pub users: Vec<DirectoryRecord>,
    pub requests: Vec<AddressedDirective>,
}

/// What a [`LocalDirectory`] holds.
pub struct LocalDirectoryModel {
    pub users: Seq<DirectoryModel>,
    pub requests: Seq<AddressedModel>,
}

impl View for LocalDirectory {
    type V = LocalDirectoryModel;

    open spec fn view(&self) -> LocalDirectoryModel {
        LocalDirectoryModel { users: views(self.users@), requests: views(self.requests@) }
    }
}

pub open spec fn user_is(username: Seq<char>) -> spec_fn(DirectoryModel) -> bool {
    |r: DirectoryModel| r.username == username
}

pub open spec fn replaced_by(record: DirectoryModel) -> spec_fn(DirectoryModel) -> DirectoryModel {
    |r: DirectoryModel| record
}

pub open spec fn addressed_to(username: Seq<char>) -> spec_fn(AddressedModel) -> bool {
    |r: AddressedModel| r.to_username == username
}

pub open spec fn directives_of(rows: Seq<AddressedModel>) -> Seq<DirectiveModel> {
    rows.map_values(|r: AddressedModel| r.directive)
}

impl LocalDirectoryModel {
    /// The directory with a record, in place of an older one of the same user.
    pub open spec fn with_record(self, record: DirectoryModel) -> LocalDirectoryModel {
        LocalDirectoryModel {
            users: upserted(self.users, user_is(record.username), replaced_by(record), record),
            ..self
        }
    }

    /// The record of a user.
    pub open spec fn record_of(self, username: Seq<char>) -> Option<DirectoryModel> {
        first_row(self.users, user_is(username))
    }

    /// The friend requests that were published for a user, in order.
    pub open spec fn requests_for(self, username: Seq<char>) -> Seq<DirectiveModel> {
        directives_of(self.requests.filter(addressed_to(username)))
    }
}

/// The record that was found.
pub open spec fn opt_record(r: Option<DirectoryRecord>) -> Option<DirectoryModel> {
    match r {
        Some(r) => Some(r@),
        None => None,
    }
}

impl LocalDirectory {
    /// The directory before anything was written.
    pub fn empty() -> (directory: LocalDirectory)
        ensures
            directory@.users.len() == 0,
            directory@.requests.len() == 0,
    {
        LocalDirectory { users: Vec::new(), requests: Vec::new() }
    }
}

impl LocalCoordinator {
    pub fn new(dir: &str, owner_username: &str) -> (coordinator: LocalCoordinator)
        ensures
            coordinator.dir@ == dir@,
            coordinator.owner_username@ == owner_username@,
    {
        LocalCoordinator { dir: dir.to_owned(), owner_username: owner_username.to_owned() }
    }

    /// The directory file.
    pub fn path(&self) -> (path: String)
        ensures
            path@ == joined_path(self.dir@, "coordinator.json"@),
    {
        join_path(self.dir.as_str(), "coordinator.json")
    }

    pub fn name(&self) -> (name: &'static str)
        ensures
            name@ == "local"@,
    {
        "local"
    }

    /// Enters a record into the directory, in place of an older one of the same
    /// user.
    pub fn register(&self, directory: &mut LocalDirectory, record: &DirectoryRecord)
        ensures
            final(directory)@ == old(directory)@.with_record(record@),
    {
        let test = |r: &DirectoryRecord| -> (b: bool)
            ensures
                b == user_is(record@.username)(r@),
            { text_eq(r.username.as_str(), record.username.as_str()) };
        let change = |r: &DirectoryRecord| -> (n: DirectoryRecord)
            ensures
                n@ == replaced_by(record@)(r@),
            { record.duplicate() };
        upsert_row(
            &mut directory.users,
            test,
            change,
            record.duplicate(),
            Ghost(user_is(record@.username)),
            Ghost(replaced_by(record@)),
        );
    }

    pub fn lookup(&self, directory: &LocalDirectory, username: &str) -> (record: Option<
        DirectoryRecord,
    >)
        ensures
            opt_record(record) == directory@.record_of(username@),
    {
        let test = |r: &DirectoryRecord| -> (b: bool)
            ensures
                b == user_is(username@)(r@),
            { text_eq(r.username.as_str(), username) };
        match find_row(&directory.users, test, Ghost(user_is(username@))) {
            Some(r) => Some(r.duplicate()),
            None => None,
        }
    }

    /// Publishes a friend request, which only the owner can be sent this way.
    pub fn publish_friend_request(
        &self,
        directory: &mut LocalDirectory,
        directive: &FriendDirective,
        to_username: &str,
    ) -> (r: Result<(), Error>)
        ensures
            to_username@ != self.owner_username@ ==> r == Err::<(), Error>(Error::NoSharedServer)
                && final(directory)@ == old(directory)@,
            to_username@ == self.owner_username@ ==> r is Ok && final(directory)@ == (
            LocalDirectoryModel {
                requests: old(directory)@.requests.push(
                    AddressedModel { to_username: to_username@, directive: directive@ },
                ),
                ..old(directory)@
            }),
    {
        if !text_eq(to_username, self.owner_username.as_str()) {
            return Err(Error::NoSharedServer);
        }
        let ghost before = views(directory.requests@);
        let row = AddressedDirective {
            to_username: to_username.to_owned(),
            directive: directive.duplicate(),
        };
        directory.requests.push(row);
        assert(views(directory.requests@) =~= before.push(row@));
        Ok(())
    }

    /// The friend requests that were published for someone, in the order in which
    /// they came.
    pub fn fetch_friend_requests(&self, directory: &LocalDirectory, username: &str) -> (list: Vec<
        FriendDirective,
    >)
        ensures
            views(list@) == directory@.requests_for(username@),
    {
        let test = |r: &AddressedDirective| -> (b: bool)
            ensures
                b == addressed_to(username@)(r@),
            { text_eq(r.to_username.as_str(), username) };
        let rows = select_rows(&directory.requests, test, Ghost(addressed_to(username@)));
        let mut list: Vec<FriendDirective> = Vec::new();
        let mut i: usize = 0;
        while i < rows.len()
            invariant
                i <= rows.len(),
                list.len() == i,
                forall|j: int| 0 <= j < i ==> (#[trigger] list@[j])@ == rows@[j]@.directive,
            decreases rows.len() - i,
        {
            list.push(rows[i].directive.duplicate());
            i += 1;
        }
        assert(views(list@) =~= directives_of(views(rows@)));
        list
    }

    /// Refuses an object for anyone but the owner: nothing pretends that it was
    /// delivered.
    pub fn mailbox_put(&self, to_username: &str) -> (r: Result<(), Error>)
        ensures
            r == if to_username@ == self.owner_username@ {
                Ok::<(), Error>(())
            } else {
                Err(Error::NoSharedMailbox)
            },
    {
        if text_eq(to_username, self.owner_username.as_str()) {
            Ok(())
        } else {
            Err(Error::NoSharedMailbox)
        }
    }
}

// -- the cloud coordinator ---------------------------------------------------------------

/// The worker that the cloud coordinator talks to.
pub struct CloudflareCoordinator {
    pub base_url: String,
}

/// What is asked of the worker.
#[derive(Debug, Clone, Copy, PartialEq, Eq, Structural)]
pub enum HttpVerb {
    Get,
    Post,
    Delete,
}

/// A request to the worker.
#[derive(Debug, Clone)]
pub struct HttpCall {
    pub verb: HttpVerb,
    pub url: String,
}

/// The address without slashes at its end.
pub open spec fn without_slashes(url: Seq<char>) -> Seq<char>
    decreases url.len(),
{
    if url.len() > 0 && url.last() == '/' {
        without_slashes(url.drop_last())
    } else {
        url
    }
}

impl CloudflareCoordinator {
    pub fn new(base_url: &str) -> (coordinator: CloudflareCoordinator)
        ensures
            coordinator.base_url@ == without_slashes(base_url@),
    {
        let chars = chars_of(base_url);
        let mut end: usize = chars.len();
        assert(chars@.take(end as int) =~= chars@);
        while end > 0 && chars[end - 1] == '/'
            invariant
                end <= chars.len(),
                without_slashes(base_url@) == without_slashes(chars@.take(end as int)),
            decreases end,
        {
            assert(chars@.take(end as int).drop_last() =~= chars@.take(end - 1));
            end -= 1;
        }
        let base = string_of(vstd::slice::slice_subrange(chars.as_slice(), 0, end));
        assert(base@ =~= chars@.take(end as int));
        CloudflareCoordinator { base_url: base }
    }

    pub fn name(&self) -> (name: &'static str)
        ensures
            name@ == "cloudflare"@,
    {
        "cloudflare"
    }

    /// The address of a path of the worker.
    pub fn url(&self, path: &str) -> (url: String)
        ensures
            url@ == self.base_url@ + path@,
    {
        let mut url = self.base_url.clone();
        url.append(path);
        url
    }

    fn url_of(&self, before: &str, name: &str, after: &str) -> (url: String)
        ensures
            url@ == self.base_url@ + before@ + name@ + after@,
    {
        let mut url = self.base_url.clone();
        url.append(before);
        url.append(name);
        url.append(after);
        url
    }

    pub fn register(&self) -> (call: HttpCall)
        ensures
            call.verb == HttpVerb::Post,
            call.url@ == self.base_url@ + "/v1/directory"@,
    {
        HttpCall { verb: HttpVerb::Post, url: self.url("/v1/directory") }
    }

    pub fn lookup(&self, username: &str) -> (call: HttpCall)
        ensures
            call.verb == HttpVerb::Get,
            call.url@ == self.base_url@ + "/v1/directory/"@ + username@ + ""@,
    {
        HttpCall { verb: HttpVerb::Get, url: self.url_of("/v1/directory/", username, "") }
    }

    pub fn publish_friend_request(&self, to_username: &str) -> (call: HttpCall)
        ensures
            call.verb == HttpVerb::Post,
            call.url@ == self.base_url@ + "/v1/friends/"@ + to_username@ + "/requests"@,
    {
        HttpCall {
            verb: HttpVerb::Post,
            url: self.url_of("/v1/friends/", to_username, "/requests"),
        }
    }

    pub fn fetch_friend_requests(&self, username: &str) -> (call: HttpCall)
        ensures
            call.verb == HttpVerb::Get,
            call.url@ == self.base_url@ + "/v1/friends/"@ + username@ + "/requests"@,
    {
        HttpCall { verb: HttpVerb::Get, url: self.url_of("/v1/friends/", username, "/requests") }
    }

    pub fn mailbox_put(&self, to_username: &str) -> (call: HttpCall)
        ensures
            call.verb == HttpVerb::Post,
            call.url@ == self.base_url@ + "/v1/mailbox/"@ + to_username@ + ""@,
    {
        HttpCall { verb: HttpVerb::Post, url: self.url_of("/v1/mailbox/", to_username, "") }
    }

    pub fn mailbox_get(&self, username: &str) -> (call: HttpCall)
        ensures
            call.verb == HttpVerb::Get,
            call.url@ == self.base_url@ + "/v1/mailbox/"@ + username@ + ""@,
    {
        HttpCall { verb: HttpVerb::Get, url: self.url_of("/v1/mailbox/", username, "") }
    }

    pub fn mailbox_ack(&self, username: &str, id: &str) -> (call: HttpCall)
        ensures
            call.verb == HttpVerb::Delete,
            call.url@ == self.base_url@ + "/v1/mailbox/"@ + username@ + "/"@ + id@,
    {
        let mut url = self.url_of("/v1/mailbox/", username, "/");
        url.append(id);
        HttpCall { verb: HttpVerb::Delete, url }
    }
}

/// Whether the worker did what it was asked: its status is one of success.
pub fn judge_status(status: u16) -> (r: Result<(), Error>)
    ensures
        r == if 200 <= status < 300 {
            Ok::<(), Error>(())
        } else {
            Err(Error::CoordinatorStatus(status))
        },
{
    if 200 <= status && status < 300 {
        Ok(())
    } else {
        Err(Error::CoordinatorStatus(status))
    }
}

/// Whether the worker knows the user it was asked for.
pub fn judge_lookup(status: u16) -> (known: Result<bool, Error>)
    ensures
        known == if status == 404 {
            Ok::<bool, Error>(false)
        } else if 200 <= status < 300 {
            Ok(true)
        } else {
            Err(Error::CoordinatorStatus(status))
        },
{
    if status == 404 {
        return Ok(false);
    }
    match judge_status(status) {
        Ok(_) => Ok(true),
        Err(e) => Err(e),
    }
}

/// Whoever was registered is found, with the record that was registered last.
pub proof fn law_registered_is_found(directory: LocalDirectoryModel, record: DirectoryModel)
    ensures
        directory.with_record(record).record_of(record.username) == Some(record),
{
    let p = user_is(record.username);
    lemma_first_row(directory.users, p);
    lemma_first_row_updated(directory.users, p, replaced_by(record));
    lemma_first_row_pushed(directory.users, p, record);
}

} // verus!
