//! File transfers.

use vstd::prelude::*;

use crate::database::Database;
use crate::database::model::{file_in, file_is, file_resaved, file_with_offer, files_of};
use crate::error::Error;
use crate::records::{FileRow, FileTransfer, FileTransferModel};
use crate::table::{any_row, find_row, select_rows, some_row, update_rows, upsert_row, views, Row};
use crate::text::{copy_opt_text, opt_text, text_eq};

verus! {

impl Database {
    /// Stores a transfer; of a known one the state, the progress and the path
    /// change.
    pub fn save_file(&mut self, file: &FileTransfer, _now_ms: i64) -> (result: Result<(), Error>)
        ensures
            (some_row(old(self)@.files, file_is(file@.id)) || old(self)@.has_conversation(
                file@.conversation_id,
            )) ==> result is Ok && final(self)@ == old(self)@.save_file(file@),
            !(some_row(old(self)@.files, file_is(file@.id)) || old(self)@.has_conversation(
                file@.conversation_id,
            )) ==> result == Err::<(), Error>(Error::Constraint) && final(self)@ == old(self)@,
    {
        let test = |r: &FileRow| -> (b: bool)
            ensures
                b == file_is(file@.id)(r@),
            { text_eq(r.file.id.as_str(), file.id.as_str()) };
        if !any_row(&self.files, test, Ghost(file_is(file@.id))) && !self.has_conversation(
            file.conversation_id.as_str(),
        ) {
            return Err(Error::Constraint);
        }
        let change = |r: &FileRow| -> (n: FileRow)
            ensures
                n@ == file_resaved(file@)(r@),
            {
                let mut row = r.duplicate();
                row.file.state = file.state.clone();
                row.file.bytes_done = file.bytes_done;
                row.file.local_path = copy_opt_text(&file.local_path);
                row
            };
        upsert_row(
            &mut self.files,
            test,
            change,
            FileRow { file: file.duplicate(), offer_json: None },
            Ghost(file_is(file@.id)),
            Ghost(file_resaved(file@)),
        );
        Ok(())
    }

    pub fn load_file(&self, id: &str) -> (file: Option<FileTransfer>)
        ensures
            opt_file(file) == self@.file(id@),
    {
        let test = |r: &FileRow| -> (b: bool)
            ensures
                b == file_is(id@)(r@),
            { text_eq(r.file.id.as_str(), id) };
        match find_row(&self.files, test, Ghost(file_is(id@))) {
            Some(r) => Some(r.file.duplicate()),
            None => None,
        }
    }

    /// The transfers of a conversation, the one stored last first.
    pub fn list_files(&self, conversation_id: &str) -> (list: Vec<FileTransfer>)
        ensures
            views(list@) == self@.files_listed(conversation_id@),
    {
        let test = |r: &FileRow| -> (b: bool)
            ensures
                b == file_in(conversation_id@)(r@),
            { text_eq(r.file.conversation_id.as_str(), conversation_id) };
        let rows = select_rows(&self.files, test, Ghost(file_in(conversation_id@)));
        let ghost all = files_of(views(rows@));
        let mut list: Vec<FileTransfer> = Vec::new();
        let mut i: usize = rows.len();
        while i > 0
            invariant
                i <= rows.len(),
                all == files_of(views(rows@)),
                list.len() == rows.len() - i,
                forall|j: int|
                    0 <= j < list.len() ==> (#[trigger] list@[j])@ == all[rows.len() - 1 - j],
            decreases i,
        {
            i -= 1;
            list.push(rows[i].file.duplicate());
        }
        assert(views(list@) =~= all.reverse());
        list
    }

    pub fn save_offer_json(&mut self, file_id: &str, offer_json: &str)
        ensures
            final(self)@ == old(self)@.save_offer_json(file_id@, offer_json@),
    {
        let test = |r: &FileRow| -> (b: bool)
            ensures
                b == file_is(file_id@)(r@),
            { text_eq(r.file.id.as_str(), file_id) };
        let change = |r: &FileRow| -> (n: FileRow)
            ensures
                n@ == file_with_offer(offer_json@)(r@),
            {
                let mut row = r.duplicate();
                row.offer_json = Some(offer_json.to_owned());
                row
            };
        let _changed: usize = update_rows(
            &mut self.files,
            test,
            change,
            Ghost(file_is(file_id@)),
            Ghost(file_with_offer(offer_json@)),
        );
    }

    pub fn load_offer_json(&self, file_id: &str) -> (offer: Option<String>)
        ensures
            opt_text(offer) == self@.offer_json(file_id@),
    {
        let test = |r: &FileRow| -> (b: bool)
            ensures
                b == file_is(file_id@)(r@),
            { text_eq(r.file.id.as_str(), file_id) };
        match find_row(&self.files, test, Ghost(file_is(file_id@))) {
            Some(r) => copy_opt_text(&r.offer_json),
            None => None,
        }
    }
}

/// The transfer that was found.
pub open spec fn opt_file(f: Option<FileTransfer>) -> Option<FileTransferModel> {
    match f {
        Some(f) => Some(f@),
        None => None,
    }
}

} // verus!
