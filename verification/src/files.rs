//! Encrypted chunked file transfer with integrity and resume.
//!
//! A file has a random key. Its plaintext is cut into chunks, each sealed with
//! that key under its index, so that chunks can be neither reordered nor
//! replayed, and the digests of the chunks cover the plaintext. The key travels
//! inside the encrypted offer.

use vstd::prelude::*;
use vstd::string::*;
use vstd::utf8::*;

use crate::bytes::{bytes_between, hex};
use crate::crypto::{
    aead_fits, chunk_at, chunk_count, chunk_digests, group_opened, group_sealed, lemma_chunk_bounds,
    lemma_chunk_count, open_group, opened_view, random_32, seal_group, sha256, sha256_hex,
    ChunkManifest,
};
use crate::error::Error;
use crate::payload::{FileOfferBody, FileOfferModel};
use crate::table::{lemma_filter_step, lemma_ordered, ordered, sort_rows, views};
use crate::text::{
    chars_of, decimal, decimal_text, lemma_decimal_differs, prefix, string_of, take_chars, text_eq,
    trim, trimmed,
};

verus! {

/// The largest file that can be sent: 25 MiB.
pub const MAX_FILE_BYTES: u64 = 26_214_400;

/// How large a chunk is: 56 KiB.
pub const CHUNK_BYTES: usize = 57_344;

/// How far a transfer has come.
#[derive(Debug, Clone, Copy, PartialEq, Eq, Structural)]
pub struct FileProgress {
    pub received_chunks: usize,
    pub total_chunks: usize,
    pub complete: bool,
}

// -- names and paths ----------------------------------------------------------------------

/// Where the part of a path that ends at `end` begins, behind its last slash.
pub open spec fn segment_start(path: Seq<char>, end: int) -> int
    decreases end,
{
    if end <= 0 {
        0
    } else if path[end - 1] == '/' {
        end
    } else {
        segment_start(path, end - 1)
    }
}

/// The last proper part of the path up to `end`: neither empty nor a single dot.
/// There is none where that part is two dots.
pub open spec fn name_up_to(path: Seq<char>, end: int) -> Option<Seq<char>>
    decreases end,
    when 0 <= end <= path.len()
    via name_up_to_shrinks
{
    let start = segment_start(path, end);
    let part = path.subrange(start, end);
    if part.len() == 0 || part == seq!['.'] {
        if start == 0 {
            None
        } else {
            name_up_to(path, start - 1)
        }
    } else if part == seq!['.', '.'] {
        None
    } else {
        Some(part)
    }
}

#[via_fn]
proof fn name_up_to_shrinks(path: Seq<char>, end: int) {
    lemma_segment_start(path, end);
}

proof fn lemma_segment_start(path: Seq<char>, end: int)
    requires
        0 <= end <= path.len(),
    ensures
        0 <= segment_start(path, end) <= end,
    decreases end,
{
    if end > 0 && path[end - 1] != '/' {
        lemma_segment_start(path, end - 1);
    }
}

/// The file name of a path.
pub open spec fn file_name(path: Seq<char>) -> Option<Seq<char>> {
    name_up_to(path, path.len() as int)
}

fn find_file_name(path: &Vec<char>) -> (name: Option<Vec<char>>)
    ensures
        match (name, file_name(path@)) {
            (Some(a), Some(b)) => a@ == b,
            (None, None) => true,
            _ => false,
        },
{
    let mut end: usize = path.len();
    loop
        invariant
            end <= path.len(),
            name_up_to(path@, end as int) == file_name(path@),
        decreases end,
    {
        let mut start: usize = end;
        while start > 0 && path[start - 1] != '/'
            invariant
                start <= end <= path.len(),
                segment_start(path@, end as int) == segment_start(path@, start as int),
            decreases start,
        {
            start -= 1;
        }
        let ghost part = path@.subrange(start as int, end as int);
        let len: usize = end - start;
        if len == 0 || (len == 1 && path[start] == '.') {
            proof {
                if len == 1 {
                    assert(part =~= seq!['.']);
                }
            }
            if start == 0 {
                return None;
            }
            end = start - 1;
        } else if len == 2 && path[start] == '.' && path[start + 1] == '.' {
            proof {
                assert(part =~= seq!['.', '.']);
                assert(part.len() == 2);
            }
            return None;
        } else {
            proof {
                assert(part[0] == path@[start as int]);
                if len == 2 {
                    assert(part[1] == path@[start + 1]);
                }
            }
            let name = vstd::slice::slice_to_vec(
                vstd::slice::slice_subrange(path.as_slice(), start, end),
            );
            proof {
                assert(segment_start(path@, end as int) == start);
                assert(name@ =~= part);
                assert(part.len() == len);
                assert(part != seq!['.']) by {
                    assert(seq!['.'].len() == 1 && seq!['.'][0] == '.');
                }
                assert(part != seq!['.', '.']) by {
                    let dots = seq!['.', '.'];
                    assert(dots.len() == 2 && dots[0] == '.' && dots[1] == '.');
                }
                assert(name_up_to(path@, end as int) == Some(part));
            }
            return Some(name);
        }
    }
}

pub open spec fn name_char() -> spec_fn(char) -> bool {
    |c: char| c != '/' && c != '\\' && c != '\0'
}

/// The longest file name that is kept.
pub const NAME_CHARS: usize = 255;

/// A name that can be used for a file in one directory: the file name of the
/// given path without slashes, backslashes and zero characters, or `file` where
/// nothing is left.
pub open spec fn sanitized(name: Seq<char>) -> Seq<char> {
    let base = match file_name(name) {
        Some(n) => n,
        None => "file"@,
    };
    let clean = prefix(base.filter(name_char()), NAME_CHARS as nat);
    if clean.len() == 0 {
        "file"@
    } else {
        clean
    }
}

/// A name that can be used for a file in one directory.
pub fn sanitize_filename(name: &str) -> (clean: String)
    ensures
        clean@ == sanitized(name@),
{
    let path = chars_of(name);
    let base = match find_file_name(&path) {
        Some(n) => n,
        None => chars_of("file"),
    };
    let mut kept: Vec<char> = Vec::new();
    let mut i: usize = 0;
    proof {
        reveal(Seq::filter);
        assert(kept@ =~= base@.take(0).filter(name_char()));
    }
    while i < base.len()
        invariant
            i <= base.len(),
            kept@ == base@.take(i as int).filter(name_char()),
        decreases base.len() - i,
    {
        proof {
            lemma_filter_step(base@, i as int, name_char());
        }
        let c = base[i];
        if c != '/' && c != '\\' && c != '\0' {
            kept.push(c);
        }
        i += 1;
    }
    assert(base@.take(i as int) =~= base@);
    let clean = take_chars(string_of(kept.as_slice()).as_str(), NAME_CHARS);
    if kept.len() == 0 {
        "file".to_owned()
    } else {
        clean
    }
}

/// A sanitized name is never empty, is at most 255 characters long and names no
/// other directory.
pub proof fn law_sanitized_names_stay_inside(name: Seq<char>)
    ensures
        1 <= sanitized(name).len() <= NAME_CHARS,
        forall|i: int|
            0 <= i < sanitized(name).len() ==> #[trigger] sanitized(name)[i] != '/' && sanitized(
                name,
            )[i] != '\\' && sanitized(name)[i] != '\0',
{
    let base = match file_name(name) {
        Some(n) => n,
        None => "file"@,
    };
    lemma_filter_all(base, name_char());
    let kept = base.filter(name_char());
    reveal_strlit("file");
    assert forall|i: int| 0 <= i < sanitized(name).len() implies name_char()(
        #[trigger] sanitized(name)[i],
    ) by {
        if sanitized(name) != "file"@ {
            assert(sanitized(name)[i] == kept[i]);
        }
    }
}

proof fn lemma_filter_all<V>(rows: Seq<V>, keep: spec_fn(V) -> bool)
    ensures
        forall|i: int| 0 <= i < rows.filter(keep).len() ==> keep(#[trigger] rows.filter(keep)[i]),
    decreases rows.len(),
{
    reveal(Seq::filter);
    if rows.len() > 0 {
        lemma_filter_all(rows.drop_last(), keep);
    }
}

/// `name` inside the directory `dir`; an absolute `name` stands for itself.
pub open spec fn joined_path(dir: Seq<char>, name: Seq<char>) -> Seq<char> {
    if name.len() > 0 && name[0] == '/' {
        name
    } else if dir.len() == 0 || dir.last() == '/' {
        dir + name
    } else {
        dir + "/"@ + name
    }
}

/// `name` inside the directory `dir`; an absolute `name` stands for itself.
pub fn join_path(dir: &str, name: &str) -> (path: String)
    ensures
        path@ == joined_path(dir@, name@),
{
    let n = chars_of(name);
    if n.len() > 0 && n[0] == '/' {
        return name.to_owned();
    }
    let d = chars_of(dir);
    let mut path = dir.to_owned();
    if d.len() > 0 && d[d.len() - 1] != '/' {
        path.append("/");
    }
    path.append(name);
    path
}

/// Where the chunks of a file are assembled.
pub fn part_path(files_dir: &str, file_id: &str) -> (path: String)
    ensures
        path@ == joined_path(files_dir@, file_id@ + ".part"@),
{
    let mut name = file_id.to_owned();
    name.append(".part");
    join_path(files_dir, name.as_str())
}

/// Where it is noted which chunks of a file are there.
pub fn sidecar_path(files_dir: &str, file_id: &str) -> (path: String)
    ensures
        path@ == joined_path(files_dir@, file_id@ + ".received.json"@),
{
    let mut name = file_id.to_owned();
    name.append(".received.json");
    join_path(files_dir, name.as_str())
}

/// Where the last dot of a name is, if there is one behind its first character.
pub open spec fn dot_place(name: Seq<char>, end: int) -> Option<int>
    decreases end,
{
    if end <= 1 {
        None
    } else if name[end - 1] == '.' {
        Some(end - 1)
    } else {
        dot_place(name, end - 1)
    }
}

/// The name with a number behind its stem, in front of its extension.
pub open spec fn numbered(name: Seq<char>, counter: nat) -> Seq<char> {
    match dot_place(name, name.len() as int) {
        Some(dot) => {
            let stem = name.take(dot) + " ("@ + decimal(counter) + ")"@;
            if dot + 1 == name.len() {
                stem
            } else {
                stem + name.skip(dot)
            }
        },
        None => name + " ("@ + decimal(counter) + ")"@,
    }
}

/// The place for a finished download: the offered name, or where `counter`
/// earlier places are taken, that name with the counter.
pub open spec fn download_place(dir: Seq<char>, name: Seq<char>, counter: u64) -> Seq<char> {
    let first = joined_path(dir, name);
    if counter == 0 {
        first
    } else {
        let base = match file_name(first) {
            Some(n) => n,
            None => "file"@,
        };
        joined_path(dir, numbered(base, counter as nat))
    }
}

/// The places that are tried for a download are all different, so that one which is
/// not taken yet is found.
pub proof fn law_download_places_differ(dir: Seq<char>, name: Seq<char>, a: u64, b: u64)
    requires
        0 < a,
        0 < b,
        a != b,
    ensures
        download_place(dir, name, a) != download_place(dir, name, b),
{
    let base = match file_name(joined_path(dir, name)) {
        Some(n) => n,
        None => "file"@,
    };
    let x = numbered(base, a as nat);
    let y = numbered(base, b as nat);
    let da = decimal(a as nat);
    let db = decimal(b as nat);
    lemma_decimal_differs(a as nat, b as nat);
    let (stem, tail) = match dot_place(base, base.len() as int) {
        Some(dot) => (
            base.take(dot) + " ("@,
            if dot + 1 == base.len() {
                ")"@
            } else {
                ")"@ + base.skip(dot)
            },
        ),
        None => (base + " ("@, ")"@),
    };
    assert(x =~= stem + da + tail);
    assert(y =~= stem + db + tail);
    if x == y {
        assert(x.subrange(stem.len() as int, x.len() - tail.len()) =~= da);
        assert(y.subrange(stem.len() as int, y.len() - tail.len()) =~= db);
    }
    reveal_strlit(" (");
    assert(x[0] == stem[0]);
    assert(y[0] == stem[0]);
    let first = joined_path(dir, x);
    let second = joined_path(dir, y);
    if first == second {
        assert(first.skip(first.len() - x.len()) =~= x);
        assert(second.skip(second.len() - y.len()) =~= y);
    }
}

/// The place for a finished download when `counter` earlier places are taken. A
/// download never replaces an existing file.
pub fn download_path(files_dir: &str, filename: &str, counter: u64) -> (path: String)
    ensures
        path@ == download_place(files_dir@, filename@, counter),
{
    let first = join_path(files_dir, filename);
    if counter == 0 {
        return first;
    }
    let chars = chars_of(first.as_str());
    let base = match find_file_name(&chars) {
        Some(n) => n,
        None => chars_of("file"),
    };
    let mut dot: usize = base.len();
    let ghost place = dot_place(base@, base@.len() as int);
    while dot > 1 && base[dot - 1] != '.'
        invariant
            dot <= base.len(),
            place == dot_place(base@, dot as int),
        decreases dot,
    {
        dot -= 1;
    }
    let number = decimal_text(counter);
    if dot > 1 {
        let ghost at = dot - 1;
        assert(place == Some(at));
        let mut out = string_of(vstd::slice::slice_subrange(base.as_slice(), 0, dot - 1));
        assert(out@ =~= base@.take(at));
        out.append(" (");
        out.append(number.as_str());
        out.append(")");
        if dot < base.len() {
            let tail = string_of(
                vstd::slice::slice_subrange(base.as_slice(), dot - 1, base.len()),
            );
            assert(tail@ =~= base@.skip(at));
            out.append(tail.as_str());
        }
        assert(out@ == numbered(base@, counter as nat));
        join_path(files_dir, out.as_str())
    } else {
        assert(place is None);
        let mut out = string_of(base.as_slice());
        out.append(" (");
        out.append(number.as_str());
        out.append(")");
        join_path(files_dir, out.as_str())
    }
}

// -- sending ------------------------------------------------------------------------------

/// The offer of a file.
pub open spec fn offer_of(
    file_id: Seq<char>,
    filename: Seq<char>,
    mime_type: Seq<char>,
    data: Seq<u8>,
    key: Seq<u8>,
) -> FileOfferModel {
    FileOfferModel {
        file_id,
        filename: sanitized(filename),
        mime_type: if mime_type.len() == 0 {
            "application/octet-stream"@
        } else {
            mime_type
        },
        size_bytes: data.len() as u64,
        sha256_hex: hex(sha256(data)),
        chunk_bytes: CHUNK_BYTES as u32,
        chunk_hashes: chunk_digests(data, CHUNK_BYTES as int),
        total_bytes: data.len() as u64,
        file_key: key,
    }
}

/// `sealed` are the chunks of a file, each sealed under its index, and open again
/// under it.
pub open spec fn chunks_sealed(data: Seq<u8>, key: Seq<u8>, sealed: Seq<Vec<u8>>) -> bool {
    &&& sealed.len() == chunk_count(data.len() as int, CHUNK_BYTES as int)
    &&& forall|i: int|
        0 <= i < sealed.len() ==> {
            let chunk = chunk_at(data, CHUNK_BYTES as int, i);
            &&& (#[trigger] sealed[i])@ == group_sealed(key, i as u64, chunk)
            &&& group_opened(key, i as u64, sealed[i]@) == Ok::<Seq<u8>, Error>(chunk)
        }
}

/// Why a file cannot be offered.
pub open spec fn offer_refused(filename: Seq<char>, data: Seq<u8>) -> Option<Error> {
    if data.len() > MAX_FILE_BYTES {
        Some(Error::FileTooLarge)
    } else if trimmed(filename).len() == 0 || encode_utf8(filename).len() > 255 {
        Some(Error::BadFilename)
    } else {
        None
    }
}

/// Cuts and seals a file with the given key: its offer, and its sealed chunks.
pub fn prepare_offer_with(
    file_id: &str,
    filename: &str,
    mime_type: &str,
    data: &[u8],
    file_key: [u8; 32],
) -> (offer: Result<(FileOfferBody, Vec<Vec<u8>>), Error>)
    ensures
        match offer_refused(filename@, data@) {
            Some(e) => offer == Err::<(FileOfferBody, Vec<Vec<u8>>), Error>(e),
            None => {
                &&& offer is Ok
                &&& offer->Ok_0.0@ == offer_of(file_id@, filename@, mime_type@, data@, file_key@)
                &&& chunks_sealed(data@, file_key@, offer->Ok_0.1@)
            },
        },
{
    if data.len() as u64 > MAX_FILE_BYTES {
        return Err(Error::FileTooLarge);
    }
    let shown = chars_of(trim(filename).as_str());
    if shown.len() == 0 || filename.as_bytes().len() > 255 {
        return Err(Error::BadFilename);
    }
    let manifest = ChunkManifest::build(data, CHUNK_BYTES as u32);
    let ghost n = chunk_count(data@.len() as int, CHUNK_BYTES as int);
    let mut sealed: Vec<Vec<u8>> = Vec::new();
    let mut at: usize = 0;
    proof {
        lemma_chunk_count(data@.len() as int, CHUNK_BYTES as int);
    }
    while at < data.len()
        invariant
            data@.len() <= MAX_FILE_BYTES,
            n == chunk_count(data@.len() as int, CHUNK_BYTES as int),
            sealed.len() <= n,
            n <= MAX_FILE_BYTES,
            at < data.len() ==> sealed.len() < n && at == sealed.len() * CHUNK_BYTES,
            at >= data.len() ==> sealed.len() == n,
            forall|i: int|
                0 <= i < sealed.len() ==> {
                    let chunk = chunk_at(data@, CHUNK_BYTES as int, i);
                    &&& (#[trigger] sealed@[i])@ == group_sealed(file_key@, i as u64, chunk)
                    &&& group_opened(file_key@, i as u64, sealed@[i]@) == Ok::<Seq<u8>, Error>(
                        chunk,
                    )
                },
        decreases data.len() - at,
    {
        let ghost i = sealed.len() as int;
        proof {
            lemma_chunk_bounds(data@.len() as int, CHUNK_BYTES as int, i);
        }
        let end: usize = if data.len() - at > CHUNK_BYTES {
            at + CHUNK_BYTES
        } else {
            data.len()
        };
        let chunk = bytes_between(data, at, end);
        assert(chunk@ =~= chunk_at(data@, CHUNK_BYTES as int, i));
        assert(aead_fits(chunk@.len()));
        match seal_chunk(&file_key, sealed.len() as u32, chunk.as_slice()) {
            Ok(blob) => {
                sealed.push(blob);
            },
            Err(e) => {
                return Err(e);
            },
        }
        at = end;
    }
    let kind = if mime_type.is_empty() {
        "application/octet-stream".to_owned()
    } else {
        mime_type.to_owned()
    };
    Ok(
        (
            FileOfferBody {
                file_id: file_id.to_owned(),
                filename: sanitize_filename(filename),
                mime_type: kind,
                size_bytes: data.len() as u64,
                sha256_hex: sha256_hex(data),
                manifest,
                file_key,
            },
            sealed,
        ),
    )
}

/// Cuts and seals a file with a new random key: its offer, and its sealed chunks.
pub fn prepare_offer(file_id: &str, filename: &str, mime_type: &str, data: &[u8]) -> (offer: Result<
    (FileOfferBody, Vec<Vec<u8>>),
    Error,
>)
    ensures
        match offer_refused(filename@, data@) {
            Some(e) => offer == Err::<(FileOfferBody, Vec<Vec<u8>>), Error>(e),
            None => {
                &&& offer is Ok
                &&& offer->Ok_0.0@ == offer_of(
                    file_id@,
                    filename@,
                    mime_type@,
                    data@,
                    offer->Ok_0.0@.file_key,
                )
                &&& chunks_sealed(data@, offer->Ok_0.0@.file_key, offer->Ok_0.1@)
            },
        },
{
    prepare_offer_with(file_id, filename, mime_type, data, random_32())
}

/// Seals one chunk under its index.
pub fn seal_chunk(file_key: &[u8; 32], index: u32, chunk: &[u8]) -> (sealed: Result<Vec<u8>, Error>)
    ensures
        !aead_fits(chunk@.len()) ==> sealed == Err::<Vec<u8>, Error>(Error::GroupSealFailed),
        aead_fits(chunk@.len()) ==> {
            &&& sealed is Ok
            &&& sealed->Ok_0@ == group_sealed(file_key@, index as u64, chunk@)
            &&& group_opened(file_key@, index as u64, sealed->Ok_0@) == Ok::<Seq<u8>, Error>(
                chunk@,
            )
        },
{
    seal_group(file_key, index as u64, chunk)
}

// -- receiving ----------------------------------------------------------------------------

/// What has to be written for a chunk that was accepted.
#[derive(Debug, Clone)]
pub struct ChunkWrite {
    /// Where in the part file the chunk goes.
    pub offset: u64,
    pub chunk: Vec<u8>,
    /// Whether an older part file has to be emptied first.
    pub restart: bool,
    /// The chunks that are there now.
    pub have: Vec<u32>,
    /// Whether that list has changed.
    pub have_changed: bool,
    pub progress: FileProgress,
}

/// The plaintext of a chunk, if it is authentic and has its digest.
pub open spec fn chunk_content(
    offer: FileOfferModel,
    index: u32,
    opened: Result<Seq<u8>, Error>,
) -> Result<Seq<u8>, Error> {
    if index >= offer.chunk_hashes.len() {
        Err(Error::ChunkIndex)
    } else {
        match opened {
            Err(_) => Err(Error::ChunkAuthentication),
            Ok(chunk) => if offer.chunk_hashes[index as int] == hex(sha256(chunk)) {
                Ok(chunk)
            } else {
                Err(Error::ChunkDigest(index))
            },
        }
    }
}

/// Judges what opening a chunk came to: it must be one of the file, authentic, and
/// have its digest.
pub fn judge_chunk(offer: &FileOfferBody, index: u32, opened: Result<Vec<u8>, Error>) -> (chunk:
    Result<Vec<u8>, Error>)
    ensures
        opened_view(chunk) == chunk_content(offer@, index, opened_view(opened)),
{
    if index as usize >= offer.manifest.chunk_hashes.len() {
        return Err(Error::ChunkIndex);
    }
    match opened {
        Err(_) => Err(Error::ChunkAuthentication),
        Ok(chunk) => {
            assert(offer@.chunk_hashes[index as int] == offer.manifest.chunk_hashes@[index as int]@);
            if offer.manifest.verify_chunk(index as usize, chunk.as_slice()) {
                Ok(chunk)
            } else {
                Err(Error::ChunkDigest(index))
            }
        },
    }
}

pub open spec fn indices_up() -> spec_fn(u32, u32) -> bool {
    |a: u32, b: u32| a <= b
}

/// `after` lists the chunks that are there once `index` is: the same list if it
/// was there, else that list with it, in order.
pub open spec fn have_with(before: Seq<u32>, index: u32, after: Seq<u32>) -> bool {
    if before.contains(index) {
        after == before
    } else {
        ordered(after, before.push(index), indices_up())
    }
}

/// What a receiver keeps of a file that is coming in: the part file, if there is one, and
/// the list of the chunks in it.
pub struct IncomingModel {
    pub part: Option<Seq<u8>>,
    pub have: Seq<u32>,
}

/// A file after a write; a gap before what is written is zeroes.
pub open spec fn written_at(file: Seq<u8>, offset: int, chunk: Seq<u8>) -> Seq<u8> {
    let end = offset + chunk.len();
    Seq::new(
        (if end > file.len() {
            end
        } else {
            file.len() as int
        }) as nat,
        |i: int|
            if offset <= i < end {
                chunk[i - offset]
            } else if i < file.len() {
                file[i]
            } else {
                0
            },
    )
}

/// `after` is what is kept once the chunk was taken: it is accepted, and written into the
/// part file, or into a new one if no chunk was listed.
pub open spec fn chunk_taken(
    offer: FileOfferModel,
    index: u32,
    sealed: Seq<u8>,
    before: IncomingModel,
    after: IncomingModel,
) -> bool {
    let content = chunk_content(offer, index, group_opened(offer.file_key, index as u64, sealed));
    let restart = before.have.len() == 0 && before.part is Some;
    let start = if restart || before.part is None {
        Seq::empty()
    } else {
        before.part->0
    };
    &&& content is Ok
    &&& after.part == Some(written_at(start, index * CHUNK_BYTES, content->Ok_0))
    &&& have_with(before.have, index, after.have)
}

/// The part file once what was asked for is written.
pub open spec fn part_written(part: Option<Seq<u8>>, write: ChunkWrite) -> Seq<u8> {
    let start = if write.restart || part is None {
        Seq::empty()
    } else {
        part->0
    };
    written_at(start, write.offset as int, write.chunk@)
}

/// Takes a received chunk: authenticates it, checks its digest and says what has
/// to be written, where `have` lists the chunks that are there and `part_exists`
/// says whether there is a part file. A part file without a list is left over from
/// an earlier transfer and starts anew.
pub fn apply_chunk(
    offer: &FileOfferBody,
    index: u32,
    sealed: &[u8],
    have: &Vec<u32>,
    part_exists: bool,
) -> (write: Result<ChunkWrite, Error>)
    ensures
        match chunk_content(
            offer@,
            index,
            group_opened(offer@.file_key, index as u64, sealed@),
        ) {
            Err(e) => write == Err::<ChunkWrite, Error>(e),
            Ok(chunk) => {
                &&& write is Ok
                &&& write->Ok_0.offset == index * CHUNK_BYTES
                &&& write->Ok_0.chunk@ == chunk
                &&& write->Ok_0.restart == (have@.len() == 0 && part_exists)
                &&& have_with(have@, index, write->Ok_0.have@)
                &&& write->Ok_0.have_changed == !have@.contains(index)
                &&& write->Ok_0.progress.received_chunks == write->Ok_0.have@.len()
                &&& write->Ok_0.progress.total_chunks == offer@.chunk_hashes.len()
                &&& write->Ok_0.progress.complete == (write->Ok_0.have@.len()
                    == offer@.chunk_hashes.len())
            },
        },
        write is Ok ==> forall|part: Option<Seq<u8>>|
            part_exists == (part is Some) ==> chunk_taken(
                offer@,
                index,
                sealed@,
                (IncomingModel { part, have: have@ }),
                (IncomingModel {
                    part: Some(#[trigger] part_written(part, write->Ok_0)),
                    have: write->Ok_0.have@,
                }),
            ),
{
    let opened = open_group(&offer.file_key, index as u64, sealed);
    let chunk = match judge_chunk(offer, index, opened) {
        Ok(c) => c,
        Err(e) => {
            return Err(e);
        },
    };
    let total: usize = offer.manifest.chunk_hashes.len();
    assert(offer@.chunk_hashes.len() == total);
    let known = lists_index(have, index);
    let mut now = vstd::slice::slice_to_vec(have.as_slice());
    if !known {
        now.push(index);
        let ghost pushed = now@;
        assert(views(now@) =~= pushed);
        let at_most = |a: &u32, b: &u32| -> (r: bool)
            ensures
                r == indices_up()(a@, b@),
            { *a <= *b };
        now = sort_rows(now, at_most, Ghost(indices_up()));
        assert(views(now@) =~= now@);
    }
    let received: usize = now.len();
    Ok(
        ChunkWrite {
            offset: index as u64 * CHUNK_BYTES as u64,
            chunk,
            restart: have.len() == 0 && part_exists,
            have: now,
            have_changed: !known,
            progress: FileProgress {
                received_chunks: received,
                total_chunks: total,
                complete: received == total,
            },
        },
    )
}

fn lists_index(have: &Vec<u32>, index: u32) -> (found: bool)
    ensures
        found == have@.contains(index),
{
    let mut i: usize = 0;
    while i < have.len()
        invariant
            i <= have.len(),
            forall|j: int| 0 <= j < i ==> have@[j] != index,
        decreases have.len() - i,
    {
        if have[i] == index {
            return true;
        }
        i += 1;
    }
    false
}

/// The chunks of a file that are not there.
pub open spec fn chunks_missing(total: nat, have: Seq<u32>) -> Seq<u32> {
    Seq::new((total % 0x1_0000_0000) as nat, |i: int| i as u32).filter(|i: u32| !have.contains(i))
}

/// The chunks of a file that are not there yet, in order.
pub fn missing_chunks(offer: &FileOfferBody, have: &Vec<u32>) -> (missing: Vec<u32>)
    ensures
        missing@ == chunks_missing(offer@.chunk_hashes.len(), have@),
{
    let total: u64 = offer.manifest.chunk_hashes.len() as u64;
    assert(offer@.chunk_hashes.len() == total);
    let count: u32 = (total % 0x1_0000_0000) as u32;
    let ghost all = Seq::new(count as nat, |i: int| i as u32);
    let ghost keep = |i: u32| !have@.contains(i);
    let mut missing: Vec<u32> = Vec::new();
    let mut i: u32 = 0;
    proof {
        reveal(Seq::filter);
        assert(missing@ =~= all.take(0).filter(keep));
    }
    while i < count
        invariant
            i <= count,
            all == Seq::new(count as nat, |i: int| i as u32),
            keep == (|i: u32| !have@.contains(i)),
            missing@ == all.take(i as int).filter(keep),
        decreases count - i,
    {
        proof {
            lemma_filter_step(all, i as int, keep);
        }
        if !lists_index(have, i) {
            missing.push(i);
        }
        i += 1;
    }
    assert(all.take(i as int) =~= all);
    missing
}

/// The bytes of an assembled file, as far as its size goes, if they have the digest that
/// was offered.
pub open spec fn assembled(offer: FileOfferModel, bytes: Seq<u8>) -> Result<Seq<u8>, Error> {
    let content = if bytes.len() > offer.size_bytes {
        bytes.take(offer.size_bytes as int)
    } else {
        bytes
    };
    if hex(sha256(content)) == offer.sha256_hex {
        Ok(content)
    } else {
        Err(Error::FileDigest)
    }
}

/// The bytes of an assembled file, if they have the digest that was offered.
pub fn check_assembled(offer: &FileOfferBody, bytes: &[u8]) -> (file: Result<Vec<u8>, Error>)
    ensures
        opened_view(file) == assembled(offer@, bytes@),
{
    let end: usize = if bytes.len() as u64 > offer.size_bytes {
        offer.size_bytes as usize
    } else {
        bytes.len()
    };
    let content = bytes_between(bytes, 0, end);
    proof {
        if bytes@.len() > offer@.size_bytes {
            assert(content@ =~= bytes@.take(offer@.size_bytes as int));
        } else {
            assert(content@ =~= bytes@);
        }
    }
    let digest = sha256_hex(content.as_slice());
    if text_eq(digest.as_str(), offer.sha256_hex.as_str()) {
        Ok(content)
    } else {
        Err(Error::FileDigest)
    }
}

/// A receiver accepts every chunk that the offer's sender sealed, as the bytes of
/// the file that stand there.
pub proof fn law_sealed_chunk_is_accepted(
    file_id: Seq<char>,
    filename: Seq<char>,
    mime_type: Seq<char>,
    data: Seq<u8>,
    key: Seq<u8>,
    sealed: Seq<Vec<u8>>,
    index: u32,
)
    requires
        chunks_sealed(data, key, sealed),
        index < sealed.len(),
    ensures
        ({
            let offer = offer_of(file_id, filename, mime_type, data, key);
            chunk_content(
                offer,
                index,
                group_opened(offer.file_key, index as u64, sealed[index as int]@),
            ) == Ok::<Seq<u8>, Error>(chunk_at(data, CHUNK_BYTES as int, index as int))
        }),
{
    let i = index as int;
    assert(sealed[i]@ == group_sealed(key, i as u64, chunk_at(data, CHUNK_BYTES as int, i)));
}

/// A list of chunks that are there names each once, and none that the file does
/// not have.
pub open spec fn have_wf(have: Seq<u32>, total: nat) -> bool {
    &&& have.no_duplicates()
    &&& forall|i: int| 0 <= i < have.len() ==> #[trigger] have[i] < total
}

/// Taking a chunk keeps the list in order, and when the list is as long as the
/// file has chunks, none is missing.
pub proof fn law_complete_means_nothing_missing(
    before: Seq<u32>,
    index: u32,
    after: Seq<u32>,
    total: nat,
)
    requires
        have_wf(before, total),
        index < total,
        total < 0x1_0000_0000,
        have_with(before, index, after),
    ensures
        have_wf(after, total),
        after.len() == total ==> chunks_missing(total, after).len() == 0,
{
    if !before.contains(index) {
        let pushed = before.push(index);
        assert(pushed.no_duplicates());
        pushed.lemma_multiset_has_no_duplicates();
        assert forall|x: u32| after.to_multiset().contains(x) implies after.to_multiset().count(x)
            == 1 by {
            assert(pushed.to_multiset().contains(x));
        }
        after.lemma_multiset_has_no_duplicates_conv();
        after.to_multiset_ensures();
        pushed.to_multiset_ensures();
        assert forall|i: int| 0 <= i < after.len() implies #[trigger] after[i] < total by {
            assert(after.contains(after[i]));
            assert(after.to_multiset().count(after[i]) > 0);
            assert(pushed.to_multiset().count(after[i]) > 0);
            assert(pushed.contains(after[i]));
        }
    }
    if after.len() == total {
        lemma_all_indices(after, total);
        let all = Seq::new(total, |i: int| i as u32);
        let keep = |i: u32| !after.contains(i);
        assert(total % 0x1_0000_0000 == total);
        lemma_filter_none(all, keep);
    }
}

proof fn lemma_filter_none<V>(rows: Seq<V>, keep: spec_fn(V) -> bool)
    requires
        forall|i: int| 0 <= i < rows.len() ==> !keep(#[trigger] rows[i]),
    ensures
        rows.filter(keep).len() == 0,
    decreases rows.len(),
{
    reveal(Seq::filter);
    if rows.len() > 0 {
        let rest = rows.drop_last();
        assert forall|i: int| 0 <= i < rest.len() implies !keep(#[trigger] rest[i]) by {
            assert(rest[i] == rows[i]);
        }
        lemma_filter_none(rest, keep);
    }
}

pub(crate) proof fn lemma_all_indices(have: Seq<u32>, total: nat)
    requires
        have_wf(have, total),
        have.len() == total,
        total < 0x1_0000_0000,
    ensures
        forall|i: int| 0 <= i < total ==> have.contains(#[trigger] (i as u32)),
{
    let places = have.map_values(|x: u32| x as int);
    let range = vstd::set_lib::set_int_range(0, total as int);
    vstd::set_lib::lemma_int_range(0, total as int);
    assert(places.no_duplicates());
    places.unique_seq_to_set();
    assert(places.to_set().subset_of(range)) by {
        assert forall|x: int| places.to_set().contains(x) implies range.contains(x) by {
            let i: int = choose|i: int| 0 <= i < places.len() && places[i] == x;
            assert(have[i] < total);
        }
    }
    vstd::set_lib::lemma_subset_equality(places.to_set(), range);
    assert forall|i: int| 0 <= i < total implies have.contains(#[trigger] (i as u32)) by {
        assert(range.contains(i));
        assert(places.to_set().contains(i));
        let k: int = choose|k: int| 0 <= k < places.len() && places[k] == i;
        assert(have[k] == i as u32);
    }
}

/// The chunk in which a byte of the file is.
pub open spec fn chunk_with(i: int) -> u32 {
    (i / CHUNK_BYTES as int) as u32
}

pub(crate) proof fn lemma_chunk_with(len: int, i: int, index: u32)
    requires
        0 <= i < len <= MAX_FILE_BYTES,
    ensures
        chunk_with(i) < chunk_count(len, CHUNK_BYTES as int),
        chunk_with(i) == index <==> index * CHUNK_BYTES <= i < (index + 1) * CHUNK_BYTES,
{
}

/// What is there agrees with the file in every listed chunk, and goes no further.
pub open spec fn agrees(data: Seq<u8>, kept: IncomingModel) -> bool {
    let total = chunk_count(data.len() as int, CHUNK_BYTES as int);
    &&& have_wf(kept.have, total as nat)
    &&& kept.have.len() > 0 ==> kept.part is Some && kept.part->0.len() <= data.len()
    &&& forall|i: int|
        #![trigger chunk_with(i)]
        0 <= i < data.len() && kept.have.contains(chunk_with(i)) ==> i < kept.part->0.len()
            && kept.part->0[i] == data[i]
}

pub(crate) proof fn lemma_chunk_taken(
    offer: FileOfferModel,
    data: Seq<u8>,
    index: u32,
    sealed: Seq<u8>,
    before: IncomingModel,
    after: IncomingModel,
)
    requires
        data.len() <= MAX_FILE_BYTES,
        index < chunk_count(data.len() as int, CHUNK_BYTES as int),
        chunk_content(offer, index, group_opened(offer.file_key, index as u64, sealed)) == Ok::<
            Seq<u8>,
            Error,
        >(chunk_at(data, CHUNK_BYTES as int, index as int)),
        chunk_taken(offer, index, sealed, before, after),
        agrees(data, before),
    ensures
        agrees(data, after),
        after.have.len() == before.have.len() + if before.have.contains(index) {
            0int
        } else {
            1
        },
        forall|i: u32| #[trigger]
            after.have.contains(i) <==> i == index || before.have.contains(i),
{
    let total = chunk_count(data.len() as int, CHUNK_BYTES as int);
    let size = CHUNK_BYTES as int;
    let at = index * size;
    let chunk = chunk_at(data, size, index as int);
    law_complete_means_nothing_missing(before.have, index, after.have, total as nat);
    if !before.have.contains(index) {
        let pushed = before.have.push(index);
        lemma_ordered(after.have, pushed, indices_up());
        assert forall|i: u32| #[trigger] after.have.contains(i) <==> i == index
            || before.have.contains(i) by {
            if i == index {
                assert(pushed[before.have.len() as int] == index);
            } else if before.have.contains(i) {
                let k: int = choose|k: int| 0 <= k < before.have.len() && before.have[k] == i;
                assert(pushed[k] == i);
            }
        }
    }
    lemma_chunk_bounds(data.len() as int, size, index as int);
    assert(at + chunk.len() <= data.len());
    let start = if before.have.len() == 0 || before.part is None {
        Seq::empty()
    } else {
        before.part->0
    };
    assert(after.part == Some(written_at(start, at, chunk)));
    assert(start.len() <= data.len());
    assert forall|i: int|
        #![trigger chunk_with(i)]
        0 <= i < data.len() && after.have.contains(chunk_with(i)) implies i
        < after.part->0.len() && after.part->0[i] == data[i] by {
        lemma_chunk_with(data.len() as int, i, index);
        if chunk_with(i) == index {
            assert(at <= i < at + chunk.len());
            assert(chunk[i - at] == data[i]);
        } else {
            assert(before.have.contains(chunk_with(i)));
            assert(i < before.part->0.len() && before.part->0[i] == data[i]);
            assert(i < at || i >= at + chunk.len());
        }
    }
}

/// The chunks of a file give it back in whatever order they come, and however often. After
/// each one the list names those that have come, each once; so with chunks that come once
/// each, the transfer is complete at the last one and not before. Then the part file holds
/// the file, which passes the check of its digest.
pub proof fn law_chunks_in_any_order_give_the_file(
    file_id: Seq<char>,
    filename: Seq<char>,
    mime_type: Seq<char>,
    data: Seq<u8>,
    key: Seq<u8>,
    sealed: Seq<Vec<u8>>,
    order: Seq<u32>,
    kept: Seq<IncomingModel>,
)
    requires
        offer_refused(filename, data) is None,
        chunks_sealed(data, key, sealed),
        forall|k: int| 0 <= k < order.len() ==> #[trigger] order[k] < sealed.len(),
        kept.len() == order.len() + 1,
        kept[0].have.len() == 0,
        forall|k: int|
            #![trigger order[k]]
            0 <= k < order.len() ==> chunk_taken(
                offer_of(file_id, filename, mime_type, data, key),
                order[k],
                sealed[order[k] as int]@,
                kept[k],
                kept[k + 1],
            ),
    ensures
        have_wf(kept.last().have, sealed.len()),
        forall|i: u32| #[trigger] kept.last().have.contains(i) <==> order.contains(i),
        order.no_duplicates() ==> forall|k: int|
            0 <= k < kept.len() ==> (#[trigger] kept[k]).have.len() == k,
        kept.last().have.len() == sealed.len() && sealed.len() > 0 ==> {
            let offer = offer_of(file_id, filename, mime_type, data, key);
            &&& kept.last().part == Some(data)
            &&& data.len() == offer.size_bytes
            &&& hex(sha256(data)) == offer.sha256_hex
        },
{
    lemma_chunks_in_order(
        file_id,
        filename,
        mime_type,
        data,
        key,
        sealed,
        order,
        kept,
    );
    let last = kept.last();
    let size = CHUNK_BYTES as int;
    if last.have.len() == sealed.len() && sealed.len() > 0 {
        lemma_chunk_count(data.len() as int, size);
        lemma_all_indices(last.have, sealed.len());
        let part = last.part->0;
        assert forall|i: int| 0 <= i < data.len() implies i < part.len() && #[trigger] part[i]
            == data[i] by {
            lemma_chunk_with(data.len() as int, i, 0);
            assert(last.have.contains(chunk_with(i) as int as u32));
        }
        assert(part[data.len() - 1] == data[data.len() - 1]);
        assert(part =~= data);
    }
}

proof fn lemma_chunks_in_order(
    file_id: Seq<char>,
    filename: Seq<char>,
    mime_type: Seq<char>,
    data: Seq<u8>,
    key: Seq<u8>,
    sealed: Seq<Vec<u8>>,
    order: Seq<u32>,
    kept: Seq<IncomingModel>,
)
    requires
        offer_refused(filename, data) is None,
        chunks_sealed(data, key, sealed),
        forall|k: int| 0 <= k < order.len() ==> #[trigger] order[k] < sealed.len(),
        kept.len() == order.len() + 1,
        kept[0].have.len() == 0,
        forall|k: int|
            #![trigger order[k]]
            0 <= k < order.len() ==> chunk_taken(
                offer_of(file_id, filename, mime_type, data, key),
                order[k],
                sealed[order[k] as int]@,
                kept[k],
                kept[k + 1],
            ),
    ensures
        agrees(data, kept.last()),
        forall|i: u32| #[trigger] kept.last().have.contains(i) <==> order.contains(i),
        order.no_duplicates() ==> forall|k: int|
            0 <= k < kept.len() ==> (#[trigger] kept[k]).have.len() == k,
    decreases order.len(),
{
    if order.len() > 0 {
        let rest = order.drop_last();
        let n = rest.len() as int;
        let index = order[n];
        let before = kept.drop_last();
        assert forall|k: int| 0 <= k < rest.len() implies #[trigger] rest[k] < sealed.len() by {
            assert(rest[k] == order[k]);
        }
        assert forall|k: int|
            #![trigger rest[k]]
            0 <= k < rest.len() implies chunk_taken(
            offer_of(file_id, filename, mime_type, data, key),
            rest[k],
            sealed[rest[k] as int]@,
            before[k],
            before[k + 1],
        ) by {
            assert(rest[k] == order[k]);
        }
        lemma_chunks_in_order(file_id, filename, mime_type, data, key, sealed, rest, before);
        law_sealed_chunk_is_accepted(file_id, filename, mime_type, data, key, sealed, index);
        lemma_chunk_taken(
            offer_of(file_id, filename, mime_type, data, key),
            data,
            index,
            sealed[index as int]@,
            kept[n],
            kept[n + 1],
        );
        assert(order =~= rest.push(index));
        assert forall|i: u32| #[trigger] kept.last().have.contains(i) <==> order.contains(i) by {
            if i == index {
                assert(order[n] == index);
            }
            if rest.contains(i) {
                let k: int = choose|k: int| 0 <= k < rest.len() && rest[k] == i;
                assert(order[k] == i);
            }
            assert(before.last().have.contains(i) <==> rest.contains(i));
        }
        if order.no_duplicates() {
            assert(!rest.contains(index));
            assert(!before.last().have.contains(index));
            assert forall|k: int| 0 <= k < kept.len() implies (#[trigger] kept[k]).have.len()
                == k by {
                if k < before.len() {
                    assert(kept[k] == before[k]);
                }
            }
        }
    } else {
        assert forall|i: u32| !kept.last().have.contains(i) by {
        }
    }
}

} // verus!
