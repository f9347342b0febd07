use hearth::error::Error;
use hearth::files::{
    apply_chunk, check_assembled, download_path, join_path, missing_chunks, part_path,
    prepare_offer, prepare_offer_with, sanitize_filename, seal_chunk, sidecar_path, CHUNK_BYTES, MAX_FILE_BYTES,
};

#[test]
fn offer_chunk_receive_roundtrip() {
    let data = b"roblox replacement chat file payload".repeat(5000);
    let (offer, sealed) = prepare_offer("f1", "notes.txt", "text/plain", &data).unwrap();
    assert!(sealed.len() > 1);
    let mut part: Vec<u8> = vec![];
    let mut have: Vec<u32> = vec![];
    let mut last = None;
    for (index, blob) in sealed.iter().enumerate() {
        let write = apply_chunk(&offer, index as u32, blob, &have, index > 0).unwrap();
        assert!(!write.restart);
        let end = write.offset as usize + write.chunk.len();
        if part.len() < end {
            part.resize(end, 0);
        }
        part[write.offset as usize..end].copy_from_slice(&write.chunk);
        have = write.have;
        last = Some(write.progress);
    }
    let progress = last.unwrap();
    assert!(progress.complete);
    assert_eq!(progress.received_chunks, progress.total_chunks);
    let received = check_assembled(&offer, &part).unwrap();
    assert_eq!(received, data);
    assert!(missing_chunks(&offer, &have).is_empty());
}

#[test]
fn tampered_chunk_is_rejected() {
    let (offer, sealed) = prepare_offer("f2", "a.bin", "", b"0123456789").unwrap();
    let mut bad = sealed[0].clone();
    let last = bad.len() - 1;
    bad[last] ^= 0xFF;
    assert!(apply_chunk(&offer, 0, &bad, &vec![], false).is_err());
    assert!(missing_chunks(&offer, &vec![]).contains(&0));
}

#[test]
fn oversize_file_refused() {
    let big = vec![0u8; (MAX_FILE_BYTES + 1) as usize];
    assert!(prepare_offer("f3", "big.bin", "", &big).is_err());
    assert!(matches!(prepare_offer("f3", "big.bin", "", &big), Err(Error::FileTooLarge)));
}

#[test]
fn chunks_are_refused_with_a_reason() {
    let (offer, sealed) = prepare_offer("f", "a.bin", "", &vec![7u8; CHUNK_BYTES + 1]).unwrap();
    assert_eq!(offer.size_bytes, CHUNK_BYTES as u64 + 1);
    assert_eq!(sealed.len(), 2);
    assert!(matches!(
        apply_chunk(&offer, 2, &sealed[0], &vec![], false),
        Err(Error::ChunkIndex)
    ));
    assert!(matches!(
        apply_chunk(&offer, 0, &sealed[1], &vec![], false),
        Err(Error::ChunkAuthentication)
    ));
    let other = seal_chunk(&offer.file_key, 1, b"other").unwrap();
    assert!(matches!(
        apply_chunk(&offer, 1, &other, &vec![], false),
        Err(Error::ChunkDigest(1))
    ));
    let write = apply_chunk(&offer, 1, &sealed[1], &vec![], true).unwrap();
    assert_eq!(write.offset, CHUNK_BYTES as u64);
    assert_eq!(write.have, vec![1]);
    // A part file without a list of what it holds is stale.
    assert!(write.restart);
    assert!(!write.progress.complete);
    assert_eq!(missing_chunks(&offer, &write.have), vec![0]);
    assert!(matches!(check_assembled(&offer, b"short"), Err(Error::FileDigest)));
}

#[test]
fn file_names_stay_inside() {
    assert_eq!(sanitize_filename("../../etc/passwd"), "passwd");
    assert_eq!(sanitize_filename("a/b\\c\0d"), "bcd");
    assert_eq!(sanitize_filename(".."), "file");
    assert_eq!(sanitize_filename(""), "file");
    assert_eq!(sanitize_filename("notes.txt"), "notes.txt");
    assert!(matches!(prepare_offer("f", "", "", b"x"), Err(Error::BadFilename)));
    assert_eq!(join_path("dir", "a"), "dir/a");
    assert_eq!(part_path("dir", "f1"), "dir/f1.part");
    assert_ne!(part_path("dir", "f1"), sidecar_path("dir", "f1"));
    assert_eq!(download_path("dir", "a.txt", 0), "dir/a.txt");
    assert_eq!(download_path("dir", "a.txt", 1), "dir/a (1).txt");
    assert_eq!(download_path("dir", "a.txt", 12), "dir/a (12).txt");
    assert_eq!(download_path("dir", "noext", 2), "dir/noext (2)");
    assert_eq!(download_path("dir", ".hidden", 1), "dir/.hidden (1)");
}

/// The base name that the standard library finds, without separators and NUL.
fn expected_name(name: &str) -> String {
    let base = std::path::Path::new(name).file_name().and_then(|n| n.to_str()).unwrap_or("file");
    let clean: String =
        base.chars().filter(|c| !matches!(c, '/' | '\\' | '\0')).take(255).collect();
    if clean.is_empty() {
        "file".to_string()
    } else {
        clean
    }
}

/// All texts of up to five of these characters.
fn short_texts() -> Vec<String> {
    let mut all = vec![String::new()];
    let mut last = vec![String::new()];
    for _ in 0..5 {
        let mut next = vec![];
        for text in &last {
            for c in ['/', '.', 'a', '\\', ' '] {
                next.push(format!("{text}{c}"));
            }
        }
        all.extend(next.clone());
        last = next;
    }
    all
}

#[test]
fn names_agree_with_paths() {
    for text in short_texts() {
        assert_eq!(sanitize_filename(&text), expected_name(&text), "{text:?}");
    }
    let long = "é".repeat(300);
    assert_eq!(sanitize_filename(&long), expected_name(&long));
}

#[test]
fn places_agree_with_paths() {
    for text in short_texts() {
        let dir = std::path::Path::new("files");
        let dest = dir.join(&text);
        assert_eq!(join_path("files", &text), dest.to_str().unwrap(), "{text:?}");
        assert_eq!(download_path("files", &text, 0), dest.to_str().unwrap(), "{text:?}");
        let stem = dest.file_stem().and_then(|s| s.to_str()).unwrap_or("file");
        let ext = dest.extension().and_then(|e| e.to_str()).unwrap_or("");
        let numbered = if ext.is_empty() {
            dir.join(format!("{stem} (3)"))
        } else {
            dir.join(format!("{stem} (3).{ext}"))
        };
        assert_eq!(download_path("files", &text, 3), numbered.to_str().unwrap(), "{text:?}");
    }
}

#[test]
fn offers_are_a_function_of_their_key() {
    let (offer, sealed) = prepare_offer_with("f", " a.bin ", "", b"data", [4u8; 32]).unwrap();
    assert_eq!(offer.filename, " a.bin ");
    assert_eq!(offer.mime_type, "application/octet-stream");
    assert_eq!(offer.file_key, [4u8; 32]);
    assert_eq!(sealed, vec![seal_chunk(&[4u8; 32], 0, b"data").unwrap()]);
    assert_eq!(offer.manifest.chunk_hashes[0], offer.sha256_hex);
    assert!(matches!(
        prepare_offer_with("f", &"x".repeat(256), "", b"", [0u8; 32]),
        Err(Error::BadFilename)
    ));
    let (empty, chunks) = prepare_offer_with("f", "e", "", b"", [0u8; 32]).unwrap();
    assert_eq!((empty.size_bytes, chunks.len()), (0, 0));
}

#[test]
fn chunks_in_any_order_give_the_file() {
    let data: Vec<u8> = (0..3 * CHUNK_BYTES + 17).map(|i| (i % 251) as u8).collect();
    let (offer, sealed) = prepare_offer("f9", "any.bin", "", &data).unwrap();
    assert_eq!(sealed.len(), 4);
    // What an earlier transfer left behind is longer than the file.
    let mut part: Vec<u8> = vec![7; 4 * CHUNK_BYTES];
    let mut have: Vec<u32> = vec![];
    for (k, index) in [3usize, 1, 0, 2].into_iter().enumerate() {
        let write = apply_chunk(&offer, index as u32, &sealed[index], &have, true).unwrap();
        assert_eq!(write.restart, k == 0);
        if write.restart {
            part.clear();
        }
        let end = write.offset as usize + write.chunk.len();
        if part.len() < end {
            part.resize(end, 0);
        }
        part[write.offset as usize..end].copy_from_slice(&write.chunk);
        have = write.have;
        assert_eq!(write.progress.received_chunks, k + 1);
        assert_eq!(write.progress.total_chunks, 4);
        assert_eq!(write.progress.complete, k == 3);
    }
    assert_eq!(part, data);
    assert_eq!(check_assembled(&offer, &part).unwrap(), data);
    // One that comes again changes nothing.
    let again = apply_chunk(&offer, 1, &sealed[1], &have, true).unwrap();
    assert!(!again.have_changed && !again.restart);
    assert_eq!(again.have, vec![0, 1, 2, 3]);
}
