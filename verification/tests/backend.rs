use fb2_backend::codec::extract;
use fb2_backend::codec::pack;
use fb2_backend::errors::DocError;
use fb2_backend::router::classify;
use fb2_backend::router::entry_name;
use fb2_backend::router::resolve_read;
use fb2_backend::router::resolve_write;
use fb2_backend::router::supported;
use fb2_backend::router::PathKind;
use fb2_backend::startup::StartupPath;

fn le16_at(a: &[u8], i: usize) -> u16 {
    a[i] as u16 + 256 * (a[i + 1] as u16)
}

fn le32_at(a: &[u8], i: usize) -> u32 {
    a[i] as u32 + 256 * (a[i + 1] as u32) + 65536 * (a[i + 2] as u32)
        + 16777216 * (a[i + 3] as u32)
}

/// A bare end-of-central-directory record with the given entry count.
fn eocd_only(count: u16) -> Vec<u8> {
    let mut a = vec![0x50u8, 0x4B, 0x05, 0x06, 0, 0, 0, 0];
    a.extend_from_slice(&count.to_le_bytes());
    a.extend_from_slice(&count.to_le_bytes());
    a.extend_from_slice(&0u32.to_le_bytes());
    a.extend_from_slice(&0u32.to_le_bytes());
    a.extend_from_slice(&0u16.to_le_bytes());
    a
}

#[test]
fn classify_recognizes_each_suffix() {
    assert_eq!(classify(&b"book.fb2".to_vec()), PathKind::Fb2);
    assert_eq!(classify(&b"book.fbz".to_vec()), PathKind::Fbz);
    assert_eq!(classify(&b"book.fb2.zip".to_vec()), PathKind::Fb2Zip);
    assert_eq!(classify(&b"book.txt".to_vec()), PathKind::Unsupported);
    assert_eq!(classify(&b"book.FB2".to_vec()), PathKind::Unsupported);
    assert_eq!(classify(&b"book.zip".to_vec()), PathKind::Unsupported);
    assert_eq!(classify(&b"".to_vec()), PathKind::Unsupported);
    assert_eq!(classify(&b".fbz".to_vec()), PathKind::Fbz);
    assert!(supported(&b"a.fb2".to_vec()));
    assert!(!supported(&b"a.txt".to_vec()));
}

#[test]
fn raw_read_returns_stored_bytes_unchanged() {
    let stored = b"<FictionBook>...</FictionBook>".to_vec();
    let got = resolve_read(&b"/tmp/book.fb2".to_vec(), &stored).unwrap();
    assert_eq!(got, stored);
}

#[test]
fn unsupported_suffix_rejected_on_read_and_write() {
    let junk = b"whatever".to_vec();
    assert_eq!(
        resolve_read(&b"doc.txt".to_vec(), &junk),
        Err(DocError::UnsupportedFormat)
    );
    assert_eq!(
        resolve_write(&b"doc.txt".to_vec(), &junk),
        Err(DocError::UnsupportedFormat)
    );
    // The result does not depend on what is on disk.
    assert_eq!(
        resolve_read(&b"doc.txt".to_vec(), &Vec::new()),
        Err(DocError::UnsupportedFormat)
    );
}

#[test]
fn save_then_open_round_trips_all_three_forms() {
    let content = b"<p>Round and round it goes.</p>".to_vec();
    for path in [
        b"story.fb2".to_vec(),
        b"story.fbz".to_vec(),
        b"story.fb2.zip".to_vec(),
    ] {
        let stored = resolve_write(&path, &content).unwrap();
        let got = resolve_read(&path, &stored).unwrap();
        assert_eq!(got, content);
    }
}

#[test]
fn pack_then_extract_round_trips_large_content() {
    let mut content = Vec::new();
    for i in 0..50_000u32 {
        content.push((i % 251) as u8);
    }
    let archive = pack(&b"big.fb2".to_vec(), &content).unwrap();
    // DEFLATE actually ran: the regular payload shrinks.
    assert!(archive.len() < content.len());
    assert_eq!(extract(&archive).unwrap(), content);
}

#[test]
fn entry_name_forces_fb2_for_fbz_destination() {
    assert_eq!(entry_name(&b"doc.fbz".to_vec()), b"doc.fb2".to_vec());
    assert_eq!(entry_name(&b"/home/u/doc.fbz".to_vec()), b"doc.fb2".to_vec());
    assert_eq!(entry_name(&b"c:\\books\\doc.fbz".to_vec()), b"doc.fb2".to_vec());
    assert_eq!(entry_name(&b".fbz".to_vec()), b".fb2".to_vec());
}

#[test]
fn entry_name_drops_suffix_for_fb2_zip_destination() {
    assert_eq!(entry_name(&b"doc.fb2.zip".to_vec()), b"doc".to_vec());
    assert_eq!(entry_name(&b"/a/b/doc.fb2.zip".to_vec()), b"doc".to_vec());
}

#[test]
fn packed_archive_carries_the_entry_name() {
    // Destination doc.fbz: the single entry is named doc.fb2.
    let a = resolve_write(&b"doc.fbz".to_vec(), &b"X".to_vec()).unwrap();
    let nlen = le16_at(&a, 26) as usize;
    assert_eq!(nlen, 7);
    assert_eq!(&a[30..30 + nlen], b"doc.fb2");
    // Destination doc.fb2.zip: the single entry is named doc, no extension forced.
    let a = resolve_write(&b"doc.fb2.zip".to_vec(), &b"X".to_vec()).unwrap();
    let nlen = le16_at(&a, 26) as usize;
    assert_eq!(nlen, 3);
    assert_eq!(&a[30..30 + nlen], b"doc");
}

#[test]
fn packed_archive_has_zip_structure_and_checksum() {
    let content = b"a".to_vec();
    let a = pack(&b"doc.fb2".to_vec(), &content).unwrap();
    let dl = miniz_oxide::deflate::compress_to_vec(&content, 6).len();
    assert_eq!(a.len(), 98 + 2 * 7 + dl);
    // Local file header: signature, DEFLATE method, checksum, sizes, name.
    assert_eq!(&a[0..4], &[0x50, 0x4B, 0x03, 0x04]);
    assert_eq!(le16_at(&a, 8), 8);
    assert_eq!(le32_at(&a, 14), crc32fast::hash(b"a"));
    assert_eq!(le32_at(&a, 14), 0xE8B7_BE43);
    assert_eq!(le32_at(&a, 18), dl as u32);
    assert_eq!(le32_at(&a, 22), 1);
    // Central directory right after the data, end record last.
    let cd = 30 + 7 + dl;
    assert_eq!(&a[cd..cd + 4], &[0x50, 0x4B, 0x01, 0x02]);
    let ep = a.len() - 22;
    assert_eq!(&a[ep..ep + 4], &[0x50, 0x4B, 0x05, 0x06]);
    assert_eq!(le16_at(&a, ep + 10), 1);
    assert_eq!(le32_at(&a, ep + 12), 46 + 7);
    assert_eq!(le32_at(&a, ep + 16), cd as u32);
}

#[test]
fn empty_archive_is_rejected() {
    let a = eocd_only(0);
    assert_eq!(extract(&a), Err(DocError::ArchiveEmpty));
    assert_eq!(
        resolve_read(&b"x.fbz".to_vec(), &a),
        Err(DocError::ArchiveEmpty)
    );
}

#[test]
fn multi_entry_archive_is_rejected() {
    let a = eocd_only(2);
    assert_eq!(extract(&a), Err(DocError::ArchiveHasMultipleEntries));
    let a = eocd_only(3);
    assert_eq!(
        resolve_read(&b"x.fb2.zip".to_vec(), &a),
        Err(DocError::ArchiveHasMultipleEntries)
    );
}

#[test]
fn directory_entry_is_rejected() {
    let a = pack(&b"books/".to_vec(), &b"".to_vec()).unwrap();
    assert_eq!(extract(&a), Err(DocError::ArchiveEntryIsDirectory));
    let a = pack(&b"books\\".to_vec(), &b"".to_vec()).unwrap();
    assert_eq!(extract(&a), Err(DocError::ArchiveEntryIsDirectory));
}

#[test]
fn bytes_without_end_record_are_malformed() {
    assert_eq!(
        extract(&b"not a zip at all".to_vec()),
        Err(DocError::MalformedArchive)
    );
    assert_eq!(extract(&Vec::new()), Err(DocError::MalformedArchive));
    // A packed archive with its end record cut off.
    let mut a = pack(&b"doc.fb2".to_vec(), &b"hello".to_vec()).unwrap();
    a.truncate(a.len() - 22);
    assert_eq!(extract(&a), Err(DocError::MalformedArchive));
}

#[test]
fn error_messages_match_the_command_surface() {
    assert_eq!(
        DocError::UnsupportedFormat.message(),
        "unsupported file format."
    );
    assert_eq!(DocError::ArchiveEmpty.message(), "archive is empty.");
    assert_eq!(
        DocError::ArchiveHasMultipleEntries.message(),
        "archive contains more than one file."
    );
    assert_eq!(
        DocError::ArchiveEntryIsDirectory.message(),
        "archive contains a directory."
    );
    assert_eq!(DocError::MalformedArchive.message(), "archive is corrupt.");
    assert_eq!(
        DocError::TooLarge.message(),
        "document is too large to pack."
    );
}

#[test]
fn file_path_delivers_launch_argument_exactly_once() {
    let mut slot = StartupPath::new(Some(String::from("/tmp/book.fb2")));
    assert_eq!(slot.file_path(), "/tmp/book.fb2");
    assert_eq!(slot.file_path(), "");
    assert_eq!(slot.file_path(), "");
}

#[test]
fn file_path_without_launch_argument_is_always_empty() {
    let mut slot = StartupPath::new(None);
    assert_eq!(slot.file_path(), "");
    assert_eq!(slot.file_path(), "");
}

#[test]
fn empty_content_round_trips_through_an_archive() {
    let stored = resolve_write(&b"e.fbz".to_vec(), &Vec::new()).unwrap();
    assert_eq!(resolve_read(&b"e.fbz".to_vec(), &stored).unwrap(), Vec::<u8>::new());
}

#[test]
fn stored_entry_method_is_rejected() {
    // Only DEFLATE containers are in scope: patch the method fields to
    // "stored" and the codec must refuse the container.
    let mut a = pack(&b"doc.fb2".to_vec(), &b"x".to_vec()).unwrap();
    let cd = le32_at(&a, a.len() - 22 + 16) as usize;
    a[8] = 0;
    a[cd + 10] = 0;
    assert_eq!(extract(&a), Err(DocError::MalformedArchive));
}

#[test]
fn trailing_comment_does_not_hide_the_end_record() {
    let content = b"with comment".to_vec();
    let mut a = pack(&b"doc.fbz".to_vec(), &content).unwrap();
    let ep = a.len() - 22;
    a[ep + 20] = 5; // comment length
    a.extend_from_slice(b"hello");
    assert_eq!(extract(&a).unwrap(), content);
}
