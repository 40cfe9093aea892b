use toslib::cipher;
use toslib::errors::TosError;
use toslib::ipf::IPFFile;
use toslib::stream::{BinaryReader, SeekFrom};
use std::io::Write;

fn le16(v: &mut Vec<u8>, x: u16) {
    v.extend_from_slice(&x.to_le_bytes());
}

fn le32(v: &mut Vec<u8>, x: u32) {
    v.extend_from_slice(&x.to_le_bytes());
}

/// Builds an archive: one payload region, then the entry table, then
/// the 24-byte trailer.
fn build_archive(entries: &[(&[u8], &[u8], &[u8], u32)], magic: u32) -> Vec<u8> {
    // entries: (container_name, path_name, stored_payload, uncompressed_size)
    let mut data = Vec::new();
    let mut offsets = Vec::new();
    for (_, _, payload, _) in entries {
        offsets.push(data.len() as u32);
        data.extend_from_slice(payload);
    }
    let table_offset = data.len() as u32;
    for (i, (container, path, payload, uncompressed)) in entries.iter().enumerate() {
        le16(&mut data, path.len() as u16);
        le32(&mut data, 0xDEADBEEF); // crc32 field, carried verbatim
        le32(&mut data, payload.len() as u32);
        le32(&mut data, *uncompressed);
        le32(&mut data, offsets[i]);
        le16(&mut data, container.len() as u16);
        data.extend_from_slice(container);
        data.extend_from_slice(path);
    }
    le16(&mut data, entries.len() as u16);
    le32(&mut data, table_offset);
    le16(&mut data, 0); // padding
    le32(&mut data, 0); // footer pointer
    le32(&mut data, magic);
    le32(&mut data, 1); // version to patch
    le32(&mut data, 2); // new version
    data
}

fn raw_deflate(plain: &[u8]) -> Vec<u8> {
    let mut enc = flate2::write::DeflateEncoder::new(Vec::new(), flate2::Compression::default());
    enc.write_all(plain).unwrap();
    enc.finish().unwrap()
}

#[test]
fn it_works() {
    let result = toslib::add(2, 2);
    assert_eq!(result, 4);
}

#[test]
fn archive_footer_and_table_decode() {
    let bytes = build_archive(
        &[(b"inner.ipf", b"dir/file.xml", b"abcdef", 99)],
        0x6054B50,
    );
    let mut reader = BinaryReader::new(bytes);
    let ipf = IPFFile::load_from_reader(&mut reader).unwrap();
    assert_eq!(ipf.footer().file_count(), 1);
    assert_eq!(ipf.footer().magic(), 0x6054B50);
    assert_eq!(ipf.footer().version_to_patch(), 1);
    assert_eq!(ipf.footer().new_version(), 2);
    assert_eq!(ipf.footer().footer_pointer(), 0);
    let table = ipf.file_table();
    assert_eq!(table.len(), 1);
    let e = &table[0];
    assert_eq!(e.crc32(), 0xDEADBEEF);
    assert_eq!(e.file_size_compressed(), 6);
    assert_eq!(e.file_size_uncompressed(), 99);
    assert_eq!(e.file_pointer(), 0);
    assert_eq!(e.container_name_length(), 9);
    assert_eq!(e.directory_name_length(), 12);
    assert_eq!(e.container_name(), "inner.ipf");
    assert_eq!(e.directory_name(), "dir/file.xml");
}

#[test]
fn archive_bad_magic_rejected() {
    let bytes = build_archive(&[(b"a", b"b", b"xy", 2)], 0x12345678);
    let mut reader = BinaryReader::new(bytes);
    match IPFFile::load_from_reader(&mut reader) {
        Err(TosError::BadMagic) => {},
        other => panic!("expected BadMagic, got {:?}", other.is_ok()),
    }
}

#[test]
fn archive_shorter_than_trailer() {
    let mut reader = BinaryReader::new(vec![0u8; 23]);
    match IPFFile::load_from_reader(&mut reader) {
        Err(TosError::IoError) => {},
        _ => panic!("expected IoError"),
    }
}

#[test]
fn archive_truncated_table() {
    // valid trailer but table pointer past the data: entry reads fail
    let mut data = Vec::new();
    le16(&mut data, 1); // one entry claimed
    le32(&mut data, 9999); // table offset out of range
    le16(&mut data, 0);
    le32(&mut data, 0);
    le32(&mut data, 0x6054B50);
    le32(&mut data, 0);
    le32(&mut data, 0);
    let mut reader = BinaryReader::new(data);
    match IPFFile::load_from_reader(&mut reader) {
        Err(TosError::IoError) => {},
        _ => panic!("expected IoError"),
    }
}

#[test]
fn cipher_round_trip() {
    let plain: Vec<u8> = (0u16..300).map(|i| (i * 7 % 251) as u8).collect();
    let mut buf = plain.clone();
    cipher::encrypt_bytes(&mut buf);
    assert_ne!(buf, plain);
    cipher::decrypt_bytes(&mut buf);
    assert_eq!(buf, plain);
}

#[test]
fn cipher_known_keystream() {
    // decrypting zero bytes exposes the keystream on even positions
    let mut buf = vec![0u8; 8];
    cipher::decrypt_bytes(&mut buf);
    assert_eq!(buf, vec![126, 0, 43, 0, 64, 0, 108, 0]);
}

#[test]
fn cipher_leaves_odd_bytes_alone() {
    let plain: Vec<u8> = (0u8..37).collect();
    let mut buf = plain.clone();
    cipher::encrypt_bytes(&mut buf);
    for i in (1..buf.len()).step_by(2) {
        assert_eq!(buf[i], plain[i]);
    }
    // and at least one even byte moved
    assert_ne!(buf[0], plain[0]);
}

#[test]
fn extract_reproduces_plaintext() {
    let plain = b"Hello, archive entry plaintext! The quick brown fox jumps over it.";
    let compressed = raw_deflate(plain);
    let mut stored = compressed.clone();
    cipher::encrypt_bytes(&mut stored);
    let bytes = build_archive(
        &[(b"c.ipf", b"a.txt", &stored, plain.len() as u32)],
        0x6054B50,
    );
    let mut reader = BinaryReader::new(bytes);
    let ipf = IPFFile::load_from_reader(&mut reader).unwrap();
    let out = ipf.file_table()[0].extract(&mut reader).unwrap();
    assert_eq!(out, plain.to_vec());
}

#[test]
fn extract_garbage_fails_decompress() {
    // a deflate block with reserved type 11: always invalid
    let mut stored = vec![0x07u8, 0x00, 0x00, 0x00, 0x00];
    cipher::encrypt_bytes(&mut stored);
    let bytes = build_archive(&[(b"c", b"p", &stored, 64)], 0x6054B50);
    let mut reader = BinaryReader::new(bytes);
    let ipf = IPFFile::load_from_reader(&mut reader).unwrap();
    match ipf.file_table()[0].extract(&mut reader) {
        Err(TosError::DecompressFailed) => {},
        _ => panic!("expected DecompressFailed"),
    }
}

#[test]
fn extract_out_of_range_payload() {
    // entry whose payload range runs past the end of the data
    let mut data = Vec::new();
    // table at offset 0
    le16(&mut data, 1); // path len
    le32(&mut data, 0);
    le32(&mut data, 500); // compressed size, too large
    le32(&mut data, 10);
    le32(&mut data, 0); // file pointer
    le16(&mut data, 1); // container len
    data.push(b'c');
    data.push(b'p');
    le16(&mut data, 1);
    le32(&mut data, 0); // table at 0
    le16(&mut data, 0);
    le32(&mut data, 0);
    le32(&mut data, 0x6054B50);
    le32(&mut data, 0);
    le32(&mut data, 0);
    let mut reader = BinaryReader::new(data);
    let ipf = IPFFile::load_from_reader(&mut reader).unwrap();
    match ipf.file_table()[0].extract(&mut reader) {
        Err(TosError::IoError) => {},
        _ => panic!("expected IoError"),
    }
}

#[test]
fn reader_primitives() {
    let mut r = BinaryReader::new(vec![0x01, 0x02, 0x03, 0x04, 0xFF, 0xFF, 0xFF, 0xFF]);
    assert_eq!(r.read_u16().unwrap(), 0x0201);
    assert_eq!(r.tell(), 2);
    assert_eq!(r.read_u8().unwrap(), 0x03);
    r.seek(SeekFrom::Start(0)).unwrap();
    assert_eq!(r.read_u32().unwrap(), 0x04030201);
    assert_eq!(r.read_i32().unwrap(), -1);
    assert!(r.is_eof());
    assert!(r.read_u8().is_err());
    r.seek(SeekFrom::End(-2)).unwrap();
    assert_eq!(r.tell(), 6);
    r.skip_bytes(-1).unwrap();
    assert_eq!(r.tell(), 5);
    assert_eq!(r.file_size(), 8);
    let bytes = {
        r.seek(SeekFrom::Start(1)).unwrap();
        r.read_bytes(3).unwrap()
    };
    assert_eq!(bytes, vec![0x02, 0x03, 0x04]);
}

#[test]
fn seek_past_end_keeps_target() {
    // a seek past the end succeeds and the position is the resolved
    // target, not the buffer end; reads there fail, the position stays
    let mut r = BinaryReader::new(vec![1u8, 2, 3, 4]);
    r.seek(SeekFrom::Start(100)).unwrap();
    assert_eq!(r.tell(), 100);
    assert!(r.is_eof());
    assert!(r.read_u8().is_err());
    assert_eq!(r.tell(), 100);
    r.seek(SeekFrom::Current(5)).unwrap();
    assert_eq!(r.tell(), 105);
    r.seek(SeekFrom::End(2)).unwrap();
    assert_eq!(r.tell(), 6);
    // a read of no bytes succeeds even out there
    assert_eq!(r.read_bytes(0).unwrap(), Vec::<u8>::new());
    // a negative resolved target fails and moves nothing
    assert!(r.seek(SeekFrom::End(-100)).is_err());
    assert_eq!(r.tell(), 6);
}

#[test]
fn parse_string_stops_at_nul() {
    let s = BinaryReader::parse_string(&[b'h', b'i', 0, b'x']);
    assert_eq!(s, "hi");
    let s2 = BinaryReader::parse_string(&[b'a', b'b']);
    assert_eq!(s2, "ab");
    assert_eq!(BinaryReader::parse_string(&[]), "");
    assert_eq!(BinaryReader::parse_string(&[0, b'x']), "");
}

#[test]
fn lossy_name_decoding() {
    // an invalid UTF-8 byte becomes the replacement character
    let bytes = build_archive(&[(&[b'a', 0xFF, b'b'], b"p", b"xy", 2)], 0x6054B50);
    let mut reader = BinaryReader::new(bytes);
    let ipf = IPFFile::load_from_reader(&mut reader).unwrap();
    assert_eq!(ipf.file_table()[0].container_name(), "a\u{FFFD}b");
}
