use std::io::Read;

use file_transfer::archive::{build_archive, entry_name, fits_in_zip, prepare_entry, PreparedEntry};
use file_transfer::error::CoreError;
use file_transfer::zip::zip_bytes;

fn u16_at(b: &[u8], at: usize) -> usize {
    b[at] as usize | (b[at + 1] as usize) << 8
}

fn u32_at(b: &[u8], at: usize) -> usize {
    u16_at(b, at) | u16_at(b, at + 2) << 16
}

/// Reads an archive the way an unzip tool does: end record, central
/// directory, then each local record; returns (name, contents, crc) triples.
fn read_zip(b: &[u8]) -> Vec<(String, Vec<u8>, u32)> {
    let e = b.len() - 22;
    assert_eq!(u32_at(b, e), 0x0605_4b50);
    let count = u16_at(b, e + 10);
    let cd_size = u32_at(b, e + 12);
    let cd_start = u32_at(b, e + 16);
    assert_eq!(cd_start + cd_size, e);
    let mut out = Vec::new();
    let mut pos = cd_start;
    for _ in 0..count {
        assert_eq!(u32_at(b, pos), 0x0201_4b50);
        assert_eq!(u16_at(b, pos + 8), 0x0800);
        assert_eq!(u16_at(b, pos + 10), 8);
        let crc = u32_at(b, pos + 16) as u32;
        let csize = u32_at(b, pos + 20);
        let usize_ = u32_at(b, pos + 24);
        let nlen = u16_at(b, pos + 28);
        let off = u32_at(b, pos + 42);
        let name = String::from_utf8(b[pos + 46..pos + 46 + nlen].to_vec()).unwrap();
        assert_eq!(u32_at(b, off), 0x0403_4b50);
        assert_eq!(u32_at(b, off + 14) as u32, crc);
        let start = off + 30 + u16_at(b, off + 26) + u16_at(b, off + 28);
        let mut data = Vec::new();
        flate2::read::DeflateDecoder::new(&b[start..start + csize]).read_to_end(&mut data).unwrap();
        assert_eq!(data.len(), usize_);
        out.push((name, data, crc));
        pos += 46 + nlen + u16_at(b, pos + 30) + u16_at(b, pos + 32);
    }
    out
}

#[test]
fn archives_and_is_unzippable() {
    let src = "/tmp/ft_test/data";
    let a = prepare_entry(src, "/tmp/ft_test/data/a.txt", b"hello world hello world".to_vec(), 6)
        .unwrap();
    let b = prepare_entry(src, "/tmp/ft_test/data/sub/b.txt", b"second file contents".to_vec(), 6)
        .unwrap();
    let entries = vec![a, b];
    let bytes = build_archive(&entries).unwrap();
    assert_eq!(entries.len(), 2);
    assert!(bytes.len() > 0);
    let files = read_zip(&bytes);
    assert_eq!(files.len(), 2);
    assert_eq!(files[0].0, "data/a.txt");
    assert_eq!(files[0].1, b"hello world hello world");
    assert_eq!(files[1].0, "data/sub/b.txt");
    assert_eq!(files[1].1, b"second file contents");
}

#[test]
fn archive_opens_with_system_unzip_and_roundtrips() {
    let src = "/tmp/ft_it/данные";
    let one = prepare_entry(src, "/tmp/ft_it/данные/привет.txt", b"file content one".to_vec(), 6)
        .unwrap();
    let two = prepare_entry(src, "/tmp/ft_it/данные/вложенная/file two.bin", vec![7u8; 5000], 6)
        .unwrap();
    let entries = vec![one, two];
    let bytes = build_archive(&entries).unwrap();
    let files = read_zip(&bytes);
    assert_eq!(files.len(), 2, "two files should be packed");
    assert_eq!(files[0].0, "данные/привет.txt");
    assert_eq!(files[0].1, b"file content one");
    assert_eq!(files[1].0, "данные/вложенная/file two.bin");
    assert_eq!(files[1].1, vec![7u8; 5000]);
}

#[test]
fn entry_names_use_root_folder_and_forward_slashes() {
    assert_eq!(entry_name("/tmp/data", "/tmp/data/sub/b.txt"), "data/sub/b.txt");
    assert_eq!(entry_name("/tmp/data/", "/tmp/data/a.txt"), "data/a.txt");
    assert_eq!(entry_name("/", "/a.txt"), "root/a.txt");
    assert_eq!(entry_name("/tmp/data", "/other/x.txt"), "data//other/x.txt");
    assert_eq!(entry_name("/tmp/data", "/tmp/data/dir\\file.txt"), "data/dir/file.txt");
}

#[test]
fn prepared_entry_records_crc_size_and_deflate_stream() {
    let data = b"123456789".to_vec();
    let e = prepare_entry("/s", "/s/digits", data.clone(), 6).unwrap();
    assert_eq!(e.name, "s/digits");
    assert_eq!(e.crc32, 0xCBF4_3926);
    assert_eq!(e.uncompressed_size, 9);
    let mut back = Vec::new();
    flate2::read::DeflateDecoder::new(&e.compressed[..]).read_to_end(&mut back).unwrap();
    assert_eq!(back, data);

    let big = vec![b'a'; 100_000];
    let e = prepare_entry("/s", "/s/big", big.clone(), 9).unwrap();
    assert!(e.compressed.len() < 1000);
    assert_ne!(e.compressed, big);
    let stored = prepare_entry("/s", "/s/big", big.clone(), 0).unwrap();
    assert!(stored.compressed.len() > big.len());
}

#[test]
fn empty_archive_is_only_the_end_record() {
    let bytes = zip_bytes(&Vec::new());
    assert_eq!(bytes, vec![0x50, 0x4b, 0x05, 0x06, 0, 0, 0, 0, 0, 0, 0, 0, 0, 0, 0, 0, 0, 0, 0, 0, 0, 0]);
}

#[test]
fn exact_layout_of_one_entry() {
    let e = PreparedEntry {
        name: "d/x".into(),
        compressed: vec![1, 2, 3],
        crc32: 0x0403_0201,
        uncompressed_size: 0x10,
    };
    let bytes = zip_bytes(&vec![e]);
    let local: Vec<u8> = vec![
        0x50, 0x4b, 0x03, 0x04, 20, 0, 0x00, 0x08, 8, 0, 0, 0, 0x21, 0, 1, 2, 3, 4, 3, 0, 0, 0,
        0x10, 0, 0, 0, 3, 0, 0, 0, b'd', b'/', b'x', 1, 2, 3,
    ];
    assert_eq!(&bytes[..local.len()], &local[..]);
    let central_start = local.len();
    assert_eq!(&bytes[central_start..central_start + 4], &[0x50, 0x4b, 0x01, 0x02]);
    // offset of the local header
    assert_eq!(&bytes[central_start + 42..central_start + 46], &[0, 0, 0, 0]);
    assert_eq!(&bytes[central_start + 46..central_start + 49], b"d/x");
    let e = bytes.len() - 22;
    assert_eq!(e, central_start + 49);
    assert_eq!(bytes[e + 10], 1);
    assert_eq!(bytes[e + 12], 49);
    assert_eq!(bytes[e + 16], local.len() as u8);
}

#[test]
fn too_many_entries_do_not_fit() {
    let mut entries = Vec::new();
    for _ in 0..65536 {
        entries.push(PreparedEntry {
            name: String::new(),
            compressed: Vec::new(),
            crc32: 0,
            uncompressed_size: 0,
        });
    }
    assert!(!fits_in_zip(&entries));
    assert!(matches!(build_archive(&entries), Err(CoreError::TooLarge)));
    entries.pop();
    assert!(fits_in_zip(&entries));
    assert!(build_archive(&entries).is_ok());
}

#[test]
fn long_names_do_not_fit() {
    let e = PreparedEntry {
        name: "n".repeat(65536),
        compressed: Vec::new(),
        crc32: 0,
        uncompressed_size: 0,
    };
    assert!(matches!(build_archive(&vec![e]), Err(CoreError::TooLarge)));
}

#[test]
fn one_byte_file_is_prepared() {
    let e = prepare_entry("/s", "/s/one", vec![b'x'], 6).unwrap();
    assert_eq!(e.name, "s/one");
    assert_eq!(e.uncompressed_size, 1);
    assert_eq!(e.crc32, 0x8CDC_1683);
    let mut back = Vec::new();
    flate2::read::DeflateDecoder::new(&e.compressed[..]).read_to_end(&mut back).unwrap();
    assert_eq!(back, b"x".to_vec());
}
