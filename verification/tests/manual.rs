use contentin::errors::Cause;
use contentin::meta::{FileEntry, ItemType, Meta};
use contentin::record::read_entry;
use contentin::tee::{BufReaderTee, Cursor};
use contentin::unpacker::{Emitted, Options, Unpacker};

use std::io::Write;

#[derive(Debug)]
pub struct TestEntry {
    pub crc: u32,
    pub entry: FileEntry,
}

fn crc32c(data: &[u8]) -> u32 {
    crc::Crc::<u32>::new(&crc::CRC_32_ISCSI).checksum(data)
}

fn run(name: &str, content: Vec<u8>, options: &Options) -> (Vec<Emitted>, Result<(), Cause>) {
    let mut out = Vec::new();
    let walks = Vec::new();
    let unpacker = Unpacker::at_top(name, Meta::blank(), options, &walks);
    let done = unpacker.unpack(BufReaderTee::new(Cursor::new(content)), &mut out);
    (out, done)
}

pub fn entries(name: &str, content: Vec<u8>) -> Result<Vec<TestEntry>, Cause> {
    let options = Options { content_output: true, max_depth: 256, verbose: 1 };
    let (out, done) = run(name, content, &options);
    done?;

    let mut res = Vec::new();
    for emitted in &out {
        let entry = read_entry(Some(&emitted.record)).unwrap().unwrap();
        assert!(entry.content_follows);
        assert_eq!(entry.len, emitted.payload.len() as u64);
        res.push(TestEntry { crc: crc32c(&emitted.payload), entry });
    }

    res.sort_by(|left, right| {
        let left = &left.entry.paths;
        let right = &right.entry.paths;
        left.len().cmp(&right.len()).then_with(|| left.cmp(right))
    });

    Ok(res)
}

fn tar_of(members: &[(&str, Option<&[u8]>)], finished: bool) -> Vec<u8> {
    let mut builder = tar::Builder::new(Vec::new());
    for (path, content) in members {
        let mut header = tar::Header::new_gnu();
        header.set_path(path).unwrap();
        header.set_uid(1000);
        header.set_gid(100);
        header.set_mtime(1_500_000_000);
        match content {
            Some(content) => {
                header.set_entry_type(tar::EntryType::Regular);
                header.set_mode(0o644);
                header.set_size(content.len() as u64);
                header.set_cksum();
                builder.append(&header, *content).unwrap();
            }
            None => {
                header.set_entry_type(tar::EntryType::Directory);
                header.set_mode(0o755);
                header.set_size(0);
                header.set_cksum();
                builder.append(&header, &[][..]).unwrap();
            }
        }
    }
    let all = builder.into_inner().unwrap();
    if finished {
        all
    } else {
        // no end-of-archive blocks: whoever reads the members runs into the end of the stream
        all[..all.len() - 1024].to_vec()
    }
}

fn simple_tar_bytes() -> Vec<u8> {
    tar_of(
        &[
            ("a/", None),
            ("a/b/", None),
            ("a/b/c/", None),
            ("a/bar", Some(b"123456789")),
            ("foo", Some(b"123456789")),
        ],
        true,
    )
}

fn gz_of(data: &[u8]) -> Vec<u8> {
    let mut encoder = libflate::gzip::Encoder::new(Vec::new()).unwrap();
    encoder.write_all(data).unwrap();
    encoder.finish().into_result().unwrap()
}

fn stored_gz_of(data: &[u8]) -> Vec<u8> {
    let options = libflate::gzip::EncodeOptions::new().no_compression();
    let mut encoder = libflate::gzip::Encoder::with_options(Vec::new(), options).unwrap();
    encoder.write_all(data).unwrap();
    encoder.finish().into_result().unwrap()
}

fn bz2_of(data: &[u8]) -> Vec<u8> {
    let mut encoder = bzip2::write::BzEncoder::new(Vec::new(), bzip2::Compression::default());
    encoder.write_all(data).unwrap();
    encoder.finish().unwrap()
}

fn xz_of(data: &[u8]) -> Vec<u8> {
    let mut encoder = xz2::write::XzEncoder::new(Vec::new(), 6);
    encoder.write_all(data).unwrap();
    encoder.finish().unwrap()
}

fn zip_of(members: &[(&str, Option<&[u8]>)]) -> Vec<u8> {
    let mut writer = zip::ZipWriter::new(std::io::Cursor::new(Vec::new()));
    let options =
        zip::write::FileOptions::default().compression_method(zip::CompressionMethod::Stored);
    for (path, content) in members {
        match content {
            Some(content) => {
                writer.start_file(*path, options).unwrap();
                writer.write_all(content).unwrap();
            }
            None => {
                writer.add_directory(*path, options).unwrap();
            }
        }
    }
    writer.finish().unwrap().into_inner()
}

fn position_of(haystack: &[u8], needle: &[u8]) -> usize {
    haystack.windows(needle.len()).position(|window| window == needle).unwrap()
}

fn last_position_of(haystack: &[u8], needle: &[u8]) -> usize {
    haystack.windows(needle.len()).rposition(|window| window == needle).unwrap()
}

const GOOD: &[u8] = b"the first file is left alone\n";
const BAD: &[u8] = b"the second file gets a byte flipped\n";

fn flipped_bad() -> Vec<u8> {
    let mut bad = BAD.to_vec();
    bad[4] ^= 0x20;
    bad
}

fn byte_flip_tar_bytes(finished: bool) -> Vec<u8> {
    let mut all = tar_of(&[("good", Some(GOOD)), ("bad", Some(BAD))], finished);
    let at = position_of(&all, BAD);
    all[at + 4] ^= 0x20;
    all
}

struct SimpleTest {
    paths: &'static [&'static str],
    normal_file: bool,
    crc: u32,
    len: u64,
}

const SIMPLE_EXPECTATIONS: &[SimpleTest] = &[
    SimpleTest { paths: &["a/"], normal_file: false, crc: 0, len: 0 },
    SimpleTest { paths: &["a/b/"], normal_file: false, crc: 0, len: 0 },
    SimpleTest { paths: &["a/b/c/"], normal_file: false, crc: 0, len: 0 },
    SimpleTest { paths: &["a/bar"], normal_file: true, crc: 0xe3069283, len: 9 },
    SimpleTest { paths: &["foo"], normal_file: true, crc: 0xe3069283, len: 9 },
];

fn dump(actual: &[TestEntry]) {
    for item in actual {
        println!(
            "{:?} {} {} {:?}",
            item.entry.meta.item_type, item.entry.len, item.crc, item.entry.paths
        );
    }
}

fn check_simple(path: &str, content: Vec<u8>, extra_path_component: Option<&str>) {
    let res = entries(path, content).unwrap();
    if res.len() != SIMPLE_EXPECTATIONS.len() {
        dump(&res);
        panic!(
            "wrong number of entries: {} should be {}",
            res.len(),
            SIMPLE_EXPECTATIONS.len()
        );
    }

    for i in 0..SIMPLE_EXPECTATIONS.len() {
        let exp = &SIMPLE_EXPECTATIONS[i];
        let act = &res[i];
        let mut exp_paths = exp
            .paths
            .iter()
            .map(|x| x.to_string())
            .collect::<Vec<String>>();
        if let Some(component) = extra_path_component {
            exp_paths.push(component.to_string());
        }
        exp_paths.push(path.to_string());
        assert_eq!(exp_paths, act.entry.paths);
        assert_eq!(
            exp.normal_file,
            ItemType::RegularFile == act.entry.meta.item_type
        );
        assert_eq!(exp.crc, act.crc, "{:08x} != {:08x}", exp.crc, act.crc);
        assert_eq!(exp.len, act.entry.len);
    }
}

fn round_trips(test_path: &str, content: Vec<u8>) {
    let expected = crc32c(&content);
    let entries = entries(test_path, content).unwrap();
    assert_eq!(1, entries.len());
    assert_eq!(1, entries[0].entry.paths.len());
    assert_eq!(test_path, entries[0].entry.paths[0]);
    assert_eq!(expected, entries[0].crc);
}

#[test]
fn it_works() {}

#[test]
fn simple_tar() {
    check_simple("tests/examples/simple.tar", simple_tar_bytes(), None)
}

#[test]
fn simple_tar_bz2() {
    check_simple(
        "tests/examples/simple.tar.bz2",
        bz2_of(&simple_tar_bytes()),
        Some("tests/examples/simple.tar"),
    )
}

#[test]
fn simple_tar_gz() {
    check_simple(
        "tests/examples/simple.tar.gz",
        gz_of(&simple_tar_bytes()),
        Some("tests/examples/simple.tar"),
    )
}

#[test]
fn simple_tar_xz() {
    check_simple(
        "tests/examples/simple.tar.xz",
        xz_of(&simple_tar_bytes()),
        Some("tests/examples/simple.tar"),
    )
}

#[test]
fn simple_zip() {
    check_simple(
        "tests/examples/simple.zip",
        zip_of(&[
            ("a/", None),
            ("a/b/", None),
            ("a/b/c/", None),
            ("a/bar", Some(b"123456789")),
            ("foo", Some(b"123456789")),
        ]),
        None,
    )
}

/// tar has no error checking, and file data gets corrupted, so we don't detect this.
#[test]
fn byte_flip_tar() {
    let entries = entries("tests/examples/byte_flip.tar", byte_flip_tar_bytes(true)).unwrap();
    assert_eq!(2, entries.len());
    // sorted by name: the damaged member comes first
    assert_eq!(vec!["bad", "tests/examples/byte_flip.tar"], entries[0].entry.paths);
    assert_eq!(vec!["good", "tests/examples/byte_flip.tar"], entries[1].entry.paths);

    // this crc should be correct
    assert_eq!(crc32c(GOOD), entries[1].crc);

    // this crc should be wrong...
    assert_ne!(crc32c(BAD), entries[0].crc);
    assert_eq!(crc32c(&flipped_bad()), entries[0].crc);
}

#[test]
fn byte_flip_tar_bz2() {
    let mut content = bz2_of(&byte_flip_tar_bytes(true));
    let middle = content.len() / 2;
    content[middle] ^= 0x01;
    round_trips("tests/examples/byte_flip.tar.bz2", content)
}

/// GZIP detects the failure, but only at the end, so we rollback and output the whole archive again
#[test]
fn byte_flip_tar_gz() {
    let test_path = "tests/examples/byte_flip.tar.gz";
    let mut content = stored_gz_of(&tar_of(&[("good", Some(GOOD)), ("bad", Some(BAD))], false));
    let at = position_of(&content, BAD);
    content[at + 4] ^= 0x20;
    let whole = crc32c(&content);

    let entries = entries(test_path, content).unwrap();
    assert_eq!(3, entries.len());

    // sorting in test means the archive comes out first (the order is undefined anyway...)
    assert_eq!(1, entries[0].entry.paths.len());
    assert_eq!(test_path, entries[0].entry.paths[0]);
    assert_eq!(whole, entries[0].crc);

    // this crc should be wrong...
    assert_eq!("bad", entries[1].entry.paths[0]);
    assert_eq!(crc32c(&flipped_bad()), entries[1].crc);

    // this crc should be correct
    assert_eq!("good", entries[2].entry.paths[0]);
    assert_eq!(crc32c(GOOD), entries[2].crc);
}

/// ZIP fails exactly like gzip, much to my chagrin.
#[test]
fn byte_flip_zip() {
    let test_path = "tests/examples/byte_flip.zip";
    let mut content = zip_of(&[("good", Some(GOOD)), ("bad", Some(BAD))]);
    let at = position_of(&content, BAD);
    content[at + 4] ^= 0x20;
    let whole = crc32c(&content);

    let entries = entries(test_path, content).unwrap();
    assert_eq!(3, entries.len());

    // sorting in test means the archive comes out first (the order is undefined anyway...)
    assert_eq!(1, entries[0].entry.paths.len());
    assert_eq!(test_path, entries[0].entry.paths[0]);
    assert_eq!(whole, entries[0].crc);

    // this crc should be wrong...
    assert_eq!("bad", entries[1].entry.paths[0]);
    assert_eq!(crc32c(&flipped_bad()), entries[1].crc);

    // this crc should be correct
    assert_eq!("good", entries[2].entry.paths[0]);
    assert_eq!(crc32c(GOOD), entries[2].crc);
}

#[test]
fn byte_flip_tar_xz() {
    let mut content = xz_of(&byte_flip_tar_bytes(true));
    content[16] ^= 0x40;
    round_trips("tests/examples/byte_flip.tar.xz", content);
}

#[test]
fn zip_cd_files() {
    // the central directory is cut off
    let whole = zip_of(&[("good", Some(GOOD)), ("also good", Some(BAD))]);
    let directory = last_position_of(&whole, b"PK\x01\x02");
    round_trips("tests/real/broken_cd.zip", whole[..directory + 10].to_vec());

    // the end record points past the central directory
    let mut content = whole.clone();
    let end = last_position_of(&content, b"PK\x05\x06");
    content[end + 16..end + 20].copy_from_slice(&0x7fff_0000u32.to_le_bytes());
    round_trips("tests/real/incons-cdoffset.zip", content);
}
