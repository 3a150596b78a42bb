use contentin::errors::{Cause, ErrorKind, IoFailure, IoKind};
use contentin::meta::{FileEntry, ItemType, Meta, Ownership, Xattr};
use contentin::record::{read_entry, MAGIC};
use contentin::stat::{Ext4Time, Stat};
use contentin::tee::{BufReaderTee, Cursor, FailingTee, Stream};
use contentin::toplevel::{
    item_type_of_mode, process_real_path, wants_content, PathKind, Probe,
};
use contentin::unpacker::{Emitted, Options, Unpacker, DEFAULT_MAX_DEPTH};
use contentin::walk::{find_walk, Enhanced, Inode, InodeStat, Walk, WalkFailure};

use std::io::Write;
use std::time::{Duration, UNIX_EPOCH};

const ALL: Options = Options { content_output: true, max_depth: 256, verbose: 1 };

fn run_with(
    name: &str,
    content: Vec<u8>,
    options: &Options,
    walks: &Vec<Walk>,
) -> (Vec<Emitted>, Result<(), Cause>) {
    let mut out = Vec::new();
    let unpacker = Unpacker::at_top(name, Meta::blank(), options, walks);
    let done = unpacker.unpack(BufReaderTee::new(Cursor::new(content)), &mut out);
    (out, done)
}

fn run(name: &str, content: Vec<u8>, options: &Options) -> (Vec<Emitted>, Result<(), Cause>) {
    run_with(name, content, options, &Vec::new())
}

fn read(emitted: &Emitted) -> FileEntry {
    read_entry(Some(&emitted.record)).unwrap().unwrap()
}

fn paths(emitted: &Emitted) -> Vec<String> {
    emitted.record.entry.paths.clone()
}

fn gz_of(data: &[u8]) -> Vec<u8> {
    let mut encoder = libflate::gzip::Encoder::new(Vec::new()).unwrap();
    encoder.write_all(data).unwrap();
    encoder.finish().into_result().unwrap()
}

fn named_gz_of(name: &str, mtime: u32, data: &[u8]) -> Vec<u8> {
    let plain = gz_of(data);
    // the fixed part of the header, with the flag for a name set
    let mut named = plain[..10].to_vec();
    assert_eq!(0, named[3]);
    named[3] = 0x08;
    named[4..8].copy_from_slice(&mtime.to_le_bytes());
    named.extend_from_slice(name.as_bytes());
    named.push(0);
    named.extend_from_slice(&plain[10..]);
    named
}

fn tar_of(members: &[(&str, &[u8])]) -> Vec<u8> {
    let mut builder = tar::Builder::new(Vec::new());
    for (path, content) in members {
        let mut header = tar::Header::new_gnu();
        header.set_path(path).unwrap();
        header.set_uid(1000);
        header.set_gid(100);
        header.set_username("faux").unwrap();
        header.set_groupname("users").unwrap();
        header.set_mtime(1_500_000_000);
        header.set_mode(0o640);
        header.set_size(content.len() as u64);
        header.set_cksum();
        builder.append(&header, *content).unwrap();
    }
    builder.into_inner().unwrap()
}

fn zip_of(members: &[(&str, &[u8])]) -> Vec<u8> {
    let mut writer = zip::ZipWriter::new(std::io::Cursor::new(Vec::new()));
    let options = zip::write::FileOptions::default()
        .compression_method(zip::CompressionMethod::Deflated)
        .last_modified_time(zip::DateTime::from_date_and_time(2018, 11, 17, 10, 38, 30).unwrap())
        .unix_permissions(0o600);
    for (path, content) in members {
        writer.start_file(*path, options).unwrap();
        writer.write_all(content).unwrap();
    }
    writer.finish().unwrap().into_inner()
}

fn text(lines: usize) -> Vec<u8> {
    b"all work and no play makes jack a dull boy\n".repeat(lines)
}

#[test]
fn opaque_input_is_one_leaf() {
    for content in [vec![], b"x".to_vec(), text(10), text(2000), vec![0u8; 40_000]] {
        let (out, done) = run("some/input", content.clone(), &ALL);
        assert!(done.is_ok());
        assert_eq!(1, out.len());
        assert_eq!(vec!["some/input"], paths(&out[0]));
        assert_eq!(content, out[0].payload);
        assert_eq!(content.len() as u64, out[0].record.entry.len);
        assert!(out[0].record.entry.content_follows);
        assert_eq!(MAGIC, out[0].record.magic);
    }
}

#[test]
fn listing_leaves_the_content_out() {
    let options = Options { content_output: false, max_depth: 256, verbose: 1 };
    let (out, done) = run("a.tar", tar_of(&[("one", b"1"), ("two", b"22")]), &options);
    assert!(done.is_ok());
    assert_eq!(2, out.len());
    for emitted in &out {
        assert!(emitted.payload.is_empty());
        assert!(!emitted.record.entry.content_follows);
    }
    assert_eq!(1, out[0].record.entry.len);
    assert_eq!(2, out[1].record.entry.len);
}

#[test]
fn records_come_in_the_order_of_the_archive() {
    let inner = tar_of(&[("z", b"last letter"), ("a", b"first letter")]);
    let outer = tar_of(&[("before", b"b"), ("inner.tar", &inner), ("after", b"a")]);
    let (out, done) = run("outer.tar", outer, &ALL);
    assert!(done.is_ok());
    let found: Vec<Vec<String>> = out.iter().map(paths).collect();
    assert_eq!(
        vec![
            vec!["before", "outer.tar"],
            vec!["z", "inner.tar", "outer.tar"],
            vec!["a", "inner.tar", "outer.tar"],
            vec!["after", "outer.tar"],
        ],
        found
    );
    assert_eq!(b"first letter", out[2].payload.as_slice());
}

#[test]
fn tar_members_carry_their_header() {
    let (out, done) = run("a.tar", tar_of(&[("file", b"content")]), &ALL);
    assert!(done.is_ok());
    let entry = read(&out[0]);
    assert_eq!(1_500_000_000_000_000_000, entry.meta.mtime);
    assert_eq!(0, entry.meta.atime);
    assert_eq!(ItemType::RegularFile, entry.meta.item_type);
    match entry.meta.ownership {
        Ownership::Posix { user: Some(user), group: Some(group), mode } => {
            assert_eq!((1000, "faux"), (user.id, user.name.as_str()));
            assert_eq!((100, "users"), (group.id, group.name.as_str()));
            assert_eq!(0o640, mode);
        }
        other => panic!("wrong owner: {:?}", other),
    }
}

#[test]
fn a_member_without_numbers_makes_the_archive_a_leaf() {
    let mut builder = tar::Builder::new(Vec::new());
    let mut header = tar::Header::new_ustar();
    header.set_path("bare").unwrap();
    header.set_size(4);
    header.set_cksum();
    builder.append(&header, &b"data"[..]).unwrap();
    let archive = builder.into_inner().unwrap();
    let (out, done) = run("bare.tar", archive.clone(), &ALL);
    assert!(done.is_ok());
    assert_eq!(vec![vec!["bare.tar"]], out.iter().map(paths).collect::<Vec<_>>());
    assert_eq!(archive, out[0].payload);
}

#[test]
fn global_extended_headers_are_passed_over() {
    let mut builder = tar::Builder::new(Vec::new());
    let mut global = tar::Header::new_ustar();
    global.set_path("pax_global_header").unwrap();
    global.set_entry_type(tar::EntryType::XGlobalHeader);
    let comment = b"30 comment=made by a test run\n";
    global.set_size(comment.len() as u64);
    global.set_cksum();
    builder.append(&global, &comment[..]).unwrap();
    let mut header = tar::Header::new_ustar();
    header.set_path("real").unwrap();
    header.set_uid(0);
    header.set_gid(0);
    header.set_mode(0o644);
    header.set_mtime(0);
    header.set_size(4);
    header.set_cksum();
    builder.append(&header, &b"data"[..]).unwrap();
    let (out, done) = run("git.tar", builder.into_inner().unwrap(), &ALL);
    assert!(done.is_ok());
    assert_eq!(1, out.len());
    assert_eq!(vec!["real", "git.tar"], paths(&out[0]));
}

#[test]
fn gzip_names_its_content() {
    let (out, done) = run("dir/notes.txt.gz", gz_of(&text(3)), &ALL);
    assert!(done.is_ok());
    assert_eq!(1, out.len());
    assert_eq!(vec!["dir/notes.txt", "dir/notes.txt.gz"], paths(&out[0]));
    assert_eq!(text(3), out[0].payload);

    // the name and the time in the header count, where there are any
    let (out, done) = run("download", named_gz_of("first name.txt", 1_234_567_890, &text(3)), &ALL);
    assert!(done.is_ok());
    assert_eq!(vec!["first name.txt", "download"], paths(&out[0]));
    assert_eq!(1_234_567_890_000_000_000, out[0].record.entry.meta.mtime);

    // no name in the header and none to be had from the file: no name
    let (out, _) = run("download", gz_of(&text(3)), &ALL);
    assert_eq!(vec!["", "download"], paths(&out[0]));
}

#[test]
fn a_gzip_name_has_to_be_text() {
    let mut content = named_gz_of("latin-X.txt", 0, &text(3));
    let at = content.windows(7).position(|w| w == b"latin-X").unwrap();
    content[at + 6] = 0xe9;
    // the failure is one of format, so the stream itself is the leaf
    let (out, done) = run("download", content.clone(), &ALL);
    assert!(done.is_ok());
    assert_eq!(1, out.len());
    assert_eq!(vec!["download"], paths(&out[0]));
    assert_eq!(content, out[0].payload);
}

#[test]
fn zip_members_carry_time_and_mode() {
    let (out, done) = run("a.zip", zip_of(&[("inside", &text(50))]), &ALL);
    assert!(done.is_ok());
    assert_eq!(1, out.len());
    assert_eq!(vec!["inside", "a.zip"], paths(&out[0]));
    assert_eq!(text(50), out[0].payload);
    let meta = &out[0].record.entry.meta;
    assert_eq!(1_542_451_110_000_000_000, meta.mtime);
    match &meta.ownership {
        Ownership::Posix { user: None, group: None, mode } => assert_eq!(0o600, mode & 0o777),
        other => panic!("wrong owner: {:?}", other),
    }
}

#[test]
fn containers_in_containers() {
    let zip = zip_of(&[("deep.txt", b"deep down"), ("deeper.txt", &text(20))]);
    let tar = tar_of(&[("inner.zip", &zip), ("beside", b"beside")]);
    let (out, done) = run("outer.tar.gz", gz_of(&tar), &ALL);
    assert!(done.is_ok());
    let found: Vec<Vec<String>> = out.iter().map(paths).collect();
    assert_eq!(
        vec![
            vec!["deep.txt", "inner.zip", "outer.tar", "outer.tar.gz"],
            vec!["deeper.txt", "inner.zip", "outer.tar", "outer.tar.gz"],
            vec!["beside", "outer.tar", "outer.tar.gz"],
        ],
        found
    );
    assert_eq!(b"deep down", out[0].payload.as_slice());
    assert_eq!(text(20), out[1].payload);
}

#[test]
fn the_depth_is_bounded() {
    let zip = zip_of(&[("deep.txt", b"deep down"), ("deeper.txt", &text(20))]);
    let tar = tar_of(&[("inner.zip", &zip), ("beside", b"beside")]);
    let whole = gz_of(&tar);

    for max_depth in 0..5u32 {
        let options = Options { content_output: true, max_depth, verbose: 1 };
        let (out, done) = run("outer.tar.gz", whole.clone(), &options);
        assert!(done.is_ok());
        for emitted in &out {
            assert!(emitted.record.entry.paths.len() <= max_depth as usize + 1);
        }
    }

    // nothing is opened
    let none = Options { content_output: true, max_depth: 0, verbose: 1 };
    let (out, _) = run("outer.tar.gz", whole.clone(), &none);
    assert_eq!(vec![vec!["outer.tar.gz"]], out.iter().map(paths).collect::<Vec<_>>());
    assert_eq!(whole, out[0].payload);

    // the gzip stream is opened, the archive in it is not
    let one = Options { content_output: true, max_depth: 1, verbose: 1 };
    let (out, _) = run("outer.tar.gz", whole.clone(), &one);
    assert_eq!(
        vec![vec!["outer.tar", "outer.tar.gz"]],
        out.iter().map(paths).collect::<Vec<_>>()
    );
    assert_eq!(tar, out[0].payload);

    // the archive is opened, the archive in it is not
    let two = Options { content_output: true, max_depth: 2, verbose: 1 };
    let (out, _) = run("outer.tar.gz", whole.clone(), &two);
    assert_eq!(
        vec![
            vec!["inner.zip", "outer.tar", "outer.tar.gz"],
            vec!["beside", "outer.tar", "outer.tar.gz"]
        ],
        out.iter().map(paths).collect::<Vec<_>>()
    );
    assert_eq!(zip, out[0].payload);

    // everything is opened
    let three = Options { content_output: true, max_depth: 3, verbose: 1 };
    let (out, _) = run("outer.tar.gz", whole.clone(), &three);
    assert_eq!(3, out.len());
    assert_eq!(4, out[0].record.entry.paths.len());
    assert_eq!(256, DEFAULT_MAX_DEPTH);
}

#[test]
fn debian_packages() {
    let mut builder = ar::Builder::new(Vec::new());
    builder.append(&ar::Header::new(b"debian-binary".to_vec(), 4), &b"2.0\n"[..]).unwrap();
    let control = gz_of(&tar_of(&[("control", b"Package: nothing\n")]));
    builder
        .append(&ar::Header::new(b"control.tar.gz".to_vec(), control.len() as u64), &control[..])
        .unwrap();
    builder.append(&ar::Header::new(b"odd".to_vec(), 3), &b"odd"[..]).unwrap();
    let deb = builder.into_inner().unwrap();

    let (out, done) = run("nothing.deb", deb, &ALL);
    assert!(done.is_ok());
    let found: Vec<Vec<String>> = out.iter().map(paths).collect();
    assert_eq!(
        vec![
            vec!["debian-binary", "nothing.deb"],
            vec!["control", "control.tar", "control.tar.gz", "nothing.deb"],
            vec!["odd", "nothing.deb"],
        ],
        found
    );
    assert_eq!(b"2.0\n", out[0].payload.as_slice());
    assert_eq!(b"Package: nothing\n", out[1].payload.as_slice());
}

fn disk_image(partitions: &[(u32, u32)], sectors: usize) -> Vec<u8> {
    let mut image = vec![0u8; 512 * sectors];
    for (i, (first, count)) in partitions.iter().enumerate() {
        let at = 446 + 16 * i;
        image[at + 4] = 0x83;
        image[at + 8..at + 12].copy_from_slice(&first.to_le_bytes());
        image[at + 12..at + 16].copy_from_slice(&count.to_le_bytes());
    }
    image[510] = 0x55;
    image[511] = 0xaa;
    for (n, sector) in image.chunks_mut(512).enumerate().skip(1) {
        sector[0] = n as u8;
    }
    image
}

#[test]
fn disk_images() {
    let image = disk_image(&[(1, 2), (3, 1)], 4);
    let (out, done) = run("disk.img", image.clone(), &ALL);
    assert!(done.is_ok());
    assert_eq!(2, out.len());
    assert_eq!(vec!["p0", "disk.img"], paths(&out[0]));
    assert_eq!(&image[512..1536], out[0].payload.as_slice());
    assert_eq!(1024, out[0].record.entry.len);
    assert_eq!(vec!["p1", "disk.img"], paths(&out[1]));
    assert_eq!(&image[1536..2048], out[1].payload.as_slice());
}

#[test]
fn a_partition_in_a_partition_table_is_opened() {
    let tar = tar_of(&[("in a partition", b"found")]);
    assert_eq!(0, tar.len() % 512);
    let mut image = disk_image(&[(1, (tar.len() / 512) as u32)], 1);
    image.extend_from_slice(&tar);
    let (out, done) = run("disk.img", image, &ALL);
    assert!(done.is_ok());
    assert_eq!(
        vec![vec!["in a partition", "p0", "disk.img"]],
        out.iter().map(paths).collect::<Vec<_>>()
    );
}

#[test]
fn a_partition_that_leaves_the_image() {
    // the table promises four sectors, the image has one of them
    let image = disk_image(&[(1, 4)], 2);
    let (out, done) = run("disk.img", image.clone(), &ALL);
    // what there is was emitted, and then the emission failed for good
    assert!(matches!(done, Err(Cause::Message(_))));
    assert_eq!(1, out.len());
    assert_eq!(2048, out[0].record.entry.len);
    assert_eq!(&image[512..], out[0].payload.as_slice());
}

#[test]
fn a_broken_partition_table_is_a_leaf() {
    let mut image = disk_image(&[(1, 1)], 2);
    image[446] = 0x33;
    let (out, done) = run("disk.img", image.clone(), &ALL);
    assert!(done.is_ok());
    assert_eq!(vec![vec!["disk.img"]], out.iter().map(paths).collect::<Vec<_>>());
    assert_eq!(image, out[0].payload);
}

fn ext4_image() -> Vec<u8> {
    let mut image = vec![0u8; 4096];
    image[0x438] = 0x53;
    image[0x439] = 0xef;
    image
}

fn inode(path: &str, enhanced: Enhanced, content: Result<Stream, WalkFailure>) -> Inode {
    Inode {
        path: path.to_string(),
        stat: InodeStat {
            uid: 1000,
            gid: 100,
            file_mode: 0o100644,
            atime: Ext4Time { epoch_secs: 10, nanos: Some(1) },
            mtime: Ext4Time { epoch_secs: 20, nanos: None },
            ctime: Ext4Time { epoch_secs: 30, nanos: Some(3) },
            btime: Some(Ext4Time { epoch_secs: 40, nanos: Some(4) }),
            xattrs: vec![
                Xattr { name: "user.b".to_string(), value: vec![2] },
                Xattr { name: "user.a".to_string(), value: vec![1] },
            ],
        },
        enhanced,
        content,
    }
}

fn file(content: &[u8]) -> Result<Stream, WalkFailure> {
    Ok(Stream { data: content.to_vec(), tail: None })
}

fn walk() -> Walk {
    Walk {
        image: ext4_image(),
        inodes: vec![
            inode("/", Enhanced::Directory, file(b"")),
            inode("/etc", Enhanced::Directory, file(b"")),
            inode("/etc/hostname", Enhanced::RegularFile, file(b"box\n")),
            inode("/etc/mtab", Enhanced::SymbolicLink("/proc/mounts".to_string()), file(b"")),
            inode("/dev/tty", Enhanced::CharacterDevice(5, 0), file(b"")),
            inode("/dev/sda", Enhanced::BlockDevice(8, 0), file(b"")),
            inode("/run/fifo", Enhanced::Fifo, file(b"")),
            inode("/run/socket", Enhanced::Socket, file(b"")),
            inode("/backup.tar", Enhanced::RegularFile, file(&tar_of(&[("kept", b"safe")]))),
        ],
        failure: None,
    }
}

#[test]
fn an_ext4_image_has_to_be_walked_first() {
    let (out, done) = run("fs.img", ext4_image(), &ALL);
    assert!(out.is_empty());
    match done {
        Err(Cause::Unwalked(image)) => assert_eq!(ext4_image(), image),
        other => panic!("should have asked for a walk: {:?}", other),
    }
}

#[test]
fn every_inode_of_a_walk_is_emitted() {
    let walks = vec![walk()];
    let (out, done) = run_with("fs.img", ext4_image(), &ALL, &walks);
    assert!(done.is_ok());
    let found: Vec<Vec<String>> = out.iter().map(paths).collect();
    assert_eq!(
        vec![
            vec!["/", "fs.img"],
            vec!["/etc", "fs.img"],
            vec!["/etc/hostname", "fs.img"],
            vec!["/etc/mtab", "fs.img"],
            vec!["/dev/tty", "fs.img"],
            vec!["/dev/sda", "fs.img"],
            vec!["/run/fifo", "fs.img"],
            vec!["/run/socket", "fs.img"],
            vec!["kept", "/backup.tar", "fs.img"],
        ],
        found
    );
    let types: Vec<ItemType> = out.iter().map(|e| read(e).meta.item_type).collect();
    assert_eq!(
        vec![
            ItemType::Directory,
            ItemType::Directory,
            ItemType::RegularFile,
            ItemType::SymbolicLink("/proc/mounts".to_string()),
            ItemType::CharacterDevice { major: 5, minor: 0 },
            ItemType::BlockDevice { major: 8, minor: 0 },
            ItemType::Fifo,
            ItemType::Socket,
            ItemType::RegularFile,
        ],
        types
    );
    assert_eq!(b"box\n", out[2].payload.as_slice());
    // only regular files have content
    for emitted in out.iter().take(8).filter(|e| e.record.entry.paths[0] != "/etc/hostname") {
        assert_eq!(0, emitted.record.entry.len);
        assert!(emitted.payload.is_empty());
    }

    let meta = &out[2].record.entry.meta;
    assert_eq!(10_000_000_001, meta.atime);
    assert_eq!(20_000_000_000, meta.mtime);
    assert_eq!(30_000_000_003, meta.ctime);
    assert_eq!(40_000_000_004, meta.btime);
    match &meta.ownership {
        Ownership::Posix { user: Some(user), group: Some(group), mode } => {
            assert_eq!((1000, ""), (user.id, user.name.as_str()));
            assert_eq!((100, ""), (group.id, group.name.as_str()));
            assert_eq!(0o100644, *mode);
        }
        other => panic!("wrong owner: {:?}", other),
    }
    let names: Vec<&str> = meta.xattrs.iter().map(|x| x.name.as_str()).collect();
    assert_eq!(vec!["user.a", "user.b"], names);
}

#[test]
fn a_walk_that_failed_makes_the_image_a_leaf() {
    let mut broken = walk();
    broken.inodes.truncate(3);
    broken.failure = Some(WalkFailure::Parse);
    let walks = vec![broken];
    let (out, done) = run_with("fs.img", ext4_image(), &ALL, &walks);
    assert!(done.is_ok());
    let found: Vec<Vec<String>> = out.iter().map(paths).collect();
    assert_eq!(
        vec![
            vec!["/", "fs.img"],
            vec!["/etc", "fs.img"],
            vec!["/etc/hostname", "fs.img"],
            vec!["fs.img"],
        ],
        found
    );
    assert_eq!(ext4_image(), out[3].payload);

    let mut unreadable = walk();
    unreadable.inodes.truncate(3);
    unreadable.inodes[2].content =
        Err(WalkFailure::Io(IoFailure { os_code: Some(5), kind: IoKind::Other }));
    let walks = vec![unreadable];
    let (out, done) = run_with("fs.img", ext4_image(), &ALL, &walks);
    // a failure of the system is handed on
    assert!(matches!(done, Err(Cause::Io(_))));
    assert_eq!(2, out.len());
}

#[test]
fn walks_are_found_by_their_image() {
    let mut other = walk();
    other.image[0] = 1;
    other.inodes.clear();
    let walks = vec![other, walk()];
    assert_eq!(0, find_walk(&walks, &walks[0].image).unwrap().inodes.len());
    assert_eq!(9, find_walk(&walks, &ext4_image()).unwrap().inodes.len());
    assert!(find_walk(&walks, &[1, 2, 3]).is_none());
    assert!(find_walk(&Vec::new(), &ext4_image()).is_none());
}

#[test]
fn speculation_leaves_the_rollback_to_the_caller() {
    let walks = Vec::new();
    let unpacker = Unpacker::at_top("plain", Meta::blank(), &ALL, &walks);
    let mut out = Vec::new();
    let mut tee = FailingTee::new(Stream { data: text(3), tail: None });
    let done = unpacker.unpack_or_die(&mut tee, &mut out);
    assert!(matches!(done, Err(Cause::Kind(ErrorKind::Rewind))));
    assert!(out.is_empty());

    // and a tee that cannot go back cannot be made a leaf
    let done = unpacker.unpack(FailingTee::new(Stream { data: text(3), tail: None }), &mut out);
    assert!(matches!(done, Err(Cause::Kind(ErrorKind::UnsupportedFeature(_)))));
    assert!(out.is_empty());
}

#[test]
fn a_stream_that_ends_in_a_failure() {
    let walks = Vec::new();
    let unpacker = Unpacker::at_top("cut.tar", Meta::blank(), &ALL, &walks);
    let mut out = Vec::new();
    let tail = Some(IoFailure { os_code: None, kind: IoKind::UnexpectedEof });
    let mut tee = FailingTee::new(Stream { data: tar_of(&[("whole", b"member")]), tail });
    let done = unpacker.unpack_or_die(&mut tee, &mut out);
    // the member was emitted before the end of the stream was met
    assert_eq!(1, out.len());
    match done {
        Err(Cause::Io(f)) => assert_eq!(IoKind::UnexpectedEof, f.kind),
        other => panic!("should have failed at the end: {:?}", other),
    }
}

#[test]
fn labels_of_messages() {
    let walks = Vec::new();
    let quiet = Options { content_output: true, max_depth: 256, verbose: 0 };
    let unpacker = Unpacker::at_top("x", Meta::blank(), &quiet, &walks);
    assert_eq!(Some("error"), unpacker.log(0));
    assert_eq!(None, unpacker.log(1));
    let normal = Unpacker::at_top("x", Meta::blank(), &ALL, &walks);
    assert_eq!(Some("warn"), normal.log(1));
    assert_eq!(None, normal.log(2));
    let loud = Options { content_output: true, max_depth: 256, verbose: 3 };
    let unpacker = Unpacker::at_top("x", Meta::blank(), &loud, &walks);
    assert_eq!(Some("info"), unpacker.log(2));
    assert_eq!(Some("debug"), unpacker.log(3));
}

#[test]
fn suffixes_of_the_current_name() {
    let walks = Vec::new();
    let unpacker = Unpacker::at_top("dir/file.tar.xz", Meta::blank(), &ALL, &walks);
    assert_eq!("dir/file.tar", unpacker.strip_compression_suffix(".xz"));
    assert_eq!("", unpacker.strip_compression_suffix(".gz"));
    let child = unpacker.with_path("inner.bz2");
    assert_eq!("inner", child.strip_compression_suffix(".bz2"));
    assert_eq!(1, child.current.depth);
    assert_eq!(vec!["dir/file.tar.xz", "inner.bz2"], child.current.path.to_vec());
}

fn stat(mode: u32) -> Stat {
    Stat { uid: 1000, gid: 100, mode, ctime: 50, ctime_nano: 5, rdev_major: 4, rdev_minor: 64 }
}

fn probe(kind: PathKind, mode: u32) -> Probe {
    Probe {
        kind,
        link_target: None,
        stat: stat(mode),
        accessed: Ok(UNIX_EPOCH + Duration::new(10, 1)),
        modified: Ok(UNIX_EPOCH + Duration::new(20, 2)),
        created: Err(std::io::Error::new(std::io::ErrorKind::Other, "not kept")),
        user_name: Some("faux".to_string()),
        group_name: None,
    }
}

fn real_path(name: &str, probe: Probe, content: &[u8]) -> (Vec<Emitted>, Result<(), Cause>) {
    let mut out = Vec::new();
    let done = process_real_path(name, probe, Ok(content.to_vec()), &ALL, &Vec::new(), &mut out);
    (out, done)
}

#[test]
fn special_files() {
    let (output, done) = real_path("/tmp/ci-special-files/fifo", probe(PathKind::Special, 0o010644), b"");
    assert!(done.is_ok());
    assert_eq!(1, output.len());
    let entry = read(&output[0]);
    assert_eq!(0, entry.len);
    assert_eq!(ItemType::Fifo, entry.meta.item_type);
    assert!(output[0].payload.is_empty());
    assert_eq!(vec!["/tmp/ci-special-files/fifo"], entry.paths);
}

#[test]
fn files_carry_what_the_file_system_says() {
    let (out, done) = real_path("notes.txt", probe(PathKind::File, 0o100640), &text(2));
    assert!(done.is_ok());
    assert_eq!(1, out.len());
    let entry = read(&out[0]);
    assert_eq!(text(2), out[0].payload);
    assert_eq!(ItemType::RegularFile, entry.meta.item_type);
    assert_eq!(10_000_000_001, entry.meta.atime);
    assert_eq!(20_000_000_002, entry.meta.mtime);
    assert_eq!(50_000_000_005, entry.meta.ctime);
    assert_eq!(0, entry.meta.btime);
    match entry.meta.ownership {
        Ownership::Posix { user: Some(user), group: Some(group), mode } => {
            assert_eq!((1000, "faux"), (user.id, user.name.as_str()));
            assert_eq!((100, ""), (group.id, group.name.as_str()));
            assert_eq!(0o100640, mode);
        }
        other => panic!("wrong owner: {:?}", other),
    }
}

#[test]
fn files_are_unpacked() {
    let tar = tar_of(&[("member", b"in a file")]);
    let (out, done) = real_path("on disk.tar", probe(PathKind::File, 0o100640), &tar);
    assert!(done.is_ok());
    assert_eq!(vec![vec!["member", "on disk.tar"]], out.iter().map(paths).collect::<Vec<_>>());
    // the member has the metadata of the archive, not of the file
    assert_eq!(0, out[0].record.entry.meta.atime);
}

#[test]
fn links_and_other_things_are_records_without_content() {
    let mut link = probe(PathKind::Symlink, 0o120777);
    link.link_target = Some("elsewhere".to_string());
    let (out, done) = real_path("link", link, b"not looked at");
    assert!(done.is_ok());
    assert_eq!(1, out.len());
    assert_eq!(ItemType::SymbolicLink("elsewhere".to_string()), read(&out[0]).meta.item_type);
    assert_eq!(0, out[0].record.entry.len);

    let (out, _) = real_path("sock", probe(PathKind::Special, 0o140755), b"");
    assert_eq!(ItemType::Socket, read(&out[0]).meta.item_type);
    let (out, _) = real_path("tty", probe(PathKind::Special, 0o020620), b"");
    assert_eq!(ItemType::CharacterDevice { major: 4, minor: 64 }, read(&out[0]).meta.item_type);
    let (out, _) = real_path("sda", probe(PathKind::Special, 0o060660), b"");
    assert_eq!(ItemType::BlockDevice { major: 4, minor: 64 }, read(&out[0]).meta.item_type);

    // no mode at all: nothing is known, and the content decides
    let (out, _) = real_path("odd", probe(PathKind::Special, 0), b"something");
    assert_eq!(ItemType::RegularFile, read(&out[0]).meta.item_type);
    assert_eq!(b"something", out[0].payload.as_slice());
    let (out, _) = real_path("odd", probe(PathKind::Special, 0), b"");
    assert_eq!(ItemType::Directory, read(&out[0]).meta.item_type);
}

#[test]
fn inputs_that_cannot_be_described() {
    let (out, done) = real_path("link", probe(PathKind::Symlink, 0o120777), b"");
    assert!(matches!(done, Err(Cause::Kind(ErrorKind::UnsupportedFeature(_)))));
    assert!(out.is_empty());

    let (out, done) = real_path("odd", probe(PathKind::Special, 0o170000), b"");
    assert!(matches!(done, Err(Cause::Kind(ErrorKind::UnsupportedFeature(_)))));
    assert!(out.is_empty());

    let mut no_times = probe(PathKind::File, 0o100644);
    no_times.modified = Err(std::io::ErrorKind::PermissionDenied.into());
    let (_, done) = real_path("file", no_times, b"");
    assert!(matches!(done, Err(Cause::Io(_))));

    let mut no_birth = probe(PathKind::File, 0o100644);
    no_birth.created = Err(std::io::ErrorKind::NotFound.into());
    let (_, done) = real_path("file", no_birth, b"");
    assert!(matches!(done, Err(Cause::Io(_))));

    let mut out = Vec::new();
    let unreadable = Err(IoFailure { os_code: Some(13), kind: IoKind::PermissionDenied });
    let done = process_real_path(
        "file",
        probe(PathKind::File, 0o100000),
        unreadable,
        &ALL,
        &Vec::new(),
        &mut out,
    );
    assert!(matches!(done, Err(Cause::Io(_))));
    assert!(out.is_empty());
}

#[test]
fn types_of_modes() {
    assert_eq!(Some(ItemType::Unknown), item_type_of_mode(0, 1, 2).ok());
    assert_eq!(Some(ItemType::Fifo), item_type_of_mode(0o010000, 1, 2).ok());
    assert_eq!(Some(ItemType::Socket), item_type_of_mode(0o140000, 1, 2).ok());
    assert_eq!(Some(ItemType::Directory), item_type_of_mode(0o040755, 1, 2).ok());
    assert_eq!(Some(ItemType::RegularFile), item_type_of_mode(0o100644, 1, 2).ok());
    assert_eq!(
        Some(ItemType::CharacterDevice { major: 1, minor: 2 }),
        item_type_of_mode(0o020000, 1, 2).ok()
    );
    assert_eq!(
        Some(ItemType::BlockDevice { major: 1, minor: 2 }),
        item_type_of_mode(0o060000, 1, 2).ok()
    );
    assert!(item_type_of_mode(0o777, 1, 2).is_err());
    assert!(item_type_of_mode(0o030000, 1, 2).is_err());
    assert!(wants_content(&ItemType::Unknown));
    assert!(wants_content(&ItemType::RegularFile));
    assert!(!wants_content(&ItemType::Directory));
    assert!(!wants_content(&ItemType::Fifo));
}

#[test]
fn a_listing_of_a_directory_tree() {
    // what a walk through a directory finds, in the order in which it finds it
    let mut link = probe(PathKind::Symlink, 0o120777);
    link.link_target = Some("b/deep.txt".to_string());
    let found: Vec<(&str, Probe, Vec<u8>)> = vec![
        ("tree/a.txt", probe(PathKind::File, 0o100644), text(1)),
        ("tree/b/deep.txt", probe(PathKind::File, 0o100644), text(2)),
        ("tree/b/pipe", probe(PathKind::Special, 0o010600), vec![]),
        ("tree/b/empty", probe(PathKind::File, 0o100644), vec![]),
        ("tree/link", link, vec![]),
    ];
    let mut out = Vec::new();
    for (path, probe, content) in found {
        assert!(process_real_path(path, probe, Ok(content), &ALL, &Vec::new(), &mut out).is_ok());
    }
    let paths: Vec<Vec<String>> = out.iter().map(paths).collect();
    assert_eq!(
        vec![
            vec!["tree/a.txt"],
            vec!["tree/b/deep.txt"],
            vec!["tree/b/pipe"],
            vec!["tree/b/empty"],
            vec!["tree/link"],
        ],
        paths
    );
    let lens: Vec<u64> = out.iter().map(|e| e.record.entry.len).collect();
    assert_eq!(vec![43, 86, 0, 0, 0], lens);
    let types: Vec<ItemType> = out.iter().map(|e| read(e).meta.item_type).collect();
    assert_eq!(
        vec![
            ItemType::RegularFile,
            ItemType::RegularFile,
            ItemType::Fifo,
            ItemType::RegularFile,
            ItemType::SymbolicLink("b/deep.txt".to_string()),
        ],
        types
    );
}
