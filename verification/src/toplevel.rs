//! The inputs that the caller names: what the file system says of a path
//! becomes the frame of a top-level entry, and the file behind it is
//! unpacked.

use crate::errors::{
    error_kind, failure_of, io_failure, outcome_view, Cause, CauseView, ErrorKind, IoFailure,
    IoKind,
};
use crate::meta::{
    blank_meta, Container, ItemType, ItemTypeView, Meta, MetaView, Ownership, OwnershipView,
    PosixEntity, PosixEntityView,
};
use crate::outcome::{clean, emission, set_aside, Run, Setting};
use crate::simple_time::{
    ctime_of, simple_time_btime, simple_time_ctime, simple_time_sys, sys_time_of,
};
use crate::stat::Stat;
use crate::tee::{BufReaderTee, Cursor, Stream};
use crate::unpacker::{emitted_views, grew_by, Emitted, FrameView, Options, Unpacker};
use crate::walk::{walk_views, Walk};
use std::time::SystemTime;
use vstd::prelude::*;

verus! {

/// What a path is, as far as the file system tells without following a
/// link.
#[derive(Clone, Copy, Debug, PartialEq, Eq, Structural)]
pub enum PathKind {
    Directory,
    Symlink,
    File,
    /// Anything else: a fifo, a socket, a device.
    Special,
}

/// What the file system and the user database say of a path.
#[derive(Debug)]
pub struct Probe {
    pub kind: PathKind,
    /// Where a symlink points, unless that is not UTF-8.
    pub link_target: Option<String>,
    pub stat: Stat,
    pub accessed: Result<SystemTime, std::io::Error>,
    pub modified: Result<SystemTime, std::io::Error>,
    pub created: Result<SystemTime, std::io::Error>,
    /// The name of the owning user, where the host knows one in UTF-8.
    pub user_name: Option<String>,
    /// The name of the owning group, where the host knows one in UTF-8.
    pub group_name: Option<String>,
}

/// The type bits of a mode.
pub open spec fn mode_type(mode: u32) -> u32 {
    (mode >> 12) & 0xf
}

/// The type that a mode stands for, by the type bits in its high nibble. A
/// mode of zero comes from a platform that reports none, and says nothing.
/// `None` for type bits that stand for nothing.
pub open spec fn type_of_mode(mode: u32, major: u32, minor: u32) -> Option<ItemTypeView> {
    if mode == 0 {
        Some(ItemTypeView::Unknown)
    } else if mode_type(mode) == 0x4 {
        Some(ItemTypeView::Directory)
    } else if mode_type(mode) == 0x8 {
        Some(ItemTypeView::RegularFile)
    } else if mode_type(mode) == 0xa {
        Some(ItemTypeView::SymbolicLink(Seq::empty()))
    } else if mode_type(mode) == 0x1 {
        Some(ItemTypeView::Fifo)
    } else if mode_type(mode) == 0xc {
        Some(ItemTypeView::Socket)
    } else if mode_type(mode) == 0x2 {
        Some(ItemTypeView::CharacterDevice { major, minor })
    } else if mode_type(mode) == 0x6 {
        Some(ItemTypeView::BlockDevice { major, minor })
    } else {
        None
    }
}

/// The failure for a mode whose type bits stand for nothing.
pub open spec fn unknown_mode() -> CauseView {
    CauseView::UnsupportedFeature("unrecognised unix mode type"@)
}

/// The type of a top-level entry.
pub open spec fn probed_type(probe: Probe) -> Result<ItemTypeView, CauseView> {
    match probe.kind {
        PathKind::Symlink => match probe.link_target {
            Some(dest) => Ok(ItemTypeView::SymbolicLink(dest@)),
            None => Err(CauseView::UnsupportedFeature("symlink to an invalid utf-8 sequence"@)),
        },
        PathKind::File => Ok(ItemTypeView::RegularFile),
        _ => match type_of_mode(probe.stat.mode, probe.stat.rdev_major, probe.stat.rdev_minor) {
            Some(t) => Ok(t),
            None => Err(unknown_mode()),
        },
    }
}

pub open spec fn name_view(name: Option<String>) -> Seq<char> {
    match name {
        Some(n) => n@,
        None => Seq::empty(),
    }
}

/// The creation time of a top-level entry: zero where the file system does
/// not keep one.
pub open spec fn probed_btime(created: Result<SystemTime, std::io::Error>) -> Result<
    u64,
    CauseView,
> {
    match created {
        Ok(time) => Ok(sys_time_of(time)),
        Err(e) => if error_kind(e) == IoKind::Other {
            Ok(0)
        } else {
            Err(CauseView::Io(failure_of(e)))
        },
    }
}

/// The frame of a top-level entry: its type, its times, and its owner by
/// number and, where the host knows them, by name.
pub open spec fn probed_frame(path: Seq<char>, probe: Probe) -> Result<FrameView, CauseView> {
    match probed_type(probe) {
        Err(c) => Err(c),
        Ok(item_type) => match probe.accessed {
            Err(e) => Err(CauseView::Io(failure_of(e))),
            Ok(accessed) => match probe.modified {
                Err(e) => Err(CauseView::Io(failure_of(e))),
                Ok(modified) => match probed_btime(probe.created) {
                    Err(c) => Err(c),
                    Ok(btime) => Ok(
                        FrameView {
                            path: seq![path],
                            failure: None,
                            depth: 0,
                            meta: MetaView {
                                atime: sys_time_of(accessed),
                                mtime: sys_time_of(modified),
                                ctime: ctime_of(probe.stat),
                                btime,
                                ownership: OwnershipView::Posix {
                                    user: Some(
                                        PosixEntityView {
                                            id: probe.stat.uid as u64,
                                            name: name_view(probe.user_name),
                                        },
                                    ),
                                    group: Some(
                                        PosixEntityView {
                                            id: probe.stat.gid as u64,
                                            name: name_view(probe.group_name),
                                        },
                                    ),
                                    mode: probe.stat.mode,
                                },
                                item_type,
                                ..blank_meta()
                            },
                        },
                    ),
                },
            },
        },
    }
}

/// Whether an entry of this type has content to be read.
pub open spec fn has_content(item_type: ItemTypeView) -> bool {
    item_type is Unknown || item_type is RegularFile
}

/// What the unpacker makes of a top-level input that is no directory: a
/// file is unpacked; anything else is emitted with its metadata and no
/// content.
pub open spec fn path_run(
    env: Setting,
    path: Seq<char>,
    probe: Probe,
    content: Result<Seq<u8>, IoFailure>,
) -> Run {
    match probed_frame(path, probe) {
        Err(c) => Run::fail(c),
        Ok(frame) => if has_content(frame.meta.item_type) {
            match content {
                Err(f) => Run::fail(CauseView::Io(f)),
                Ok(data) => crate::outcome::unpack(env, frame, set_aside(data)),
            }
        } else {
            emission(env, frame, clean(Seq::empty()), 0)
        },
    }
}

pub open spec fn content_view(content: Result<Vec<u8>, IoFailure>) -> Result<Seq<u8>, IoFailure> {
    match content {
        Ok(data) => Ok(data@),
        Err(f) => Err(f),
    }
}

/// The type that a mode stands for. Fails for type bits that stand for
/// nothing.
pub fn item_type_of_mode(mode: u32, major: u32, minor: u32) -> (item_type: Result<ItemType, Cause>)
    ensures
        match type_of_mode(mode, major, minor) {
            Some(t) => item_type matches Ok(found) && found@ == t,
            None => item_type matches Err(c) && c@ == unknown_mode(),
        },
{
    if mode == 0 {
        return Ok(ItemType::Unknown);
    }
    let mode_type = (mode >> 12) & 0xf;
    if mode_type == 0x4 {
        Ok(ItemType::Directory)
    } else if mode_type == 0x8 {
        Ok(ItemType::RegularFile)
    } else if mode_type == 0xa {
        Ok(ItemType::SymbolicLink(String::new()))
    } else if mode_type == 0x1 {
        Ok(ItemType::Fifo)
    } else if mode_type == 0xc {
        Ok(ItemType::Socket)
    } else if mode_type == 0x2 {
        Ok(ItemType::CharacterDevice { major, minor })
    } else if mode_type == 0x6 {
        Ok(ItemType::BlockDevice { major, minor })
    } else {
        Err(Cause::Kind(ErrorKind::UnsupportedFeature("unrecognised unix mode type".to_owned())))
    }
}

/// Whether an entry of this type has content to be read.
pub fn wants_content(item_type: &ItemType) -> (yes: bool)
    ensures
        yes == has_content(item_type@),
{
    match item_type {
        ItemType::Unknown => true,
        ItemType::RegularFile => true,
        _ => false,
    }
}

/// Whether the file behind a path has to be read: it has to for a file, and
/// for anything about which the mode says nothing.
pub fn opens_file(probe: &Probe) -> (yes: bool)
    ensures
        yes == (probed_type(*probe) matches Ok(t) && has_content(t)),
{
    match probe.kind {
        PathKind::Symlink => false,
        PathKind::File => true,
        _ => match item_type_of_mode(
            probe.stat.mode,
            probe.stat.rdev_major,
            probe.stat.rdev_minor,
        ) {
            Ok(t) => wants_content(&t),
            Err(_) => false,
        },
    }
}

fn name_or_empty(name: Option<String>) -> (text: String)
    ensures
        text@ == name_view(name),
{
    match name {
        Some(n) => n,
        None => String::new(),
    }
}

impl<'a> Unpacker<'a> {
    /// The unpacker for a top-level input that is no directory, from what
    /// the file system says of it. Fails for a symlink whose destination is
    /// not UTF-8, for a mode whose type bits stand for nothing, and where
    /// the file system fails to give a time.
    pub fn from_file(path: &str, probe: Probe, options: &'a Options, walks: &'a Vec<Walk>) -> (made:
        Result<Unpacker<'a>, Cause>)
        requires
            probe.kind != PathKind::Directory,
        ensures
            match probed_frame(path@, probe) {
                Ok(frame) => made matches Ok(unpacker) && unpacker.options == options
                    && unpacker.walks == walks && unpacker.current@ == frame
                    && unpacker.current@.wf(),
                Err(c) => made matches Err(cause) && cause@ == c,
            },
    {
        let item_type = match probe.kind {
            PathKind::Symlink => match probe.link_target {
                Some(dest) => ItemType::SymbolicLink(dest),
                None => {
                    return Err(
                        Cause::Kind(
                            ErrorKind::UnsupportedFeature(
                                "symlink to an invalid utf-8 sequence".to_owned(),
                            ),
                        ),
                    );
                },
            },
            PathKind::File => ItemType::RegularFile,
            _ => match item_type_of_mode(
                probe.stat.mode,
                probe.stat.rdev_major,
                probe.stat.rdev_minor,
            ) {
                Ok(t) => t,
                Err(c) => {
                    return Err(c);
                },
            },
        };
        let atime = match probe.accessed {
            Ok(t) => simple_time_sys(t),
            Err(e) => {
                return Err(Cause::Io(io_failure(&e)));
            },
        };
        let mtime = match probe.modified {
            Ok(t) => simple_time_sys(t),
            Err(e) => {
                return Err(Cause::Io(io_failure(&e)));
            },
        };
        let btime = match simple_time_btime(probe.created) {
            Ok(t) => t,
            Err(c) => {
                return Err(c);
            },
        };
        let meta = Meta {
            atime,
            mtime,
            ctime: simple_time_ctime(&probe.stat),
            btime,
            ownership: Ownership::Posix {
                user: Some(
                    PosixEntity { id: probe.stat.uid as u64, name: name_or_empty(probe.user_name) },
                ),
                group: Some(
                    PosixEntity {
                        id: probe.stat.gid as u64,
                        name: name_or_empty(probe.group_name),
                    },
                ),
                mode: probe.stat.mode,
            },
            container: Container::Unrecognised,
            item_type,
            xattrs: Vec::new(),
        };
        assert(meta@.xattrs =~= Seq::empty());
        Ok(Unpacker::at_top(path, meta, options, walks))
    }
}

/// Handles a top-level input that is no directory. `content` is what
/// reading the file gave; it is looked at only for a file. A file is
/// unpacked, and emitted as a leaf where it is no container; a symlink, a
/// fifo, a socket or a device is emitted with its metadata and no content.
pub fn process_real_path(
    path: &str,
    probe: Probe,
    content: Result<Vec<u8>, IoFailure>,
    options: &Options,
    walks: &Vec<Walk>,
    out: &mut Vec<Emitted>,
) -> (done: Result<(), Cause>)
    requires
        probe.kind != PathKind::Directory,
    ensures
        grew_by(
            old(out)@,
            final(out)@,
            path_run(
                Setting { opts: *options, walks: walk_views(walks@) },
                path@,
                probe,
                content_view(content),
            ),
        ),
        outcome_view(done) == path_run(
            Setting { opts: *options, walks: walk_views(walks@) },
            path@,
            probe,
            content_view(content),
        ).result,
{
    assert(emitted_views(out@) =~= emitted_views(out@) + Seq::empty());
    let unpacker = match Unpacker::from_file(path, probe, options, walks) {
        Ok(unpacker) => unpacker,
        Err(c) => {
            return Err(c);
        },
    };
    if wants_content(&unpacker.current.meta.item_type) {
        match content {
            Ok(data) => unpacker.unpack(BufReaderTee::new(Cursor::new(data)), out),
            Err(f) => Err(Cause::Io(f)),
        }
    } else {
        let nothing = Stream { data: Vec::new(), tail: None };
        assert(nothing@.data =~= Seq::<u8>::empty());
        unpacker.complete_details(&nothing, 0, out)
    }
}

} // verus!
