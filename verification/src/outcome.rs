//! What the unpacker emits for a stream, stated over what the readers of
//! the formats say of it.
//!
//! A container is opened only while the depth allows: the functions that go
//! through the entries of a container give nothing where the depth is used
//! up, and `unpack_or_die` never calls them there.

use crate::adapters::{
    ar_member_at, bunzipped, gunzipped, zip_cause_of, partitions_of, tar_member_at, tar_names_of,
    tar_numbers_of, unxzed, zip_count, zip_member_at, ArMemberView, Partition, TarMemberView,
    ZipMemberView,
};
use crate::errors::{allows_rollback, CauseView, IoFailure, IoKind};
use crate::filetype::{classify, FileType};
use crate::guards::{gpt_out_of_bounds, names_aes, refers_to_long_names};
use crate::meta::{ItemTypeView, MetaView, OwnershipView, PosixEntityView};
use crate::simple_time::{ext4_time_of, nanos_of, zip_time_of};
use crate::tee::{cannot_reset, cannot_tell_length, StreamView, TeeState};
use crate::text::{partition_label, without_suffix};
use crate::unpacker::{emission_result, emitted_of, EmittedView, FrameView, Options};
use crate::walk::{walk_of, EnhancedView, InodeView, WalkView};
use vstd::prelude::*;
use vstd::utf8::{decode_utf8, valid_utf8};

verus! {

/// What the unpacker works with: what was asked for, and the walks over
/// ext4 images that were handed in.
pub ghost struct Setting {
    pub opts: Options,
    pub walks: Seq<WalkView>,
}

/// What a piece of work leaves behind: the records it emitted, in order,
/// and how it ended.
pub ghost struct Run {
    pub out: Seq<EmittedView>,
    pub result: Result<(), CauseView>,
}

impl Run {
    /// Nothing emitted, all well.
    pub open spec fn done() -> Run {
        Run { out: Seq::empty(), result: Ok(()) }
    }

    /// Nothing emitted, and a failure.
    pub open spec fn fail(cause: CauseView) -> Run {
        Run { out: Seq::empty(), result: Err(cause) }
    }

    /// This work and, where it ended well, `next` after it.
    pub open spec fn followed_by(self, next: Run) -> Run {
        if self.result.is_ok() {
            Run { out: self.out + next.out, result: next.result }
        } else {
            self
        }
    }

    /// This work with its failure forgiven, where the failure allows a
    /// rollback, and `leaf` emitted in its place.
    pub open spec fn or_leaf(self, leaf: Run) -> Run {
        if allows_rollback(self.result) {
            Run { out: self.out + leaf.out, result: leaf.result }
        } else {
            self
        }
    }

    /// This work, failing in the end with the failure that the stream it
    /// read ends in.
    pub open spec fn drained(self, tail: Option<IoFailure>) -> Run {
        match tail {
            Some(f) if self.result.is_ok() => Run { out: self.out, result: Err(CauseView::Io(f)) },
            _ => self,
        }
    }
}

/// A stream that ends cleanly.
pub open spec fn clean(data: Seq<u8>) -> StreamView {
    StreamView { data, tail: None }
}

/// The state of a tee that was put around a stream of uncertain content.
pub open spec fn speculative(stream: StreamView) -> TeeState {
    TeeState { content: stream.data, position: 0, tail: stream.tail, rewindable: false }
}

/// The state of a tee around a stream that was set aside to be read again.
pub open spec fn set_aside(data: Seq<u8>) -> TeeState {
    TeeState { content: data, position: 0, tail: None, rewindable: true }
}

/// The emission of one entry with the stream `src` as its content.
pub open spec fn emission(env: Setting, frame: FrameView, src: StreamView, size: u64) -> Run {
    Run { out: seq![emitted_of(env.opts, frame, src, size)], result: emission_result(env.opts, src, size) }
}

/// The emission of `data` as the whole content of one entry.
pub open spec fn leaf(env: Setting, frame: FrameView, data: Seq<u8>) -> Run {
    emission(env, frame, clean(data), data.len() as u64)
}

/// What a tee that is asked to go back answers where it cannot, and the
/// leaf where it can.
pub open spec fn rewound_leaf(env: Setting, frame: FrameView, state: TeeState) -> Run {
    if state.rewindable {
        leaf(env, frame, state.content)
    } else {
        Run::fail(cannot_tell_length())
    }
}

/// A stream set aside and emitted as a leaf; a stream that ends in a
/// failure cannot be set aside.
pub open spec fn set_aside_leaf(env: Setting, frame: FrameView, stream: StreamView) -> Run {
    match stream.tail {
        Some(f) => Run::fail(CauseView::Io(f)),
        None => leaf(env, frame, stream.data),
    }
}

/// The failure for data that is not what it has to be.
pub open spec fn invalid_data() -> IoFailure {
    IoFailure { os_code: None, kind: IoKind::InvalidData }
}

/// The text that bytes encode, where they encode one.
pub open spec fn text_in(bytes: Seq<u8>) -> Option<Seq<char>> {
    if valid_utf8(bytes) {
        Some(decode_utf8(bytes))
    } else {
        None
    }
}

/// The frame of what a gzip stream holds: named as the header says or,
/// where it names nothing, as the stream without `.gz`, and with the
/// header's time.
pub open spec fn gzip_child(frame: FrameView, mtime: u32, name: Option<Seq<u8>>) -> Result<
    FrameView,
    CauseView,
> {
    match name {
        Some(bytes) => match text_in(bytes) {
            Some(text) => Ok(frame.child(text).with_mtime(nanos_of(mtime as int, 0))),
            None => Err(CauseView::Io(invalid_data())),
        },
        None => Ok(
            frame.child(without_suffix(frame.path.last(), ".gz"@)).with_mtime(
                nanos_of(mtime as int, 0),
            ),
        ),
    }
}

/// The name of a user or group of a tar member: empty where the header
/// names none.
pub open spec fn tar_name(bytes: Option<Seq<u8>>) -> Option<Seq<char>> {
    match bytes {
        Some(b) => text_in(b),
        None => Some(Seq::empty()),
    }
}

/// The owner, the mode and the time that the header of a tar member
/// gives, on the blank metadata of a new entry. The fields are read in the
/// order user, group, mode, time, and the first that cannot be read
/// decides the failure.
pub open spec fn tar_meta(header: Seq<u8>, blank: MetaView) -> Result<MetaView, CauseView> {
    let numbers = tar_numbers_of(header);
    let names = tar_names_of(header);
    match numbers.uid {
        Err(f) => Err(CauseView::Io(f)),
        Ok(uid) => match tar_name(names.username) {
            None => Err(CauseView::UnsupportedFeature("invalid username utf-8"@)),
            Some(user) => match numbers.gid {
                Err(f) => Err(CauseView::Io(f)),
                Ok(gid) => match tar_name(names.groupname) {
                    None => Err(CauseView::UnsupportedFeature("invalid groupname utf-8"@)),
                    Some(group) => match numbers.mode {
                        Err(f) => Err(CauseView::Io(f)),
                        Ok(mode) => match numbers.mtime {
                            Err(f) => Err(CauseView::Io(f)),
                            Ok(mtime) => Ok(
                                MetaView {
                                    mtime: nanos_of(mtime as int, 0),
                                    ownership: OwnershipView::Posix {
                                        user: Some(PosixEntityView { id: uid, name: user }),
                                        group: Some(PosixEntityView { id: gid, name: group }),
                                        mode,
                                    },
                                    ..blank
                                },
                            ),
                        },
                    },
                },
            },
        },
    }
}

/// The frame of a tar member: `Ok(None)` for the member that only carries
/// global extended headers, which is passed over.
pub open spec fn tar_child(frame: FrameView, m: TarMemberView) -> Result<
    Option<FrameView>,
    CauseView,
> {
    match text_in(m.path) {
        None => Err(CauseView::UnsupportedFeature("invalid path utf-8"@)),
        Some(path) => if path == "pax_global_header"@ {
            Ok(None)
        } else {
            let child = frame.child(path);
            match tar_meta(m.header, child.meta) {
                Err(c) => Err(c),
                Ok(meta) => Ok(Some(FrameView { meta, ..child })),
            }
        },
    }
}

/// The frame of a zip member: with its time, zero where it has none that
/// can be held, and with its mode where it has one.
pub open spec fn zip_child(frame: FrameView, m: ZipMemberView) -> FrameView {
    let child = frame.child(m.name);
    FrameView {
        meta: MetaView {
            mtime: match zip_time_of(m.modified) {
                Some(t) => t,
                None => 0,
            },
            ownership: match m.mode {
                Some(mode) => OwnershipView::Posix { user: None, group: None, mode },
                None => OwnershipView::Unknown,
            },
            ..child.meta
        },
        ..child
    }
}

/// The frame of an ar member.
pub open spec fn ar_child(frame: FrameView, m: ArMemberView) -> Result<FrameView, CauseView> {
    match text_in(m.identifier) {
        Some(name) => Ok(frame.child(name)),
        None => Err(CauseView::UnsupportedFeature("invalid member name utf-8"@)),
    }
}

/// The bytes of a partition: what the image holds of the range that the
/// table gives.
pub open spec fn partition_bytes(image: Seq<u8>, p: Partition) -> Seq<u8> {
    let start = if p.first_byte <= image.len() {
        p.first_byte as int
    } else {
        image.len() as int
    };
    let end = if start + p.len <= image.len() {
        start + p.len
    } else {
        image.len() as int
    };
    image.subrange(start, end)
}

/// How many members a tar archive of this length can have at most, plus
/// one: every member has a header block of its own.
pub open spec fn tar_limit(data: Seq<u8>) -> nat {
    data.len() / 512 + 1
}

/// How many members an ar archive of this length can have at most, plus
/// one: every member has a header of sixty bytes.
pub open spec fn ar_limit(data: Seq<u8>) -> nat {
    data.len() / 60 + 1
}

/// How far the recursion may still go.
pub open spec fn depth_left(env: Setting, frame: FrameView) -> nat {
    if frame.depth < env.opts.max_depth {
        (env.opts.max_depth - frame.depth) as nat
    } else {
        0
    }
}

/// What the unpacker emits for the stream of a tee, and how it ends, when
/// it does not yet treat a failure as a reason to emit the stream itself.
pub open spec fn unpack_or_die(env: Setting, frame: FrameView, state: TeeState) -> Run
    decreases depth_left(env, frame), 5nat, 0nat,
{
    if frame.depth >= env.opts.max_depth {
        Run::fail(CauseView::Rewind)
    } else if state.rest().len() == 0 && state.tail.is_some() {
        Run::fail(CauseView::Io(state.tail.unwrap()))
    } else {
        let data = state.rest();
        let run = match classify(data) {
            FileType::GZip => gzip_run(env, frame, state),
            FileType::Xz => stream_run(
                env,
                frame.child(without_suffix(frame.path.last(), ".xz"@)),
                state,
                Coding::Xz,
            ),
            FileType::BZip2 => stream_run(
                env,
                frame.child(without_suffix(frame.path.last(), ".bz2"@)),
                state,
                Coding::BZip2,
            ),
            FileType::Deb => ar_run(env, frame, data),
            FileType::Tar => tar_from(env, frame, data, 0),
            FileType::Zip => match state.seekable() {
                Err(f) => Run::fail(CauseView::Io(f)),
                Ok(bytes) => zip_run(env, frame, bytes),
            },
            FileType::Other => Run::fail(CauseView::Rewind),
            FileType::DiskImage => match state.seekable() {
                Err(f) => Run::fail(CauseView::Io(f)),
                Ok(bytes) => disk_run(env, frame, bytes),
            },
            FileType::Ext4 => match state.seekable() {
                Err(f) => Run::fail(CauseView::Io(f)),
                Ok(bytes) => match walk_of(env.walks, bytes, 0) {
                    None => Run::fail(CauseView::Unwalked(bytes)),
                    Some(walk) => walk_run(env, frame, walk),
                },
            },
        };
        run.drained(state.tail)
    }
}

/// Which of the two compressions without a header a stream has.
#[derive(Clone, Copy, Debug, PartialEq, Eq, Structural)]
pub enum Coding {
    Xz,
    BZip2,
}

/// What the reader of a compression makes of `data`.
pub open spec fn decoded(coding: Coding, data: Seq<u8>) -> StreamView {
    match coding {
        Coding::Xz => unxzed(data),
        Coding::BZip2 => bunzipped(data),
    }
}

/// What the unpacker makes of a gzip stream: what the stream holds is
/// unpacked under the name that the header gives it and, where that fails
/// in a way that allows a rollback, emitted as one leaf.
pub open spec fn gzip_run(env: Setting, frame: FrameView, state: TeeState) -> Run
    decreases depth_left(env, frame), 4nat, 0nat,
{
    if frame.depth >= env.opts.max_depth {
        Run::done()
    } else {
        match gunzipped(state.rest()) {
            Err(f) => Run::fail(CauseView::Io(f)),
            Ok(gz) => match gzip_child(frame, gz.mtime, gz.name) {
                Err(c) => Run::fail(c),
                Ok(child) => unpack_or_die(env, child, speculative(gz.body)).or_leaf(
                    gzip_again(env, child, state),
                ),
            },
        }
    }
}

/// What the unpacker makes of a compressed stream without a header, for
/// the entry `child` that stands for what the stream holds: that is
/// unpacked and, where that fails in a way that allows a rollback, emitted
/// as one leaf.
pub open spec fn stream_run(env: Setting, child: FrameView, state: TeeState, coding: Coding) -> Run
    decreases depth_left(env, child), 7nat, 0nat,
{
    if state.rest().len() == 0 && state.tail.is_some() {
        Run::fail(CauseView::Io(state.tail.unwrap()))
    } else {
        unpack_or_die(env, child, speculative(decoded(coding, state.rest()))).or_leaf(
            stream_again(env, child, state, decoded(coding, state.content)),
        )
    }
}

/// What the unpacker makes of an ar archive. An archive in which anything
/// can be read as a reference into a table of long names is not opened:
/// long names are a feature that is not handled.
pub open spec fn ar_run(env: Setting, frame: FrameView, data: Seq<u8>) -> Run
    decreases depth_left(env, frame), 1nat, 0nat,
{
    if refers_to_long_names(data) {
        Run::fail(CauseView::UnsupportedFeature("long names in an ar archive"@))
    } else {
        ar_from(env, frame, data, 0)
    }
}

/// What the unpacker makes of a zip archive. An archive in which anything
/// can be read as the extra field of an AES encryption is not opened:
/// encryption is a feature that is not handled.
pub open spec fn zip_run(env: Setting, frame: FrameView, data: Seq<u8>) -> Run
    decreases depth_left(env, frame), 1nat, 0nat,
{
    if names_aes(data) {
        Run::fail(CauseView::UnsupportedFeature("encryption in a zip archive"@))
    } else {
        match zip_count(data) {
            Err(e) => Run::fail(zip_cause_of(e)@),
            Ok(n) => zip_from(env, frame, data, 0, n as nat),
        }
    }
}

/// What the unpacker makes of a disk image. A boot sector that leads to a
/// GUID partition table whose sizes do not fit its sector is bad data.
pub open spec fn disk_run(env: Setting, frame: FrameView, data: Seq<u8>) -> Run
    decreases depth_left(env, frame), 1nat, 0nat,
{
    if gpt_out_of_bounds(data) {
        Run::fail(CauseView::Io(invalid_data()))
    } else {
        match partitions_of(data) {
            Err(f) => Run::fail(CauseView::Io(f)),
            Ok(parts) => parts_from(env, frame, data, parts, 0),
        }
    }
}

/// The second reading of a gzip stream, after what it holds turned out not
/// to be a container: the tee goes back to its start, and what the stream
/// unpacks to is emitted as one leaf.
pub open spec fn gzip_again(env: Setting, child: FrameView, state: TeeState) -> Run {
    if !state.rewindable {
        Run::fail(cannot_reset())
    } else {
        match gunzipped(state.content) {
            Err(f) => Run::fail(CauseView::Io(f)),
            Ok(gz) => set_aside_leaf(env, child, gz.body),
        }
    }
}

/// The second reading of a compressed stream without a header.
pub open spec fn stream_again(
    env: Setting,
    child: FrameView,
    state: TeeState,
    unpacked: StreamView,
) -> Run {
    if !state.rewindable {
        Run::fail(cannot_reset())
    } else {
        set_aside_leaf(env, child, unpacked)
    }
}

/// What the unpacker emits for the stream of a tee: what `unpack_or_die`
/// emits and, where that ends in a failure that allows a rollback, the
/// whole stream as one leaf after it.
pub open spec fn unpack(env: Setting, frame: FrameView, state: TeeState) -> Run
    decreases depth_left(env, frame), 6nat, 0nat,
{
    unpack_or_die(env, frame, state).or_leaf(rewound_leaf(env, frame, state))
}

/// The members of a tar archive from the one at `index` on.
pub open spec fn tar_from(env: Setting, frame: FrameView, data: Seq<u8>, index: nat) -> Run
    decreases depth_left(env, frame), 0nat, tar_limit(data) - index,
{
    if frame.depth >= env.opts.max_depth || index >= tar_limit(data) {
        Run::done()
    } else {
        match tar_member_at(data, index) {
            Err(f) => Run::fail(CauseView::Io(f)),
            Ok(None) => Run::done(),
            Ok(Some(m)) => match tar_child(frame, m) {
                Err(c) => Run::fail(c),
                Ok(None) => tar_from(env, frame, data, index + 1),
                Ok(Some(child)) => member_run(env, child, m.body).followed_by(
                    tar_from(env, frame, data, index + 1),
                ),
            },
        }
    }
}

/// One member of an archive that is read in one go: its content is set
/// aside and unpacked.
pub open spec fn member_run(env: Setting, child: FrameView, body: StreamView) -> Run
    decreases depth_left(env, child), 7nat, 0nat,
{
    match body.tail {
        Some(f) => Run::fail(CauseView::Io(f)),
        None => unpack(env, child, set_aside(body.data)),
    }
}

/// The members of an ar archive from the one at `index` on.
pub open spec fn ar_from(env: Setting, frame: FrameView, data: Seq<u8>, index: nat) -> Run
    decreases depth_left(env, frame), 0nat, ar_limit(data) - index,
{
    if frame.depth >= env.opts.max_depth || index >= ar_limit(data) {
        Run::done()
    } else {
        match ar_member_at(data, index) {
            Err(f) => Run::fail(CauseView::Io(f)),
            Ok(None) => Run::done(),
            Ok(Some(m)) => match ar_child(frame, m) {
                Err(c) => Run::fail(c),
                Ok(child) => member_run(env, child, m.body).followed_by(
                    ar_from(env, frame, data, index + 1),
                ),
            },
        }
    }
}

/// One entry of a container in which every entry can be opened again: what
/// unpacking its content emits and, where that fails in a way that allows
/// a rollback, the content as a leaf of the stated size.
pub open spec fn entry_run(env: Setting, child: FrameView, body: StreamView, size: u64) -> Run
    decreases depth_left(env, child), 7nat, 0nat,
{
    unpack_or_die(env, child, speculative(body)).or_leaf(emission(env, child, body, size))
}

/// The members of a zip archive from the one at `index` on.
pub open spec fn zip_from(env: Setting, frame: FrameView, data: Seq<u8>, index: nat, count: nat)
    -> Run
    decreases depth_left(env, frame), 0nat, count - index,
{
    if frame.depth >= env.opts.max_depth || index >= count {
        Run::done()
    } else {
        match zip_member_at(data, index) {
            Err(e) => Run::fail(zip_cause_of(e)@),
            Ok(m) => entry_run(env, zip_child(frame, m), m.body, m.size).followed_by(
                zip_from(env, frame, data, index + 1, count),
            ),
        }
    }
}

/// The partitions of a disk image from the one at `index` of the table on.
pub open spec fn parts_from(
    env: Setting,
    frame: FrameView,
    image: Seq<u8>,
    parts: Seq<Partition>,
    index: nat,
) -> Run
    decreases depth_left(env, frame), 0nat, parts.len() - index,
{
    if frame.depth >= env.opts.max_depth || index >= parts.len() {
        Run::done()
    } else {
        let p = parts[index as int];
        entry_run(
            env,
            frame.child(partition_label(p.id as nat)),
            clean(partition_bytes(image, p)),
            p.len,
        ).followed_by(parts_from(env, frame, image, parts, index + 1))
    }
}

/// The type of an entry that stands for an inode.
pub open spec fn inode_type(enhanced: EnhancedView) -> ItemTypeView {
    match enhanced {
        EnhancedView::RegularFile => ItemTypeView::RegularFile,
        EnhancedView::Directory => ItemTypeView::Directory,
        EnhancedView::Socket => ItemTypeView::Socket,
        EnhancedView::Fifo => ItemTypeView::Fifo,
        EnhancedView::SymbolicLink(dest) => ItemTypeView::SymbolicLink(dest),
        EnhancedView::CharacterDevice(major, minor) => ItemTypeView::CharacterDevice {
            major: major as u32,
            minor,
        },
        EnhancedView::BlockDevice(major, minor) => ItemTypeView::BlockDevice {
            major: major as u32,
            minor,
        },
    }
}

/// The frame of an inode: named by its path, owned by the numbers of its
/// user and group, which have no names here, with its mode, its times, its
/// type and its attributes.
pub open spec fn inode_child(frame: FrameView, inode: InodeView) -> FrameView {
    let child = frame.child(inode.path);
    FrameView {
        meta: MetaView {
            atime: ext4_time_of(inode.stat.atime),
            mtime: ext4_time_of(inode.stat.mtime),
            ctime: ext4_time_of(inode.stat.ctime),
            btime: match inode.stat.btime {
                Some(t) => ext4_time_of(t),
                None => 0,
            },
            ownership: OwnershipView::Posix {
                user: Some(PosixEntityView { id: inode.stat.uid as u64, name: Seq::empty() }),
                group: Some(PosixEntityView { id: inode.stat.gid as u64, name: Seq::empty() }),
                mode: inode.stat.file_mode as u32,
            },
            item_type: inode_type(inode.enhanced),
            container: child.meta.container,
            xattrs: inode.stat.xattrs,
        },
        ..child
    }
}

/// One inode of an ext4 image: a regular file is unpacked, anything else
/// is emitted without content.
pub open spec fn inode_run(env: Setting, frame: FrameView, inode: InodeView) -> Run
    decreases depth_left(env, frame), 0nat, 0nat,
{
    if frame.depth >= env.opts.max_depth {
        Run::done()
    } else {
        let child = inode_child(frame, inode);
        match inode.enhanced {
            EnhancedView::RegularFile => match inode.content {
                Err(f) => Run::fail(f.cause()),
                Ok(body) => member_run(env, child, body),
            },
            _ => emission(env, child, clean(Seq::empty()), 0),
        }
    }
}

/// The inodes of a walk from the one at `index` on.
pub open spec fn inodes_from(env: Setting, frame: FrameView, inodes: Seq<InodeView>, index: nat)
    -> Run
    decreases depth_left(env, frame), 1nat, inodes.len() - index,
{
    if frame.depth >= env.opts.max_depth || index >= inodes.len() {
        Run::done()
    } else {
        inode_run(env, frame, inodes[index as int]).followed_by(
            inodes_from(env, frame, inodes, index + 1),
        )
    }
}

/// What the unpacker makes of an ext4 image that was walked: every inode in
/// the order of the walk and, in the end, the failure that ended the walk.
pub open spec fn walk_run(env: Setting, frame: FrameView, walk: WalkView) -> Run
    decreases depth_left(env, frame), 2nat, 0nat,
{
    inodes_from(env, frame, walk.inodes, 0).followed_by(
        match walk.failure {
            Some(f) => Run::fail(f.cause()),
            None => Run::done(),
        },
    )
}

} // verus!
