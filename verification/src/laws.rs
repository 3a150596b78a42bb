//! What holds of everything the unpacker emits.

use crate::adapters::{
    ar_member_at, gunzipped, partitions_of, tar_member_at, zip_count, zip_member_at, Partition,
};
use crate::errors::{allows_rollback, sort_of, CauseView};
use crate::filetype::{classify, FileType};
use crate::meta::MetaView;
use crate::outcome::{
    ar_child, ar_from, ar_limit, ar_run, clean, decoded, depth_left, emission, entry_run, gzip_again,
    gzip_child, gzip_run, inode_child, inode_run, inodes_from, leaf, member_run,
    partition_bytes, parts_from, rewound_leaf, set_aside, set_aside_leaf, speculative,
    stream_again, stream_run, tar_child, tar_from, tar_limit, text_in, unpack, unpack_or_die,
    walk_run, zip_child, zip_from, Coding, Run, Setting,
};
use crate::record::MAGIC;
use crate::tee::{StreamView, TeeState};
use crate::text::{partition_label, without_suffix};
use crate::unpacker::{emitted_of, EmittedView, FrameView};
use crate::walk::{walk_of, EnhancedView, InodeView, WalkView};
use vstd::prelude::*;

verus! {

/// The frame of a top-level input.
pub open spec fn top_frame(path: Seq<char>, meta: MetaView) -> FrameView {
    FrameView { path: seq![path], failure: None, depth: 0, meta }
}

/// A stream that no rule of the classifier accepts comes out as exactly one
/// record: it names the input alone, it is as long as the input, and, where
/// content is asked for, its content is the input byte for byte.
pub proof fn lemma_opaque_is_one_leaf(env: Setting, path: Seq<char>, meta: MetaView, data: Seq<u8>)
    requires
        classify(data) == FileType::Other,
        data.len() <= u64::MAX,
    ensures
        ({
            let run = unpack(env, top_frame(path, meta), set_aside(data));
            &&& run.result.is_ok()
            &&& run.out.len() == 1
            &&& run.out[0].record.entry.paths == seq![path]
            &&& run.out[0].record.entry.len == data.len() as u64
            &&& run.out[0].record.entry.content_follows == env.opts.content_output
            &&& env.opts.content_output ==> run.out[0].payload == data
            &&& !env.opts.content_output ==> run.out[0].payload.len() == 0
        }),
{
    let frame = top_frame(path, meta);
    let state = set_aside(data);
    assert(state.rest() =~= data);
    let inner = unpack_or_die(env, frame, state);
    assert(inner == Run::fail(CauseView::Rewind));
    let run = unpack(env, frame, state);
    assert(run.out =~= leaf(env, frame, data).out);
    assert(seq![path].reverse() =~= seq![path]);
}

/// What holds of the input holds of every entry: a stream that no rule of
/// the classifier accepts, found anywhere, comes out as exactly one record
/// for its frame, with the whole stream as its content.
pub proof fn lemma_opaque_entry_is_one_leaf(env: Setting, frame: FrameView, data: Seq<u8>)
    requires
        classify(data) == FileType::Other,
        data.len() <= u64::MAX,
    ensures
        unpack(env, frame, set_aside(data)) == (Run {
            out: seq![emitted_of(env.opts, frame, clean(data), data.len() as u64)],
            result: Ok(()),
        }),
{
    let state = set_aside(data);
    assert(state.rest() =~= data);
    assert(unpack_or_die(env, frame, state) == Run::fail(CauseView::Rewind));
    assert(unpack(env, frame, state).out =~= seq![
        emitted_of(env.opts, frame, clean(data), data.len() as u64),
    ]);
}

/// A stream that is reached where the depth is used up is not opened: from
/// a tee that can go back it comes out as exactly one record with the whole
/// stream as its content.
pub proof fn lemma_depth_limit(env: Setting, frame: FrameView, state: TeeState)
    requires
        frame.depth >= env.opts.max_depth,
        state.rewindable,
        state.content.len() <= u64::MAX,
    ensures
        unpack_or_die(env, frame, state) == Run::fail(CauseView::Rewind),
        unpack(env, frame, state).result.is_ok(),
        unpack(env, frame, state).out == seq![
            emitted_of(env.opts, frame, clean(state.content), state.content.len() as u64),
        ],
{
    assert(unpack(env, frame, state).out =~= seq![
        emitted_of(env.opts, frame, clean(state.content), state.content.len() as u64),
    ]);
}

/// What becomes of a failure: one that allows a rollback is used up where
/// the stream can be read again, and the whole stream follows what was
/// emitted before as one leaf; any other failure, and success, are handed
/// on as they are with nothing added.
pub proof fn lemma_failures_are_consumed_or_handed_on(
    env: Setting,
    frame: FrameView,
    state: TeeState,
)
    requires
        state.rewindable,
        state.content.len() <= u64::MAX,
    ensures
        ({
            let inner = unpack_or_die(env, frame, state);
            let outer = unpack(env, frame, state);
            &&& allows_rollback(inner.result) ==> outer.result.is_ok() && outer.out == inner.out.push(
                emitted_of(env.opts, frame, clean(state.content), state.content.len() as u64),
            )
            &&& !allows_rollback(inner.result) ==> outer == inner
            &&& outer.result matches Err(cause) ==> sort_of(cause).is_none()
        }),
{
    let inner = unpack_or_die(env, frame, state);
    let outer = unpack(env, frame, state);
    if allows_rollback(inner.result) {
        assert(outer.out =~= inner.out.push(
            emitted_of(env.opts, frame, clean(state.content), state.content.len() as u64),
        ));
    }
}

/// An emission that ends well keeps its word: the record says how many
/// bytes of content follow it, and where content is asked for, that many
/// follow; where none is asked for, none follows.
pub proof fn lemma_emission_keeps_its_word(
    env: Setting,
    frame: FrameView,
    src: StreamView,
    size: u64,
)
    ensures
        ({
            let run = emission(env, frame, src, size);
            let emitted = run.out[0];
            &&& run.out.len() == 1
            &&& emitted.record.entry.len == size
            &&& emitted.record.entry.content_follows == env.opts.content_output
            &&& emitted.record.magic == MAGIC
            &&& run.result.is_ok() && env.opts.content_output ==> emitted.payload.len() == size
            &&& !env.opts.content_output ==> emitted.payload.len() == 0 && run.result.is_ok()
        }),
{
}

/// No record names more containers than the depth allows.
pub open spec fn shallow(env: Setting, out: Seq<EmittedView>) -> bool {
    forall|i: int|
        0 <= i < out.len() ==> (#[trigger] out[i]).record.entry.paths.len() <= env.opts.max_depth
            + 1
}

/// A frame that the recursion can be at.
pub open spec fn in_depth(env: Setting, frame: FrameView) -> bool {
    frame.wf() && frame.depth <= env.opts.max_depth
}

proof fn lemma_shallow_emission(env: Setting, frame: FrameView, src: StreamView, size: u64)
    requires
        in_depth(env, frame),
    ensures
        shallow(env, emission(env, frame, src, size).out),
{
    assert(frame.path.reverse().len() == frame.path.len());
}

proof fn lemma_shallow_followed(env: Setting, a: Run, b: Run)
    requires
        shallow(env, a.out),
        shallow(env, b.out),
    ensures
        shallow(env, a.followed_by(b).out),
        shallow(env, a.or_leaf(b).out),
{
}

proof fn lemma_child_in_depth(env: Setting, frame: FrameView, name: Seq<char>)
    requires
        in_depth(env, frame),
        frame.depth < env.opts.max_depth,
    ensures
        in_depth(env, frame.child(name)),
        depth_left(env, frame.child(name)) < depth_left(env, frame),
{
}

/// However deep the containers are nested, no record names more than
/// `max_depth + 1` of them: what `unpack_or_die` emits is shallow.
pub proof fn lemma_shallow_or_die(env: Setting, frame: FrameView, state: TeeState)
    requires
        in_depth(env, frame),
    ensures
        shallow(env, unpack_or_die(env, frame, state).out),
    decreases depth_left(env, frame), 5nat, 0nat,
{
    if frame.depth >= env.opts.max_depth {
    } else if state.rest().len() == 0 && state.tail.is_some() {
    } else {
        let data = state.rest();
        match classify(data) {
            FileType::GZip => {
                lemma_shallow_gzip(env, frame, state);
            },
            FileType::Xz => {
                lemma_child_in_depth(env, frame, without_suffix(frame.path.last(), ".xz"@));
                lemma_shallow_stream(
                    env,
                    frame.child(without_suffix(frame.path.last(), ".xz"@)),
                    state,
                    Coding::Xz,
                );
            },
            FileType::BZip2 => {
                lemma_child_in_depth(env, frame, without_suffix(frame.path.last(), ".bz2"@));
                lemma_shallow_stream(
                    env,
                    frame.child(without_suffix(frame.path.last(), ".bz2"@)),
                    state,
                    Coding::BZip2,
                );
            },
            FileType::Deb => {
                lemma_shallow_ar(env, frame, data, 0);
                assert(shallow(env, ar_run(env, frame, data).out));
            },
            FileType::Tar => {
                lemma_shallow_tar(env, frame, data, 0);
            },
            FileType::Zip => match state.seekable() {
                Err(f) => {},
                Ok(bytes) => match zip_count(bytes) {
                    Err(c) => {},
                    Ok(n) => {
                        lemma_shallow_zip(env, frame, bytes, 0, n as nat);
                    },
                },
            },
            FileType::Other => {},
            FileType::DiskImage => match state.seekable() {
                Err(f) => {},
                Ok(bytes) => match partitions_of(bytes) {
                    Err(f) => {},
                    Ok(parts) => {
                        lemma_shallow_parts(env, frame, bytes, parts, 0);
                    },
                },
            },
            FileType::Ext4 => match state.seekable() {
                Err(f) => {},
                Ok(bytes) => match walk_of(env.walks, bytes, 0) {
                    None => {},
                    Some(walk) => {
                        lemma_shallow_walk(env, frame, walk);
                    },
                },
            },
        }
    }
}

proof fn lemma_shallow_gzip(env: Setting, frame: FrameView, state: TeeState)
    requires
        in_depth(env, frame),
    ensures
        shallow(env, gzip_run(env, frame, state).out),
    decreases depth_left(env, frame), 4nat, 0nat,
{
    if frame.depth < env.opts.max_depth {
        match gunzipped(state.rest()) {
            Err(f) => {},
            Ok(gz) => match gzip_child(frame, gz.mtime, gz.name) {
                Err(c) => {},
                Ok(child) => {
                    match gz.name {
                        Some(bytes) => {
                            lemma_child_in_depth(
                                env,
                                frame,
                                text_in(bytes).unwrap(),
                            );
                        },
                        None => {
                            lemma_child_in_depth(
                                env,
                                frame,
                                without_suffix(frame.path.last(), ".gz"@),
                            );
                        },
                    }
                    lemma_shallow_or_die(env, child, speculative(gz.body));
                    if state.rewindable {
                        match gunzipped(state.content) {
                            Ok(again) => {
                                lemma_shallow_set_aside(env, child, again.body);
                            },
                            Err(f) => {},
                        }
                    }
                    lemma_shallow_followed(
                        env,
                        unpack_or_die(env, child, speculative(gz.body)),
                        gzip_again(env, child, state),
                    );
                },
            },
        }
    }
}

proof fn lemma_shallow_stream(env: Setting, child: FrameView, state: TeeState, coding: Coding)
    requires
        in_depth(env, child),
    ensures
        shallow(env, stream_run(env, child, state, coding).out),
    decreases depth_left(env, child), 7nat, 0nat,
{
    lemma_shallow_or_die(env, child, speculative(decoded(coding, state.rest())));
    lemma_shallow_set_aside(env, child, decoded(coding, state.content));
    lemma_shallow_followed(
        env,
        unpack_or_die(env, child, speculative(decoded(coding, state.rest()))),
        stream_again(env, child, state, decoded(coding, state.content)),
    );
}

proof fn lemma_shallow_set_aside(env: Setting, frame: FrameView, stream: StreamView)
    requires
        in_depth(env, frame),
    ensures
        shallow(env, set_aside_leaf(env, frame, stream).out),
{
    lemma_shallow_emission(env, frame, clean(stream.data), stream.data.len() as u64);
}

/// What `unpack` emits is shallow.
pub proof fn lemma_shallow_unpack(env: Setting, frame: FrameView, state: TeeState)
    requires
        in_depth(env, frame),
    ensures
        shallow(env, unpack(env, frame, state).out),
    decreases depth_left(env, frame), 6nat, 0nat,
{
    lemma_shallow_or_die(env, frame, state);
    lemma_shallow_emission(env, frame, clean(state.content), state.content.len() as u64);
    lemma_shallow_followed(
        env,
        unpack_or_die(env, frame, state),
        rewound_leaf(env, frame, state),
    );
}

proof fn lemma_shallow_member(env: Setting, child: FrameView, body: StreamView)
    requires
        in_depth(env, child),
    ensures
        shallow(env, member_run(env, child, body).out),
    decreases depth_left(env, child), 7nat, 0nat,
{
    if body.tail.is_none() {
        lemma_shallow_unpack(env, child, set_aside(body.data));
    }
}

proof fn lemma_shallow_entry(env: Setting, child: FrameView, body: StreamView, size: u64)
    requires
        in_depth(env, child),
    ensures
        shallow(env, entry_run(env, child, body, size).out),
    decreases depth_left(env, child), 7nat, 0nat,
{
    lemma_shallow_or_die(env, child, speculative(body));
    lemma_shallow_emission(env, child, body, size);
    lemma_shallow_followed(
        env,
        unpack_or_die(env, child, speculative(body)),
        emission(env, child, body, size),
    );
}

proof fn lemma_shallow_tar(env: Setting, frame: FrameView, data: Seq<u8>, index: nat)
    requires
        in_depth(env, frame),
    ensures
        shallow(env, tar_from(env, frame, data, index).out),
    decreases depth_left(env, frame), 0nat, tar_limit(data) - index,
{
    if frame.depth >= env.opts.max_depth || index >= tar_limit(data) {
    } else {
        match tar_member_at(data, index) {
            Ok(Some(m)) => match tar_child(frame, m) {
                Ok(None) => {
                    lemma_shallow_tar(env, frame, data, index + 1);
                },
                Ok(Some(child)) => {
                    lemma_child_in_depth(env, frame, text_in(m.path).unwrap());
                    lemma_shallow_member(env, child, m.body);
                    lemma_shallow_tar(env, frame, data, index + 1);
                    lemma_shallow_followed(
                        env,
                        member_run(env, child, m.body),
                        tar_from(env, frame, data, index + 1),
                    );
                },
                Err(c) => {},
            },
            _ => {},
        }
    }
}

proof fn lemma_shallow_ar(env: Setting, frame: FrameView, data: Seq<u8>, index: nat)
    requires
        in_depth(env, frame),
    ensures
        shallow(env, ar_from(env, frame, data, index).out),
    decreases depth_left(env, frame), 0nat, ar_limit(data) - index,
{
    if frame.depth >= env.opts.max_depth || index >= ar_limit(data) {
    } else {
        match ar_member_at(data, index) {
            Ok(Some(m)) => match ar_child(frame, m) {
                Ok(child) => {
                    lemma_child_in_depth(
                        env,
                        frame,
                        text_in(m.identifier).unwrap(),
                    );
                    lemma_shallow_member(env, child, m.body);
                    lemma_shallow_ar(env, frame, data, index + 1);
                    lemma_shallow_followed(
                        env,
                        member_run(env, child, m.body),
                        ar_from(env, frame, data, index + 1),
                    );
                },
                Err(c) => {},
            },
            _ => {},
        }
    }
}

proof fn lemma_shallow_zip(env: Setting, frame: FrameView, data: Seq<u8>, index: nat, count: nat)
    requires
        in_depth(env, frame),
    ensures
        shallow(env, zip_from(env, frame, data, index, count).out),
    decreases depth_left(env, frame), 0nat, count - index,
{
    if frame.depth >= env.opts.max_depth || index >= count {
    } else {
        match zip_member_at(data, index) {
            Ok(m) => {
                let child = zip_child(frame, m);
                lemma_child_in_depth(env, frame, m.name);
                lemma_shallow_entry(env, child, m.body, m.size);
                lemma_shallow_zip(env, frame, data, index + 1, count);
                lemma_shallow_followed(
                    env,
                    entry_run(env, child, m.body, m.size),
                    zip_from(env, frame, data, index + 1, count),
                );
            },
            Err(c) => {},
        }
    }
}

proof fn lemma_shallow_parts(
    env: Setting,
    frame: FrameView,
    image: Seq<u8>,
    parts: Seq<Partition>,
    index: nat,
)
    requires
        in_depth(env, frame),
    ensures
        shallow(env, parts_from(env, frame, image, parts, index).out),
    decreases depth_left(env, frame), 0nat, parts.len() - index,
{
    if frame.depth >= env.opts.max_depth || index >= parts.len() {
    } else {
        let p = parts[index as int];
        let child = frame.child(partition_label(p.id as nat));
        lemma_child_in_depth(env, frame, partition_label(p.id as nat));
        lemma_shallow_entry(env, child, clean(partition_bytes(image, p)), p.len);
        lemma_shallow_parts(env, frame, image, parts, index + 1);
        lemma_shallow_followed(
            env,
            entry_run(env, child, clean(partition_bytes(image, p)), p.len),
            parts_from(env, frame, image, parts, index + 1),
        );
    }
}

proof fn lemma_shallow_inode(env: Setting, frame: FrameView, inode: InodeView)
    requires
        in_depth(env, frame),
    ensures
        shallow(env, inode_run(env, frame, inode).out),
    decreases depth_left(env, frame), 0nat, 0nat,
{
    if frame.depth >= env.opts.max_depth {
    } else {
        let child = inode_child(frame, inode);
        lemma_child_in_depth(env, frame, inode.path);
        match inode.enhanced {
            EnhancedView::RegularFile => match inode.content {
                Ok(body) => {
                    lemma_shallow_member(env, child, body);
                },
                Err(f) => {},
            },
            _ => {
                lemma_shallow_emission(env, child, clean(Seq::empty()), 0);
            },
        }
    }
}

proof fn lemma_shallow_inodes(env: Setting, frame: FrameView, inodes: Seq<InodeView>, index: nat)
    requires
        in_depth(env, frame),
    ensures
        shallow(env, inodes_from(env, frame, inodes, index).out),
    decreases depth_left(env, frame), 1nat, inodes.len() - index,
{
    if frame.depth >= env.opts.max_depth || index >= inodes.len() {
    } else {
        lemma_shallow_inode(env, frame, inodes[index as int]);
        lemma_shallow_inodes(env, frame, inodes, index + 1);
        lemma_shallow_followed(
            env,
            inode_run(env, frame, inodes[index as int]),
            inodes_from(env, frame, inodes, index + 1),
        );
    }
}

proof fn lemma_shallow_walk(env: Setting, frame: FrameView, walk: WalkView)
    requires
        in_depth(env, frame),
    ensures
        shallow(env, walk_run(env, frame, walk).out),
    decreases depth_left(env, frame), 2nat, 0nat,
{
    lemma_shallow_inodes(env, frame, walk.inodes, 0);
    let end = match walk.failure {
        Some(f) => Run::fail(f.cause()),
        None => Run::done(),
    };
    lemma_shallow_followed(env, inodes_from(env, frame, walk.inodes, 0), end);
}

/// What an inode has to read: the content of a regular file, nothing for
/// anything else.
pub open spec fn inode_content(inode: InodeView) -> Seq<u8> {
    match inode.content {
        Ok(body) if inode.enhanced is RegularFile => body.data,
        _ => Seq::empty(),
    }
}

/// An inode whose file, if it is one, could be opened and read to its end.
pub open spec fn readable(inode: InodeView) -> bool {
    inode.enhanced is RegularFile ==> (inode.content matches Ok(body) && body.tail.is_none()
        && body.data.len() <= u64::MAX)
}

/// An inode whose file, if it is one, is not opened in turn: because the
/// depth allows no further level, or because the file is no container.
pub open spec fn stays_closed(env: Setting, frame: FrameView, inode: InodeView) -> bool {
    inode.enhanced is RegularFile ==> frame.depth + 1 >= env.opts.max_depth || classify(
        inode_content(inode),
    ) == FileType::Other
}

/// The record of an inode that is emitted as it is.
pub open spec fn inode_record(env: Setting, frame: FrameView, inode: InodeView) -> EmittedView {
    emitted_of(
        env.opts,
        inode_child(frame, inode),
        clean(inode_content(inode)),
        inode_content(inode).len() as u64,
    )
}

proof fn lemma_inode_record(env: Setting, frame: FrameView, inode: InodeView)
    requires
        frame.depth < env.opts.max_depth,
        readable(inode),
        stays_closed(env, frame, inode),
    ensures
        inode_run(env, frame, inode) == (Run {
            out: seq![inode_record(env, frame, inode)],
            result: Ok(()),
        }),
        inode_record(env, frame, inode).record.entry.paths.first() == inode.path,
{
    let child = inode_child(frame, inode);
    assert(child.path.reverse().first() == inode.path);
    match inode.enhanced {
        EnhancedView::RegularFile => {
            let body = inode.content->Ok_0;
            if frame.depth + 1 >= env.opts.max_depth {
                lemma_depth_limit(env, child, set_aside(body.data));
            } else {
                lemma_opaque_entry_is_one_leaf(env, child, body.data);
            }
            assert(clean(body.data) == clean(inode_content(inode)));
        },
        _ => {
            assert(Seq::<u8>::empty().len() == 0);
        },
    }
}

proof fn lemma_inode_records(env: Setting, frame: FrameView, inodes: Seq<InodeView>, index: nat)
    requires
        frame.depth < env.opts.max_depth,
        index <= inodes.len(),
        forall|i: int|
            0 <= i < inodes.len() ==> readable(#[trigger] inodes[i]) && stays_closed(
                env,
                frame,
                inodes[i],
            ),
    ensures
        inodes_from(env, frame, inodes, index).result.is_ok(),
        inodes_from(env, frame, inodes, index).out.len() == inodes.len() - index,
        forall|k: int|
            0 <= k < inodes.len() - index ==> #[trigger] inodes_from(
                env,
                frame,
                inodes,
                index,
            ).out[k] == inode_record(env, frame, inodes[index + k]),
    decreases inodes.len() - index,
{
    if index < inodes.len() {
        lemma_inode_record(env, frame, inodes[index as int]);
        lemma_inode_records(env, frame, inodes, index + 1);
        let rest = inodes_from(env, frame, inodes, index + 1);
        let all = inodes_from(env, frame, inodes, index);
        assert(all.out =~= seq![inode_record(env, frame, inodes[index as int])] + rest.out);
        assert forall|k: int| 0 <= k < inodes.len() - index implies #[trigger] all.out[k]
            == inode_record(env, frame, inodes[index + k]) by {
            if k > 0 {
                assert(all.out[k] == rest.out[k - 1]);
            }
        }
    }
}

/// The records of a walk are the inodes of the walk. A walk that went
/// well, in which every file could be read and none is opened in turn (all
/// are at the limit of the depth, or none is a container), comes out as one
/// record for each inode, none left out, none made up, none twice, in the
/// order of the walk, each named by the path of its inode and, for a
/// regular file, with the content of the file.
pub proof fn lemma_walk_records(env: Setting, frame: FrameView, walk: WalkView)
    requires
        frame.depth < env.opts.max_depth,
        walk.failure.is_none(),
        forall|i: int|
            0 <= i < walk.inodes.len() ==> readable(#[trigger] walk.inodes[i]) && stays_closed(
                env,
                frame,
                walk.inodes[i],
            ),
    ensures
        walk_run(env, frame, walk).result.is_ok(),
        walk_run(env, frame, walk).out.len() == walk.inodes.len(),
        forall|i: int|
            0 <= i < walk.inodes.len() ==> {
                let emitted = #[trigger] walk_run(env, frame, walk).out[i];
                &&& emitted == inode_record(env, frame, walk.inodes[i])
                &&& emitted.record.entry.paths.first() == walk.inodes[i].path
                &&& env.opts.content_output ==> emitted.payload == inode_content(walk.inodes[i])
            },
{
    lemma_inode_records(env, frame, walk.inodes, 0);
    let inner = inodes_from(env, frame, walk.inodes, 0);
    assert(walk_run(env, frame, walk).out =~= inner.out);
    assert forall|i: int| 0 <= i < walk.inodes.len() implies {
        let emitted = #[trigger] walk_run(env, frame, walk).out[i];
        &&& emitted == inode_record(env, frame, walk.inodes[i])
        &&& emitted.record.entry.paths.first() == walk.inodes[i].path
        &&& env.opts.content_output ==> emitted.payload == inode_content(walk.inodes[i])
    } by {
        assert(inner.out[i] == inode_record(env, frame, walk.inodes[0 + i]));
        lemma_inode_record(env, frame, walk.inodes[i]);
    }
}

} // verus!
