//! The recursion controller: it names the format of a stream, hands the
//! stream to the reader of that format, goes into every entry the reader
//! finds, and emits as a leaf whatever turns out not to be a container
//! after all.

use crate::adapters::{
    ar_member, bunzip2, bytes_view, gunzip, list_partitions, tar_member, tar_names, tar_numbers,
    text_of, unxz, zip_cause, zip_len, zip_member, Partition, TarMember, ZipMember,
};
use crate::errors::{
    allows_rollback, classify_format_error_result, outcome_view, Cause, CauseView, ErrorKind,
    IoFailure, IoKind,
};
use crate::filetype::FileType;
use crate::guards::{
    has_aes_field, has_gpt_out_of_bounds, has_long_name, names_aes, refers_to_long_names,
};
use crate::meta::{
    blank_meta, copy_bytes, copy_xattrs, texts, FileEntry, FileEntryView, ItemType, ItemTypeView,
    Meta, MetaView, Ownership, PosixEntity,
};
use crate::outcome::{
    ar_from, ar_limit, ar_run, decoded, depth_left, disk_run, emission, entry_run, gzip_again,
    gzip_child, gzip_run, inode_child, inode_run, inodes_from, member_run, partition_bytes,
    parts_from, rewound_leaf, speculative, stream_again, stream_run, tar_child, tar_from,
    tar_limit, walk_run, zip_child, zip_from, zip_run, Coding, Run, Setting,
};
use crate::record::{
    write_meta, written_meta, EntryRecord, EntryRecordView, MAGIC,
};
use crate::simple_time::{simple_time_epoch_seconds, simple_time_ext4, simple_time_tm};
use crate::slist::SList;
use crate::tee::{
    drain, read_to_end, FailingTee, Stream, StreamView, Tee, TeeState, TempFileTee,
};
use crate::text::{partition_name, same_text, strip_suffix, without_suffix};
use crate::walk::{find_walk, inode_views, walk_views, Enhanced, Inode, Walk};
use vstd::prelude::*;
use vstd::slice::{slice_subrange, slice_to_vec};

verus! {

/// What the caller asks for.
#[derive(Clone, Copy, Debug, PartialEq, Eq, Structural)]
pub struct Options {
    /// Whether the content of the leaves is emitted, or their records only.
    pub content_output: bool,
    /// How deep the unpacker goes into containers inside containers.
    pub max_depth: u32,
    /// How much is said on the way: 0 nothing, 1 warnings, 2 also what was
    /// identified, 3 everything.
    pub verbose: u8,
}

/// The depth to which containers are opened where nothing else is asked.
pub const DEFAULT_MAX_DEPTH: u32 = 256;

/// Why an archive could not be read.
#[derive(Debug)]
pub enum ArchiveReadFailure {
    Open(String),
    Read(String),
}

pub ghost enum ArchiveReadFailureView {
    Open(Seq<char>),
    Read(Seq<char>),
}

impl View for ArchiveReadFailure {
    type V = ArchiveReadFailureView;

    open spec fn view(&self) -> ArchiveReadFailureView {
        match *self {
            ArchiveReadFailure::Open(msg) => ArchiveReadFailureView::Open(msg@),
            ArchiveReadFailure::Read(msg) => ArchiveReadFailureView::Read(msg@),
        }
    }
}

/// The view of a failure that may be there.
pub open spec fn failure_view(failure: Option<ArchiveReadFailure>) -> Option<
    ArchiveReadFailureView,
> {
    match failure {
        Some(f) => Some(f@),
        None => None,
    }
}

/// The frame of one level of the recursion: where the entry was found, how
/// deep that is, and what is known about it so far.
pub struct EntryBuilder {
    /// The names from the input file down to this entry.
    pub path: SList<String>,
    pub failure: Option<ArchiveReadFailure>,
    pub depth: u32,
    pub meta: Meta,
}

pub ghost struct FrameView {
    pub path: Seq<Seq<char>>,
    pub failure: Option<ArchiveReadFailureView>,
    pub depth: u32,
    pub meta: MetaView,
}

impl View for EntryBuilder {
    type V = FrameView;

    open spec fn view(&self) -> FrameView {
        FrameView {
            path: texts(self.path@),
            failure: failure_view(self.failure),
            depth: self.depth,
            meta: self.meta@,
        }
    }
}

impl FrameView {
    /// The path has one name per level.
    pub open spec fn wf(self) -> bool {
        self.path.len() == self.depth + 1
    }

    /// The frame of an entry called `name` inside this one: one level
    /// deeper, with nothing known about it and no failure noted.
    pub open spec fn child(self, name: Seq<char>) -> FrameView {
        FrameView {
            path: self.path.push(name),
            failure: None,
            depth: (self.depth + 1) as u32,
            meta: blank_meta(),
        }
    }

    /// The same frame with another modification time.
    pub open spec fn with_mtime(self, mtime: u64) -> FrameView {
        FrameView { meta: MetaView { mtime, ..self.meta }, ..self }
    }
}

/// One record of the output with the content that follows it.
#[derive(Debug)]
pub struct Emitted {
    pub record: EntryRecord,
    pub payload: Vec<u8>,
}

pub ghost struct EmittedView {
    pub record: EntryRecordView,
    pub payload: Seq<u8>,
}

impl View for Emitted {
    type V = EmittedView;

    open spec fn view(&self) -> EmittedView {
        EmittedView { record: self.record@, payload: self.payload@ }
    }
}

/// The views of a list of emitted records.
pub open spec fn emitted_views(out: Seq<Emitted>) -> Seq<EmittedView> {
    out.map_values(|e: Emitted| e@)
}

/// The metadata of a record into which nothing was written yet.
pub open spec fn unwritten_meta() -> MetaView {
    MetaView { item_type: ItemTypeView::RegularFile, ..blank_meta() }
}

/// The record of an entry of `size` bytes: the magic number, the size, the
/// names from the entry outwards, whether content follows, and the
/// metadata as `write_meta` writes it.
pub open spec fn record_of(frame: FrameView, content_output: bool, size: u64) -> EntryRecordView {
    EntryRecordView {
        magic: MAGIC,
        entry: FileEntryView {
            len: size,
            paths: frame.path.reverse(),
            content_follows: content_output,
            meta: written_meta(frame.meta, unwritten_meta(), size),
        },
    }
}

/// What is emitted for an entry whose content is the stream `src`: its
/// record and, where content is asked for, all the bytes of the stream.
pub open spec fn emitted_of(opts: Options, frame: FrameView, src: StreamView, size: u64)
    -> EmittedView {
    EmittedView {
        record: record_of(frame, opts.content_output, size),
        payload: if opts.content_output {
            src.data
        } else {
            Seq::empty()
        },
    }
}

/// How an emission ends: where content is asked for, the stream has to end
/// cleanly and to be as long as the record says.
pub open spec fn emission_result(opts: Options, src: StreamView, size: u64) -> Result<
    (),
    CauseView,
> {
    if !opts.content_output {
        Ok(())
    } else {
        match src.tail {
            Some(f) => Err(CauseView::Io(f)),
            None => if src.data.len() != size {
                Err(CauseView::Message("content is not as long as the record says"@))
            } else {
                Ok(())
            },
        }
    }
}

/// The names of a path, from the entry outwards.
pub fn path_names(path: &SList<String>) -> (names: Vec<String>)
    ensures
        texts(names@) == texts(path@).reverse(),
{
    let mut names: Vec<String> = Vec::new();
    let mut walk = path.iter();
    let ghost all = walk@;
    loop
        invariant
            all == path@.reverse(),
            names.len() <= all.len(),
            walk@ == all.subrange(names.len() as int, all.len() as int),
            forall|i: int| 0 <= i < names.len() ==> all[i] == #[trigger] names[i],
        ensures
            names.len() == all.len(),
            forall|i: int| 0 <= i < names.len() ==> all[i] == #[trigger] names[i],
        decreases walk@.len(),
    {
        match walk.next() {
            Some(name) => {
                names.push(name);
            },
            None => {
                break ;
            },
        }
    }
    assert(texts(names@) =~= texts(path@).reverse());
    names
}

/// Makes the record of an entry of `size` bytes.
pub fn write_capnp(current: &EntryBuilder, content_output: bool, size: u64) -> (record:
    EntryRecord)
    ensures
        record@ == record_of(current@, content_output, size),
{
    let mut meta = Meta::blank();
    meta.item_type = ItemType::RegularFile;
    let mut record = EntryRecord {
        magic: MAGIC,
        entry: FileEntry {
            len: size,
            paths: path_names(&current.path),
            content_follows: content_output,
            meta,
        },
    };
    let _ = write_meta(&current.meta, &mut record, size);
    record
}

/// One level of the recursion at work: what was asked for, and the frame
/// of the entry that is being looked at.
pub struct Unpacker<'a> {
    pub options: &'a Options,
    /// The walks over ext4 images that were handed in.
    pub walks: &'a Vec<Walk>,
    pub current: EntryBuilder,
}

/// `now` holds what `before` held and, after it, what `run` emitted.
pub open spec fn grew_by(before: Seq<Emitted>, now: Seq<Emitted>, run: Run) -> bool {
    emitted_views(now) == emitted_views(before) + run.out
}

/// Two states of a tee around the same stream.
pub open spec fn same_stream(a: TeeState, b: TeeState) -> bool {
    a.content == b.content && a.tail == b.tail && a.rewindable == b.rewindable
}

proof fn lemma_pushed(before: Seq<Emitted>, e: Emitted)
    ensures
        emitted_views(before.push(e)) == emitted_views(before) + seq![e@],
{
    assert(emitted_views(before.push(e)) =~= emitted_views(before) + seq![e@]);
}

impl<'a> Unpacker<'a> {
    /// What the unpacker works with.
    pub open spec fn setting(&self) -> Setting {
        Setting { opts: *self.options, walks: walk_views(self.walks@) }
    }

    /// The unpacker for a top-level input called `path`, about which `meta`
    /// is known.
    pub fn at_top(path: &str, meta: Meta, options: &'a Options, walks: &'a Vec<Walk>) -> (unpacker:
        Unpacker<'a>)
        ensures
            unpacker.options == options,
            unpacker.walks == walks,
            unpacker.current@ == (FrameView {
                path: seq![path@],
                failure: None,
                depth: 0,
                meta: meta@,
            }),
            unpacker.current@.wf(),
    {
        let unpacker = Unpacker {
            options,
            walks,
            current: EntryBuilder {
                path: SList::head(path.to_owned()),
                failure: None,
                depth: 0,
                meta,
            },
        };
        assert(unpacker.current@.path =~= seq![path@]);
        unpacker
    }

    /// Says under which label a message of the given level is shown, or
    /// `None` where the level is above what was asked for. There are four
    /// levels, from 0 to 3.
    pub fn log(&self, level: u8) -> (label: Option<&'static str>)
        requires
            level <= 3 || self.options.verbose < level,
        ensures
            label.is_some() == (level <= self.options.verbose),
            label matches Some(text) ==> text@ == level_label(level),
    {
        if self.options.verbose < level {
            return None;
        }
        Some(
            if level == 0 {
                "error"
            } else if level == 1 {
                "warn"
            } else if level == 2 {
                "info"
            } else {
                "debug"
            },
        )
    }

    /// The unpacker for an entry called `path` inside the current one.
    pub fn with_path(&self, path: &str) -> (child: Unpacker<'a>)
        requires
            self.current.depth < u32::MAX,
        ensures
            child.options == self.options,
            child.walks == self.walks,
            child.current@ == self.current@.child(path@),
            self.current@.wf() ==> child.current@.wf(),
    {
        let child = Unpacker {
            options: self.options,
            walks: self.walks,
            current: EntryBuilder {
                path: self.current.path.plus(path.to_owned()),
                failure: None,
                depth: self.current.depth + 1,
                meta: Meta::blank(),
            },
        };
        assert(child.current@.path =~= self.current@.path.push(path@));
        child
    }

    /// The name of the current entry without `suffix`, or the empty string
    /// where the name does not end in `suffix`.
    pub fn strip_compression_suffix(&self, suffix: &str) -> (stem: &str)
        ensures
            stem@ == without_suffix(self.current@.path.last(), suffix@),
    {
        let our_name = self.current.path.inner().as_str();
        assert(self.current@.path.last() == our_name@);
        strip_suffix(our_name, suffix)
    }

    /// Emits the current entry with the stream `src` as its content, which
    /// the record says is `size` bytes long. Where content is asked for, all
    /// bytes of the stream are emitted, and the emission fails where the
    /// stream ends in a failure or is not `size` bytes long.
    pub fn complete_details(&self, src: &Stream, size: u64, out: &mut Vec<Emitted>) -> (done:
        Result<(), Cause>)
        ensures
            grew_by(old(out)@, final(out)@, emission(self.setting(), self.current@, src@, size)),
            outcome_view(done) == emission(self.setting(), self.current@, src@, size).result,
    {
        let record = write_capnp(&self.current, self.options.content_output, size);
        if self.options.content_output {
            let e = Emitted { record, payload: copy_bytes(&src.data) };
            proof {
                lemma_pushed(out@, e);
            }
            out.push(e);
            match src.tail {
                Some(f) => Err(Cause::Io(f)),
                None => {
                    if src.data.len() as u64 != size {
                        Err(Cause::Message("content is not as long as the record says".to_owned()))
                    } else {
                        Ok(())
                    }
                },
            }
        } else {
            let e = Emitted { record, payload: Vec::new() };
            proof {
                lemma_pushed(out@, e);
            }
            out.push(e);
            Ok(())
        }
    }

    /// Emits the current entry with the whole stream of `file` as its
    /// content. Fails, with nothing emitted, where the tee cannot go back
    /// to its start.
    pub fn complete<T: Tee>(&self, file: &mut T, out: &mut Vec<Emitted>) -> (done: Result<
        (),
        Cause,
    >)
        ensures
            grew_by(
                old(out)@,
                final(out)@,
                rewound_leaf(self.setting(), self.current@, old(file).state()),
            ),
            outcome_view(done) == rewound_leaf(
                self.setting(),
                self.current@,
                old(file).state(),
            ).result,
            same_stream(old(file).state(), final(file).state()),
    {
        let ghost before = file.state();
        let _ = file.fill_buf();
        let size = match file.len_and_reset() {
            Ok(size) => size,
            Err(c) => {
                assert(emitted_views(out@) =~= emitted_views(out@) + Seq::empty());
                return Err(c);
            },
        };
        match read_to_end(file) {
            Ok(data) => {
                assert(before.rewound().rest() =~= before.content);
                let src = Stream { data, tail: None };
                self.complete_details(&src, size, out)
            },
            Err(f) => {
                assert(emitted_views(out@) =~= emitted_views(out@) + Seq::empty());
                Err(Cause::Io(f))
            },
        }
    }

    /// The unpacker for what a gzip stream holds. The entry is called as
    /// the header of the stream says; where the header says nothing, it is
    /// the current name without `.gz`. Its time is the header's. Fails where
    /// the name in the header is not UTF-8.
    pub fn with_gzip(&self, mtime: u32, name: &Option<Vec<u8>>) -> (child: Result<
        Unpacker<'a>,
        Cause,
    >)
        requires
            self.current.depth < u32::MAX,
        ensures
            match gzip_child(self.current@, mtime, crate::adapters::bytes_view(*name)) {
                Ok(frame) => child matches Ok(unpacker) && unpacker.options == self.options && unpacker.walks == self.walks
                    && unpacker.current@ == frame,
                Err(c) => child matches Err(cause) && cause@ == c,
            },
    {
        let stamp = simple_time_epoch_seconds(mtime as u64);
        let mut unpacker = match name {
            Some(bytes) => match text_of(copy_bytes(bytes)) {
                Some(text) => self.with_path(text.as_str()),
                None => {
                    return Err(Cause::Io(IoFailure { os_code: None, kind: IoKind::InvalidData }));
                },
            },
            None => {
                proof {
                    reveal_strlit(".gz");
                }
                self.with_path(self.strip_compression_suffix(".gz"))
            },
        };
        unpacker.current.meta.mtime = stamp;
        Ok(unpacker)
    }

    /// Whether the outcome of an attempt allows a rollback.
    pub fn is_format_error_result<T>(&self, res: &Result<T, Cause>) -> (yes: bool)
        ensures
            yes == allows_rollback(outcome_view(*res)),
    {
        classify_format_error_result(res).is_some()
    }
}

fn decode(coding: Coding, data: &[u8]) -> (stream: Stream)
    ensures
        stream@ == decoded(coding, data@),
        stream.wf(),
{
    match coding {
        Coding::Xz => unxz(data),
        Coding::BZip2 => bunzip2(data),
    }
}

proof fn lemma_none_added(out: Seq<Emitted>)
    ensures
        emitted_views(out) == emitted_views(out) + Seq::<EmittedView>::empty(),
{
    assert(emitted_views(out) =~= emitted_views(out) + Seq::<EmittedView>::empty());
}

proof fn lemma_grew_twice(
    before: Seq<Emitted>,
    middle: Seq<Emitted>,
    after: Seq<Emitted>,
    a: Run,
    b: Run,
)
    requires
        grew_by(before, middle, a),
        grew_by(middle, after, b),
    ensures
        emitted_views(after) == emitted_views(before) + (a.out + b.out),
{
    assert((emitted_views(before) + a.out) + b.out =~= emitted_views(before) + (a.out + b.out));
}

proof fn lemma_added_twice(
    a: Seq<EmittedView>,
    b: Seq<EmittedView>,
    c: Seq<EmittedView>,
)
    ensures
        (a + b) + c == a + (b + c),
{
    assert((a + b) + c =~= a + (b + c));
}

/// The work done so far, a step, and the rest: if the step ends well, the
/// rest follows what was done so far and the step; if not, the whole ends
/// with the step.
proof fn lemma_step(acc: Seq<EmittedView>, step: Run, rest: Run)
    ensures
        (Run { out: acc, result: Ok(()) }).followed_by(step.followed_by(rest)) == if step.result.is_ok() {
            (Run { out: acc + step.out, result: Ok(()) }).followed_by(rest)
        } else {
            Run { out: acc + step.out, result: step.result }
        },
{
    assert((acc + step.out) + rest.out =~= acc + (step.out + rest.out));
}

impl<'a> Unpacker<'a> {
    /// Unpacks the stream of `fd` as far as it goes. Where the stream is no
    /// container, or lies too deep, the answer is `Rewind`; where a reader
    /// fails, the answer is its failure. Nothing is emitted in place of a
    /// stream that cannot be unpacked: that is left to the caller.
    pub fn unpack_or_die<T: Tee>(&self, fd: &mut T, out: &mut Vec<Emitted>) -> (done: Result<
        (),
        Cause,
    >)
        ensures
            grew_by(
                old(out)@,
                final(out)@,
                crate::outcome::unpack_or_die(self.setting(), self.current@, old(fd).state()),
            ),
            outcome_view(done) == crate::outcome::unpack_or_die(
                self.setting(),
                self.current@,
                old(fd).state(),
            ).result,
            same_stream(old(fd).state(), final(fd).state()),
            self.current.depth >= self.options.max_depth ==> final(fd).state() == old(fd).state(),
        decreases depth_left(self.setting(), self.current@), 1nat, 0nat,
    {
        let ghost state = fd.state();
        proof {
            lemma_none_added(out@);
        }
        if self.current.depth >= self.options.max_depth {
            return Err(Cause::Kind(ErrorKind::Rewind));
        }
        let tag = match fd.fill_buf() {
            Ok(data) => FileType::identify(data),
            Err(f) => {
                return Err(Cause::Io(f));
            },
        };
        let done = match tag {
            FileType::GZip => self.unpack_stream_gzip(fd, out),
            FileType::Xz => {
                proof {
                    reveal_strlit(".xz");
                }
                self.with_path(self.strip_compression_suffix(".xz")).unpack_stream_xz(fd, out)
            },
            FileType::BZip2 => {
                proof {
                    reveal_strlit(".bz2");
                }
                self.with_path(self.strip_compression_suffix(".bz2")).unpack_stream_bz2(fd, out)
            },
            FileType::Deb => match fd.fill_buf() {
                Ok(data) => self.process_deb(data, out),
                Err(f) => Err(Cause::Io(f)),
            },
            FileType::Tar => match fd.fill_buf() {
                Ok(data) => self.process_tar(data, out),
                Err(f) => Err(Cause::Io(f)),
            },
            FileType::Zip => match fd.as_seekable() {
                Ok(view) => self.process_zip(view.get_ref(), out),
                Err(c) => Err(c),
            },
            FileType::Other => Err(Cause::Kind(ErrorKind::Rewind)),
            FileType::DiskImage => match fd.as_seekable() {
                Ok(view) => self.process_disk_image(view.get_ref(), out),
                Err(c) => Err(c),
            },
            FileType::Ext4 => match fd.as_seekable() {
                Ok(view) => match find_walk(self.walks, view.get_ref()) {
                    Some(walk) => self.process_partition(walk, out),
                    None => Err(Cause::Unwalked(view.into_inner())),
                },
                Err(c) => Err(c),
            },
        };
        match done {
            Ok(()) => match drain(fd) {
                Ok(()) => Ok(()),
                Err(f) => Err(Cause::Io(f)),
            },
            Err(c) => Err(c),
        }
    }

    /// Unpacks a gzip stream: what it holds is unpacked in turn, and where
    /// that is no container, it is emitted as one leaf.
    fn unpack_stream_gzip<T: Tee>(&self, fd: &mut T, out: &mut Vec<Emitted>) -> (done: Result<
        (),
        Cause,
    >)
        requires
            self.current.depth < self.options.max_depth,
            old(fd).state().wf(),
            !(old(fd).state().rest().len() == 0 && old(fd).state().tail.is_some()),
        ensures
            grew_by(old(out)@, final(out)@, gzip_run(self.setting(), self.current@, old(fd).state())),
            outcome_view(done) == gzip_run(self.setting(), self.current@, old(fd).state()).result,
            same_stream(old(fd).state(), final(fd).state()),
        decreases depth_left(self.setting(), self.current@), 0nat, 0nat,
    {
        let ghost state = fd.state();
        proof {
            lemma_none_added(out@);
        }
        let first = match fd.fill_buf() {
            Ok(data) => gunzip(data),
            Err(f) => Err(f),
        };
        let gz = match first {
            Ok(gz) => gz,
            Err(f) => {
                return Err(Cause::Io(f));
            },
        };
        let unpacker = match self.with_gzip(gz.mtime, &gz.name) {
            Ok(unpacker) => unpacker,
            Err(c) => {
                return Err(c);
            },
        };
        let ghost first_run = crate::outcome::unpack_or_die(
            self.setting(),
            unpacker.current@,
            speculative(gz.body@),
        );
        let ghost second_run = gzip_again(self.setting(), unpacker.current@, state);
        let mut failing = FailingTee::new(gz.body);
        let ghost before = out@;
        let attempt = unpacker.unpack_or_die(&mut failing, out);
        if self.is_format_error_result(&attempt) {
            proof {
                lemma_none_added(out@);
                assert(first_run.out + Seq::<EmittedView>::empty() =~= first_run.out);
            }
            match fd.reset() {
                Ok(()) => {},
                Err(c) => {
                    return Err(c);
                },
            }
            let second = match fd.fill_buf() {
                Ok(data) => {
                    assert(state.rewound().rest() =~= state.content);
                    gunzip(data)
                },
                Err(f) => Err(f),
            };
            let again = match second {
                Ok(gz) => gz,
                Err(f) => {
                    return Err(Cause::Io(f));
                },
            };
            let mut tee = match TempFileTee::if_necessary(again.body) {
                Ok(tee) => tee,
                Err(c) => {
                    return Err(c);
                },
            };
            let ghost middle = out@;
            let done = unpacker.complete(&mut tee, out);
            proof {
                lemma_grew_twice(before, middle, out@, first_run, second_run);
            }
            done
        } else {
            attempt
        }
    }

    /// Unpacks an xz stream that the current entry stands for.
    pub fn unpack_stream_xz<T: Tee>(&self, fd: &mut T, out: &mut Vec<Emitted>) -> (done: Result<
        (),
        Cause,
    >)
        ensures
            grew_by(
                old(out)@,
                final(out)@,
                stream_run(self.setting(), self.current@, old(fd).state(), Coding::Xz),
            ),
            outcome_view(done) == stream_run(
                self.setting(),
                self.current@,
                old(fd).state(),
                Coding::Xz,
            ).result,
            same_stream(old(fd).state(), final(fd).state()),
        decreases depth_left(self.setting(), self.current@), 3nat, 0nat,
    {
        self.unpack_stream(fd, Coding::Xz, out)
    }

    /// Unpacks a bzip2 stream that the current entry stands for.
    pub fn unpack_stream_bz2<T: Tee>(&self, fd: &mut T, out: &mut Vec<Emitted>) -> (done: Result<
        (),
        Cause,
    >)
        ensures
            grew_by(
                old(out)@,
                final(out)@,
                stream_run(self.setting(), self.current@, old(fd).state(), Coding::BZip2),
            ),
            outcome_view(done) == stream_run(
                self.setting(),
                self.current@,
                old(fd).state(),
                Coding::BZip2,
            ).result,
            same_stream(old(fd).state(), final(fd).state()),
        decreases depth_left(self.setting(), self.current@), 3nat, 0nat,
    {
        self.unpack_stream(fd, Coding::BZip2, out)
    }

    fn unpack_stream<T: Tee>(&self, fd: &mut T, coding: Coding, out: &mut Vec<Emitted>) -> (done:
        Result<(), Cause>)
        ensures
            grew_by(
                old(out)@,
                final(out)@,
                stream_run(self.setting(), self.current@, old(fd).state(), coding),
            ),
            outcome_view(done) == stream_run(
                self.setting(),
                self.current@,
                old(fd).state(),
                coding,
            ).result,
            same_stream(old(fd).state(), final(fd).state()),
        decreases depth_left(self.setting(), self.current@), 2nat, 0nat,
    {
        let ghost state = fd.state();
        proof {
            lemma_none_added(out@);
        }
        let first = match fd.fill_buf() {
            Ok(data) => decode(coding, data),
            Err(f) => {
                return Err(Cause::Io(f));
            },
        };
        let ghost first_run = crate::outcome::unpack_or_die(
            self.setting(),
            self.current@,
            speculative(first@),
        );
        let ghost second_run = stream_again(
            self.setting(),
            self.current@,
            state,
            decoded(coding, state.content),
        );
        let mut failing = FailingTee::new(first);
        let ghost before = out@;
        let attempt = self.unpack_or_die(&mut failing, out);
        if self.is_format_error_result(&attempt) {
            proof {
                lemma_none_added(out@);
                assert(first_run.out + Seq::<EmittedView>::empty() =~= first_run.out);
            }
            match fd.reset() {
                Ok(()) => {},
                Err(c) => {
                    return Err(c);
                },
            }
            let again = match fd.fill_buf() {
                Ok(data) => {
                    assert(state.rewound().rest() =~= state.content);
                    decode(coding, data)
                },
                Err(f) => {
                    return Err(Cause::Io(f));
                },
            };
            let mut tee = match TempFileTee::if_necessary(again) {
                Ok(tee) => tee,
                Err(c) => {
                    return Err(c);
                },
            };
            let ghost middle = out@;
            let done = self.complete(&mut tee, out);
            proof {
                lemma_grew_twice(before, middle, out@, first_run, second_run);
            }
            done
        } else {
            attempt
        }
    }

    /// Unpacks the stream of `fd` and, where it cannot be unpacked, emits
    /// it as one leaf: a stream that is no container, one that lies too
    /// deep, and one whose reader failed over its format all end up as the
    /// content of the current entry. Other failures are handed on.
    pub fn unpack<T: Tee>(&self, fd: T, out: &mut Vec<Emitted>) -> (done: Result<(), Cause>)
        ensures
            grew_by(
                old(out)@,
                final(out)@,
                crate::outcome::unpack(self.setting(), self.current@, fd.state()),
            ),
            outcome_view(done) == crate::outcome::unpack(
                self.setting(),
                self.current@,
                fd.state(),
            ).result,
        decreases depth_left(self.setting(), self.current@), 2nat, 0nat,
    {
        let mut fd = fd;
        let ghost before = out@;
        let ghost first_run = crate::outcome::unpack_or_die(
            self.setting(),
            self.current@,
            fd.state(),
        );
        let ghost second_run = rewound_leaf(self.setting(), self.current@, fd.state());
        let res = self.unpack_or_die(&mut fd, out);
        if self.is_format_error_result(&res) {
            let ghost middle = out@;
            let done = self.complete(&mut fd, out);
            proof {
                lemma_grew_twice(before, middle, out@, first_run, second_run);
            }
            done
        } else {
            res
        }
    }
}

impl<'a> Unpacker<'a> {
    /// Unpacks one member of an archive that is read in one go, for which
    /// the current entry stands: its content is set aside and unpacked, and
    /// emitted as a leaf where it is no container. Fails where the content
    /// ends in a failure.
    pub fn unpack_member(&self, body: Stream, out: &mut Vec<Emitted>) -> (done: Result<(), Cause>)
        ensures
            grew_by(old(out)@, final(out)@, member_run(self.setting(), self.current@, body@)),
            outcome_view(done) == member_run(self.setting(), self.current@, body@).result,
        decreases depth_left(self.setting(), self.current@), 3nat, 0nat,
    {
        proof {
            lemma_none_added(out@);
        }
        match TempFileTee::if_necessary(body) {
            Ok(tee) => self.unpack(tee, out),
            Err(c) => Err(c),
        }
    }

    /// Unpacks one entry of a container whose entries can be opened again,
    /// for which the current entry stands. Where its content is no
    /// container, the content is emitted as a leaf of `size` bytes.
    pub fn unpack_entry(&self, body: &Stream, size: u64, out: &mut Vec<Emitted>) -> (done: Result<
        (),
        Cause,
    >)
        requires
            body.wf(),
        ensures
            grew_by(old(out)@, final(out)@, entry_run(self.setting(), self.current@, body@, size)),
            outcome_view(done) == entry_run(self.setting(), self.current@, body@, size).result,
        decreases depth_left(self.setting(), self.current@), 3nat, 0nat,
    {
        let ghost before = out@;
        let ghost first_run = crate::outcome::unpack_or_die(
            self.setting(),
            self.current@,
            speculative(body@),
        );
        let ghost second_run = emission(self.setting(), self.current@, body@, size);
        let mut failing = FailingTee::new(body.clone());
        let attempt = self.unpack_or_die(&mut failing, out);
        if self.is_format_error_result(&attempt) {
            let ghost middle = out@;
            let done = self.complete_details(body, size, out);
            proof {
                lemma_grew_twice(before, middle, out@, first_run, second_run);
            }
            done
        } else {
            attempt
        }
    }

    /// The unpacker for a member of a tar archive: named by the member's
    /// path, with the owner, the mode and the time that its header gives.
    /// `None` for the member that only carries global extended headers.
    /// Fails where the path or a name is not UTF-8 and where a number in the
    /// header cannot be read.
    pub fn with_tar_member(&self, member: &TarMember) -> (child: Result<Option<Unpacker<'a>>, Cause>)
        requires
            self.current.depth < u32::MAX,
            member.header@.len() == 512,
        ensures
            match tar_child(self.current@, member@) {
                Ok(Some(frame)) => child matches Ok(Some(unpacker)) && unpacker.options
                    == self.options && unpacker.walks == self.walks && unpacker.current@ == frame,
                Ok(None) => child matches Ok(None),
                Err(c) => child matches Err(cause) && cause@ == c,
            },
    {
        let path = match text_of(copy_bytes(&member.path)) {
            Some(path) => path,
            None => {
                return Err(
                    Cause::Kind(ErrorKind::UnsupportedFeature("invalid path utf-8".to_owned())),
                );
            },
        };
        if same_text(path.as_str(), "pax_global_header") {
            return Ok(None);
        }
        let mut unpacker = self.with_path(path.as_str());
        let numbers = tar_numbers(member.header.as_slice());
        let names = tar_names(member.header.as_slice());
        let uid = match numbers.uid {
            Ok(uid) => uid,
            Err(f) => {
                return Err(Cause::Io(f));
            },
        };
        let user = match tar_text(&names.username) {
            Some(name) => name,
            None => {
                return Err(
                    Cause::Kind(
                        ErrorKind::UnsupportedFeature("invalid username utf-8".to_owned()),
                    ),
                );
            },
        };
        let gid = match numbers.gid {
            Ok(gid) => gid,
            Err(f) => {
                return Err(Cause::Io(f));
            },
        };
        let group = match tar_text(&names.groupname) {
            Some(name) => name,
            None => {
                return Err(
                    Cause::Kind(
                        ErrorKind::UnsupportedFeature("invalid groupname utf-8".to_owned()),
                    ),
                );
            },
        };
        let mode = match numbers.mode {
            Ok(mode) => mode,
            Err(f) => {
                return Err(Cause::Io(f));
            },
        };
        let mtime = match numbers.mtime {
            Ok(mtime) => mtime,
            Err(f) => {
                return Err(Cause::Io(f));
            },
        };
        unpacker.current.meta.ownership = Ownership::Posix {
            user: Some(PosixEntity { id: uid, name: user }),
            group: Some(PosixEntity { id: gid, name: group }),
            mode,
        };
        unpacker.current.meta.mtime = simple_time_epoch_seconds(mtime);
        Ok(Some(unpacker))
    }

    /// Unpacks every member of the tar archive `data`, in the order of the
    /// archive, until the archive ends or something fails.
    pub fn process_tar(&self, data: &[u8], out: &mut Vec<Emitted>) -> (done: Result<(), Cause>)
        requires
            self.current.depth < self.options.max_depth,
        ensures
            grew_by(old(out)@, final(out)@, tar_from(self.setting(), self.current@, data@, 0)),
            outcome_view(done) == tar_from(self.setting(), self.current@, data@, 0).result,
        decreases depth_left(self.setting(), self.current@), 0nat, 0nat,
    {
        let ghost whole = tar_from(self.setting(), self.current@, data@, 0);
        let ghost mut acc: Seq<EmittedView> = Seq::empty();
        let limit = data.len() / 512 + 1;
        let mut index: usize = 0;
        proof {
            lemma_none_added(out@);
            lemma_step(acc, Run::done(), whole);
            assert(acc + Run::done().out =~= acc);
        }
        while index < limit
            invariant
                self.current.depth < self.options.max_depth,
                limit == tar_limit(data@),
                index <= limit,
                whole == tar_from(self.setting(), self.current@, data@, 0),
                whole == (Run { out: acc, result: Ok(()) }).followed_by(
                    tar_from(self.setting(), self.current@, data@, index as nat),
                ),
                emitted_views(out@) == emitted_views(old(out)@) + acc,
            decreases limit - index,
        {
            let ghost rest = tar_from(self.setting(), self.current@, data@, (index + 1) as nat);
            proof {
                assert(acc + Seq::<EmittedView>::empty() =~= acc);
            }
            let member = match tar_member(data, index) {
                Ok(Some(member)) => member,
                Ok(None) => {
                    return Ok(());
                },
                Err(f) => {
                    return Err(Cause::Io(f));
                },
            };
            let child = match self.with_tar_member(&member) {
                Ok(child) => child,
                Err(c) => {
                    return Err(c);
                },
            };
            match child {
                None => {},
                Some(unpacker) => {
                    let ghost step = member_run(self.setting(), unpacker.current@, member.body@);
                    let ghost before = emitted_views(out@);
                    let done = unpacker.unpack_member(member.body, out);
                    proof {
                        lemma_step(acc, step, rest);
                        lemma_added_twice(emitted_views(old(out)@), acc, step.out);
                        acc = acc + step.out;
                    }
                    match done {
                        Ok(()) => {},
                        Err(c) => {
                            return Err(c);
                        },
                    }
                },
            }
            index = index + 1;
        }
        proof {
            assert(acc + Seq::<EmittedView>::empty() =~= acc);
        }
        Ok(())
    }

    /// Unpacks every member of the ar archive `data`, in the order of the
    /// archive, until the archive ends or something fails.
    pub fn process_deb(&self, data: &[u8], out: &mut Vec<Emitted>) -> (done: Result<(), Cause>)
        requires
            self.current.depth < self.options.max_depth,
        ensures
            grew_by(old(out)@, final(out)@, ar_run(self.setting(), self.current@, data@)),
            outcome_view(done) == ar_run(self.setting(), self.current@, data@).result,
        decreases depth_left(self.setting(), self.current@), 0nat, 0nat,
    {
        proof {
            lemma_none_added(out@);
        }
        if has_long_name(data) {
            return Err(
                Cause::Kind(ErrorKind::UnsupportedFeature("long names in an ar archive".to_owned())),
            );
        }
        let ghost whole = ar_from(self.setting(), self.current@, data@, 0);
        let ghost mut acc: Seq<EmittedView> = Seq::empty();
        let limit = data.len() / 60 + 1;
        let mut index: usize = 0;
        proof {
            lemma_step(acc, Run::done(), whole);
            assert(acc + Run::done().out =~= acc);
        }
        while index < limit
            invariant
                self.current.depth < self.options.max_depth,
                limit == ar_limit(data@),
                index <= limit,
                !refers_to_long_names(data@),
                whole == ar_from(self.setting(), self.current@, data@, 0),
                whole == (Run { out: acc, result: Ok(()) }).followed_by(
                    ar_from(self.setting(), self.current@, data@, index as nat),
                ),
                emitted_views(out@) == emitted_views(old(out)@) + acc,
            decreases limit - index,
        {
            let ghost rest = ar_from(self.setting(), self.current@, data@, (index + 1) as nat);
            proof {
                assert(acc + Seq::<EmittedView>::empty() =~= acc);
            }
            let member = match ar_member(data, index) {
                Ok(Some(member)) => member,
                Ok(None) => {
                    return Ok(());
                },
                Err(f) => {
                    return Err(Cause::Io(f));
                },
            };
            let unpacker = match text_of(copy_bytes(&member.identifier)) {
                Some(name) => self.with_path(name.as_str()),
                None => {
                    return Err(
                        Cause::Kind(
                            ErrorKind::UnsupportedFeature("invalid member name utf-8".to_owned()),
                        ),
                    );
                },
            };
            let ghost step = member_run(self.setting(), unpacker.current@, member.body@);
            let done = unpacker.unpack_member(member.body, out);
            proof {
                lemma_step(acc, step, rest);
                lemma_added_twice(emitted_views(old(out)@), acc, step.out);
                acc = acc + step.out;
            }
            match done {
                Ok(()) => {},
                Err(c) => {
                    return Err(c);
                },
            }
            index = index + 1;
        }
        proof {
            assert(acc + Seq::<EmittedView>::empty() =~= acc);
        }
        Ok(())
    }

    /// The unpacker for a member of a zip archive: named as the member,
    /// with its time (unknown where it cannot be held) and, where the
    /// archive gives one, its mode.
    pub fn with_zip_member(&self, member: &ZipMember) -> (child: Unpacker<'a>)
        requires
            self.current.depth < u32::MAX,
        ensures
            child.options == self.options,
            child.walks == self.walks,
            child.current@ == zip_child(self.current@, member@),
    {
        let mut unpacker = self.with_path(member.name.as_str());
        unpacker.current.meta.mtime =
        match simple_time_tm(member.modified) {
            Ok(t) => t,
            Err(_) => 0,
        };
        unpacker.current.meta.ownership =
        match member.mode {
            Some(mode) => Ownership::Posix { user: None, group: None, mode },
            None => Ownership::Unknown,
        };
        unpacker
    }

    /// Unpacks every member of the zip archive `data`, in the order of its
    /// directory, until the directory ends or something fails.
    pub fn process_zip(&self, data: &[u8], out: &mut Vec<Emitted>) -> (done: Result<(), Cause>)
        requires
            self.current.depth < self.options.max_depth,
        ensures
            grew_by(old(out)@, final(out)@, zip_run(self.setting(), self.current@, data@)),
            outcome_view(done) == zip_run(self.setting(), self.current@, data@).result,
        decreases depth_left(self.setting(), self.current@), 0nat, 0nat,
    {
        proof {
            lemma_none_added(out@);
        }
        if has_aes_field(data) {
            return Err(
                Cause::Kind(
                    ErrorKind::UnsupportedFeature("encryption in a zip archive".to_owned()),
                ),
            );
        }
        let count = match zip_len(data) {
            Ok(count) => count,
            Err(e) => {
                return Err(zip_cause(e));
            },
        };
        let ghost whole = zip_from(self.setting(), self.current@, data@, 0, count as nat);
        let ghost mut acc: Seq<EmittedView> = Seq::empty();
        let mut index: usize = 0;
        proof {
            lemma_step(acc, Run::done(), whole);
            assert(acc + Run::done().out =~= acc);
        }
        while index < count
            invariant
                self.current.depth < self.options.max_depth,
                index <= count,
                !names_aes(data@),
                whole == zip_run(self.setting(), self.current@, data@),
                whole == (Run { out: acc, result: Ok(()) }).followed_by(
                    zip_from(self.setting(), self.current@, data@, index as nat, count as nat),
                ),
                emitted_views(out@) == emitted_views(old(out)@) + acc,
            decreases count - index,
        {
            let ghost rest = zip_from(
                self.setting(),
                self.current@,
                data@,
                (index + 1) as nat,
                count as nat,
            );
            proof {
                assert(acc + Seq::<EmittedView>::empty() =~= acc);
            }
            let member = match zip_member(data, index) {
                Ok(member) => member,
                Err(e) => {
                    return Err(zip_cause(e));
                },
            };
            let unpacker = self.with_zip_member(&member);
            let ghost step = entry_run(
                self.setting(),
                unpacker.current@,
                member.body@,
                member.size,
            );
            let done = unpacker.unpack_entry(&member.body, member.size, out);
            proof {
                lemma_step(acc, step, rest);
                lemma_added_twice(emitted_views(old(out)@), acc, step.out);
                acc = acc + step.out;
            }
            match done {
                Ok(()) => {},
                Err(c) => {
                    return Err(c);
                },
            }
            index = index + 1;
        }
        proof {
            assert(acc + Seq::<EmittedView>::empty() =~= acc);
        }
        Ok(())
    }

    /// Unpacks every partition that the table at the start of the disk
    /// image `data` lists, in the order of the table.
    pub fn process_disk_image(&self, data: &[u8], out: &mut Vec<Emitted>) -> (done: Result<
        (),
        Cause,
    >)
        requires
            self.current.depth < self.options.max_depth,
        ensures
            grew_by(old(out)@, final(out)@, disk_run(self.setting(), self.current@, data@)),
            outcome_view(done) == disk_run(self.setting(), self.current@, data@).result,
        decreases depth_left(self.setting(), self.current@), 0nat, 0nat,
    {
        proof {
            lemma_none_added(out@);
        }
        if has_gpt_out_of_bounds(data) {
            return Err(Cause::Io(IoFailure { os_code: None, kind: IoKind::InvalidData }));
        }
        let parts = match list_partitions(data) {
            Ok(parts) => parts,
            Err(f) => {
                return Err(Cause::Io(f));
            },
        };
        let ghost whole = parts_from(self.setting(), self.current@, data@, parts@, 0);
        let ghost mut acc: Seq<EmittedView> = Seq::empty();
        let mut index: usize = 0;
        proof {
            lemma_step(acc, Run::done(), whole);
            assert(acc + Run::done().out =~= acc);
        }
        while index < parts.len()
            invariant
                self.current.depth < self.options.max_depth,
                index <= parts.len(),
                whole == disk_run(self.setting(), self.current@, data@),
                whole == (Run { out: acc, result: Ok(()) }).followed_by(
                    parts_from(self.setting(), self.current@, data@, parts@, index as nat),
                ),
                emitted_views(out@) == emitted_views(old(out)@) + acc,
            decreases parts.len() - index,
        {
            let ghost rest = parts_from(
                self.setting(),
                self.current@,
                data@,
                parts@,
                (index + 1) as nat,
            );
            proof {
                assert(acc + Seq::<EmittedView>::empty() =~= acc);
            }
            let part = parts[index];
            let unpacker = self.with_path(partition_name(part.id).as_str());
            let body = Stream { data: partition_content(data, &part), tail: None };
            let ghost step = entry_run(self.setting(), unpacker.current@, body@, part.len);
            let done = unpacker.unpack_entry(&body, part.len, out);
            proof {
                lemma_step(acc, step, rest);
                lemma_added_twice(emitted_views(old(out)@), acc, step.out);
                acc = acc + step.out;
            }
            match done {
                Ok(()) => {},
                Err(c) => {
                    return Err(c);
                },
            }
            index = index + 1;
        }
        proof {
            assert(acc + Seq::<EmittedView>::empty() =~= acc);
        }
        Ok(())
    }
}

impl<'a> Unpacker<'a> {
    /// The unpacker for an inode of an ext4 image: named by the inode's
    /// path, with its owner, mode, times, type and attributes.
    pub fn with_inode(&self, inode: &Inode) -> (child: Unpacker<'a>)
        requires
            self.current.depth < u32::MAX,
        ensures
            child.options == self.options,
            child.walks == self.walks,
            child.current@ == inode_child(self.current@, inode@),
    {
        let mut unpacker = self.with_path(inode.path.as_str());
        unpacker.current.meta.ownership = Ownership::Posix {
            user: Some(PosixEntity { id: inode.stat.uid as u64, name: String::new() }),
            group: Some(PosixEntity { id: inode.stat.gid as u64, name: String::new() }),
            mode: inode.stat.file_mode as u32,
        };
        unpacker.current.meta.atime = simple_time_ext4(&inode.stat.atime);
        unpacker.current.meta.mtime = simple_time_ext4(&inode.stat.mtime);
        unpacker.current.meta.ctime = simple_time_ext4(&inode.stat.ctime);
        unpacker.current.meta.btime =
        match &inode.stat.btime {
            Some(btime) => simple_time_ext4(btime),
            None => 0,
        };
        unpacker.current.meta.item_type =
        match &inode.enhanced {
            Enhanced::RegularFile => ItemType::RegularFile,
            Enhanced::Directory => ItemType::Directory,
            Enhanced::Socket => ItemType::Socket,
            Enhanced::Fifo => ItemType::Fifo,
            Enhanced::SymbolicLink(dest) => ItemType::SymbolicLink(dest.clone()),
            Enhanced::CharacterDevice(major, minor) => ItemType::CharacterDevice {
                major: *major as u32,
                minor: *minor,
            },
            Enhanced::BlockDevice(major, minor) => ItemType::BlockDevice {
                major: *major as u32,
                minor: *minor,
            },
        };
        unpacker.current.meta.xattrs = copy_xattrs(&inode.stat.xattrs);
        unpacker
    }

    /// Handles one inode of an ext4 image: a regular file is unpacked, and
    /// emitted as a leaf where it is no container; anything else is emitted
    /// with its metadata and no content.
    pub fn process_regular_inode(&self, inode: &Inode, out: &mut Vec<Emitted>) -> (done: Result<
        (),
        Cause,
    >)
        requires
            self.current.depth < self.options.max_depth,
        ensures
            grew_by(old(out)@, final(out)@, inode_run(self.setting(), self.current@, inode@)),
            outcome_view(done) == inode_run(self.setting(), self.current@, inode@).result,
        decreases depth_left(self.setting(), self.current@), 0nat, 0nat,
    {
        proof {
            lemma_none_added(out@);
        }
        let unpacker = self.with_inode(inode);
        match &inode.enhanced {
            Enhanced::RegularFile => match &inode.content {
                Ok(body) => unpacker.unpack_member(body.clone(), out),
                Err(f) => Err(f.to_cause()),
            },
            _ => {
                let nothing = Stream { data: Vec::new(), tail: None };
                assert(nothing@.data =~= Seq::<u8>::empty());
                unpacker.complete_details(&nothing, 0, out)
            },
        }
    }

    /// Handles every inode that a walk over an ext4 image came by, in the
    /// order of the walk, and fails in the end where the walk did.
    pub fn process_partition(&self, walk: &Walk, out: &mut Vec<Emitted>) -> (done: Result<
        (),
        Cause,
    >)
        requires
            self.current.depth < self.options.max_depth,
        ensures
            grew_by(old(out)@, final(out)@, walk_run(self.setting(), self.current@, walk@)),
            outcome_view(done) == walk_run(self.setting(), self.current@, walk@).result,
        decreases depth_left(self.setting(), self.current@), 0nat, 1nat,
    {
        let ghost inodes = inode_views(walk.inodes@);
        let ghost whole = inodes_from(self.setting(), self.current@, inodes, 0);
        let ghost mut acc: Seq<EmittedView> = Seq::empty();
        let mut index: usize = 0;
        proof {
            lemma_none_added(out@);
            lemma_step(acc, Run::done(), whole);
            assert(acc + Run::done().out =~= acc);
        }
        while index < walk.inodes.len()
            invariant
                self.current.depth < self.options.max_depth,
                index <= walk.inodes.len(),
                inodes == inode_views(walk.inodes@),
                whole == inodes_from(self.setting(), self.current@, inodes, 0),
                walk_run(self.setting(), self.current@, walk@) == whole.followed_by(
                    match walk.failure {
                        Some(f) => Run::fail(f.cause()),
                        None => Run::done(),
                    },
                ),
                whole == (Run { out: acc, result: Ok(()) }).followed_by(
                    inodes_from(self.setting(), self.current@, inodes, index as nat),
                ),
                emitted_views(out@) == emitted_views(old(out)@) + acc,
            decreases walk.inodes.len() - index,
        {
            let ghost rest = inodes_from(
                self.setting(),
                self.current@,
                inodes,
                (index + 1) as nat,
            );
            let ghost step = inode_run(self.setting(), self.current@, inodes[index as int]);
            proof {
                assert(acc + Seq::<EmittedView>::empty() =~= acc);
                assert(inodes[index as int] == walk.inodes@[index as int]@);
            }
            let done = self.process_regular_inode(&walk.inodes[index], out);
            proof {
                lemma_step(acc, step, rest);
                lemma_added_twice(emitted_views(old(out)@), acc, step.out);
                acc = acc + step.out;
            }
            match done {
                Ok(()) => {},
                Err(c) => {
                    return Err(c);
                },
            }
            index = index + 1;
        }
        proof {
            assert(acc + Seq::<EmittedView>::empty() =~= acc);
        }
        match walk.failure {
            Some(f) => Err(f.to_cause()),
            None => Ok(()),
        }
    }
}

/// The name of a user or a group in a tar header as text: empty where the
/// header names none, `None` where the name is not UTF-8.
fn tar_text(bytes: &Option<Vec<u8>>) -> (text: Option<String>)
    ensures
        match crate::outcome::tar_name(bytes_view(*bytes)) {
            Some(name) => text matches Some(s) && s@ == name,
            None => text.is_none(),
        },
{
    match bytes {
        Some(b) => text_of(copy_bytes(b)),
        None => Some(String::new()),
    }
}

/// The bytes of a partition: what the image holds of the range that the
/// table gives.
pub fn partition_content(image: &[u8], part: &Partition) -> (bytes: Vec<u8>)
    ensures
        bytes@ == partition_bytes(image@, *part),
{
    let total = image.len();
    let start: usize = if part.first_byte <= total as u64 {
        part.first_byte as usize
    } else {
        total
    };
    let end: usize = if part.len <= (total - start) as u64 {
        start + part.len as usize
    } else {
        total
    };
    slice_to_vec(slice_subrange(image, start, end))
}

/// The label of a level of messages.
pub open spec fn level_label(level: u8) -> Seq<char> {
    if level == 0 {
        "error"@
    } else if level == 1 {
        "warn"@
    } else if level == 2 {
        "info"@
    } else {
        "debug"@
    }
}

} // verus!
