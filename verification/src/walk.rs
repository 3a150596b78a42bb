//! What a walk over an ext4 image finds, as plain values: the reader of
//! ext4 images is not called from here, so whoever has one hands its
//! findings in.

use crate::errors::{Cause, CauseView, IoFailure};
use crate::meta::{xattr_views, Xattr, XattrView};
use crate::stat::Ext4Time;
use crate::tee::{Stream, StreamView};
use vstd::prelude::*;

verus! {

/// What sort of thing an inode is, with what goes with the sort.
#[derive(Debug)]
pub enum Enhanced {
    RegularFile,
    Directory,
    Socket,
    Fifo,
    /// A symlink, with its destination.
    SymbolicLink(String),
    /// A 'c' device, with its major and minor number.
    CharacterDevice(u16, u32),
    /// A 'b' device, with its major and minor number.
    BlockDevice(u16, u32),
}

pub ghost enum EnhancedView {
    RegularFile,
    Directory,
    Socket,
    Fifo,
    SymbolicLink(Seq<char>),
    CharacterDevice(u16, u32),
    BlockDevice(u16, u32),
}

impl View for Enhanced {
    type V = EnhancedView;

    open spec fn view(&self) -> EnhancedView {
        match *self {
            Enhanced::RegularFile => EnhancedView::RegularFile,
            Enhanced::Directory => EnhancedView::Directory,
            Enhanced::Socket => EnhancedView::Socket,
            Enhanced::Fifo => EnhancedView::Fifo,
            Enhanced::SymbolicLink(dest) => EnhancedView::SymbolicLink(dest@),
            Enhanced::CharacterDevice(major, minor) => EnhancedView::CharacterDevice(major, minor),
            Enhanced::BlockDevice(major, minor) => EnhancedView::BlockDevice(major, minor),
        }
    }
}

/// Owner, mode, times and attributes of an inode.
#[derive(Debug)]
pub struct InodeStat {
    pub uid: u32,
    pub gid: u32,
    pub file_mode: u16,
    pub atime: Ext4Time,
    pub mtime: Ext4Time,
    pub ctime: Ext4Time,
    pub btime: Option<Ext4Time>,
    pub xattrs: Vec<Xattr>,
}

pub ghost struct InodeStatView {
    pub uid: u32,
    pub gid: u32,
    pub file_mode: u16,
    pub atime: Ext4Time,
    pub mtime: Ext4Time,
    pub ctime: Ext4Time,
    pub btime: Option<Ext4Time>,
    pub xattrs: Seq<XattrView>,
}

impl View for InodeStat {
    type V = InodeStatView;

    open spec fn view(&self) -> InodeStatView {
        InodeStatView {
            uid: self.uid,
            gid: self.gid,
            file_mode: self.file_mode,
            atime: self.atime,
            mtime: self.mtime,
            ctime: self.ctime,
            btime: self.btime,
            xattrs: xattr_views(self.xattrs@),
        }
    }
}

/// Why a walk, or the opening of a file during a walk, failed.
#[derive(Clone, Copy, Debug, PartialEq, Eq, Structural)]
pub enum WalkFailure {
    /// The image is not what an ext4 image has to be.
    Parse,
    /// The image could not be read.
    Io(IoFailure),
}

impl WalkFailure {
    /// The root cause that the failure stands for.
    pub open spec fn cause(self) -> CauseView {
        match self {
            WalkFailure::Parse => CauseView::Ext4,
            WalkFailure::Io(f) => CauseView::Io(f),
        }
    }

    /// The root cause that the failure stands for.
    pub fn to_cause(self) -> (cause: Cause)
        ensures
            cause@ == self.cause(),
    {
        match self {
            WalkFailure::Parse => Cause::Ext4,
            WalkFailure::Io(f) => Cause::Io(f),
        }
    }
}

/// One inode that a walk came by: where it was found, what it is, and the
/// content of a regular file, or why the file could not be opened.
#[derive(Debug)]
pub struct Inode {
    pub path: String,
    pub stat: InodeStat,
    pub enhanced: Enhanced,
    pub content: Result<Stream, WalkFailure>,
}

pub ghost struct InodeView {
    pub path: Seq<char>,
    pub stat: InodeStatView,
    pub enhanced: EnhancedView,
    pub content: Result<StreamView, WalkFailure>,
}

pub open spec fn content_view(content: Result<Stream, WalkFailure>) -> Result<
    StreamView,
    WalkFailure,
> {
    match content {
        Ok(stream) => Ok(stream@),
        Err(f) => Err(f),
    }
}

impl View for Inode {
    type V = InodeView;

    open spec fn view(&self) -> InodeView {
        InodeView {
            path: self.path@,
            stat: self.stat@,
            enhanced: self.enhanced@,
            content: content_view(self.content),
        }
    }
}

/// A walk over an ext4 image: the image, the inodes in the order in which
/// the walk came by them, and the failure that ended the walk, if one did.
#[derive(Debug)]
pub struct Walk {
    pub image: Vec<u8>,
    pub inodes: Vec<Inode>,
    pub failure: Option<WalkFailure>,
}

pub ghost struct WalkView {
    pub image: Seq<u8>,
    pub inodes: Seq<InodeView>,
    pub failure: Option<WalkFailure>,
}

/// The views of a list of inodes.
pub open spec fn inode_views(inodes: Seq<Inode>) -> Seq<InodeView> {
    inodes.map_values(|i: Inode| i@)
}

impl View for Walk {
    type V = WalkView;

    open spec fn view(&self) -> WalkView {
        WalkView { image: self.image@, inodes: inode_views(self.inodes@), failure: self.failure }
    }
}

/// The views of a list of walks.
pub open spec fn walk_views(walks: Seq<Walk>) -> Seq<WalkView> {
    walks.map_values(|w: Walk| w@)
}

/// The first walk in `walks`, from `from` on, that is a walk over `image`.
pub open spec fn walk_of(walks: Seq<WalkView>, image: Seq<u8>, from: int) -> Option<WalkView>
    decreases walks.len() - from,
{
    if 0 <= from < walks.len() {
        if walks[from].image == image {
            Some(walks[from])
        } else {
            walk_of(walks, image, from + 1)
        }
    } else {
        None
    }
}

/// Whether two byte strings are the same.
pub fn same_bytes(a: &[u8], b: &[u8]) -> (yes: bool)
    ensures
        yes == (a@ == b@),
{
    if a.len() != b.len() {
        return false;
    }
    let mut i: usize = 0;
    while i < a.len()
        invariant
            i <= a.len(),
            a.len() == b.len(),
            forall|j: int| 0 <= j < i ==> a@[j] == b@[j],
        decreases a.len() - i,
    {
        if a[i] != b[i] {
            return false;
        }
        i = i + 1;
    }
    assert(a@ =~= b@);
    true
}

/// Looks for a walk over `image` among `walks`.
pub fn find_walk<'a>(walks: &'a Vec<Walk>, image: &[u8]) -> (found: Option<&'a Walk>)
    ensures
        match walk_of(walk_views(walks@), image@, 0) {
            Some(view) => found matches Some(walk) && walk@ == view && walks@.contains(*walk),
            None => found.is_none(),
        },
{
    let mut i: usize = 0;
    while i < walks.len()
        invariant
            i <= walks.len(),
            walk_of(walk_views(walks@), image@, 0) == walk_of(walk_views(walks@), image@, i as int),
        decreases walks.len() - i,
    {
        assert(walk_views(walks@)[i as int] == walks@[i as int]@);
        if same_bytes(walks[i].image.as_slice(), image) {
            return Some(&walks[i]);
        }
        i = i + 1;
    }
    None
}

} // verus!
