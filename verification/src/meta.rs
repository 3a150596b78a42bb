//! The metadata that goes with every entry, and the record that is handed
//! to whoever consumes the output.

use vstd::prelude::*;

verus! {

/// A user or a group: the number is what counts, the name may be empty.
#[derive(Debug)]
pub struct PosixEntity {
    pub id: u64,
    pub name: String,
}

/// Who owns an entry.
#[derive(Debug)]
pub enum Ownership {
    Unknown,
    Posix { user: Option<PosixEntity>, group: Option<PosixEntity>, mode: u32 },
}

/// What sort of thing an entry is.
#[derive(Debug)]
pub enum ItemType {
    Unknown,
    RegularFile,
    Directory,
    Fifo,
    Socket,
    /// A symlink, with its destination.
    SymbolicLink(String),
    /// A hardlink, with its destination.
    HardLink(String),
    /// A 'c' device.
    CharacterDevice { major: u32, minor: u32 },
    /// A 'b' device.
    BlockDevice { major: u32, minor: u32 },
}

/// How the container that an entry came out of fared.
#[derive(Debug)]
pub enum Container {
    Unrecognised,
    Included,
    OpenError(String),
    ReadError(String),
}

/// One extended attribute.
#[derive(Debug)]
pub struct Xattr {
    pub name: String,
    pub value: Vec<u8>,
}

/// Times in nanoseconds since the epoch (zero: unknown), owner, type and
/// extended attributes of an entry.
#[derive(Debug)]
pub struct Meta {
    pub atime: u64,
    pub mtime: u64,
    pub ctime: u64,
    pub btime: u64,
    pub ownership: Ownership,
    pub item_type: ItemType,
    pub container: Container,
    pub xattrs: Vec<Xattr>,
}

/// One record of the output: where the entry was found, from the outermost
/// container inwards, how long its content is, and its metadata.
#[derive(Debug)]
pub struct FileEntry {
    pub len: u64,
    pub paths: Vec<String>,
    pub content_follows: bool,
    pub meta: Meta,
}

pub ghost struct PosixEntityView {
    pub id: u64,
    pub name: Seq<char>,
}

pub ghost enum OwnershipView {
    Unknown,
    Posix { user: Option<PosixEntityView>, group: Option<PosixEntityView>, mode: u32 },
}

pub ghost enum ItemTypeView {
    Unknown,
    RegularFile,
    Directory,
    Fifo,
    Socket,
    SymbolicLink(Seq<char>),
    HardLink(Seq<char>),
    CharacterDevice { major: u32, minor: u32 },
    BlockDevice { major: u32, minor: u32 },
}

pub ghost enum ContainerView {
    Unrecognised,
    Included,
    OpenError(Seq<char>),
    ReadError(Seq<char>),
}

pub ghost struct XattrView {
    pub name: Seq<char>,
    pub value: Seq<u8>,
}

pub ghost struct MetaView {
    pub atime: u64,
    pub mtime: u64,
    pub ctime: u64,
    pub btime: u64,
    pub ownership: OwnershipView,
    pub item_type: ItemTypeView,
    pub container: ContainerView,
    pub xattrs: Seq<XattrView>,
}

pub ghost struct FileEntryView {
    pub len: u64,
    pub paths: Seq<Seq<char>>,
    pub content_follows: bool,
    pub meta: MetaView,
}

/// The texts of a list of strings.
pub open spec fn texts(strings: Seq<String>) -> Seq<Seq<char>> {
    strings.map_values(|s: String| s@)
}

/// The views of a list of attributes.
pub open spec fn xattr_views(xattrs: Seq<Xattr>) -> Seq<XattrView> {
    xattrs.map_values(|x: Xattr| x@)
}

pub open spec fn entity_view(e: Option<PosixEntity>) -> Option<PosixEntityView> {
    match e {
        Some(e) => Some(e@),
        None => None,
    }
}

impl View for PosixEntity {
    type V = PosixEntityView;

    open spec fn view(&self) -> PosixEntityView {
        PosixEntityView { id: self.id, name: self.name@ }
    }
}

impl View for Ownership {
    type V = OwnershipView;

    open spec fn view(&self) -> OwnershipView {
        match *self {
            Ownership::Unknown => OwnershipView::Unknown,
            Ownership::Posix { user, group, mode } => OwnershipView::Posix {
                user: entity_view(user),
                group: entity_view(group),
                mode,
            },
        }
    }
}

impl View for ItemType {
    type V = ItemTypeView;

    open spec fn view(&self) -> ItemTypeView {
        match *self {
            ItemType::Unknown => ItemTypeView::Unknown,
            ItemType::RegularFile => ItemTypeView::RegularFile,
            ItemType::Directory => ItemTypeView::Directory,
            ItemType::Fifo => ItemTypeView::Fifo,
            ItemType::Socket => ItemTypeView::Socket,
            ItemType::SymbolicLink(dest) => ItemTypeView::SymbolicLink(dest@),
            ItemType::HardLink(dest) => ItemTypeView::HardLink(dest@),
            ItemType::CharacterDevice { major, minor } => ItemTypeView::CharacterDevice {
                major,
                minor,
            },
            ItemType::BlockDevice { major, minor } => ItemTypeView::BlockDevice { major, minor },
        }
    }
}

impl View for Container {
    type V = ContainerView;

    open spec fn view(&self) -> ContainerView {
        match *self {
            Container::Unrecognised => ContainerView::Unrecognised,
            Container::Included => ContainerView::Included,
            Container::OpenError(msg) => ContainerView::OpenError(msg@),
            Container::ReadError(msg) => ContainerView::ReadError(msg@),
        }
    }
}

impl View for Xattr {
    type V = XattrView;

    open spec fn view(&self) -> XattrView {
        XattrView { name: self.name@, value: self.value@ }
    }
}

impl View for Meta {
    type V = MetaView;

    open spec fn view(&self) -> MetaView {
        MetaView {
            atime: self.atime,
            mtime: self.mtime,
            ctime: self.ctime,
            btime: self.btime,
            ownership: self.ownership@,
            item_type: self.item_type@,
            container: self.container@,
            xattrs: xattr_views(self.xattrs@),
        }
    }
}

impl View for FileEntry {
    type V = FileEntryView;

    open spec fn view(&self) -> FileEntryView {
        FileEntryView {
            len: self.len,
            paths: texts(self.paths@),
            content_follows: self.content_follows,
            meta: self.meta@,
        }
    }
}

/// A copy of a byte vector.
pub fn copy_bytes(bytes: &Vec<u8>) -> (copy: Vec<u8>)
    ensures
        copy@ == bytes@,
{
    let copy = bytes.clone();
    assert(copy@ =~= bytes@);
    copy
}

/// A copy of a list of strings.
pub fn copy_strings(strings: &Vec<String>) -> (copy: Vec<String>)
    ensures
        texts(copy@) == texts(strings@),
{
    let mut copy: Vec<String> = Vec::new();
    let mut i: usize = 0;
    while i < strings.len()
        invariant
            i <= strings.len(),
            copy.len() == i,
            forall|j: int| 0 <= j < i ==> copy[j]@ == strings[j]@,
        decreases strings.len() - i,
    {
        copy.push(strings[i].clone());
        i = i + 1;
    }
    assert(texts(copy@) =~= texts(strings@));
    copy
}

impl Clone for PosixEntity {
    fn clone(&self) -> (copy: Self)
        ensures
            copy@ == self@,
    {
        PosixEntity { id: self.id, name: self.name.clone() }
    }
}

fn copy_entity(e: &Option<PosixEntity>) -> (copy: Option<PosixEntity>)
    ensures
        entity_view(copy) == entity_view(*e),
{
    match e {
        Some(e) => Some(e.clone()),
        None => None,
    }
}

impl Clone for Ownership {
    fn clone(&self) -> (copy: Self)
        ensures
            copy@ == self@,
    {
        match self {
            Ownership::Unknown => Ownership::Unknown,
            Ownership::Posix { user, group, mode } => Ownership::Posix {
                user: copy_entity(user),
                group: copy_entity(group),
                mode: *mode,
            },
        }
    }
}

impl Clone for ItemType {
    fn clone(&self) -> (copy: Self)
        ensures
            copy@ == self@,
    {
        match self {
            ItemType::Unknown => ItemType::Unknown,
            ItemType::RegularFile => ItemType::RegularFile,
            ItemType::Directory => ItemType::Directory,
            ItemType::Fifo => ItemType::Fifo,
            ItemType::Socket => ItemType::Socket,
            ItemType::SymbolicLink(dest) => ItemType::SymbolicLink(dest.clone()),
            ItemType::HardLink(dest) => ItemType::HardLink(dest.clone()),
            ItemType::CharacterDevice { major, minor } => ItemType::CharacterDevice {
                major: *major,
                minor: *minor,
            },
            ItemType::BlockDevice { major, minor } => ItemType::BlockDevice {
                major: *major,
                minor: *minor,
            },
        }
    }
}

impl Clone for Container {
    fn clone(&self) -> (copy: Self)
        ensures
            copy@ == self@,
    {
        match self {
            Container::Unrecognised => Container::Unrecognised,
            Container::Included => Container::Included,
            Container::OpenError(msg) => Container::OpenError(msg.clone()),
            Container::ReadError(msg) => Container::ReadError(msg.clone()),
        }
    }
}

impl Clone for Xattr {
    fn clone(&self) -> (copy: Self)
        ensures
            copy@ == self@,
    {
        Xattr { name: self.name.clone(), value: copy_bytes(&self.value) }
    }
}

/// A copy of a list of attributes.
pub fn copy_xattrs(xattrs: &Vec<Xattr>) -> (copy: Vec<Xattr>)
    ensures
        xattr_views(copy@) == xattr_views(xattrs@),
{
    let mut copy: Vec<Xattr> = Vec::new();
    let mut i: usize = 0;
    while i < xattrs.len()
        invariant
            i <= xattrs.len(),
            copy.len() == i,
            forall|j: int| 0 <= j < i ==> copy[j]@ == xattrs[j]@,
        decreases xattrs.len() - i,
    {
        copy.push(xattrs[i].clone());
        i = i + 1;
    }
    assert(xattr_views(copy@) =~= xattr_views(xattrs@));
    copy
}

impl Clone for Meta {
    fn clone(&self) -> (copy: Self)
        ensures
            copy@ == self@,
    {
        Meta {
            atime: self.atime,
            mtime: self.mtime,
            ctime: self.ctime,
            btime: self.btime,
            ownership: self.ownership.clone(),
            item_type: self.item_type.clone(),
            container: self.container.clone(),
            xattrs: copy_xattrs(&self.xattrs),
        }
    }
}

impl Clone for FileEntry {
    fn clone(&self) -> (copy: Self)
        ensures
            copy@ == self@,
    {
        FileEntry {
            len: self.len,
            paths: copy_strings(&self.paths),
            content_follows: self.content_follows,
            meta: self.meta.clone(),
        }
    }
}

impl Meta {
    /// The metadata of an entry about which nothing is known yet.
    pub fn blank() -> (meta: Meta)
        ensures
            meta@ == blank_meta(),
    {
        let meta = Meta {
            atime: 0,
            mtime: 0,
            ctime: 0,
            btime: 0,
            ownership: Ownership::Unknown,
            item_type: ItemType::Unknown,
            container: Container::Unrecognised,
            xattrs: Vec::new(),
        };
        assert(xattr_views(meta.xattrs@) =~= Seq::empty());
        meta
    }
}

/// All times unknown, owner and type unknown, no attributes.
pub open spec fn blank_meta() -> MetaView {
    MetaView {
        atime: 0,
        mtime: 0,
        ctime: 0,
        btime: 0,
        ownership: OwnershipView::Unknown,
        item_type: ItemTypeView::Unknown,
        container: ContainerView::Unrecognised,
        xattrs: Seq::empty(),
    }
}

impl PartialEq for ItemType {
    fn eq(&self, other: &Self) -> (same: bool) {
        match self {
            ItemType::Unknown => matches!(other, ItemType::Unknown),
            ItemType::RegularFile => matches!(other, ItemType::RegularFile),
            ItemType::Directory => matches!(other, ItemType::Directory),
            ItemType::Fifo => matches!(other, ItemType::Fifo),
            ItemType::Socket => matches!(other, ItemType::Socket),
            ItemType::SymbolicLink(a) => match other {
                ItemType::SymbolicLink(b) => *a == *b,
                _ => false,
            },
            ItemType::HardLink(a) => match other {
                ItemType::HardLink(b) => *a == *b,
                _ => false,
            },
            ItemType::CharacterDevice { major, minor } => match other {
                ItemType::CharacterDevice { major: m, minor: n } => *major == *m && *minor == *n,
                _ => false,
            },
            ItemType::BlockDevice { major, minor } => match other {
                ItemType::BlockDevice { major: m, minor: n } => *major == *m && *minor == *n,
                _ => false,
            },
        }
    }
}

impl vstd::std_specs::cmp::PartialEqSpecImpl for ItemType {
    open spec fn obeys_eq_spec() -> bool {
        true
    }

    open spec fn eq_spec(&self, other: &Self) -> bool {
        self@ == other@
    }
}

} // verus!
