//! The record as it goes over the wire: a magic number in front of an
//! entry whose type is never unknown and whose attributes are sorted by
//! name.

use crate::errors::{Cause, CauseView};
use crate::meta::{
    entity_view, xattr_views, FileEntry, FileEntryView, ItemType, ItemTypeView, Meta, MetaView,
    Ownership, OwnershipView, PosixEntity, PosixEntityView, Xattr, XattrView,
};
use vstd::prelude::*;
use vstd::utf8::encode_utf8;

verus! {

/// The number that every record starts with.
pub const MAGIC: u32 = 0x0100C1C1;

/// One record on the wire.
#[derive(Debug)]
pub struct EntryRecord {
    pub magic: u32,
    pub entry: FileEntry,
}

pub ghost struct EntryRecordView {
    pub magic: u32,
    pub entry: FileEntryView,
}

impl View for EntryRecord {
    type V = EntryRecordView;

    open spec fn view(&self) -> EntryRecordView {
        EntryRecordView { magic: self.magic, entry: self.entry@ }
    }
}

/// `a` comes before `b` or equals it, byte by byte; a prefix comes first.
pub open spec fn bytes_le(a: Seq<u8>, b: Seq<u8>) -> bool
    decreases a.len(),
{
    if a.len() == 0 {
        true
    } else if b.len() == 0 {
        false
    } else if a[0] != b[0] {
        a[0] < b[0]
    } else {
        bytes_le(a.drop_first(), b.drop_first())
    }
}

/// The order of names: that of their UTF-8 encodings.
pub open spec fn name_le(a: Seq<char>, b: Seq<char>) -> bool {
    bytes_le(encode_utf8(a), encode_utf8(b))
}

/// No attribute stands before one with a smaller name.
pub open spec fn sorted_by_name(xattrs: Seq<XattrView>) -> bool {
    forall|i: int, j: int|
        0 <= i < j < xattrs.len() ==> name_le(#[trigger] xattrs[i].name, #[trigger] xattrs[j].name)
}

pub proof fn lemma_bytes_le_total(a: Seq<u8>, b: Seq<u8>)
    ensures
        bytes_le(a, b) || bytes_le(b, a),
    decreases a.len(),
{
    if a.len() > 0 && b.len() > 0 && a[0] == b[0] {
        lemma_bytes_le_total(a.drop_first(), b.drop_first());
    }
}

pub proof fn lemma_bytes_le_transitive(a: Seq<u8>, b: Seq<u8>, c: Seq<u8>)
    requires
        bytes_le(a, b),
        bytes_le(b, c),
    ensures
        bytes_le(a, c),
    decreases a.len(),
{
    if a.len() > 0 && b.len() > 0 && c.len() > 0 && a[0] == b[0] && b[0] == c[0] {
        lemma_bytes_le_transitive(a.drop_first(), b.drop_first(), c.drop_first());
    }
}

/// Whether `a` comes before `b` or equals it in the order of names.
pub fn name_before_or_equal(a: &str, b: &str) -> (yes: bool)
    ensures
        yes == name_le(a@, b@),
{
    let x = a.as_bytes();
    let y = b.as_bytes();
    let mut i: usize = 0;
    assert(x@.subrange(0, x.len() as int) =~= x@);
    assert(y@.subrange(0, y.len() as int) =~= y@);
    loop
        invariant
            i <= x.len(),
            i <= y.len(),
            x@ == encode_utf8(a@),
            y@ == encode_utf8(b@),
            bytes_le(x@, y@) == bytes_le(
                x@.subrange(i as int, x.len() as int),
                y@.subrange(i as int, y.len() as int),
            ),
        decreases x.len() - i,
    {
        let ghost xs = x@.subrange(i as int, x.len() as int);
        let ghost ys = y@.subrange(i as int, y.len() as int);
        if i == x.len() {
            return true;
        }
        if i == y.len() {
            return false;
        }
        assert(xs[0] == x@[i as int] && ys[0] == y@[i as int]);
        if x[i] != y[i] {
            return x[i] < y[i];
        }
        assert(xs.drop_first() =~= x@.subrange(i + 1, x.len() as int));
        assert(ys.drop_first() =~= y@.subrange(i + 1, y.len() as int));
        i = i + 1;
    }
}

/// Where an attribute called `name` goes into a sorted list: behind every
/// attribute, from `from` on, whose name is not greater.
pub open spec fn insert_point(sorted: Seq<XattrView>, name: Seq<char>, from: int) -> int
    decreases sorted.len() - from,
{
    if 0 <= from < sorted.len() && name_le(sorted[from].name, name) {
        insert_point(sorted, name, from + 1)
    } else {
        from
    }
}

/// The attributes in the order of their names; attributes of one name keep
/// the order they had.
pub open spec fn sort_by_name(xattrs: Seq<XattrView>) -> Seq<XattrView>
    decreases xattrs.len(),
{
    if xattrs.len() == 0 {
        Seq::empty()
    } else {
        let done = sort_by_name(xattrs.drop_last());
        done.insert(insert_point(done, xattrs.last().name, 0), xattrs.last())
    }
}

proof fn lemma_insert_point(sorted: Seq<XattrView>, name: Seq<char>, from: int)
    requires
        0 <= from <= sorted.len(),
    ensures
        from <= insert_point(sorted, name, from) <= sorted.len(),
        forall|j: int|
            from <= j < insert_point(sorted, name, from) ==> name_le(
                #[trigger] sorted[j].name,
                name,
            ),
        insert_point(sorted, name, from) < sorted.len() ==> !name_le(
            sorted[insert_point(sorted, name, from)].name,
            name,
        ),
    decreases sorted.len() - from,
{
    if from < sorted.len() && name_le(sorted[from].name, name) {
        lemma_insert_point(sorted, name, from + 1);
    }
}

/// Sorting puts the attributes in the order of their names and neither
/// adds nor drops one.
pub proof fn lemma_sort_by_name(xattrs: Seq<XattrView>)
    ensures
        sorted_by_name(sort_by_name(xattrs)),
        sort_by_name(xattrs).to_multiset() == xattrs.to_multiset(),
        sort_by_name(xattrs).len() == xattrs.len(),
    decreases xattrs.len(),
{
    if xattrs.len() == 0 {
        assert(xattrs =~= Seq::empty());
    } else {
        let before = sort_by_name(xattrs.drop_last());
        let item = xattrs.last();
        let at = insert_point(before, item.name, 0);
        let after = sort_by_name(xattrs);
        lemma_sort_by_name(xattrs.drop_last());
        lemma_insert_point(before, item.name, 0);
        assert(after == before.insert(at, item));
        vstd::seq_lib::to_multiset_insert(before, at, item);
        assert(xattrs =~= xattrs.drop_last().push(item));
        vstd::seq_lib::to_multiset_build(xattrs.drop_last(), item);
        assert(after.to_multiset() =~= xattrs.to_multiset());
        assert forall|j: int| at <= j < before.len() implies name_le(
            item.name,
            #[trigger] before[j].name,
        ) by {
            lemma_bytes_le_total(encode_utf8(before[at].name), encode_utf8(item.name));
            if j > at {
                assert(name_le(before[at].name, before[j].name));
                lemma_bytes_le_transitive(
                    encode_utf8(item.name),
                    encode_utf8(before[at].name),
                    encode_utf8(before[j].name),
                );
            }
        }
        assert forall|p: int, q: int| 0 <= p < q < after.len() implies name_le(
            #[trigger] after[p].name,
            #[trigger] after[q].name,
        ) by {
            if q < at {
                assert(after[p] == before[p] && after[q] == before[q]);
            } else if q == at {
                assert(after[p] == before[p]);
            } else if p < at {
                assert(after[p] == before[p] && after[q] == before[q - 1]);
                if q - 1 == p {
                }
            } else if p == at {
                assert(after[q] == before[q - 1]);
            } else {
                assert(after[p] == before[p - 1] && after[q] == before[q - 1]);
            }
        }
    }
}

/// The attributes in the order of their names.
pub fn sorted_xattrs(xattrs: &Vec<Xattr>) -> (sorted: Vec<Xattr>)
    ensures
        xattr_views(sorted@) == sort_by_name(xattr_views(xattrs@)),
{
    let mut sorted: Vec<Xattr> = Vec::new();
    let mut i: usize = 0;
    assert(xattr_views(sorted@) =~= sort_by_name(xattr_views(xattrs@.subrange(0, 0))));
    while i < xattrs.len()
        invariant
            i <= xattrs.len(),
            sorted.len() == i,
            xattr_views(sorted@) == sort_by_name(xattr_views(xattrs@.subrange(0, i as int))),
        decreases xattrs.len() - i,
    {
        let item = xattrs[i].clone();
        let mut at: usize = 0;
        let ghost before = xattr_views(sorted@);
        while at < sorted.len() && name_before_or_equal(
            sorted[at].name.as_str(),
            item.name.as_str(),
        )
            invariant
                at <= sorted.len(),
                before == xattr_views(sorted@),
                insert_point(before, item@.name, 0) == insert_point(before, item@.name, at as int),
            decreases sorted.len() - at,
        {
            assert(before[at as int] == sorted[at as int]@);
            at = at + 1;
        }
        proof {
            if at < sorted.len() {
                assert(before[at as int] == sorted[at as int]@);
            }
        }
        sorted.insert(at, item);
        proof {
            let after = xattr_views(sorted@);
            assert(after =~= before.insert(at as int, item@));
            let next = xattr_views(xattrs@.subrange(0, i + 1));
            assert(next.drop_last() =~= xattr_views(xattrs@.subrange(0, i as int)));
            assert(next.last() == item@);
        }
        i = i + 1;
    }
    assert(xattrs@.subrange(0, i as int) =~= xattrs@);
    sorted
}

/// The type that goes on the wire: an unknown one is written as a
/// directory where there is no content and as a regular file where there
/// is some.
pub open spec fn wire_type(item_type: ItemTypeView, size: u64) -> ItemTypeView {
    match item_type {
        ItemTypeView::Unknown => if size == 0 {
            ItemTypeView::Directory
        } else {
            ItemTypeView::RegularFile
        },
        other => other,
    }
}

/// What a record's metadata is after `meta` was written into it: all of
/// `meta` but the container, which stays, with the type made definite and
/// the attributes sorted by name.
pub open spec fn written_meta(meta: MetaView, before: MetaView, size: u64) -> MetaView {
    MetaView {
        atime: meta.atime,
        mtime: meta.mtime,
        ctime: meta.ctime,
        btime: meta.btime,
        ownership: meta.ownership,
        item_type: wire_type(meta.item_type, size),
        container: before.container,
        xattrs: sort_by_name(meta.xattrs),
    }
}

/// Writes the metadata of an entry of `size` bytes into a record: the
/// times, the owner with the numbers of user and group in full, the type
/// (an unknown one becomes a directory for no content, a regular file
/// otherwise) and the attributes sorted by name. The record's container
/// field stays as it was. Nothing in the metadata can make the writing
/// fail.
pub fn write_meta(meta: &Meta, entry: &mut EntryRecord, size: u64) -> (done: Result<(), Cause>)
    ensures
        done.is_ok(),
        final(entry).magic == old(entry).magic,
        final(entry).entry.len == old(entry).entry.len,
        final(entry).entry.paths == old(entry).entry.paths,
        final(entry).entry.content_follows == old(entry).entry.content_follows,
        final(entry).entry.meta@ == written_meta(meta@, old(entry).entry.meta@, size),
{
    entry.entry.meta.atime = meta.atime;
    entry.entry.meta.mtime = meta.mtime;
    entry.entry.meta.ctime = meta.ctime;
    entry.entry.meta.btime = meta.btime;
    entry.entry.meta.ownership = meta.ownership.clone();
    entry.entry.meta.item_type =
    match &meta.item_type {
        ItemType::Unknown => if size == 0 {
            ItemType::Directory
        } else {
            ItemType::RegularFile
        },
        other => other.clone(),
    };
    entry.entry.meta.xattrs = sorted_xattrs(&meta.xattrs);
    Ok(())
}

/// The entry that a reader gets out of a record: the record's entry, where
/// user and group of a POSIX owner that the record leaves out are number
/// zero with no name.
pub open spec fn entry_as_read(entry: FileEntryView) -> FileEntryView {
    FileEntryView { meta: MetaView { ownership: owner_as_read(entry.meta.ownership), ..entry.meta }, ..entry }
}

pub open spec fn owner_as_read(ownership: OwnershipView) -> OwnershipView {
    match ownership {
        OwnershipView::Unknown => OwnershipView::Unknown,
        OwnershipView::Posix { user, group, mode } => OwnershipView::Posix {
            user: Some(entity_as_read(user)),
            group: Some(entity_as_read(group)),
            mode,
        },
    }
}

pub open spec fn entity_as_read(e: Option<PosixEntityView>) -> PosixEntityView {
    match e {
        Some(e) => e,
        None => PosixEntityView { id: 0, name: Seq::empty() },
    }
}

fn read_entity(e: &Option<PosixEntity>) -> (whole: PosixEntity)
    ensures
        whole@ == entity_as_read(entity_view(*e)),
{
    match e {
        Some(e) => e.clone(),
        None => PosixEntity { id: 0, name: String::new() },
    }
}

/// Takes the next record of a stream apart. `None` stands for the end of
/// the stream and gives `None`. A record that does not start with the magic
/// number is refused; of any other the entry is handed out.
pub fn read_entry(from: Option<&EntryRecord>) -> (entry: Result<Option<FileEntry>, Cause>)
    ensures
        match from {
            None => entry matches Ok(None),
            Some(record) => if record.magic == MAGIC {
                (entry matches Ok(Some(e)) && e@ == entry_as_read(record.entry@))
            } else {
                (entry matches Err(c) && c@ == CauseView::Message(
                    "invalid magic after decoding; invalid stream?"@,
                ))
            },
        },
{
    match from {
        None => Ok(None),
        Some(record) => {
            if record.magic != MAGIC {
                return Err(
                    Cause::Message("invalid magic after decoding; invalid stream?".to_owned()),
                );
            }
            let mut entry = record.entry.clone();
            entry.meta.ownership =
            match &record.entry.meta.ownership {
                Ownership::Unknown => Ownership::Unknown,
                Ownership::Posix { user, group, mode } => Ownership::Posix {
                    user: Some(read_entity(user)),
                    group: Some(read_entity(group)),
                    mode: *mode,
                },
            };
            Ok(Some(entry))
        },
    }
}

} // verus!
