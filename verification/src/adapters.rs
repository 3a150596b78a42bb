//! The readers of the container formats. Each one is a crate of its own
//! that is called here; what it says of a given input is given a name, and
//! the unpacker is stated over those names.

use crate::errors::{failure_of, io_failure, Cause, IoFailure};
use crate::guards::{gpt_out_of_bounds, names_aes, refers_to_long_names};
use crate::tee::{Stream, StreamView};
use vstd::prelude::*;
use vstd::utf8::{decode_utf8, valid_utf8};

verus! {

#[verifier::external_type_specification]
#[verifier::external_body]
pub struct ExZipError(zip::result::ZipError);

/// What stands in front of a gzip stream, and the stream unpacked.
#[derive(Debug)]
pub struct Gzip {
    /// Seconds since the epoch, as the header holds them.
    pub mtime: u32,
    /// The bytes of the file name in the header, where there is one.
    pub name: Option<Vec<u8>>,
    pub body: Stream,
}

pub ghost struct GzipView {
    pub mtime: u32,
    pub name: Option<Seq<u8>>,
    pub body: StreamView,
}

/// One member of a tar archive: its path, its header block, and its
/// content.
#[derive(Debug)]
pub struct TarMember {
    pub path: Vec<u8>,
    pub header: Vec<u8>,
    pub body: Stream,
}

pub ghost struct TarMemberView {
    pub path: Seq<u8>,
    pub header: Seq<u8>,
    pub body: StreamView,
}

/// The numbers in a tar header, each as the reader makes it out.
#[derive(Clone, Copy, Debug)]
pub struct TarNumbers {
    pub uid: Result<u64, IoFailure>,
    pub gid: Result<u64, IoFailure>,
    pub mode: Result<u32, IoFailure>,
    pub mtime: Result<u64, IoFailure>,
}

/// The bytes of the names of user and group in a tar header, where the
/// header has such fields.
#[derive(Debug)]
pub struct TarNames {
    pub username: Option<Vec<u8>>,
    pub groupname: Option<Vec<u8>>,
}

pub ghost struct TarNamesView {
    pub username: Option<Seq<u8>>,
    pub groupname: Option<Seq<u8>>,
}

impl View for TarNames {
    type V = TarNamesView;

    open spec fn view(&self) -> TarNamesView {
        TarNamesView {
            username: bytes_view(self.username),
            groupname: bytes_view(self.groupname),
        }
    }
}

/// One member of an ar archive.
#[derive(Debug)]
pub struct ArMember {
    pub identifier: Vec<u8>,
    pub body: Stream,
}

pub ghost struct ArMemberView {
    pub identifier: Seq<u8>,
    pub body: StreamView,
}

/// One member of a zip archive.
#[derive(Debug)]
pub struct ZipMember {
    pub name: String,
    pub modified: zip::DateTime,
    pub mode: Option<u32>,
    /// The length that the archive states for the content.
    pub size: u64,
    pub body: Stream,
}

pub ghost struct ZipMemberView {
    pub name: Seq<char>,
    pub modified: zip::DateTime,
    pub mode: Option<u32>,
    pub size: u64,
    pub body: StreamView,
}

/// One partition of a disk image.
#[derive(Clone, Copy, Debug, PartialEq, Eq, Structural)]
pub struct Partition {
    pub id: usize,
    pub first_byte: u64,
    pub len: u64,
}

pub open spec fn bytes_view(bytes: Option<Vec<u8>>) -> Option<Seq<u8>> {
    match bytes {
        Some(b) => Some(b@),
        None => None,
    }
}

impl View for Gzip {
    type V = GzipView;

    open spec fn view(&self) -> GzipView {
        GzipView { mtime: self.mtime, name: bytes_view(self.name), body: self.body@ }
    }
}

impl View for TarMember {
    type V = TarMemberView;

    open spec fn view(&self) -> TarMemberView {
        TarMemberView { path: self.path@, header: self.header@, body: self.body@ }
    }
}

impl View for ArMember {
    type V = ArMemberView;

    open spec fn view(&self) -> ArMemberView {
        ArMemberView { identifier: self.identifier@, body: self.body@ }
    }
}

impl View for ZipMember {
    type V = ZipMemberView;

    open spec fn view(&self) -> ZipMemberView {
        ZipMemberView {
            name: self.name@,
            modified: self.modified,
            mode: self.mode,
            size: self.size,
            body: self.body@,
        }
    }
}

/// What the gzip reader makes of `data`.
pub uninterp spec fn gunzipped(data: Seq<u8>) -> Result<GzipView, IoFailure>;

/// What the bzip2 reader makes of `data`.
pub uninterp spec fn bunzipped(data: Seq<u8>) -> StreamView;

/// What the xz reader makes of `data`.
pub uninterp spec fn unxzed(data: Seq<u8>) -> StreamView;

/// What the tar reader finds at position `index` of the archive `data`:
/// a member, the end of the archive, or a failure.
pub uninterp spec fn tar_member_at(data: Seq<u8>, index: nat) -> Result<
    Option<TarMemberView>,
    IoFailure,
>;

/// The numbers that the tar reader makes out in a header block.
pub uninterp spec fn tar_numbers_of(header: Seq<u8>) -> TarNumbers;

/// The names that the tar reader finds in a header block.
pub uninterp spec fn tar_names_of(header: Seq<u8>) -> TarNamesView;

/// What the ar reader finds at position `index` of the archive `data`.
pub uninterp spec fn ar_member_at(data: Seq<u8>, index: nat) -> Result<
    Option<ArMemberView>,
    IoFailure,
>;

/// The number of members that the zip reader finds in `data`.
pub uninterp spec fn zip_count(data: Seq<u8>) -> Result<usize, zip::result::ZipError>;

/// What the zip reader finds at position `index` of the archive `data`.
pub uninterp spec fn zip_member_at(data: Seq<u8>, index: nat) -> Result<
    ZipMemberView,
    zip::result::ZipError,
>;

/// The partitions that the partition table at the start of `data` lists.
pub uninterp spec fn partitions_of(data: Seq<u8>) -> Result<Seq<Partition>, IoFailure>;

/// The I/O error inside an error of the zip reader, where it holds one.
pub uninterp spec fn zip_error_io(e: zip::result::ZipError) -> Option<std::io::Error>;

/// The root cause of an error of the zip reader: the I/O failure that it
/// wraps, or else the zip reader itself.
pub open spec fn zip_cause_of(e: zip::result::ZipError) -> Cause {
    match zip_error_io(e) {
        Some(io) => Cause::Io(failure_of(io)),
        None => Cause::Zip,
    }
}

pub open spec fn gzip_views(r: Result<Gzip, IoFailure>) -> Result<GzipView, IoFailure> {
    match r {
        Ok(g) => Ok(g@),
        Err(f) => Err(f),
    }
}

pub open spec fn tar_views(r: Result<Option<TarMember>, IoFailure>) -> Result<
    Option<TarMemberView>,
    IoFailure,
> {
    match r {
        Ok(Some(m)) => Ok(Some(m@)),
        Ok(None) => Ok(None),
        Err(f) => Err(f),
    }
}

pub open spec fn ar_views(r: Result<Option<ArMember>, IoFailure>) -> Result<
    Option<ArMemberView>,
    IoFailure,
> {
    match r {
        Ok(Some(m)) => Ok(Some(m@)),
        Ok(None) => Ok(None),
        Err(f) => Err(f),
    }
}

pub open spec fn zip_views(r: Result<ZipMember, zip::result::ZipError>) -> Result<
    ZipMemberView,
    zip::result::ZipError,
> {
    match r {
        Ok(m) => Ok(m@),
        Err(e) => Err(e),
    }
}

pub open spec fn partition_views(r: Result<Vec<Partition>, IoFailure>) -> Result<
    Seq<Partition>,
    IoFailure,
> {
    match r {
        Ok(ps) => Ok(ps@),
        Err(f) => Err(f),
    }
}

/// `libflate::gzip::Decoder::new` on `data`, the header's
/// `modification_time` and `filename`, and the decoder read to its end with
/// `std::io::Read::read_to_end`. Fails where the header cannot be read.
/// Otherwise the body holds every byte that came out before the stream
/// ended and, where it ended in a failure (a checksum that does not match
/// is one), that failure. The contract gives the answer a name and says
/// that the body does not end in an interruption, which `read_to_end`
/// never hands on.
#[verifier::external_body]
pub(crate) fn gunzip(data: &[u8]) -> (r: Result<Gzip, IoFailure>)
    ensures
        gzip_views(r) == gunzipped(data@),
        r matches Ok(g) ==> g.body.wf(),
{
    let mut decoder = libflate::gzip::Decoder::new(data).map_err(|e| io_failure(&e))?;
    let mut out = Vec::new();
    let tail = std::io::Read::read_to_end(&mut decoder, &mut out).err();
    Ok(
        Gzip {
            mtime: decoder.header().modification_time(),
            name: decoder.header().filename().map(|name| name.as_bytes().to_vec()),
            body: Stream { data: out, tail: tail.map(|e| io_failure(&e)) },
        },
    )
}

/// `bzip2::read::BzDecoder::new` on `data`, read to its end with
/// `std::io::Read::read_to_end`: every byte that came out and, where the
/// stream ended in a failure, that failure. The contract gives the answer a
/// name and says that it does not end in an interruption.
#[verifier::external_body]
pub(crate) fn bunzip2(data: &[u8]) -> (r: Stream)
    ensures
        r@ == bunzipped(data@),
        r.wf(),
{
    let mut decoder = bzip2::read::BzDecoder::new(data);
    let mut out = Vec::new();
    let tail = std::io::Read::read_to_end(&mut decoder, &mut out).err();
    Stream { data: out, tail: tail.map(|e| io_failure(&e)) }
}

/// `xz2::bufread::XzDecoder::new` on `data`, read to its end with
/// `std::io::Read::read_to_end`: every byte that came out and, where the
/// stream ended in a failure, that failure. The contract gives the answer a
/// name and says that it does not end in an interruption.
#[verifier::external_body]
pub(crate) fn unxz(data: &[u8]) -> (r: Stream)
    ensures
        r@ == unxzed(data@),
        r.wf(),
{
    let mut decoder = xz2::bufread::XzDecoder::new(data);
    let mut out = Vec::new();
    let tail = std::io::Read::read_to_end(&mut decoder, &mut out).err();
    Stream { data: out, tail: tail.map(|e| io_failure(&e)) }
}

/// `tar::Archive::new` on `data`, `entries`, and the entry that the
/// iterator gives after `index` others: `None` at the end of the archive,
/// the failure where the archive cannot be read that far. Of the entry:
/// `path_bytes`, the 512 bytes of its header, and its content read to the
/// end with `std::io::Read::read_to_end`. The contract gives the answer a
/// name and says that the header is one block long and that the content
/// does not end in an interruption.
#[verifier::external_body]
pub(crate) fn tar_member(data: &[u8], index: usize) -> (r: Result<Option<TarMember>, IoFailure>)
    ensures
        tar_views(r) == tar_member_at(data@, index as nat),
        r matches Ok(Some(m)) ==> m.body.wf() && m.header@.len() == 512,
{
    let mut archive = tar::Archive::new(data);
    let mut entries = archive.entries().map_err(|e| io_failure(&e))?;
    let mut entry = match entries.nth(index) {
        Some(entry) => entry.map_err(|e| io_failure(&e))?,
        None => return Ok(None),
    };
    let mut out = Vec::new();
    let tail = std::io::Read::read_to_end(&mut entry, &mut out).err();
    Ok(Some(TarMember {
        path: entry.path_bytes().into_owned(),
        header: entry.header().as_bytes().to_vec(),
        body: Stream { data: out, tail: tail.map(|e| io_failure(&e)) },
    }))
}

/// `tar::Header::from_byte_slice` on a header block and, of the header,
/// `uid`, `gid`, `mode` and `mtime`: each number, or the failure where the
/// field holds none. The contract only gives the answer a name.
#[verifier::external_body]
pub(crate) fn tar_numbers(header: &[u8]) -> (r: TarNumbers)
    requires
        header@.len() == 512,
    ensures
        r == tar_numbers_of(header@),
{
    let header = tar::Header::from_byte_slice(header);
    TarNumbers {
        uid: header.uid().map_err(|e| io_failure(&e)),
        gid: header.gid().map_err(|e| io_failure(&e)),
        mode: header.mode().map_err(|e| io_failure(&e)),
        mtime: header.mtime().map_err(|e| io_failure(&e)),
    }
}

/// `tar::Header::from_byte_slice` on a header block and, of the header,
/// `username_bytes` and `groupname_bytes`: the bytes of each name, `None`
/// for a header of the old format that has no such fields. The contract
/// only gives the answer a name.
#[verifier::external_body]
pub(crate) fn tar_names(header: &[u8]) -> (r: TarNames)
    requires
        header@.len() == 512,
    ensures
        r@ == tar_names_of(header@),
{
    let header = tar::Header::from_byte_slice(header);
    TarNames {
        username: header.username_bytes().map(|b| b.to_vec()),
        groupname: header.groupname_bytes().map(|b| b.to_vec()),
    }
}

/// `ar::Archive::new` on `data` and the entry that `next_entry` gives
/// after `index` others: `None` at the end of the archive, the failure
/// where the archive cannot be read there. Of the entry: the header's
/// `identifier` and its content read to the end with
/// `std::io::Read::read_to_end`. The contract gives the answer a name and
/// says that the content does not end in an interruption. Left out are
/// archives in which anything can be read as a reference into the table of
/// long names: the reader looks such a reference up without asking whether
/// the table reaches that far.
#[verifier::external_body]
pub(crate) fn ar_member(data: &[u8], index: usize) -> (r: Result<Option<ArMember>, IoFailure>)
    requires
        !refers_to_long_names(data@),
    ensures
        ar_views(r) == ar_member_at(data@, index as nat),
        r matches Ok(Some(m)) ==> m.body.wf(),
{
    let mut archive = ar::Archive::new(data);
    if (0..index).any(|_| archive.next_entry().is_none()) {
        return Ok(None);
    }
    let mut entry = match archive.next_entry() {
        Some(entry) => entry.map_err(|e| io_failure(&e))?,
        None => return Ok(None),
    };
    let mut out = Vec::new();
    let tail = std::io::Read::read_to_end(&mut entry, &mut out).err();
    Ok(Some(ArMember {
        identifier: entry.header().identifier().to_vec(),
        body: Stream { data: out, tail: tail.map(|e| io_failure(&e)) },
    }))
}

/// `zip::ZipArchive::new` on `data` and `len`: the number of members that
/// the archive lists, or the reader's error where it cannot be opened. The
/// contract only gives the answer a name.
#[verifier::external_body]
pub(crate) fn zip_len(data: &[u8]) -> (r: Result<usize, zip::result::ZipError>)
    ensures
        r == zip_count(data@),
{
    zip::ZipArchive::new(std::io::Cursor::new(data)).map(|archive| archive.len())
}

/// `zip::ZipArchive::new` on `data` and `by_index`: the member at
/// `index`, or the reader's error where it cannot be opened. Of the member: `name`,
/// `last_modified`, `unix_mode`, `size`, and its content read to the end
/// with `std::io::Read::read_to_end`. The contract gives the answer a name
/// and says that the content does not end in an interruption. Left out are
/// archives in which anything can be read as the extra field of an AES
/// encryption: for a member with that field and without the mark of an
/// encrypted member, `by_index` does not return.
#[verifier::external_body]
pub(crate) fn zip_member(data: &[u8], index: usize) -> (r: Result<
    ZipMember,
    zip::result::ZipError,
>)
    requires
        !names_aes(data@),
    ensures
        zip_views(r) == zip_member_at(data@, index as nat),
        r matches Ok(m) ==> m.body.wf(),
{
    let mut archive = zip::ZipArchive::new(std::io::Cursor::new(data))?;
    let mut file = archive.by_index(index)?;
    let mut out = Vec::new();
    let tail = std::io::Read::read_to_end(&mut file, &mut out).err();
    Ok(ZipMember {
        name: file.name().to_string(),
        modified: file.last_modified(),
        mode: file.unix_mode(),
        size: file.size(),
        body: Stream { data: out, tail: tail.map(|e| io_failure(&e)) },
    })
}

/// Takes an error of the zip reader apart: `Some` with the I/O error
/// inside for the variant `ZipError::Io`, `None` for every other variant.
/// The contract only gives the answer a name.
#[verifier::external_body]
fn zip_io_error(e: zip::result::ZipError) -> (io: Option<std::io::Error>)
    ensures
        io == zip_error_io(e),
{
    match e {
        zip::result::ZipError::Io(inner) => Some(inner),
        zip::result::ZipError::InvalidArchive(_) => None,
        zip::result::ZipError::UnsupportedArchive(_) => None,
        zip::result::ZipError::FileNotFound => None,
    }
}

/// The root cause of an error of the zip reader.
pub fn zip_cause(e: zip::result::ZipError) -> (cause: Cause)
    ensures
        cause == zip_cause_of(e),
{
    match zip_io_error(e) {
        Some(io) => Cause::Io(io_failure(&io)),
        None => Cause::Zip,
    }
}

/// `bootsector::list_partitions` on `data` with the default options: of
/// each partition that the table lists its number, where it starts and how
/// long it is, or the failure where there is no table to read. The contract
/// only gives the answer a name. Left out are boot sectors that lead to a
/// GUID partition table in a sector without a size, or to one whose header
/// claims to be longer than its sector: the reader takes both at their
/// word.
#[verifier::external_body]
pub(crate) fn list_partitions(data: &[u8]) -> (r: Result<Vec<Partition>, IoFailure>)
    requires
        !gpt_out_of_bounds(data@),
    ensures
        partition_views(r) == partitions_of(data@),
{
    bootsector::list_partitions(data, &bootsector::Options::default())
        .map(|found| {
            found.iter().map(|p| Partition { id: p.id, first_byte: p.first_byte, len: p.len }).collect()
        })
        .map_err(|e| io_failure(&e))
}

/// `String::from_utf8`: the text that `bytes` encode, where they are
/// valid UTF-8, and `None` where they are not.
#[verifier::external_body]
pub(crate) fn text_of(bytes: Vec<u8>) -> (text: Option<String>)
    ensures
        text.is_some() == valid_utf8(bytes@),
        text matches Some(s) ==> s@ == decode_utf8(bytes@),
{
    String::from_utf8(bytes).ok()
}

} // verus!
