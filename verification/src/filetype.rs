//! Recognising a container format from the first bytes of a stream.

use vstd::prelude::*;

verus! {

/// The container formats that can be told apart by a prefix of the stream.
#[derive(Clone, Copy, Debug, PartialEq, Eq, Structural)]
pub enum FileType {
    GZip,
    Zip,
    Tar,
    BZip2,
    Xz,
    Deb,
    DiskImage,
    Ext4,
    Other,
}

/// The sum of all bytes of `s`.
pub open spec fn sum_bytes(s: Seq<u8>) -> int
    decreases s.len(),
{
    if s.len() == 0 {
        0
    } else {
        sum_bytes(s.drop_last()) + s.last() as int
    }
}

/// The number an octal digit string stands for. Only meaningful when every
/// byte of `digits` is an ASCII digit between `0` and `7`.
pub open spec fn octal_value(digits: Seq<u8>) -> int
    decreases digits.len(),
{
    if digits.len() == 0 {
        0
    } else {
        octal_value(digits.drop_last()) * 8 + (digits.last() as int - 0x30)
    }
}

pub open spec fn is_octal_digit(b: u8) -> bool {
    0x30 <= b <= 0x37
}

pub open spec fn all_octal(digits: Seq<u8>) -> bool {
    forall|i: int| 0 <= i < digits.len() ==> is_octal_digit(#[trigger] digits[i])
}

/// Index of the first byte at or after `i` that is not a space.
pub open spec fn skip_spaces(field: Seq<u8>, i: int) -> int
    decreases field.len() - i,
{
    if 0 <= i < field.len() && field[i] == 0x20 {
        skip_spaces(field, i + 1)
    } else {
        i
    }
}

/// Index of the last byte of the number: trailing spaces and NULs after
/// `start` are dropped, the byte at `start` itself always stays.
pub open spec fn trim_end(field: Seq<u8>, start: int, end: int) -> int
    decreases end,
{
    if 0 <= start < end < field.len() && (field[end] == 0x20 || field[end] == 0) {
        trim_end(field, start, end - 1)
    } else {
        end
    }
}

/// The text of the number inside a padded field: what is left once leading
/// spaces and trailing spaces and NULs are taken away.
pub open spec fn octal_text(field: Seq<u8>) -> Seq<u8> {
    if field.len() == 0 {
        Seq::empty()
    } else {
        let start = skip_spaces(field, 0);
        let end = trim_end(field, start, field.len() - 1);
        if start <= end {
            field.subrange(start, end + 1)
        } else {
            Seq::empty()
        }
    }
}

/// The digits of a number text: the text itself, without one leading `+`.
pub open spec fn unsigned_digits(text: Seq<u8>) -> Seq<u8> {
    if text.len() > 0 && text[0] == 0x2b {
        text.subrange(1, text.len() as int)
    } else {
        text
    }
}

/// What a padded octal field holds: a value when the field's text is a
/// non-empty run of octal digits (after an optional `+`) that fits in 32
/// bits, nothing otherwise.
pub open spec fn parse_octal(field: Seq<u8>) -> Option<u32> {
    let digits = unsigned_digits(octal_text(field));
    if digits.len() > 0 && all_octal(digits) && octal_value(digits) <= u32::MAX {
        Some(octal_value(digits) as u32)
    } else {
        None
    }
}

/// The checksum a tar header block should carry: all bytes of the block,
/// with the eight bytes of the checksum field counted as spaces.
pub open spec fn tar_checksum(header: Seq<u8>) -> int {
    8 * 0x20 + sum_bytes(header.subrange(0, 148)) + sum_bytes(header.subrange(156, 512))
}

/// A block whose stored checksum matches its content.
pub open spec fn looks_like_tar(header: Seq<u8>) -> bool {
    header.len() >= 512 && parse_octal(header.subrange(148, 156)) == Some(
        tar_checksum(header) as u32,
    )
}

/// `pattern` stands in `bytes` at offset `at`.
pub open spec fn has_bytes_at(bytes: Seq<u8>, at: int, pattern: Seq<u8>) -> bool {
    at + pattern.len() <= bytes.len() && forall|i: int|
        0 <= i < pattern.len() ==> bytes[at + i] == #[trigger] pattern[i]
}

/// `!<arch>\ndebian-binary `
pub open spec fn deb_prefix() -> Seq<u8> {
    seq![
        0x21u8, 0x3c, 0x61, 0x72, 0x63, 0x68, 0x3e, 0x0a, 0x64, 0x65, 0x62, 0x69, 0x61, 0x6e,
        0x2d, 0x62, 0x69, 0x6e, 0x61, 0x72, 0x79, 0x20,
    ]
}

/// The end of the first member header and the start of the version: `` `\n2. ``
pub open spec fn deb_version() -> Seq<u8> {
    seq![0x60u8, 0x0a, 0x32, 0x2e]
}

/// A gzip stream: the two bytes of its magic number. Like every rule, this
/// one asks of the prefix only that it reaches the bytes it names.
pub open spec fn is_gzip(h: Seq<u8>) -> bool {
    h.len() >= 2 && h[0] == 0x1f && h[1] == 0x8b
}

/// A zip archive: `PK`, 3, 4.
pub open spec fn is_zip(h: Seq<u8>) -> bool {
    h.len() >= 4 && h[0] == 0x50 && h[1] == 0x4b && h[2] == 0x03 && h[3] == 0x04
}

/// A tar archive with the `ustar` mark and one of its two versions.
pub open spec fn is_ustar(h: Seq<u8>) -> bool {
    h.len() >= 265 && h[257] == 0x75 && h[258] == 0x73 && h[259] == 0x74 && h[260] == 0x61
        && h[261] == 0x72 && ((h[262] == 0 && h[263] == 0x30 && h[264] == 0x30) || (h[262]
        == 0x20 && h[263] == 0x20 && h[264] == 0))
}

/// A Debian package: an ar archive whose first member is `debian-binary`
/// and holds a version that begins with `2.`.
pub open spec fn is_deb(h: Seq<u8>) -> bool {
    h.len() >= 70 && has_bytes_at(h, 0, deb_prefix()) && has_bytes_at(h, 66, deb_version())
}

/// A bzip2 stream: `BZh`, a level that is not looked at, and the mark of
/// the first block.
pub open spec fn is_bzip2(h: Seq<u8>) -> bool {
    h.len() >= 10 && h[0] == 0x42 && h[1] == 0x5a && h[2] == 0x68 && h[4] == 0x31 && h[5] == 0x41
        && h[6] == 0x59 && h[7] == 0x26 && h[8] == 0x53 && h[9] == 0x59
}

/// An xz stream: the six bytes of its magic number.
pub open spec fn is_xz(h: Seq<u8>) -> bool {
    h.len() >= 6 && h[0] == 0xfd && h[1] == 0x37 && h[2] == 0x7a && h[3] == 0x58 && h[4] == 0x5a
        && h[5] == 0
}

/// A disk image: the boot signature at the end of the first sector.
pub open spec fn is_disk_image(h: Seq<u8>) -> bool {
    h.len() >= 512 && h[510] == 0x55 && h[511] == 0xaa
}

/// An ext4 file system: the magic number of its superblock.
pub open spec fn is_ext4(h: Seq<u8>) -> bool {
    h.len() >= 0x43a && h[0x438] == 0x53 && h[0x439] == 0xef
}

/// The format of a stream that starts with `h`: the first rule that
/// matches, in this order, decides.
pub open spec fn classify(h: Seq<u8>) -> FileType {
    if is_gzip(h) {
        FileType::GZip
    } else if is_zip(h) {
        FileType::Zip
    } else if is_ustar(h) {
        FileType::Tar
    } else if is_deb(h) {
        FileType::Deb
    } else if is_bzip2(h) {
        FileType::BZip2
    } else if is_xz(h) {
        FileType::Xz
    } else if looks_like_tar(h) {
        FileType::Tar
    } else if is_disk_image(h) {
        FileType::DiskImage
    } else if is_ext4(h) {
        FileType::Ext4
    } else {
        FileType::Other
    }
}

/// Whether the rule for `tag` alone accepts `h`, whatever the other rules say.
pub open spec fn rule_accepts(tag: FileType, h: Seq<u8>) -> bool {
    match tag {
        FileType::GZip => is_gzip(h),
        FileType::Zip => is_zip(h),
        FileType::Tar => is_ustar(h) || looks_like_tar(h),
        FileType::Deb => is_deb(h),
        FileType::BZip2 => is_bzip2(h),
        FileType::Xz => is_xz(h),
        FileType::DiskImage => is_disk_image(h),
        FileType::Ext4 => is_ext4(h),
        FileType::Other => true,
    }
}

proof fn lemma_sum_bytes_bounds(s: Seq<u8>)
    ensures
        0 <= sum_bytes(s) <= 255 * s.len(),
    decreases s.len(),
{
    if s.len() > 0 {
        lemma_sum_bytes_bounds(s.drop_last());
    }
}

proof fn lemma_octal_value_grows(digits: Seq<u8>, k: int)
    requires
        all_octal(digits),
        0 <= k <= digits.len(),
    ensures
        0 <= octal_value(digits.subrange(0, k)) <= octal_value(digits),
    decreases digits.len() - k,
{
    lemma_octal_value_nonneg(digits.subrange(0, k));
    if k < digits.len() {
        let next = digits.subrange(0, k + 1);
        assert(next.drop_last() =~= digits.subrange(0, k));
        assert(is_octal_digit(digits[k]));
        assert(next.last() == digits[k]);
        lemma_octal_value_grows(digits, k + 1);
    } else {
        assert(digits.subrange(0, k) =~= digits);
    }
}

proof fn lemma_octal_value_nonneg(digits: Seq<u8>)
    requires
        all_octal(digits),
    ensures
        0 <= octal_value(digits),
    decreases digits.len(),
{
    if digits.len() > 0 {
        assert(is_octal_digit(digits[digits.len() - 1]));
        lemma_octal_value_nonneg(digits.drop_last());
    }
}

/// Adds up the bytes of `bytes[from..to]`.
fn sum_range(bytes: &[u8], from: usize, to: usize) -> (sum: u32)
    requires
        from <= to <= bytes.len(),
        to - from <= 512,
    ensures
        sum == sum_bytes(bytes@.subrange(from as int, to as int)),
{
    let mut sum: u32 = 0;
    let mut i: usize = from;
    while i < to
        invariant
            from <= i <= to <= bytes.len(),
            to - from <= 512,
            sum == sum_bytes(bytes@.subrange(from as int, i as int)),
            sum <= 255 * (i - from),
        decreases to - i,
    {
        proof {
            let next = bytes@.subrange(from as int, i as int + 1);
            assert(next.drop_last() =~= bytes@.subrange(from as int, i as int));
            assert(next.last() == bytes@[i as int]);
        }
        sum = sum + bytes[i] as u32;
        i = i + 1;
    }
    sum
}

/// Reads the number in a space and NUL padded octal field, as tar headers
/// hold them.
pub fn read_octal(bytes: &[u8]) -> (value: Option<u32>)
    ensures
        value == parse_octal(bytes@),
{
    if bytes.len() == 0 {
        return None;
    }
    let mut start: usize = 0;
    while start < bytes.len() && bytes[start] == 0x20
        invariant
            start <= bytes.len(),
            skip_spaces(bytes@, 0) == skip_spaces(bytes@, start as int),
        decreases bytes.len() - start,
    {
        start = start + 1;
    }
    let mut end: usize = bytes.len() - 1;
    while end > start && (bytes[end] == 0x20 || bytes[end] == 0)
        invariant
            end < bytes.len(),
            trim_end(bytes@, start as int, bytes.len() - 1) == trim_end(
                bytes@,
                start as int,
                end as int,
            ),
        decreases end,
    {
        end = end - 1;
    }
    if start > end {
        return None;
    }
    let ghost text = bytes@.subrange(start as int, end as int + 1);
    assert(text == octal_text(bytes@));
    let mut i: usize = start;
    if bytes[i] == 0x2b {
        i = i + 1;
    }
    let ghost digits = unsigned_digits(text);
    assert(digits =~= bytes@.subrange(i as int, end as int + 1));
    if i > end {
        return None;
    }
    let first: usize = i;
    let mut value: u32 = 0;
    while i <= end
        invariant
            first <= i <= end + 1 <= bytes.len(),
            first <= end,
            digits == bytes@.subrange(first as int, end as int + 1),
            digits == unsigned_digits(octal_text(bytes@)),
            all_octal(digits.subrange(0, i - first)),
            value == octal_value(digits.subrange(0, i - first)),
        decreases end + 1 - i,
    {
        let b = bytes[i];
        if b < 0x30 || b > 0x37 {
            assert(!is_octal_digit(digits[i - first]));
            return None;
        }
        proof {
            let next = digits.subrange(0, i - first + 1);
            assert(next.drop_last() =~= digits.subrange(0, i - first));
            assert(next.last() == b);
            assert forall|j: int| 0 <= j < next.len() implies is_octal_digit(
                #[trigger] next[j],
            ) by {
                if j < i - first {
                    assert(digits.subrange(0, i - first)[j] == next[j]);
                }
            }
        }
        if value > (u32::MAX - 7) / 8 {
            proof {
                let next = digits.subrange(0, i - first + 1);
                assert(octal_value(next) > u32::MAX);
                if all_octal(digits) {
                    lemma_octal_value_grows(digits, i - first + 1);
                }
            }
            return None;
        }
        value = value * 8 + (b - 0x30) as u32;
        i = i + 1;
    }
    assert(digits.subrange(0, i - first) =~= digits);
    Some(value)
}

/// Whether a header block carries the checksum of its own content, which is
/// how a tar archive without the `ustar` mark is recognised.
pub fn is_probably_tar(header: &[u8]) -> (yes: bool)
    ensures
        yes == looks_like_tar(header@),
{
    if header.len() < 512 {
        return false;
    }
    let field = vstd::slice::slice_subrange(header, 148, 156);
    match read_octal(field) {
        Some(checksum) => {
            proof {
                lemma_sum_bytes_bounds(header@.subrange(0, 148));
                lemma_sum_bytes_bounds(header@.subrange(156, 512));
            }
            let sum: u32 = 8 * 0x20 + sum_range(header, 0, 148) + sum_range(header, 156, 512);
            checksum == sum
        },
        None => false,
    }
}

/// Whether `pattern` stands in `bytes` at offset `at`.
fn holds_at(bytes: &[u8], at: usize, pattern: &[u8]) -> (yes: bool)
    requires
        at + pattern.len() <= usize::MAX,
    ensures
        yes == has_bytes_at(bytes@, at as int, pattern@),
{
    if at + pattern.len() > bytes.len() {
        return false;
    }
    let mut i: usize = 0;
    while i < pattern.len()
        invariant
            i <= pattern.len(),
            at + pattern.len() <= bytes.len(),
            forall|j: int| 0 <= j < i ==> bytes@[at + j] == #[trigger] pattern@[j],
        decreases pattern.len() - i,
    {
        if bytes[at + i] != pattern[i] {
            return false;
        }
        i = i + 1;
    }
    true
}

impl FileType {
    /// Names the format of a stream from its first bytes. Every prefix gets
    /// exactly one tag; an unknown or too short one gets `Other`.
    pub fn identify(header: &[u8]) -> (tag: FileType)
        ensures
            tag == classify(header@),
    {
        let n = header.len();
        if n >= 2 && header[0] == 0x1f && header[1] == 0x8b {
            FileType::GZip
        } else if n >= 4 && header[0] == 0x50 && header[1] == 0x4b && header[2] == 0x03
            && header[3] == 0x04 {
            FileType::Zip
        } else if n >= 265 && header[257] == 0x75 && header[258] == 0x73 && header[259] == 0x74
            && header[260] == 0x61 && header[261] == 0x72 && ((header[262] == 0 && header[263]
            == 0x30 && header[264] == 0x30) || (header[262] == 0x20 && header[263] == 0x20
            && header[264] == 0)) {
            FileType::Tar
        } else if n >= 70 && Self::has_deb_marks(header) {
            FileType::Deb
        } else if n >= 10 && header[0] == 0x42 && header[1] == 0x5a && header[2] == 0x68
            && header[4] == 0x31 && header[5] == 0x41 && header[6] == 0x59 && header[7] == 0x26
            && header[8] == 0x53 && header[9] == 0x59 {
            FileType::BZip2
        } else if n >= 6 && header[0] == 0xfd && header[1] == 0x37 && header[2] == 0x7a
            && header[3] == 0x58 && header[4] == 0x5a && header[5] == 0 {
            FileType::Xz
        } else if is_probably_tar(header) {
            FileType::Tar
        } else if n >= 512 && header[510] == 0x55 && header[511] == 0xaa {
            FileType::DiskImage
        } else if n >= 0x43a && header[0x438] == 0x53 && header[0x439] == 0xef {
            FileType::Ext4
        } else {
            FileType::Other
        }
    }

    fn has_deb_marks(header: &[u8]) -> (yes: bool)
        ensures
            yes == (has_bytes_at(header@, 0, deb_prefix()) && has_bytes_at(
                header@,
                66,
                deb_version(),
            )),
    {
        let prefix: [u8; 22] = [
            0x21, 0x3c, 0x61, 0x72, 0x63, 0x68, 0x3e, 0x0a, 0x64, 0x65, 0x62, 0x69, 0x61, 0x6e,
            0x2d, 0x62, 0x69, 0x6e, 0x61, 0x72, 0x79, 0x20,
        ];
        let version: [u8; 4] = [0x60, 0x0a, 0x32, 0x2e];
        assert(prefix@ =~= deb_prefix());
        assert(version@ =~= deb_version());
        holds_at(header, 0, prefix.as_slice()) && holds_at(header, 66, version.as_slice())
    }

    /// The tag's name, as it is shown in messages.
    pub fn name(&self) -> (text: &'static str)
        ensures
            text@ == tag_name(*self),
    {
        match self {
            FileType::GZip => "GZip",
            FileType::Zip => "Zip",
            FileType::Tar => "Tar",
            FileType::BZip2 => "BZip2",
            FileType::Xz => "Xz",
            FileType::Deb => "Deb",
            FileType::DiskImage => "DiskImage",
            FileType::Ext4 => "Ext4",
            FileType::Other => "Other",
        }
    }
}

pub open spec fn tag_name(tag: FileType) -> Seq<char> {
    match tag {
        FileType::GZip => "GZip"@,
        FileType::Zip => "Zip"@,
        FileType::Tar => "Tar"@,
        FileType::BZip2 => "BZip2"@,
        FileType::Xz => "Xz"@,
        FileType::Deb => "Deb"@,
        FileType::DiskImage => "DiskImage"@,
        FileType::Ext4 => "Ext4"@,
        FileType::Other => "Other"@,
    }
}

/// The classifier is total and single-valued: every prefix has a tag, the
/// rule of that tag accepts the prefix, and no other tag is its
/// classification.
pub proof fn lemma_classify_total(prefix: Seq<u8>)
    ensures
        rule_accepts(classify(prefix), prefix),
        forall|tag: FileType| tag != classify(prefix) ==> !(#[trigger] is_classified_as(prefix, tag)),
        exists|tag: FileType| #[trigger] is_classified_as(prefix, tag),
{
    assert(is_classified_as(prefix, classify(prefix)));
}

/// `tag` is what the classifier says of `prefix`.
pub open spec fn is_classified_as(prefix: Seq<u8>, tag: FileType) -> bool {
    classify(prefix) == tag
}

/// The rules are tried in a fixed order: a prefix that an earlier rule
/// accepts never gets a later tag.
pub proof fn lemma_classify_priority(prefix: Seq<u8>)
    ensures
        is_gzip(prefix) ==> classify(prefix) == FileType::GZip,
        !is_gzip(prefix) && is_zip(prefix) ==> classify(prefix) == FileType::Zip,
        !is_gzip(prefix) && !is_zip(prefix) && is_ustar(prefix) ==> classify(prefix)
            == FileType::Tar,
        classify(prefix) == FileType::Other ==> !is_gzip(prefix) && !is_zip(prefix) && !is_ustar(
            prefix,
        ) && !is_deb(prefix) && !is_bzip2(prefix) && !is_xz(prefix) && !looks_like_tar(prefix)
            && !is_disk_image(prefix) && !is_ext4(prefix),
        prefix.len() < 2 ==> classify(prefix) == FileType::Other,
{
}

/// The classifier looks at no more than the first 1082 bytes, up to the
/// magic number of ext4: a stream and any of its prefixes that is at least
/// that long get the same tag.
pub proof fn lemma_classify_prefix(stream: Seq<u8>, len: int)
    requires
        0x43a <= len <= stream.len(),
    ensures
        classify(stream.subrange(0, len)) == classify(stream),
{
    let prefix = stream.subrange(0, len);
    assert(prefix.subrange(148, 156) =~= stream.subrange(148, 156));
    assert(prefix.subrange(0, 148) =~= stream.subrange(0, 148));
    assert(prefix.subrange(156, 512) =~= stream.subrange(156, 512));
    assert(deb_prefix().len() == 22);
    assert(deb_version().len() == 4);
    assert(has_bytes_at(prefix, 0, deb_prefix()) == has_bytes_at(stream, 0, deb_prefix()));
    assert(has_bytes_at(prefix, 66, deb_version()) == has_bytes_at(stream, 66, deb_version()));
}

} // verus!
