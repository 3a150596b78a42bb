//! Inputs on which a reader must not be called. Three of the readers give
//! up in ways that no caller can catch: the ar reader on a reference into a
//! table of long names that is not there, the zip reader on a member that
//! names an AES encryption without being marked as encrypted, and the
//! partition reader on a GUID partition table whose sizes do not fit its
//! sector. Each test here looks at the bytes alone and is wider than the
//! fault it is for: what it lets through, the reader can take.

use vstd::prelude::*;
use vstd::slice::slice_subrange;

verus! {

/// A byte that can stand in the number of a reference to a long name, or
/// in the blanks behind it: a digit, a plus sign, white space, or a byte of
/// the UTF-8 encoding of a white space character.
pub open spec fn number_or_blank(b: u8) -> bool {
    ||| 0x09 <= b <= 0x0d
    ||| b == 0x20
    ||| b == 0x2b
    ||| 0x30 <= b <= 0x39
    ||| 0x80 <= b <= 0x8a
    ||| b == 0x9a
    ||| b == 0x9f
    ||| b == 0xa0
    ||| b == 0xa8
    ||| b == 0xa9
    ||| b == 0xaf
    ||| b == 0xc2
    ||| b == 0xe1
    ||| b == 0xe2
    ||| b == 0xe3
}

/// The fifteen bytes behind a slash can be read as a number other than
/// zero.
pub open spec fn names_a_place(field: Seq<u8>) -> bool {
    &&& field.len() == 15
    &&& forall|k: int| 0 <= k < 15 ==> number_or_blank(#[trigger] field[k])
    &&& exists|k: int| 0 <= k < 15 && 0x31 <= #[trigger] field[k] <= 0x39
}

/// At `at` stands what the ar reader would take for a reference to a place
/// other than the start of the table of long names, were a member header
/// to begin there.
pub open spec fn long_name_at(data: Seq<u8>, at: int) -> bool {
    0 <= at && at + 16 <= data.len() && data[at] == 0x2f && names_a_place(
        data.subrange(at + 1, at + 16),
    )
}

/// Somewhere in `data` stands what could be a reference into a table of
/// long names.
pub open spec fn refers_to_long_names(data: Seq<u8>) -> bool {
    exists|at: int| long_name_at(data, at)
}

fn is_number_or_blank(b: u8) -> (yes: bool)
    ensures
        yes == number_or_blank(b),
{
    (0x09 <= b && b <= 0x0d) || b == 0x20 || b == 0x2b || (0x30 <= b && b <= 0x39) || (0x80 <= b
        && b <= 0x8a) || b == 0x9a || b == 0x9f || b == 0xa0 || b == 0xa8 || b == 0xa9 || b
        == 0xaf || b == 0xc2 || b == 0xe1 || b == 0xe2 || b == 0xe3
}

fn is_place(field: &[u8]) -> (yes: bool)
    requires
        field@.len() == 15,
    ensures
        yes == names_a_place(field@),
{
    let mut some_digit = false;
    let mut k: usize = 0;
    while k < 15
        invariant
            k <= 15,
            field@.len() == 15,
            forall|j: int| 0 <= j < k ==> number_or_blank(#[trigger] field@[j]),
            some_digit == (exists|j: int| 0 <= j < k && 0x31 <= #[trigger] field@[j] <= 0x39),
        decreases 15 - k,
    {
        if !is_number_or_blank(field[k]) {
            return false;
        }
        if 0x31 <= field[k] && field[k] <= 0x39 {
            some_digit = true;
        }
        k = k + 1;
    }
    some_digit
}

/// Whether somewhere in `data` stands what could be a reference into a
/// table of long names.
pub fn has_long_name(data: &[u8]) -> (yes: bool)
    ensures
        yes == refers_to_long_names(data@),
{
    if data.len() < 16 {
        return false;
    }
    let last = data.len() - 16;
    let mut at: usize = 0;
    while at <= last
        invariant
            last + 16 == data.len(),
            at <= last + 1,
            forall|p: int| 0 <= p < at ==> !long_name_at(data@, p),
        decreases last + 1 - at,
    {
        if data[at] == 0x2f && is_place(slice_subrange(data, at + 1, at + 16)) {
            assert(long_name_at(data@, at as int));
            return true;
        }
        at = at + 1;
    }
    false
}

/// At `at` stands the extra field by which a member of a zip archive names
/// an AES encryption: the tag `9901`, the length seven, the version one or
/// two, the vendor `AE`, and a key strength from one to three.
pub open spec fn aes_field_at(data: Seq<u8>, at: int) -> bool {
    &&& 0 <= at
    &&& at + 9 <= data.len()
    &&& data[at] == 0x01
    &&& data[at + 1] == 0x99
    &&& data[at + 2] == 0x07
    &&& data[at + 3] == 0x00
    &&& (data[at + 4] == 0x01 || data[at + 4] == 0x02)
    &&& data[at + 5] == 0x00
    &&& data[at + 6] == 0x41
    &&& data[at + 7] == 0x45
    &&& 0x01 <= data[at + 8] <= 0x03
}

/// Somewhere in `data` stands what could be the extra field of an AES
/// encryption.
pub open spec fn names_aes(data: Seq<u8>) -> bool {
    exists|at: int| aes_field_at(data, at)
}

/// Whether somewhere in `data` stands what could be the extra field of an
/// AES encryption.
pub fn has_aes_field(data: &[u8]) -> (yes: bool)
    ensures
        yes == names_aes(data@),
{
    if data.len() < 9 {
        return false;
    }
    let last = data.len() - 9;
    let mut at: usize = 0;
    while at <= last
        invariant
            last + 9 == data.len(),
            at <= last + 1,
            forall|p: int| 0 <= p < at ==> !aes_field_at(data@, p),
        decreases last + 1 - at,
    {
        if data[at] == 0x01 && data[at + 1] == 0x99 && data[at + 2] == 0x07 && data[at + 3]
            == 0x00 && (data[at + 4] == 0x01 || data[at + 4] == 0x02) && data[at + 5] == 0x00
            && data[at + 6] == 0x41 && data[at + 7] == 0x45 && 0x01 <= data[at + 8] && data[at
            + 8] <= 0x03 {
            assert(aes_field_at(data@, at as int));
            return true;
        }
        at = at + 1;
    }
    false
}

/// The number that four bytes hold, the lowest byte first.
pub open spec fn le_u32(b0: u8, b1: u8, b2: u8, b3: u8) -> int {
    b0 + b1 * 0x100 + b2 * 0x1_0000 + b3 * 0x100_0000
}

/// The first sector of the first partition in the table of a boot sector.
pub open spec fn first_sector(data: Seq<u8>) -> int {
    le_u32(data[454], data[455], data[456], data[457])
}

/// The size that a GUID partition table in the sector at `at` states for
/// its header.
pub open spec fn header_size_at(data: Seq<u8>, at: int) -> int {
    le_u32(data[at + 12], data[at + 13], data[at + 14], data[at + 15])
}

/// The first partition of the boot sector may stand for a GUID partition
/// table, and that table cannot be read: its sector, whose size is taken
/// from where the partition starts, has no size, or the header of the table
/// claims to be longer than its sector.
pub open spec fn gpt_out_of_bounds(data: Seq<u8>) -> bool {
    &&& data.len() >= 512
    &&& data[450] == 0xee
    &&& first_sector(data) <= 32
    &&& {
        ||| first_sector(data) == 0
        ||| (first_sector(data) * 512 + 16 <= data.len() && header_size_at(
            data,
            first_sector(data) * 512,
        ) > first_sector(data) * 512)
    }
}

fn read_le_u32(data: &[u8], at: usize) -> (n: u32)
    requires
        at + 4 <= data@.len(),
    ensures
        n == le_u32(data@[at as int], data@[at + 1], data@[at + 2], data@[at + 3]),
{
    let b0 = data[at] as u32;
    let b1 = data[at + 1] as u32;
    let b2 = data[at + 2] as u32;
    let b3 = data[at + 3] as u32;
    b0 + b1 * 0x100 + b2 * 0x1_0000 + b3 * 0x100_0000
}

/// Whether the boot sector may lead to a GUID partition table that cannot
/// be read.
pub fn has_gpt_out_of_bounds(data: &[u8]) -> (yes: bool)
    ensures
        yes == gpt_out_of_bounds(data@),
{
    if data.len() < 512 || data[450] != 0xee {
        return false;
    }
    let first = read_le_u32(data, 454);
    if first > 32 {
        return false;
    }
    if first == 0 {
        return true;
    }
    let sector: usize = first as usize * 512;
    if data.len() - 16 < sector {
        return false;
    }
    read_le_u32(data, sector + 12) as usize > sector
}

} // verus!
