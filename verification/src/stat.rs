//! What the unpacker reads from the file system about a file, as plain
//! numbers.

use vstd::prelude::*;

verus! {

/// Owner, mode and change time of a file, as the file system reports them.
#[derive(Clone, Copy, Debug, PartialEq, Eq, Structural)]
pub struct Stat {
    pub uid: u32,
    pub gid: u32,
    /// Type and permission bits; zero where the platform has none.
    pub mode: u32,
    /// Seconds since the epoch of the last change of the inode.
    pub ctime: i64,
    /// The nanoseconds that go with `ctime`.
    pub ctime_nano: i64,
    /// For a device file, the major number of the device.
    pub rdev_major: u32,
    /// For a device file, the minor number of the device.
    pub rdev_minor: u32,
}

/// A time of an ext4 inode.
#[derive(Clone, Copy, Debug, PartialEq, Eq, Structural)]
pub struct Ext4Time {
    /// Seconds since the epoch; values above `0x7fff_ffff` stand for times
    /// before it.
    pub epoch_secs: u32,
    /// The part below a second, where the inode holds one.
    pub nanos: Option<u32>,
}

} // verus!
