//! Times as unsigned nanoseconds since the Unix epoch, with zero for a time
//! that is unknown or cannot be held.

use crate::errors::{io_failure, Cause, CauseView, IoKind};
use crate::stat::{Ext4Time, Stat};
use std::time::{Duration, SystemTime};
use vstd::prelude::*;

verus! {

pub const NANOS_PER_SECOND: u64 = 1_000_000_000;

#[verifier::external_type_specification]
#[verifier::external_body]
pub struct ExSystemTime(SystemTime);

#[verifier::external_type_specification]
#[verifier::external_body]
pub struct ExZipDateTime(zip::DateTime);

/// The whole seconds in a duration.
pub uninterp spec fn whole_seconds(d: Duration) -> u64;

/// The part of a duration below a second, in nanoseconds.
pub uninterp spec fn subsecond_nanos(d: Duration) -> u32;

/// The time between the Unix epoch and `t`, for a `t` that is not before
/// the epoch.
pub uninterp spec fn since_epoch(t: SystemTime) -> Option<Duration>;

/// The seconds between the Unix epoch and a time stamp of a zip archive,
/// for a time stamp that names a day and a time that exist.
pub uninterp spec fn zip_unix_timestamp(t: zip::DateTime) -> Option<i64>;

/// `std::time::Duration::as_secs`: the number of whole seconds that the
/// duration holds. The contract only gives that number a name.
#[verifier::external_body]
fn as_secs(d: &Duration) -> (secs: u64)
    ensures
        secs == whole_seconds(*d),
{
    d.as_secs()
}

/// `std::time::Duration::subsec_nanos`: the fractional part of the duration
/// in nanoseconds, which the documentation says is always less than one
/// second.
#[verifier::external_body]
fn subsec_nanos(d: &Duration) -> (nanos: u32)
    ensures
        nanos == subsecond_nanos(*d),
        nanos < NANOS_PER_SECOND,
{
    d.subsec_nanos()
}

/// `std::time::SystemTime::duration_since`, asked for the time since
/// `UNIX_EPOCH`: `None` where the time lies before the epoch. The contract
/// only gives the answer a name.
#[verifier::external_body]
fn duration_since_epoch(val: &SystemTime) -> (d: Option<Duration>)
    ensures
        d == since_epoch(*val),
{
    val.duration_since(std::time::UNIX_EPOCH).ok()
}

/// `zip::DateTime::to_time`, followed by `unix_timestamp` of the `time`
/// crate on its result: the seconds since the epoch of the day and time that
/// the zip time stamp names, read as UTC, or `None` where its fields name
/// no day or time. The contract only gives the answer a name.
#[verifier::external_body]
fn unix_timestamp(val: &zip::DateTime) -> (secs: Option<i64>)
    ensures
        secs == zip_unix_timestamp(*val),
{
    val.to_time().ok().map(|t| t.unix_timestamp())
}

/// Seconds and nanoseconds as one number of nanoseconds, or zero where that
/// number does not fit in 64 bits.
pub open spec fn nanos_of(secs: int, nanos: int) -> u64 {
    if 0 <= secs * NANOS_PER_SECOND + nanos <= u64::MAX {
        (secs * NANOS_PER_SECOND + nanos) as u64
    } else {
        0
    }
}

/// The time that an inode's change time stands for: zero for a time at or
/// before the epoch; otherwise the seconds as nanoseconds, taken as zero
/// where they do not fit, plus the nanoseconds, and zero where that sum does
/// not fit.
pub open spec fn ctime_of(val: Stat) -> u64 {
    if val.ctime <= 0 {
        0
    } else {
        let base: int = if val.ctime * NANOS_PER_SECOND <= u64::MAX {
            val.ctime * NANOS_PER_SECOND
        } else {
            0
        };
        if 0 <= val.ctime_nano && base + val.ctime_nano <= u64::MAX {
            (base + val.ctime_nano) as u64
        } else {
            0
        }
    }
}

/// The time that an ext4 time stands for: zero where the part below a
/// second is out of range or the seconds stand for a time before the epoch.
pub open spec fn ext4_time_of(val: Ext4Time) -> u64 {
    let nanos = match val.nanos {
        Some(n) => n,
        None => 0u32,
    };
    if nanos > NANOS_PER_SECOND || val.epoch_secs > 0x7fff_ffff {
        0
    } else {
        (val.epoch_secs * NANOS_PER_SECOND + nanos) as u64
    }
}

/// The time of a system time stamp: zero for one before the epoch.
pub open spec fn sys_time_of(val: SystemTime) -> u64 {
    match since_epoch(val) {
        Some(d) => nanos_of(whole_seconds(d) as int, subsecond_nanos(d) as int),
        None => 0,
    }
}

/// The time of a zip time stamp, where it has one that can be held.
pub open spec fn zip_time_of(val: zip::DateTime) -> Option<u64> {
    match zip_unix_timestamp(val) {
        Some(secs) if secs >= 0 => Some(nanos_of(secs as int, 0)),
        _ => None,
    }
}

fn nanos(secs: u64, sub: u32) -> (t: u64)
    ensures
        t == nanos_of(secs as int, sub as int),
{
    match secs.checked_mul(NANOS_PER_SECOND) {
        Some(whole) => match whole.checked_add(sub as u64) {
            Some(t) => t,
            None => 0,
        },
        None => 0,
    }
}

/// A duration since the epoch as nanoseconds; zero where they do not fit
/// in 64 bits.
pub fn simple_time(dur: Duration) -> (t: u64)
    ensures
        t == nanos_of(whole_seconds(dur) as int, subsecond_nanos(dur) as int),
{
    let secs = as_secs(&dur);
    let sub = subsec_nanos(&dur);
    nanos(secs, sub)
}

/// A system time stamp as nanoseconds since the epoch; zero for a time
/// before the epoch and for one too late to be held.
pub fn simple_time_sys(val: SystemTime) -> (t: u64)
    ensures
        t == sys_time_of(val),
{
    match duration_since_epoch(&val) {
        Some(d) => simple_time(d),
        None => 0,
    }
}

/// The time stamp of a zip member as nanoseconds since the epoch. Fails
/// for a time stamp whose fields name no day or time, and for one before
/// the epoch.
pub fn simple_time_tm(val: zip::DateTime) -> (t: Result<u64, Cause>)
    ensures
        match zip_unix_timestamp(val) {
            Some(secs) => if secs >= 0 {
                t == Ok::<u64, Cause>(nanos_of(secs as int, 0))
            } else {
                (t matches Err(c) && c@ == CauseView::Message("time stamp before the epoch"@))
            },
            None => t matches Err(c) && c@ == CauseView::Message("time stamp out of range"@),
        },
        t.is_ok() == zip_time_of(val).is_some(),
        t matches Ok(nanos) ==> zip_time_of(val) == Some(nanos),
{
    match unix_timestamp(&val) {
        Some(secs) => {
            if secs >= 0 {
                Ok(nanos(secs as u64, 0))
            } else {
                Err(Cause::Message("time stamp before the epoch".to_owned()))
            }
        },
        None => Err(Cause::Message("time stamp out of range".to_owned())),
    }
}

/// The creation time of a file from what the file system answered when
/// asked for it: the time where it gave one, zero where it answered with an
/// error of the kind `Other`, which is how "not supported" is reported, and
/// the failure for any other error.
pub fn simple_time_btime(created: Result<SystemTime, std::io::Error>) -> (t: Result<u64, Cause>)
    ensures
        match created {
            Ok(time) => t == Ok::<u64, Cause>(sys_time_of(time)),
            Err(e) => if crate::errors::error_kind(e) == IoKind::Other {
                t == Ok::<u64, Cause>(0)
            } else {
                t == Err::<u64, Cause>(Cause::Io(crate::errors::failure_of(e)))
            },
        },
{
    match created {
        Ok(time) => Ok(simple_time_sys(time)),
        Err(e) => {
            let f = io_failure(&e);
            match f.kind {
                IoKind::Other => Ok(0),
                _ => Err(Cause::Io(f)),
            }
        },
    }
}

/// A time of an ext4 inode as nanoseconds since the epoch; zero for a time
/// before the epoch and for one whose part below a second is out of range.
pub fn simple_time_ext4(val: &Ext4Time) -> (t: u64)
    ensures
        t == ext4_time_of(*val),
{
    let nanos: u32 = match val.nanos {
        Some(n) => n,
        None => 0,
    };
    if nanos > 1_000_000_000 {
        return 0;
    }
    if val.epoch_secs > 0x7fff_ffff {
        return 0;
    }
    (val.epoch_secs as u64) * NANOS_PER_SECOND + nanos as u64
}

/// Whole seconds since the epoch as nanoseconds; zero where they do not
/// fit in 64 bits.
pub fn simple_time_epoch_seconds(seconds: u64) -> (t: u64)
    ensures
        t == nanos_of(seconds as int, 0),
{
    nanos(seconds, 0)
}

/// The change time of an inode as nanoseconds since the epoch; zero for a
/// time at or before the epoch.
pub fn simple_time_ctime(val: &Stat) -> (t: u64)
    ensures
        t == ctime_of(*val),
{
    if val.ctime <= 0 {
        0
    } else {
        let base: u64 = match (val.ctime as u64).checked_mul(NANOS_PER_SECOND) {
            Some(whole) => whole,
            None => 0,
        };
        if val.ctime_nano < 0 {
            0
        } else {
            match base.checked_add(val.ctime_nano as u64) {
                Some(t) => t,
                None => 0,
            }
        }
    }
}

/// A time that fits is kept exactly, and zero seconds are zero: what comes
/// out is zero or the exact number of nanoseconds, never anything else.
pub proof fn lemma_nanos_exact_or_zero(secs: u64, nanos: u32)
    ensures
        nanos_of(secs as int, nanos as int) == 0 || nanos_of(secs as int, nanos as int) == secs
            * NANOS_PER_SECOND + nanos,
        secs * NANOS_PER_SECOND + nanos <= u64::MAX ==> nanos_of(secs as int, nanos as int) == secs
            * NANOS_PER_SECOND + nanos,
        nanos_of(0, 0) == 0,
{
}

} // verus!
