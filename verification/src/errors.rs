//! Failures, and the rule that tells a failure that means "this is not
//! really that format" from one that has to be reported.

use vstd::prelude::*;

verus! {

/// The failures that the unpacker raises itself.
#[derive(Debug)]
pub enum ErrorKind {
    /// Give up on this stream and treat it as opaque one level up.
    Rewind,
    /// The format is (probably) legal, but a feature of it is not handled.
    UnsupportedFeature(String),
}

/// How a failure that allows a rollback came about.
#[derive(Clone, Copy, Debug, PartialEq, Eq, Structural)]
pub enum FormatErrorType {
    Rewind,
    Other,
}

/// What the classifier says of a failure.
#[derive(Clone, Copy, Debug, PartialEq, Eq, Structural)]
pub enum Verdict {
    /// The stream is not of the format it was taken for: emit it as a leaf.
    Rewind,
    /// The format was recognised, but the stream could not be read as it.
    OtherFormatError,
    /// A failure to report to the caller.
    Fatal,
}

/// The kinds of I/O failure that the classifier tells apart.
#[derive(Clone, Copy, Debug, PartialEq, Eq, Structural)]
pub enum IoKind {
    InvalidData,
    InvalidInput,
    UnexpectedEof,
    Other,
    BrokenPipe,
    NotFound,
    PermissionDenied,
    Interrupted,
    /// Any kind that has no name of its own here.
    Unlisted,
}

/// What the classifier reads in an I/O failure.
#[derive(Clone, Copy, Debug, PartialEq, Eq, Structural)]
pub struct IoFailure {
    /// The error code of the operating system, if the failure has one.
    pub os_code: Option<i32>,
    pub kind: IoKind,
}

/// The root cause of a failure.
#[derive(Debug)]
pub enum Cause {
    /// One of the unpacker's own failures.
    Kind(ErrorKind),
    /// The zip reader refused the archive, for a reason other than I/O.
    Zip,
    /// The ext4 reader refused the image.
    Ext4,
    /// An I/O failure, from a reader or from a parser on top of one.
    Io(IoFailure),
    /// A bare message, with no cause under it.
    Message(String),
    /// An ext4 image was met that nobody has walked yet; the image is
    /// handed back so that it can be walked and the work begun again.
    Unwalked(Vec<u8>),
}

/// A root cause, with its message where it has one.
pub ghost enum CauseView {
    Rewind,
    UnsupportedFeature(Seq<char>),
    Zip,
    Ext4,
    Io(IoFailure),
    Message(Seq<char>),
    Unwalked(Seq<u8>),
}

impl View for Cause {
    type V = CauseView;

    open spec fn view(&self) -> CauseView {
        match *self {
            Cause::Kind(ErrorKind::Rewind) => CauseView::Rewind,
            Cause::Kind(ErrorKind::UnsupportedFeature(what)) => CauseView::UnsupportedFeature(what@),
            Cause::Zip => CauseView::Zip,
            Cause::Ext4 => CauseView::Ext4,
            Cause::Io(f) => CauseView::Io(f),
            Cause::Message(text) => CauseView::Message(text@),
            Cause::Unwalked(image) => CauseView::Unwalked(image@),
        }
    }
}

/// What a root cause means for a rollback, read off its view.
pub open spec fn sort_of(cause: CauseView) -> Option<FormatErrorType> {
    match cause {
        CauseView::Rewind => Some(FormatErrorType::Rewind),
        CauseView::UnsupportedFeature(_) => Some(FormatErrorType::Other),
        CauseView::Zip => Some(FormatErrorType::Other),
        CauseView::Ext4 => Some(FormatErrorType::Other),
        CauseView::Io(f) => match io_format_error_of(f) {
            Some(known) => known,
            None => None,
        },
        CauseView::Message(_) => None,
        CauseView::Unwalked(_) => None,
    }
}

/// The outcome of an attempt: whether it went well, and if not, why.
pub open spec fn outcome_view<T>(res: Result<T, Cause>) -> Result<(), CauseView> {
    match res {
        Ok(_) => Ok(()),
        Err(cause) => Err(cause@),
    }
}

/// Whether an outcome allows a rollback.
pub open spec fn allows_rollback(res: Result<(), CauseView>) -> bool {
    match res {
        Ok(_) => false,
        Err(cause) => sort_of(cause).is_some(),
    }
}

#[verifier::external_type_specification]
#[verifier::external_body]
pub struct ExIoError(std::io::Error);

/// The operating system's error code inside an I/O error, if it has one.
pub uninterp spec fn os_error_code(e: std::io::Error) -> Option<i32>;

/// The kind of an I/O error.
pub uninterp spec fn error_kind(e: std::io::Error) -> IoKind;

/// What the classifier reads in `e`.
pub open spec fn failure_of(e: std::io::Error) -> IoFailure {
    IoFailure { os_code: os_error_code(e), kind: error_kind(e) }
}

/// `std::io::Error::raw_os_error`: the code of the operating system that
/// the error was made from, or `None` for an error that a library made. The
/// contract only gives that value a name.
#[verifier::external_body]
fn raw_os_error(e: &std::io::Error) -> (code: Option<i32>)
    ensures
        code == os_error_code(*e),
{
    e.raw_os_error()
}

/// `std::io::Error::kind`, read into the kinds that are told apart here;
/// every other kind of the standard library becomes `Unlisted`. The
/// contract only gives that value a name.
#[verifier::external_body]
fn kind(e: &std::io::Error) -> (k: IoKind)
    ensures
        k == error_kind(*e),
{
    match e.kind() {
        std::io::ErrorKind::InvalidData => IoKind::InvalidData,
        std::io::ErrorKind::InvalidInput => IoKind::InvalidInput,
        std::io::ErrorKind::UnexpectedEof => IoKind::UnexpectedEof,
        std::io::ErrorKind::Other => IoKind::Other,
        std::io::ErrorKind::BrokenPipe => IoKind::BrokenPipe,
        std::io::ErrorKind::NotFound => IoKind::NotFound,
        std::io::ErrorKind::PermissionDenied => IoKind::PermissionDenied,
        std::io::ErrorKind::Interrupted => IoKind::Interrupted,
        _ => IoKind::Unlisted,
    }
}

/// What the unpacker's own failures mean for a rollback.
pub open spec fn format_error_of(e: ErrorKind) -> Option<FormatErrorType> {
    match e {
        ErrorKind::Rewind => Some(FormatErrorType::Rewind),
        ErrorKind::UnsupportedFeature(_) => Some(FormatErrorType::Other),
    }
}

/// What an I/O failure means for a rollback. The outer `None` stands for a
/// kind about which the rule says nothing.
pub open spec fn io_format_error_of(f: IoFailure) -> Option<Option<FormatErrorType>> {
    if f.os_code matches Some(code) && code != 0 {
        Some(None)
    } else {
        match f.kind {
            IoKind::InvalidData | IoKind::InvalidInput | IoKind::Other | IoKind::UnexpectedEof => {
                Some(Some(FormatErrorType::Other))
            },
            IoKind::BrokenPipe | IoKind::NotFound | IoKind::PermissionDenied => Some(None),
            _ => None,
        }
    }
}

/// What a root cause means for a rollback: `None` for a failure that has to
/// be reported.
pub open spec fn format_error_of_cause(cause: Cause) -> Option<FormatErrorType> {
    match cause {
        Cause::Kind(e) => format_error_of(e),
        Cause::Zip => Some(FormatErrorType::Other),
        Cause::Ext4 => Some(FormatErrorType::Other),
        Cause::Io(f) => match io_format_error_of(f) {
            Some(known) => known,
            None => None,
        },
        Cause::Message(_) => None,
        Cause::Unwalked(_) => None,
    }
}

/// What the outcome of an attempt means for a rollback.
pub open spec fn format_error_of_result<T>(res: Result<T, Cause>) -> Option<FormatErrorType> {
    match res {
        Ok(_) => None,
        Err(cause) => format_error_of_cause(cause),
    }
}

/// The verdict on a root cause.
pub open spec fn verdict_of(cause: Cause) -> Verdict {
    match format_error_of_cause(cause) {
        Some(FormatErrorType::Rewind) => Verdict::Rewind,
        Some(FormatErrorType::Other) => Verdict::OtherFormatError,
        None => Verdict::Fatal,
    }
}

/// Reads out of an I/O error what the classifier needs.
pub fn io_failure(e: &std::io::Error) -> (f: IoFailure)
    ensures
        f == failure_of(*e),
{
    IoFailure { os_code: raw_os_error(e), kind: kind(e) }
}

/// Says whether the outcome of an attempt to unpack allows a rollback, and
/// of which sort: `None` for success and for every failure that has to be
/// reported.
pub fn classify_format_error_result<T>(res: &Result<T, Cause>) -> (sort: Option<FormatErrorType>)
    ensures
        sort == format_error_of_result(*res),
        sort.is_some() == allows_rollback(outcome_view(*res)),
{
    match res {
        Ok(_) => None,
        Err(cause) => classify_cause(cause),
    }
}

/// Says whether a root cause allows a rollback, and of which sort.
pub fn classify_cause(cause: &Cause) -> (sort: Option<FormatErrorType>)
    ensures
        sort == format_error_of_cause(*cause),
        sort == sort_of(cause@),
{
    match cause {
        Cause::Kind(e) => is_format_error(e),
        Cause::Zip => Some(FormatErrorType::Other),
        Cause::Ext4 => Some(FormatErrorType::Other),
        Cause::Io(f) => match classify_io_failure(f) {
            Some(known) => known,
            None => None,
        },
        Cause::Message(_) => None,
        Cause::Unwalked(_) => None,
    }
}

/// The verdict on a root cause: rewind, a format error, or fatal.
pub fn classify_failure(cause: &Cause) -> (verdict: Verdict)
    ensures
        verdict == verdict_of(*cause),
{
    match classify_cause(cause) {
        Some(FormatErrorType::Rewind) => Verdict::Rewind,
        Some(FormatErrorType::Other) => Verdict::OtherFormatError,
        None => Verdict::Fatal,
    }
}

/// What one of the unpacker's own failures means for a rollback.
pub fn is_format_error(e: &ErrorKind) -> (sort: Option<FormatErrorType>)
    ensures
        sort == format_error_of(*e),
{
    match e {
        ErrorKind::Rewind => Some(FormatErrorType::Rewind),
        ErrorKind::UnsupportedFeature(_) => Some(FormatErrorType::Other),
    }
}

/// What an I/O failure means for a rollback, for a failure that was read
/// out of an error before.
pub fn classify_io_failure(f: &IoFailure) -> (sort: Option<Option<FormatErrorType>>)
    ensures
        sort == io_format_error_of(*f),
{
    let from_os = match f.os_code {
        Some(code) => code != 0,
        None => false,
    };
    if from_os {
        return Some(None);
    }
    match f.kind {
        IoKind::InvalidData | IoKind::InvalidInput | IoKind::Other | IoKind::UnexpectedEof => {
            Some(Some(FormatErrorType::Other))
        },
        IoKind::BrokenPipe | IoKind::NotFound | IoKind::PermissionDenied => Some(None),
        _ => None,
    }
}

/// What an I/O error means for a rollback. An error with a code of the
/// operating system is a real failure of a system call and never a matter
/// of format; for the others the kind decides.
pub fn is_io_format_error(e: &std::io::Error) -> (sort: Option<Option<FormatErrorType>>)
    ensures
        sort == io_format_error_of(failure_of(*e)),
{
    let f = io_failure(e);
    classify_io_failure(&f)
}

/// A failure is one of exactly three things to the controller, and only a
/// fatal one is handed on: the verdict is `Fatal` exactly when the
/// classifier finds no sort of format error in the cause.
pub proof fn lemma_verdict_matches_sort(cause: Cause)
    ensures
        verdict_of(cause) == Verdict::Fatal <==> format_error_of_cause(cause).is_none(),
        verdict_of(cause) == Verdict::Rewind <==> cause == Cause::Kind(ErrorKind::Rewind),
        format_error_of_cause(cause) == sort_of(cause@),
        cause matches Cause::Io(f) && f.os_code matches Some(code) && code != 0 ==> verdict_of(cause)
            == Verdict::Fatal,
        cause matches Cause::Message(_) ==> verdict_of(cause) == Verdict::Fatal,
{
}

} // verus!
