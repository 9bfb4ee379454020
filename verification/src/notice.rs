//! What the service says: the notices that go back to the chat, the errors
//! that it reports, and their wording.

use vstd::prelude::*;

use crate::keyword::Refusal;
use crate::text::{copy_of, nat_digits, push_nat, push_text};

verus! {

/// Why a command failed.
#[derive(Clone, Debug, PartialEq, Eq)]
pub enum Error {
    /// The sender's identity holds no `!`, so no nickname can be taken from it.
    InvalidSource,
    /// The index of a move or a query is no number that can be a position.
    InvalidIndex,
    /// The target of a move is no number that can be a position.
    InvalidTarget,
    /// A query asked for a position behind the last of the `count` entries of
    /// `subject`.
    OutOfRange { subject: String, count: usize },
    /// An entry was to be taught or changed from a private message: that is
    /// done in channels only, whatever the scope and whoever asks.
    ScopeViolation,
    /// A general keyword was to be changed by someone who is no administrator.
    PermissionDenied,
    /// A query asked for `subject`, and no keyword of that name can be seen
    /// from where it was asked.
    UnknownKeyword { subject: String },
    /// The two positions of a swap are not held by two entries.
    InvalidSwap,
    /// No entry holds the position to delete.
    NoSuchEntry,
    /// The keyword can hold no further entry.
    Full,
    /// The store answered with something that had not been asked for.
    Unexpected,
    /// The store failed; the text is its own.
    Store(String),
}

/// What an `Error` holds.
pub enum ErrorView {
    InvalidSource,
    InvalidIndex,
    InvalidTarget,
    OutOfRange { subject: Seq<char>, count: usize },
    ScopeViolation,
    PermissionDenied,
    UnknownKeyword { subject: Seq<char> },
    InvalidSwap,
    NoSuchEntry,
    Full,
    Unexpected,
    Store(Seq<char>),
}

impl View for Error {
    type V = ErrorView;

    open spec fn view(&self) -> ErrorView {
        match self {
            Error::InvalidSource => ErrorView::InvalidSource,
            Error::InvalidIndex => ErrorView::InvalidIndex,
            Error::InvalidTarget => ErrorView::InvalidTarget,
            Error::OutOfRange { subject, count } => ErrorView::OutOfRange {
                subject: subject@,
                count: *count,
            },
            Error::ScopeViolation => ErrorView::ScopeViolation,
            Error::PermissionDenied => ErrorView::PermissionDenied,
            Error::UnknownKeyword { subject } => ErrorView::UnknownKeyword { subject: subject@ },
            Error::InvalidSwap => ErrorView::InvalidSwap,
            Error::NoSuchEntry => ErrorView::NoSuchEntry,
            Error::Full => ErrorView::Full,
            Error::Unexpected => ErrorView::Unexpected,
            Error::Store(text) => ErrorView::Store(text@),
        }
    }
}

/// The kinds of error.
#[derive(Clone, Copy, Debug, PartialEq, Eq, Structural)]
pub enum Kind {
    /// The sender cannot be named.
    InvalidSource,
    /// An index is no number, or no entry is listed at it.
    InvalidIndex,
    /// The command may not be given from where it came.
    ScopeViolation,
    /// The sender may not change the keyword.
    PermissionDenied,
    /// What the command is about does not exist.
    NotFound,
    /// The store failed.
    StoreError,
}

/// The kind of an error.
pub open spec fn kind_of(error: ErrorView) -> Kind {
    match error {
        ErrorView::InvalidSource => Kind::InvalidSource,
        ErrorView::InvalidIndex => Kind::InvalidIndex,
        ErrorView::InvalidTarget => Kind::InvalidIndex,
        ErrorView::OutOfRange { .. } => Kind::InvalidIndex,
        ErrorView::Full => Kind::InvalidIndex,
        ErrorView::ScopeViolation => Kind::ScopeViolation,
        ErrorView::PermissionDenied => Kind::PermissionDenied,
        ErrorView::UnknownKeyword { .. } => Kind::NotFound,
        ErrorView::InvalidSwap => Kind::NotFound,
        ErrorView::NoSuchEntry => Kind::NotFound,
        ErrorView::Unexpected => Kind::StoreError,
        ErrorView::Store(_) => Kind::StoreError,
    }
}

/// The error that a refused operation on a keyword is reported as.
pub open spec fn refused(refusal: Refusal) -> ErrorView {
    match refusal {
        Refusal::InvalidSwap => ErrorView::InvalidSwap,
        Refusal::NoSuchEntry => ErrorView::NoSuchEntry,
        Refusal::Full => ErrorView::Full,
    }
}

/// The wording of an error.
pub open spec fn message(error: ErrorView) -> Seq<char> {
    match error {
        ErrorView::InvalidSource => "Invalid source"@,
        ErrorView::InvalidIndex => "Could not parse index"@,
        ErrorView::InvalidTarget => "Could not parse target index"@,
        ErrorView::OutOfRange { subject, count } => only_has_text(subject, count as nat),
        ErrorView::UnknownKeyword { subject } => unknown_text(subject),
        ErrorView::ScopeViolation => "Entries may not be taught or changed via PM."@,
        ErrorView::PermissionDenied => "Only administrators can create or modify general entries."@,
        ErrorView::InvalidSwap => "Invalid swap operation."@,
        ErrorView::NoSuchEntry => "No such element to delete."@,
        ErrorView::Full => "No position is left for another entry."@,
        ErrorView::Unexpected => "The store gave an answer that was not asked for."@,
        ErrorView::Store(text) => text,
    }
}

impl Error {
    /// The error that a refused operation on a keyword is reported as.
    pub fn from_refusal(refusal: Refusal) -> (out: Error)
        ensures
            out@ == refused(refusal),
    {
        match refusal {
            Refusal::InvalidSwap => Error::InvalidSwap,
            Refusal::NoSuchEntry => Error::NoSuchEntry,
            Refusal::Full => Error::Full,
        }
    }

    /// The kind of the error.
    pub fn kind(&self) -> (out: Kind)
        ensures
            out == kind_of(self@),
    {
        match self {
            Error::InvalidSource => Kind::InvalidSource,
            Error::InvalidIndex => Kind::InvalidIndex,
            Error::InvalidTarget => Kind::InvalidIndex,
            Error::OutOfRange { .. } => Kind::InvalidIndex,
            Error::Full => Kind::InvalidIndex,
            Error::ScopeViolation => Kind::ScopeViolation,
            Error::PermissionDenied => Kind::PermissionDenied,
            Error::UnknownKeyword { .. } => Kind::NotFound,
            Error::InvalidSwap => Kind::NotFound,
            Error::NoSuchEntry => Kind::NotFound,
            Error::Unexpected => Kind::StoreError,
            Error::Store(_) => Kind::StoreError,
        }
    }

    /// The wording of the error.
    pub fn message(&self) -> (out: String)
        ensures
            out@ == message(self@),
    {
        match self {
            Error::InvalidSource => copy_of("Invalid source"),
            Error::InvalidIndex => copy_of("Could not parse index"),
            Error::InvalidTarget => copy_of("Could not parse target index"),
            Error::OutOfRange { subject, count } => write_only_has(subject.as_str(), *count),
            Error::UnknownKeyword { subject } => write_unknown(subject.as_str()),
            Error::ScopeViolation => copy_of("Entries may not be taught or changed via PM."),
            Error::PermissionDenied => copy_of(
                "Only administrators can create or modify general entries.",
            ),
            Error::InvalidSwap => copy_of("Invalid swap operation."),
            Error::NoSuchEntry => copy_of("No such element to delete."),
            Error::Full => copy_of("No position is left for another entry."),
            Error::Unexpected => copy_of("The store gave an answer that was not asked for."),
            Error::Store(text) => copy_of(text.as_str()),
        }
    }
}

/// One notice: a text for a channel or a nickname.
#[derive(Clone, Debug, PartialEq, Eq)]
pub struct Notice {
    pub target: String,
    pub text: String,
}

/// What a `Notice` holds.
pub struct NoticeView {
    pub target: Seq<char>,
    pub text: Seq<char>,
}

impl View for Notice {
    type V = NoticeView;

    open spec fn view(&self) -> NoticeView {
        NoticeView { target: self.target@, text: self.text@ }
    }
}

/// What each of a list of notices holds, in the list's order.
pub open spec fn notice_views(notices: Seq<Notice>) -> Seq<NoticeView> {
    Seq::new(notices.len(), |i: int| notices[i]@)
}

/// The text that reports an error: the channel in which the line was said,
/// and the wording.
pub open spec fn error_text(chan: Seq<char>, wording: Seq<char>) -> Seq<char> {
    "["@ + chan + "] \x0304Error:\x0f "@ + wording
}

/// The text that confirms a deletion.
pub open spec fn deleted_text(name: Seq<char>, position: nat) -> Seq<char> {
    "\x02"@ + name + "\x0f: Deleted entry "@ + nat_digits(position) + "."@
}

/// The text that confirms a swap.
pub open spec fn swapped_text(name: Seq<char>, a: nat, b: nat) -> Seq<char> {
    "\x02"@ + name + "\x0f: Swapped entries "@ + nat_digits(a) + " and "@ + nat_digits(b) + "."@
}

/// The wording for a position behind the last entry.
pub open spec fn only_has_text(subject: Seq<char>, count: nat) -> Seq<char> {
    "\x02"@ + subject + "\x0f: only has \x02\x0304"@ + nat_digits(count) + "\x0f "@ + (if count
        == 1 {
        "entry"@
    } else {
        "entries"@
    })
}

/// The text for a keyword without entries.
pub open spec fn no_entries_text(subject: Seq<char>) -> Seq<char> {
    "\x02"@ + subject + "\x0f: no entries yet"@
}

/// The wording for a name that no keyword has.
pub open spec fn unknown_text(subject: Seq<char>) -> Seq<char> {
    "\x02"@ + subject + "\x0f: never heard of it"@
}

/// Writes `error_text`.
pub fn write_error(chan: &str, wording: &str) -> (out: String)
    ensures
        out@ == error_text(chan@, wording@),
{
    let mut out = copy_of("[");
    push_text(&mut out, chan);
    push_text(&mut out, "] \x0304Error:\x0f ");
    push_text(&mut out, wording);
    out
}

/// Writes `deleted_text`.
pub fn write_deleted(name: &str, position: usize) -> (out: String)
    ensures
        out@ == deleted_text(name@, position as nat),
{
    let mut out = copy_of("\x02");
    push_text(&mut out, name);
    push_text(&mut out, "\x0f: Deleted entry ");
    push_nat(&mut out, position as u64);
    push_text(&mut out, ".");
    out
}

/// Writes `swapped_text`.
pub fn write_swapped(name: &str, a: usize, b: usize) -> (out: String)
    ensures
        out@ == swapped_text(name@, a as nat, b as nat),
{
    let mut out = copy_of("\x02");
    push_text(&mut out, name);
    push_text(&mut out, "\x0f: Swapped entries ");
    push_nat(&mut out, a as u64);
    push_text(&mut out, " and ");
    push_nat(&mut out, b as u64);
    push_text(&mut out, ".");
    out
}

/// Writes `only_has_text`.
pub fn write_only_has(subject: &str, count: usize) -> (out: String)
    ensures
        out@ == only_has_text(subject@, count as nat),
{
    let mut out = copy_of("\x02");
    push_text(&mut out, subject);
    push_text(&mut out, "\x0f: only has \x02\x0304");
    push_nat(&mut out, count as u64);
    push_text(&mut out, "\x0f ");
    if count == 1 {
        push_text(&mut out, "entry");
    } else {
        push_text(&mut out, "entries");
    }
    out
}

/// Writes `no_entries_text`.
pub fn write_no_entries(subject: &str) -> (out: String)
    ensures
        out@ == no_entries_text(subject@),
{
    let mut out = copy_of("\x02");
    push_text(&mut out, subject);
    push_text(&mut out, "\x0f: no entries yet");
    out
}

/// Writes `unknown_text`.
pub fn write_unknown(subject: &str) -> (out: String)
    ensures
        out@ == unknown_text(subject@),
{
    let mut out = copy_of("\x02");
    push_text(&mut out, subject);
    push_text(&mut out, "\x0f: never heard of it");
    out
}

} // verus!
