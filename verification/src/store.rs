//! The store, seen from this crate: the requests that it is asked to carry
//! out, one at a time, and its answers.
//!
//! The crate never reaches the store itself. A `Request` is handed to whoever
//! runs the session; the `Answer` that comes back drives the next step. Any
//! request may be answered by `Answer::Failed`.
//!
//! For proofs, the module also says what a store holds of a keyword's entries
//! once it has carried out a change, and what it may then list.

use vstd::prelude::*;

use crate::keyword::{keyword_views, PlanView, Refusal};
use crate::models::{
    entry_views, Entry, EntryView, Keyword, KeywordView, NewEntry, NewEntryView, NewKeyword,
    NewKeywordView,
};
use crate::text::{chars_of, push_char};

verus! {

/// One request to the store.
#[derive(Clone, Debug, PartialEq, Eq)]
pub enum Request {
    /// The keywords whose name is `name`, whatever the case of its letters,
    /// and whose scope is `chan` or general. No character of `name` stands
    /// for any other. Answered by `Answer::Keywords`.
    FindKeyword { name: String, chan: String },
    /// Create the keyword. Answered by `Answer::Keyword`.
    CreateKeyword(NewKeyword),
    /// The entries of the keyword, by position, ascending. Answered by
    /// `Answer::Entries`.
    ListEntries { keyword_id: i32 },
    /// Insert the entry. Answered by `Answer::Entry`.
    InsertEntry(NewEntry),
    /// Give the entry the position `idx`. Answered by `Answer::Done`.
    UpdateEntryPosition { entry_id: i32, idx: i32 },
    /// Give the entry the text `text`. Answered by `Answer::Done`.
    UpdateEntryText { entry_id: i32, text: String },
    /// Delete the entry. Answered by `Answer::Done`.
    DeleteEntry { entry_id: i32 },
}

/// What a `Request` holds.
pub enum RequestView {
    FindKeyword { name: Seq<char>, chan: Seq<char> },
    CreateKeyword(NewKeywordView),
    ListEntries { keyword_id: i32 },
    InsertEntry(NewEntryView),
    UpdateEntryPosition { entry_id: i32, idx: i32 },
    UpdateEntryText { entry_id: i32, text: Seq<char> },
    DeleteEntry { entry_id: i32 },
}

impl View for Request {
    type V = RequestView;

    open spec fn view(&self) -> RequestView {
        match self {
            Request::FindKeyword { name, chan } => RequestView::FindKeyword {
                name: name@,
                chan: chan@,
            },
            Request::CreateKeyword(new) => RequestView::CreateKeyword(new@),
            Request::ListEntries { keyword_id } => RequestView::ListEntries {
                keyword_id: *keyword_id,
            },
            Request::InsertEntry(new) => RequestView::InsertEntry(new@),
            Request::UpdateEntryPosition { entry_id, idx } => RequestView::UpdateEntryPosition {
                entry_id: *entry_id,
                idx: *idx,
            },
            Request::UpdateEntryText { entry_id, text } => RequestView::UpdateEntryText {
                entry_id: *entry_id,
                text: text@,
            },
            Request::DeleteEntry { entry_id } => RequestView::DeleteEntry { entry_id: *entry_id },
        }
    }
}

/// The store's answer to one request.
#[derive(Clone, Debug, PartialEq, Eq)]
pub enum Answer {
    /// The keywords found.
    Keywords(Vec<Keyword>),
    /// The keyword created.
    Keyword(Keyword),
    /// The entries listed.
    Entries(Vec<Entry>),
    /// The entry inserted.
    Entry(Entry),
    /// The change was made.
    Done,
    /// The store failed; the text says how.
    Failed(String),
}

/// What an `Answer` holds.
pub enum AnswerView {
    Keywords(Seq<KeywordView>),
    Keyword(KeywordView),
    Entries(Seq<EntryView>),
    Entry(EntryView),
    Done,
    Failed(Seq<char>),
}

impl View for Answer {
    type V = AnswerView;

    open spec fn view(&self) -> AnswerView {
        match self {
            Answer::Keywords(found) => AnswerView::Keywords(keyword_views(found@)),
            Answer::Keyword(keyword) => AnswerView::Keyword(keyword@),
            Answer::Entries(entries) => AnswerView::Entries(entry_views(entries@)),
            Answer::Entry(entry) => AnswerView::Entry(entry@),
            Answer::Done => AnswerView::Done,
            Answer::Failed(text) => AnswerView::Failed(text@),
        }
    }
}

/// What the store holds of a keyword's entries once the entry `entry_id` has
/// been given the position `idx`: `Request::UpdateEntryPosition` carried out.
/// The order of the rows in `rows` means nothing.
pub open spec fn repositioned(rows: Seq<EntryView>, entry_id: i32, idx: i32) -> Seq<EntryView> {
    Seq::new(
        rows.len(),
        |i: int|
            if rows[i].id == entry_id {
                EntryView { idx, ..rows[i] }
            } else {
                rows[i]
            },
    )
}

/// What the store holds once the entry `entry_id` has been deleted:
/// `Request::DeleteEntry` carried out.
pub open spec fn without(rows: Seq<EntryView>, entry_id: i32) -> Seq<EntryView>
    decreases rows.len(),
{
    if rows.len() == 0 {
        rows
    } else if rows.last().id == entry_id {
        without(rows.drop_last(), entry_id)
    } else {
        without(rows.drop_last(), entry_id).push(rows.last())
    }
}

/// What the store holds once the moves have been made, one after the other.
pub open spec fn after_moves(rows: Seq<EntryView>, moves: Seq<(i32, i32)>) -> Seq<EntryView>
    decreases moves.len(),
{
    if moves.len() == 0 {
        rows
    } else {
        repositioned(after_moves(rows, moves.drop_last()), moves.last().0, moves.last().1)
    }
}

/// What the store holds once a plan has been carried out: the removal first,
/// then the moves.
pub open spec fn after_plan(rows: Seq<EntryView>, plan: PlanView) -> Seq<EntryView> {
    after_moves(
        match plan.remove {
            Some(entry_id) => without(rows, entry_id),
            None => rows,
        },
        plan.moves,
    )
}

/// What the store holds after an operation on a keyword: a refused one
/// changes nothing.
pub open spec fn outcome(rows: Seq<EntryView>, planned: Result<PlanView, Refusal>) -> Seq<
    EntryView,
> {
    match planned {
        Ok(plan) => after_plan(rows, plan),
        Err(_) => rows,
    }
}

/// Whether the positions never go down along `listing`.
pub open spec fn ascending(listing: Seq<EntryView>) -> bool {
    forall|i: int, j: int|
        0 <= i <= j < listing.len() ==> (#[trigger] listing[i]).idx <= (#[trigger] listing[j]).idx
}

/// Whether `listing` can be the store's answer to `Request::ListEntries` when
/// it holds `rows`: the same entries, by position, ascending.
pub open spec fn lists(listing: Seq<EntryView>, rows: Seq<EntryView>) -> bool {
    ascending(listing) && listing.to_multiset() == rows.to_multiset()
}

/// Whether a character has a meaning of its own in a pattern of SQL's `LIKE`:
/// `%` and `_` stand for other characters, and `\` is what takes a meaning
/// away.
pub open spec fn is_wildcard(c: char) -> bool {
    c == '%' || c == '_' || c == '\\'
}

/// A character as it stands in a pattern to stand for itself alone.
pub open spec fn literally(c: char) -> Seq<char> {
    if is_wildcard(c) {
        seq!['\\', c]
    } else {
        seq![c]
    }
}

/// The pattern that matches the name `name` and no other text: every
/// character stands for itself. A store that compares names by `LIKE` without
/// regard to case finds with it what `Request::FindKeyword` asks for.
pub open spec fn exact_pattern(name: Seq<char>) -> Seq<char>
    decreases name.len(),
{
    if name.len() == 0 {
        name
    } else {
        exact_pattern(name.drop_last()) + literally(name.last())
    }
}

/// Writes `exact_pattern`.
pub fn write_exact_pattern(name: &str) -> (out: String)
    ensures
        out@ == exact_pattern(name@),
{
    let chars = chars_of(name);
    let mut out = String::new();
    let mut i: usize = 0;
    while i < chars.len()
        invariant
            i <= chars.len(),
            chars@ == name@,
            out@ == exact_pattern(chars@.take(i as int)),
        decreases chars.len() - i,
    {
        let c: char = chars[i];
        proof {
            let longer = chars@.take(i + 1);
            assert(longer.drop_last() == chars@.take(i as int));
            assert(longer.last() == c);
        }
        let ghost before = out@;
        if c == '%' || c == '_' || c == '\\' {
            push_char(&mut out, '\\');
            push_char(&mut out, c);
            assert(out@ == before + seq!['\\', c]);
        } else {
            push_char(&mut out, c);
            assert(out@ == before + seq![c]);
        }
        i += 1;
    }
    assert(chars@.take(i as int) == chars@);
    out
}

} // verus!
