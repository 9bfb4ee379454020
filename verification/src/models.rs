//! The records that the store keeps: keywords and their entries.

use vstd::prelude::*;

use crate::clock::Timestamp;

verus! {

/// What an optional value holds.
pub open spec fn option_view<T: View>(value: Option<T>) -> Option<T::V> {
    match value {
        Some(inner) => Some(inner@),
        None => None,
    }
}

/// What the result of an operation holds.
pub open spec fn result_view<T: View, E>(value: Result<T, E>) -> Result<T::V, E> {
    match value {
        Ok(inner) => Ok(inner@),
        Err(error) => Err(error),
    }
}

/// The scope of the keywords that every channel sees.
pub open spec fn general_scope() -> Seq<char> {
    seq!['*']
}

/// A keyword: a named topic, scoped to one channel or general.
#[derive(Clone, Debug, PartialEq, Eq)]
pub struct Keyword {
    pub id: i32,
    pub name: String,
    pub chan: String,
}

/// What a `Keyword` holds.
pub struct KeywordView {
    pub id: i32,
    pub name: Seq<char>,
    pub chan: Seq<char>,
}

impl View for Keyword {
    type V = KeywordView;

    open spec fn view(&self) -> KeywordView {
        KeywordView { id: self.id, name: self.name@, chan: self.chan@ }
    }
}

impl KeywordView {
    /// Whether the keyword is general: seen from every channel.
    pub open spec fn is_general(self) -> bool {
        self.chan == general_scope()
    }
}

/// One entry of a keyword: a text at a position, with its author and the time
/// at which it was taught.
#[derive(Clone, Debug, PartialEq, Eq)]
pub struct Entry {
    pub id: i32,
    pub keyword_id: i32,
    pub idx: i32,
    pub text: String,
    pub creation_ts: Timestamp,
    pub created_by: String,
}

/// What an `Entry` holds.
pub struct EntryView {
    pub id: i32,
    pub keyword_id: i32,
    pub idx: i32,
    pub text: Seq<char>,
    pub creation_ts: Timestamp,
    pub created_by: Seq<char>,
}

impl View for Entry {
    type V = EntryView;

    open spec fn view(&self) -> EntryView {
        EntryView {
            id: self.id,
            keyword_id: self.keyword_id,
            idx: self.idx,
            text: self.text@,
            creation_ts: self.creation_ts,
            created_by: self.created_by@,
        }
    }
}

/// What each of a list of entries holds, in the list's order.
pub open spec fn entry_views(entries: Seq<Entry>) -> Seq<EntryView> {
    Seq::new(entries.len(), |i: int| entries[i]@)
}

/// A keyword that the store has yet to create.
#[derive(Clone, Debug, PartialEq, Eq)]
pub struct NewKeyword {
    pub name: String,
    pub chan: String,
}

/// What a `NewKeyword` holds.
pub struct NewKeywordView {
    pub name: Seq<char>,
    pub chan: Seq<char>,
}

impl View for NewKeyword {
    type V = NewKeywordView;

    open spec fn view(&self) -> NewKeywordView {
        NewKeywordView { name: self.name@, chan: self.chan@ }
    }
}

/// An entry that the store has yet to insert.
#[derive(Clone, Debug, PartialEq, Eq)]
pub struct NewEntry {
    pub keyword_id: i32,
    pub idx: i32,
    pub text: String,
    pub creation_ts: Timestamp,
    pub created_by: String,
}

/// What a `NewEntry` holds.
pub struct NewEntryView {
    pub keyword_id: i32,
    pub idx: i32,
    pub text: Seq<char>,
    pub creation_ts: Timestamp,
    pub created_by: Seq<char>,
}

impl View for NewEntry {
    type V = NewEntryView;

    open spec fn view(&self) -> NewEntryView {
        NewEntryView {
            keyword_id: self.keyword_id,
            idx: self.idx,
            text: self.text@,
            creation_ts: self.creation_ts,
            created_by: self.created_by@,
        }
    }
}

} // verus!
