//! A keyword together with its entries, and what each operation on it asks of
//! the store.
//!
//! Nothing here talks to the store. An operation that changes entries yields
//! what the store has to do: a record to insert, or a `Plan` of one removal and
//! of moves. After a plan the entries are read from the store again, so the
//! positions that this type holds are always those that the store gave.

use vstd::prelude::*;

use crate::clock::{date_text, Date, Timestamp};
use crate::models::{
    entry_views, general_scope, option_view, result_view, Entry, EntryView, Keyword, KeywordView,
    NewEntry, NewEntryView, NewKeyword, NewKeywordView,
};
use crate::store::{Request, RequestView};
use crate::text::{
    chars_of, copy_of, decimal, i32_value, int_text, nat_digits, parse_i32, push_nat, push_text,
    same_text, string_of,
};

verus! {

/// Why an operation on a keyword was refused.
#[derive(Clone, Copy, Debug, PartialEq, Eq, Structural)]
pub enum Refusal {
    /// The two positions of a swap are not held by two entries.
    InvalidSwap,
    /// No entry holds the position to delete.
    NoSuchEntry,
    /// The keyword holds as many entries as positions can be numbered.
    Full,
}

/// What the store has to do for a swap or a deletion: remove one entry, if
/// any, then give entries new positions, in the order of `moves`. A move is an
/// entry's id and its new position.
#[derive(Clone, Debug, PartialEq, Eq)]
pub struct Plan {
    pub remove: Option<i32>,
    pub moves: Vec<(i32, i32)>,
}

/// What a `Plan` holds.
pub struct PlanView {
    pub remove: Option<i32>,
    pub moves: Seq<(i32, i32)>,
}

impl View for Plan {
    type V = PlanView;

    open spec fn view(&self) -> PlanView {
        PlanView { remove: self.remove, moves: self.moves@ }
    }
}

/// A keyword and its entries, in the order in which the store lists them:
/// by position, ascending.
#[derive(Clone, Debug, PartialEq, Eq)]
pub struct KeywordDetails {
    pub keyword: Keyword,
    pub entries: Vec<Entry>,
}

/// What a `KeywordDetails` holds.
pub struct KeywordDetailsView {
    pub keyword: KeywordView,
    pub entries: Seq<EntryView>,
}

impl View for KeywordDetails {
    type V = KeywordDetailsView;

    open spec fn view(&self) -> KeywordDetailsView {
        KeywordDetailsView { keyword: self.keyword@, entries: entry_views(self.entries@) }
    }
}

/// What a lookup found, once the entries of the keyword are known.
#[derive(Clone, Debug, PartialEq, Eq)]
pub enum Resolved {
    /// The keyword itself.
    Details(KeywordDetails),
    /// The keyword stands for another one, of this name.
    Alias(String),
}

/// What a `Resolved` holds.
pub enum ResolvedView {
    Details(KeywordDetailsView),
    Alias(Seq<char>),
}

impl View for Resolved {
    type V = ResolvedView;

    open spec fn view(&self) -> ResolvedView {
        match self {
            Resolved::Details(d) => ResolvedView::Details(d@),
            Resolved::Alias(name) => ResolvedView::Alias(name@),
        }
    }
}

/// What counting up or down on a keyword asks of the store.
#[derive(Clone, Debug, PartialEq, Eq)]
pub enum Adjustment {
    /// Today's counter stands at `position`, in the entry `entry_id`: its text
    /// becomes `text`.
    Update { position: usize, entry_id: i32, text: String },
    /// There is no counter of today: a new entry starts one.
    Learn(NewEntry),
}

/// What an `Adjustment` holds.
pub enum AdjustmentView {
    Update { position: usize, entry_id: i32, text: Seq<char> },
    Learn(NewEntryView),
}

impl View for Adjustment {
    type V = AdjustmentView;

    open spec fn view(&self) -> AdjustmentView {
        match self {
            Adjustment::Update { position, entry_id, text } => AdjustmentView::Update {
                position: *position,
                entry_id: *entry_id,
                text: text@,
            },
            Adjustment::Learn(new) => AdjustmentView::Learn(new@),
        }
    }
}

/// The positions are dense: the entry listed at place `i`, counted from 0,
/// holds position `i + 1`.
pub open spec fn dense(entries: Seq<EntryView>) -> bool {
    forall|i: int| 0 <= i < entries.len() ==> (#[trigger] entries[i]).idx == i + 1
}

/// The first place in `entries` whose entry holds `position`.
pub open spec fn place_of(entries: Seq<EntryView>, position: int) -> Option<int>
    decreases entries.len(),
{
    if entries.len() == 0 {
        None
    } else {
        match place_of(entries.drop_last(), position) {
            Some(i) => Some(i),
            None => if entries.last().idx == position {
                Some(entries.len() - 1)
            } else {
                None
            },
        }
    }
}

/// The moves that a swap of the positions `a` and `b` makes for one entry.
pub open spec fn swap_touch(entry: EntryView, a: i32, b: i32) -> Seq<(i32, i32)> {
    (if entry.idx == a {
        seq![(entry.id, b)]
    } else {
        Seq::<(i32, i32)>::empty()
    }) + (if entry.idx == b {
        seq![(entry.id, a)]
    } else {
        Seq::<(i32, i32)>::empty()
    })
}

/// The moves that a swap of the positions `a` and `b` makes: each entry at `a`
/// goes to `b` and each entry at `b` goes to `a`, in the order of the entries.
pub open spec fn swap_moves(entries: Seq<EntryView>, a: i32, b: i32) -> Seq<(i32, i32)>
    decreases entries.len(),
{
    if entries.len() == 0 {
        Seq::<(i32, i32)>::empty()
    } else {
        swap_moves(entries.drop_last(), a, b) + swap_touch(entries.last(), a, b)
    }
}

/// A swap: refused unless exactly two moves come of it.
pub open spec fn swap_plan(entries: Seq<EntryView>, a: usize, b: usize) -> Result<
    PlanView,
    Refusal,
> {
    if a <= i32::MAX && b <= i32::MAX && swap_moves(entries, a as i32, b as i32).len() == 2 {
        Ok(PlanView { remove: None, moves: swap_moves(entries, a as i32, b as i32) })
    } else {
        Err(Refusal::InvalidSwap)
    }
}

/// The moves that close the gap at `position`: each entry above it goes down
/// by one, in the order of the entries.
pub open spec fn closing_moves(entries: Seq<EntryView>, position: int) -> Seq<(i32, i32)>
    decreases entries.len(),
{
    if entries.len() == 0 {
        Seq::<(i32, i32)>::empty()
    } else {
        let last = entries.last();
        closing_moves(entries.drop_last(), position) + (if last.idx > position {
            seq![(last.id, (last.idx - 1) as i32)]
        } else {
            Seq::<(i32, i32)>::empty()
        })
    }
}

/// A deletion: refused where no entry holds `position`; otherwise the first
/// entry that holds it is removed and the gap is closed.
pub open spec fn delete_plan(entries: Seq<EntryView>, position: usize) -> Result<
    PlanView,
    Refusal,
> {
    match place_of(entries, position as int) {
        Some(i) => Ok(
            PlanView {
                remove: Some(entries[i].id),
                moves: closing_moves(entries, position as int),
            },
        ),
        None => Err(Refusal::NoSuchEntry),
    }
}

/// A move: a negative target deletes, any other swaps.
pub open spec fn move_plan(entries: Seq<EntryView>, position: usize, target: i32) -> Result<
    PlanView,
    Refusal,
> {
    if target < 0 {
        delete_plan(entries, position)
    } else {
        swap_plan(entries, position, target as usize)
    }
}

/// The record of a new entry: it goes behind the last one.
pub open spec fn learn_plan(
    details: KeywordDetailsView,
    nick: Seq<char>,
    text: Seq<char>,
    now: Timestamp,
) -> Result<NewEntryView, Refusal> {
    if details.entries.len() < i32::MAX {
        Ok(
            NewEntryView {
                keyword_id: details.keyword.id,
                idx: (details.entries.len() + 1) as i32,
                text,
                creation_ts: now,
                created_by: nick,
            },
        )
    } else {
        Err(Refusal::Full)
    }
}

/// Whether the store's record `entry` is the insertion of `new`: it holds what
/// `new` holds, under an id that the store chose.
pub open spec fn inserted(entry: EntryView, new: NewEntryView) -> bool {
    &&& entry.keyword_id == new.keyword_id
    &&& entry.idx == new.idx
    &&& entry.text == new.text
    &&& entry.creation_ts == new.creation_ts
    &&& entry.created_by == new.created_by
}

/// What the line for an entry says, without marks of style: the keyword's
/// name, the place of the entry among how many, its text and its date, as in
/// `bar[1/1]: hello [2024-02-29]`.
pub open spec fn entry_label(details: KeywordDetailsView, position: int) -> Seq<char> {
    let entry = details.entries[position - 1];
    details.keyword.name + "["@ + nat_digits(position as nat) + "/"@ + nat_digits(
        details.entries.len(),
    ) + "]: "@ + entry.text + " ["@ + date_text(entry.creation_ts.date) + "]"@
}

/// The style in which a line starts: bold, and in another colour where the
/// keyword is general.
pub open spec fn line_style(keyword: KeywordView) -> Seq<char> {
    "\x02"@ + (if keyword.is_general() {
        "\x0307"@
    } else {
        Seq::<char>::empty()
    })
}

/// The line that shows the entry listed at `position`, counted from 1: the
/// marks of style, what the line says, unbroken, and the mark that ends all
/// style.
pub open spec fn entry_line(details: KeywordDetailsView, position: int) -> Seq<char> {
    line_style(details.keyword) + entry_label(details, position) + "\x0f"@
}

/// The line for `position`, where an entry is listed there.
pub open spec fn formatted(details: KeywordDetailsView, position: usize) -> Option<Seq<char>> {
    if 1 <= position <= details.entries.len() {
        Some(entry_line(details, position as int))
    } else {
        None
    }
}

/// The text with which an alias starts.
pub open spec fn alias_mark() -> Seq<char> {
    seq!['s', 'e', 'e', ':', ' ']
}

/// The name for which the keyword stands, where its first entry is an alias:
/// what follows the mark in that entry's text.
pub open spec fn alias_target(entries: Seq<EntryView>) -> Option<Seq<char>> {
    if entries.len() > 0 && entries[0].text.len() >= 5 && entries[0].text.subrange(0, 5)
        == alias_mark() {
        Some(entries[0].text.subrange(5, entries[0].text.len() as int))
    } else {
        None
    }
}

/// A keyword with its entries, or the alias that its first entry is.
pub open spec fn resolved(keyword: KeywordView, entries: Seq<EntryView>) -> ResolvedView {
    match alias_target(entries) {
        Some(name) => ResolvedView::Alias(name),
        None => ResolvedView::Details(KeywordDetailsView { keyword, entries }),
    }
}

/// The first place in `candidates` whose keyword has the scope `scope`.
pub open spec fn first_scoped(candidates: Seq<KeywordView>, scope: Seq<char>) -> Option<int>
    decreases candidates.len(),
{
    if candidates.len() == 0 {
        None
    } else {
        match first_scoped(candidates.drop_last(), scope) {
            Some(i) => Some(i),
            None => if candidates.last().chan == scope {
                Some(candidates.len() - 1)
            } else {
                None
            },
        }
    }
}

/// The keyword that a lookup from the channel `chan` takes among those that
/// the store found: one of that channel before a general one, and no other.
pub open spec fn chosen(candidates: Seq<KeywordView>, chan: Seq<char>) -> Option<KeywordView> {
    match first_scoped(candidates, chan) {
        Some(i) => Some(candidates[i]),
        None => match first_scoped(candidates, general_scope()) {
            Some(i) => Some(candidates[i]),
            None => None,
        },
    }
}

/// What each of a list of keywords holds, in the list's order.
pub open spec fn keyword_views(keywords: Seq<Keyword>) -> Seq<KeywordView> {
    Seq::new(keywords.len(), |i: int| keywords[i]@)
}

/// Whether an entry counts for `today`: it was made on that day and its text
/// is a number.
pub open spec fn counts(entry: EntryView, today: Date) -> bool {
    entry.creation_ts.date == today && i32_value(entry.text) is Some
}

/// Today's counter: the place, counted from 1, of the last listed entry that
/// counts for `today`.
pub open spec fn counter(entries: Seq<EntryView>, today: Date) -> Option<int>
    decreases entries.len(),
{
    if entries.len() == 0 {
        None
    } else if counts(entries.last(), today) {
        Some(entries.len() as int)
    } else {
        counter(entries.drop_last(), today)
    }
}

/// Counting by `delta`: today's counter takes its value plus `delta` as its
/// text; where there is no counter of today, `delta` is learnt as a new entry.
pub open spec fn adjustment(
    details: KeywordDetailsView,
    nick: Seq<char>,
    delta: i32,
    now: Timestamp,
) -> Result<AdjustmentView, Refusal> {
    match counter(details.entries, now.date) {
        Some(position) => {
            let entry = details.entries[position - 1];
            Ok(
                AdjustmentView::Update {
                    position: position as usize,
                    entry_id: entry.id,
                    text: decimal(i32_value(entry.text).unwrap() + delta),
                },
            )
        },
        None => match learn_plan(details, nick, decimal(delta as int), now) {
            Ok(new) => Ok(AdjustmentView::Learn(new)),
            Err(refusal) => Err(refusal),
        },
    }
}

/// The entries with the text of the one listed at `position` replaced.
pub open spec fn with_text(entries: Seq<EntryView>, position: int, text: Seq<char>) -> Seq<
    EntryView,
> {
    if 1 <= position <= entries.len() {
        entries.update(position - 1, EntryView { text, ..entries[position - 1] })
    } else {
        entries
    }
}

/// What a lookup for a command that changes entries asks next: the entries of
/// the keyword found or, where none was found, a new keyword of the name
/// `word` for the channel `c`.
pub open spec fn found_or_new(
    found: Option<KeywordView>,
    word: Seq<char>,
    c: Seq<char>,
) -> RequestView {
    match found {
        Some(keyword) => RequestView::ListEntries { keyword_id: keyword.id },
        None => RequestView::CreateKeyword(NewKeywordView { name: word, chan: c }),
    }
}

/// What is asked of the store once `done` of the `moves` are made: the next
/// move or, after the last one, the entries of the keyword.
pub open spec fn next_move(
    details: KeywordDetailsView,
    moves: Seq<(i32, i32)>,
    done: int,
) -> RequestView {
    if 0 <= done < moves.len() {
        RequestView::UpdateEntryPosition { entry_id: moves[done].0, idx: moves[done].1 }
    } else {
        RequestView::ListEntries { keyword_id: details.keyword.id }
    }
}

/// Whether `chars` starts with the mark of an alias.
fn starts_with_mark(chars: &Vec<char>) -> (marked: bool)
    ensures
        marked == (chars@.len() >= 5 && chars@.subrange(0, 5) == alias_mark()),
{
    if chars.len() < 5 {
        return false;
    }
    let marked = chars[0] == 's' && chars[1] == 'e' && chars[2] == 'e' && chars[3] == ':'
        && chars[4] == ' ';
    proof {
        let head = chars@.subrange(0, 5);
        if marked {
            assert(head =~= alias_mark());
        } else {
            assert(head[0] == chars@[0] && head[1] == chars@[1] && head[2] == chars@[2] && head[3]
                == chars@[3] && head[4] == chars@[4]);
        }
    }
    marked
}

impl KeywordDetails {
    /// The record to insert for a new entry with the text `text`, taught by
    /// `nick` at the time `now`: it gets the position behind the last entry.
    /// Refused only where positions run out.
    pub fn learn(&self, nick: &str, text: &str, now: Timestamp) -> (out: Result<NewEntry, Refusal>)
        ensures
            result_view(out) == learn_plan(self@, nick@, text@, now),
    {
        if self.entries.len() >= 0x7fff_ffff {
            return Err(Refusal::Full);
        }
        Ok(
            NewEntry {
                keyword_id: self.keyword.id,
                idx: (self.entries.len() + 1) as i32,
                text: copy_of(text),
                creation_ts: now,
                created_by: copy_of(nick),
            },
        )
    }

    /// Takes in the entry that the store inserted, behind the others, and gives
    /// the number of entries, which is the new entry's place.
    pub fn learned(&mut self, entry: Entry) -> (count: usize)
        ensures
            final(self)@.keyword == old(self)@.keyword,
            final(self)@.entries == old(self)@.entries.push(entry@),
            count == old(self)@.entries.len() + 1,
    {
        self.entries.push(entry);
        assert(entry_views(self.entries@) =~= entry_views(old(self).entries@).push(entry@));
        self.entries.len()
    }

    /// The moves that exchange the entries at the positions `idx_a` and
    /// `idx_b`. Refused unless two moves come of it: each position must be
    /// held by one entry, or both by the same one.
    pub fn swap(&self, idx_a: usize, idx_b: usize) -> (out: Result<Plan, Refusal>)
        ensures
            result_view(out) == swap_plan(self@.entries, idx_a, idx_b),
    {
        if idx_a > 0x7fff_ffff || idx_b > 0x7fff_ffff {
            return Err(Refusal::InvalidSwap);
        }
        let a: i32 = idx_a as i32;
        let b: i32 = idx_b as i32;
        let ghost views = entry_views(self.entries@);
        let mut moves: Vec<(i32, i32)> = Vec::new();
        let mut i: usize = 0;
        while i < self.entries.len()
            invariant
                i <= self.entries.len(),
                views == entry_views(self.entries@),
                moves@ == swap_moves(views.take(i as int), a, b),
            decreases self.entries.len() - i,
        {
            let ghost before = moves@;
            let entry = &self.entries[i];
            if entry.idx == a {
                moves.push((entry.id, b));
            }
            if entry.idx == b {
                moves.push((entry.id, a));
            }
            proof {
                let longer = views.take(i + 1);
                assert(longer.drop_last() == views.take(i as int));
                assert(longer.last() == self.entries@[i as int]@);
                assert(moves@ == before + swap_touch(longer.last(), a, b));
            }
            i += 1;
        }
        assert(views.take(i as int) == views);
        if moves.len() != 2 {
            return Err(Refusal::InvalidSwap);
        }
        Ok(Plan { remove: None, moves })
    }

    /// The removal of the entry at the position `idx` and the moves that close
    /// the gap: every entry above it goes down by one. Refused where no entry
    /// holds that position.
    pub fn delete(&self, idx: usize) -> (out: Result<Plan, Refusal>)
        ensures
            result_view(out) == delete_plan(self@.entries, idx),
    {
        let ghost views = entry_views(self.entries@);
        let mut remove: Option<i32> = None;
        let ghost mut place: Option<int> = None;
        let mut moves: Vec<(i32, i32)> = Vec::new();
        let mut i: usize = 0;
        while i < self.entries.len()
            invariant
                i <= self.entries.len(),
                views == entry_views(self.entries@),
                place == place_of(views.take(i as int), idx as int),
                match place {
                    Some(p) => 0 <= p < i && remove == Some(views[p].id),
                    None => remove is None,
                },
                moves@ == closing_moves(views.take(i as int), idx as int),
            decreases self.entries.len() - i,
        {
            let entry = &self.entries[i];
            proof {
                let longer = views.take(i + 1);
                assert(longer.drop_last() == views.take(i as int));
                assert(longer.last() == self.entries@[i as int]@);
            }
            if entry.idx >= 0 && entry.idx as usize == idx && remove.is_none() {
                remove = Some(entry.id);
                proof {
                    place = Some(i as int);
                }
            }
            if entry.idx > 0 && entry.idx as usize > idx {
                moves.push((entry.id, entry.idx - 1));
            }
            i += 1;
        }
        assert(views.take(i as int) == views);
        match remove {
            Some(id) => Ok(Plan { remove: Some(id), moves }),
            None => Err(Refusal::NoSuchEntry),
        }
    }

    /// What moving the entry at `position` to `target` asks of the store. A
    /// negative target stands for deletion: then this is `delete(position)`.
    /// Any other target is a position: then this is `swap(position, target)`.
    pub fn move_entry(&self, position: usize, target: i32) -> (out: Result<Plan, Refusal>)
        ensures
            result_view(out) == move_plan(self@.entries, position, target),
    {
        if target < 0 {
            self.delete(position)
        } else {
            self.swap(position, target as usize)
        }
    }

    /// Takes in the entries as the store lists them now, in place of those
    /// held so far.
    pub fn reload(&mut self, entries: Vec<Entry>)
        ensures
            final(self)@.keyword == old(self)@.keyword,
            final(self)@.entries == entry_views(entries@),
    {
        self.entries = entries;
    }

    /// The line that shows the entry listed at place `idx`, counted from 1:
    /// the name of the keyword, `[idx/count]: `, the text and ` [date]`, in one
    /// piece between the marks of style. `None` where `idx` is 0 or greater
    /// than the number of entries.
    pub fn format_entry(&self, idx: usize) -> (out: Option<String>)
        ensures
            option_view(out) == formatted(self@, idx),
    {
        if idx == 0 || idx > self.entries.len() {
            return None;
        }
        let entry = &self.entries[idx - 1];
        let general = same_text(self.keyword.chan.as_str(), "*");
        proof {
            reveal_strlit("*");
            assert("*"@ =~= general_scope());
        }
        let mut label = copy_of(self.keyword.name.as_str());
        push_text(&mut label, "[");
        push_nat(&mut label, idx as u64);
        push_text(&mut label, "/");
        push_nat(&mut label, self.entries.len() as u64);
        push_text(&mut label, "]: ");
        push_text(&mut label, entry.text.as_str());
        push_text(&mut label, " [");
        entry.creation_ts.date.push_to(&mut label);
        push_text(&mut label, "]");
        assert(label@ == entry_label(self@, idx as int)) by {
            assert(self@.entries[idx - 1] == entry@);
        }
        let mut out = copy_of("\x02");
        if general {
            push_text(&mut out, "\x0307");
        } else {
            assert(out@ + Seq::<char>::empty() == out@);
        }
        assert(out@ == line_style(self@.keyword));
        push_text(&mut out, label.as_str());
        push_text(&mut out, "\x0f");
        Some(out)
    }

    /// The keyword that a lookup from the channel `c` takes among those that
    /// the store found for a name: the first one of that channel, else the
    /// first general one, else none.
    pub fn get(candidates: Vec<Keyword>, c: &str) -> (out: Option<Keyword>)
        ensures
            option_view(out) == chosen(keyword_views(candidates@), c@),
    {
        let mut candidates = candidates;
        let ghost views = keyword_views(candidates@);
        let mut own: Option<usize> = None;
        let mut general: Option<usize> = None;
        let mut i: usize = 0;
        proof {
            reveal_strlit("*");
            assert("*"@ =~= general_scope());
        }
        while i < candidates.len()
            invariant
                i <= candidates.len(),
                views == keyword_views(candidates@),
                "*"@ == general_scope(),
                match own {
                    Some(p) => first_scoped(views.take(i as int), c@) == Some(p as int) && p < i,
                    None => first_scoped(views.take(i as int), c@) is None,
                },
                match general {
                    Some(p) => first_scoped(views.take(i as int), general_scope()) == Some(p as int)
                        && p < i,
                    None => first_scoped(views.take(i as int), general_scope()) is None,
                },
            decreases candidates.len() - i,
        {
            proof {
                let longer = views.take(i + 1);
                assert(longer.drop_last() == views.take(i as int));
                assert(longer.last() == candidates@[i as int]@);
            }
            if own.is_none() && same_text(candidates[i].chan.as_str(), c) {
                own = Some(i);
            }
            if general.is_none() && same_text(candidates[i].chan.as_str(), "*") {
                general = Some(i);
            }
            i += 1;
        }
        assert(views.take(i as int) == views);
        let pick: Option<usize> = match own {
            Some(p) => Some(p),
            None => general,
        };
        match pick {
            Some(p) => {
                let keyword = candidates.swap_remove(p);
                assert(keyword@ == views[p as int]);
                Some(keyword)
            },
            None => None,
        }
    }

    /// The keyword `keyword` with the entries that the store lists for it, or
    /// the name of the keyword for which it stands: its first entry is then an
    /// alias, a text that starts with `see: `.
    pub fn resolve(keyword: Keyword, entries: Vec<Entry>) -> (out: Resolved)
        ensures
            out@ == resolved(keyword@, entry_views(entries@)),
    {
        if entries.len() > 0 {
            let chars = chars_of(entries[0].text.as_str());
            assert(entry_views(entries@)[0] == entries@[0]@);
            if starts_with_mark(&chars) {
                return Resolved::Alias(string_of(&chars, 5, chars.len()));
            }
        }
        Resolved::Details(KeywordDetails { keyword, entries })
    }

    /// What a lookup for a command that changes entries asks of the store
    /// next: the entries of the keyword found or, where none was found, a new
    /// keyword of the name `word` for the channel `c`, without entries.
    pub fn get_or_create(found: &Option<Keyword>, word: &str, c: &str) -> (out: Request)
        ensures
            out@ == found_or_new(option_view(*found), word@, c@),
    {
        match found {
            Some(keyword) => Request::ListEntries { keyword_id: keyword.id },
            None => Request::CreateKeyword(Self::create(word, c)),
        }
    }

    /// What is asked of the store once `done` of the `moves` are made: the
    /// next move or, after the last one, the entries of the keyword as they
    /// are then.
    pub fn process_moves(&self, moves: &Vec<(i32, i32)>, done: usize) -> (out: Request)
        ensures
            out@ == next_move(self@, moves@, done as int),
    {
        if done < moves.len() {
            Request::UpdateEntryPosition { entry_id: moves[done].0, idx: moves[done].1 }
        } else {
            Request::ListEntries { keyword_id: self.keyword.id }
        }
    }

    /// The record of a new keyword of the name `word`, for the channel `c`.
    pub fn create(word: &str, c: &str) -> (out: NewKeyword)
        ensures
            out@ == (NewKeywordView { name: word@, chan: c@ }),
    {
        NewKeyword { name: copy_of(word), chan: copy_of(c) }
    }

    /// The keyword that the store created, with no entry yet.
    pub fn created(keyword: Keyword) -> (out: KeywordDetails)
        ensures
            out@ == (KeywordDetailsView {
                keyword: keyword@,
                entries: Seq::<EntryView>::empty(),
            }),
    {
        let out = KeywordDetails { keyword, entries: Vec::new() };
        assert(out@.entries =~= Seq::<EntryView>::empty());
        out
    }

    /// Today's counter: the place, counted from 1, of the last listed entry
    /// that was made on the day `today` and whose text is a number, with that
    /// number.
    pub fn counter(&self, today: Date) -> (out: Option<(usize, i32)>)
        ensures
            match out {
                Some((position, value)) => {
                    &&& counter(self@.entries, today) == Some(position as int)
                    &&& 1 <= position <= self@.entries.len()
                    &&& i32_value(self@.entries[position - 1].text) == Some(value)
                },
                None => counter(self@.entries, today) is None,
            },
    {
        let ghost views = entry_views(self.entries@);
        let mut end: usize = self.entries.len();
        assert(views.take(end as int) == views);
        while end > 0
            invariant
                end <= self.entries.len(),
                views == entry_views(self.entries@),
                counter(views, today) == counter(views.take(end as int), today),
            decreases end,
        {
            let entry = &self.entries[end - 1];
            proof {
                let shorter = views.take(end as int);
                assert(shorter.drop_last() == views.take(end - 1));
                assert(shorter.last() == entry@);
            }
            if entry.creation_ts.date == today {
                match parse_i32(entry.text.as_str()) {
                    Some(value) => {
                        return Some((end, value));
                    },
                    None => {},
                }
            }
            end -= 1;
        }
        assert(views.take(0) == Seq::<EntryView>::empty());
        None
    }

    /// What counting by `delta` asks of the store: the new text of today's
    /// counter, or the record of a new entry that holds `delta`.
    pub fn increment_or_decrement(&self, nick: &str, delta: i32, now: Timestamp) -> (out: Result<
        Adjustment,
        Refusal,
    >)
        ensures
            result_view(out) == adjustment(self@, nick@, delta, now),
    {
        match self.counter(now.date) {
            Some((position, value)) => {
                let text = int_text(value as i64 + delta as i64);
                Ok(Adjustment::Update { position, entry_id: self.entries[position - 1].id, text })
            },
            None => {
                let text = int_text(delta as i64);
                match self.learn(nick, text.as_str(), now) {
                    Ok(new) => Ok(Adjustment::Learn(new)),
                    Err(refusal) => Err(refusal),
                }
            },
        }
    }

    /// Puts `text` in place of the text of the entry listed at `position`,
    /// counted from 1; nothing changes where no entry is listed there.
    pub fn update(&mut self, position: usize, text: &str)
        ensures
            final(self)@.keyword == old(self)@.keyword,
            final(self)@.entries == with_text(old(self)@.entries, position as int, text@),
    {
        if 1 <= position && position <= self.entries.len() {
            let old_entry = &self.entries[position - 1];
            let entry = Entry {
                id: old_entry.id,
                keyword_id: old_entry.keyword_id,
                idx: old_entry.idx,
                text: copy_of(text),
                creation_ts: old_entry.creation_ts,
                created_by: copy_of(old_entry.created_by.as_str()),
            };
            self.entries.set(position - 1, entry);
            assert(entry_views(self.entries@) =~= with_text(
                entry_views(old(self).entries@),
                position as int,
                text@,
            ));
        }
    }
}

} // verus!
