//! What the operations on a keyword guarantee, proved for all entries: dense
//! positions after every change, the order that a deletion keeps, the swap
//! that undoes itself, the scope that a lookup prefers, and who may change
//! what. Each is stated over a store that carries out what it is asked and
//! lists entries by position.

use vstd::prelude::*;
use vstd::seq_lib::{to_multiset_contains, to_multiset_len, to_multiset_update};

use crate::clock::{Date, Timestamp};
use crate::dispatch::{
    act, approach, begin, carry_on, failure, found, is_channel, moved_text, next, nick_of, reply,
    ContextView, PhaseView, SessionView, StepView,
};
use crate::grammar::{
    a_move_line_is_a_move, adjust_line, an_adjust_line_is_an_adjustment, move_line, plain_subject,
    CommandView,
};
use crate::keyword::{
    adjustment, alias_target, chosen, closing_moves, counter, counts, delete_plan, dense,
    entry_label, entry_line, first_scoped, formatted, inserted, learn_plan, line_style, move_plan,
    place_of, swap_moves, swap_plan, AdjustmentView, KeywordDetailsView, PlanView, Refusal,
};
use crate::models::{general_scope, EntryView, KeywordView, NewEntryView};
use crate::notice::{deleted_text, refused, ErrorView};
use crate::store::{
    after_moves, after_plan, lists, outcome, repositioned, without, AnswerView, RequestView,
};
use crate::text::{decimal, decimal_reads_back, i32_value, nat_digits, signed_value};

verus! {

/// No two entries have the same id.
pub open spec fn unique_ids(entries: Seq<EntryView>) -> bool {
    forall|i: int, j: int|
        0 <= i < j < entries.len() ==> (#[trigger] entries[i]).id != (#[trigger] entries[j]).id
}

/// The place in `listing` at which `entry` stands.
spec fn place_in(listing: Seq<EntryView>, entry: EntryView) -> int {
    choose|j: int| 0 <= j < listing.len() && listing[j] == entry
}

/// In a listing of dense rows, no position stands later than its place.
proof fn listing_not_above(listing: Seq<EntryView>, rows: Seq<EntryView>, k: int)
    requires
        dense(rows),
        lists(listing, rows),
        0 <= k < listing.len(),
    ensures
        listing[k].idx <= k + 1,
    decreases k,
{
    to_multiset_len(listing);
    to_multiset_len(rows);
    if k == 0 {
        let first = rows[0];
        to_multiset_contains(rows, first);
        to_multiset_contains(listing, first);
        assert(rows.contains(first));
        let j = place_in(listing, first);
        assert(listing[0].idx <= listing[j].idx);
    } else {
        listing_not_above(listing, rows, k - 1);
        let below = listing[k - 1];
        to_multiset_contains(listing, below);
        to_multiset_contains(rows, below);
        assert(listing.contains(below));
        let at = place_in(rows, below);
        assert(below.idx == at + 1);
        if below.idx < rows.len() {
            let above = rows[below.idx as int];
            to_multiset_contains(rows, above);
            to_multiset_contains(listing, above);
            assert(rows.contains(above));
            let j = place_in(listing, above);
            assert(above.idx == below.idx + 1);
            if j <= k - 1 {
                assert(listing[j].idx <= listing[k - 1].idx);
            }
            assert(listing[k].idx <= listing[j].idx);
        } else {
            let here = listing[k];
            to_multiset_contains(listing, here);
            to_multiset_contains(rows, here);
            assert(listing.contains(here));
            let h = place_in(rows, here);
            assert(here.idx == h + 1);
        }
    }
}

/// In a listing of dense rows, no position stands earlier than its place.
proof fn listing_not_below(listing: Seq<EntryView>, rows: Seq<EntryView>, k: int)
    requires
        dense(rows),
        lists(listing, rows),
        0 <= k < listing.len(),
    ensures
        listing[k].idx >= k + 1,
    decreases listing.len() - k,
{
    to_multiset_len(listing);
    to_multiset_len(rows);
    let n = rows.len() as int;
    if k == n - 1 {
        let last = rows[n - 1];
        to_multiset_contains(rows, last);
        to_multiset_contains(listing, last);
        assert(rows.contains(last));
        let j = place_in(listing, last);
        assert(listing[j].idx <= listing[k].idx);
    } else {
        listing_not_below(listing, rows, k + 1);
        let above = listing[k + 1];
        to_multiset_contains(listing, above);
        to_multiset_contains(rows, above);
        assert(listing.contains(above));
        let at = place_in(rows, above);
        assert(above.idx == at + 1);
        let below = rows[at - 1];
        to_multiset_contains(rows, below);
        to_multiset_contains(listing, below);
        assert(rows.contains(below));
        let j = place_in(listing, below);
        assert(below.idx == above.idx - 1);
        if j >= k + 1 {
            assert(listing[k + 1].idx <= listing[j].idx);
        }
        assert(listing[j].idx <= listing[k].idx);
    }
}

/// Dense rows can be listed in one way only: as they stand.
pub proof fn dense_rows_list_as_they_stand(listing: Seq<EntryView>, rows: Seq<EntryView>)
    requires
        dense(rows),
        lists(listing, rows),
    ensures
        listing == rows,
{
    to_multiset_len(listing);
    to_multiset_len(rows);
    assert forall|k: int| 0 <= k < listing.len() implies listing[k] == rows[k] by {
        listing_not_above(listing, rows, k);
        listing_not_below(listing, rows, k);
        let here = listing[k];
        to_multiset_contains(listing, here);
        to_multiset_contains(rows, here);
        assert(listing.contains(here));
        let h = place_in(rows, here);
        assert(here.idx == h + 1);
    }
    assert(listing =~= rows);
}

/// Among dense entries, a position is held by the entry at the place before
/// it, and positions outside 1 to the number of entries by none.
pub proof fn place_among_dense(entries: Seq<EntryView>, position: int)
    requires
        dense(entries),
    ensures
        place_of(entries, position) == (if 1 <= position <= entries.len() {
            Some(position - 1)
        } else {
            None
        }),
    decreases entries.len(),
{
    if entries.len() > 0 {
        let shorter = entries.drop_last();
        assert(dense(shorter)) by {
            assert forall|i: int| 0 <= i < shorter.len() implies (#[trigger] shorter[i]).idx == i
                + 1 by {
                assert(shorter[i] == entries[i]);
            }
        }
        place_among_dense(shorter, position);
        assert(entries.last() == entries[entries.len() - 1]);
    }
}

/// The moves that close the gap at `position` among dense entries: every
/// entry listed behind that position goes to the position before its own.
pub open spec fn closing_among_dense(entries: Seq<EntryView>, position: int) -> Seq<(i32, i32)> {
    Seq::new(
        if position <= entries.len() {
            (entries.len() - position) as nat
        } else {
            0
        },
        |j: int| (entries[position + j].id, (position + j) as i32),
    )
}

/// Among dense entries, the moves of a deletion are those of
/// `closing_among_dense`.
pub proof fn closing_moves_among_dense(entries: Seq<EntryView>, position: int)
    requires
        dense(entries),
        0 <= position,
    ensures
        closing_moves(entries, position) == closing_among_dense(entries, position),
    decreases entries.len(),
{
    if entries.len() == 0 {
        assert(closing_moves(entries, position) =~= closing_among_dense(entries, position));
    } else {
        let shorter = entries.drop_last();
        assert(dense(shorter)) by {
            assert forall|i: int| 0 <= i < shorter.len() implies (#[trigger] shorter[i]).idx == i
                + 1 by {
                assert(shorter[i] == entries[i]);
            }
        }
        closing_moves_among_dense(shorter, position);
        let last = entries.last();
        assert(last == entries[entries.len() - 1]);
        assert(last.idx == entries.len());
        assert(closing_moves(entries, position) =~= closing_among_dense(entries, position));
    }
}

/// The one move of a swap for the position `from`, among dense entries: the
/// entry that holds it goes to `to`.
pub open spec fn swap_part(entries: Seq<EntryView>, from: int, to: int) -> Seq<(i32, i32)> {
    if 1 <= from <= entries.len() {
        seq![(entries[from - 1].id, to as i32)]
    } else {
        Seq::<(i32, i32)>::empty()
    }
}

/// The moves of a swap among dense entries: the move for the lower position
/// comes first.
pub open spec fn swap_among_dense(entries: Seq<EntryView>, a: int, b: int) -> Seq<(i32, i32)> {
    if a <= b {
        swap_part(entries, a, b) + swap_part(entries, b, a)
    } else {
        swap_part(entries, b, a) + swap_part(entries, a, b)
    }
}

/// Among dense entries, the moves of a swap are those of `swap_among_dense`.
pub proof fn swap_moves_among_dense(entries: Seq<EntryView>, a: i32, b: i32)
    requires
        dense(entries),
    ensures
        swap_moves(entries, a, b) == swap_among_dense(entries, a as int, b as int),
    decreases entries.len(),
{
    if entries.len() == 0 {
        assert(swap_moves(entries, a, b) =~= swap_among_dense(entries, a as int, b as int));
    } else {
        let shorter = entries.drop_last();
        assert(dense(shorter)) by {
            assert forall|i: int| 0 <= i < shorter.len() implies (#[trigger] shorter[i]).idx == i
                + 1 by {
                assert(shorter[i] == entries[i]);
            }
        }
        swap_moves_among_dense(shorter, a, b);
        let last = entries.last();
        assert(last == entries[entries.len() - 1]);
        assert(last.idx == entries.len());
        assert(forall|i: int| 0 <= i < shorter.len() ==> #[trigger] shorter[i] == entries[i]);
        assert(swap_moves(entries, a, b) =~= swap_among_dense(entries, a as int, b as int));
    }
}

/// Among dense entries a swap is refused exactly where one of the two
/// positions is held by no entry; otherwise its plan removes nothing and
/// makes the two moves of `swap_among_dense`.
pub proof fn swap_among_dense_entries(entries: Seq<EntryView>, a: usize, b: usize)
    requires
        dense(entries),
    ensures
        swap_plan(entries, a, b) == (if 1 <= a <= entries.len() && 1 <= b <= entries.len() {
            Ok::<PlanView, Refusal>(
                PlanView { remove: None, moves: swap_among_dense(entries, a as int, b as int) },
            )
        } else {
            Err::<PlanView, Refusal>(Refusal::InvalidSwap)
        }),
{
    if entries.len() > 0 {
        assert(entries[entries.len() - 1].idx == entries.len());
    }
    if a <= i32::MAX && b <= i32::MAX {
        swap_moves_among_dense(entries, a as i32, b as i32);
    }
}

/// Among dense entries a deletion is refused exactly where no entry is listed
/// at `position`; otherwise its plan removes the entry listed there and makes
/// the moves of `closing_among_dense`.
pub proof fn delete_among_dense_entries(entries: Seq<EntryView>, position: usize)
    requires
        dense(entries),
    ensures
        delete_plan(entries, position) == (if 1 <= position <= entries.len() {
            Ok::<PlanView, Refusal>(
                PlanView {
                    remove: Some(entries[position - 1].id),
                    moves: closing_among_dense(entries, position as int),
                },
            )
        } else {
            Err::<PlanView, Refusal>(Refusal::NoSuchEntry)
        }),
{
    place_among_dense(entries, position as int);
    closing_moves_among_dense(entries, position as int);
}

/// Deleting an id that no row has changes nothing.
proof fn without_absent(rows: Seq<EntryView>, entry_id: i32)
    requires
        forall|i: int| 0 <= i < rows.len() ==> (#[trigger] rows[i]).id != entry_id,
    ensures
        without(rows, entry_id) == rows,
    decreases rows.len(),
{
    if rows.len() > 0 {
        let shorter = rows.drop_last();
        assert forall|i: int| 0 <= i < shorter.len() implies (#[trigger] shorter[i]).id
            != entry_id by {
            assert(shorter[i] == rows[i]);
        }
        without_absent(shorter, entry_id);
        assert(rows.last() == rows[rows.len() - 1]);
        assert(shorter.push(rows.last()) =~= rows);
    }
}

/// Deleting the id of the row at place `k` takes that row out and leaves the
/// others as they stand, where no two rows share an id.
proof fn without_one(rows: Seq<EntryView>, k: int)
    requires
        unique_ids(rows),
        0 <= k < rows.len(),
    ensures
        without(rows, rows[k].id) == rows.remove(k),
    decreases rows.len(),
{
    let entry_id = rows[k].id;
    let shorter = rows.drop_last();
    let last = rows.last();
    assert(last == rows[rows.len() - 1]);
    if k == rows.len() - 1 {
        assert forall|i: int| 0 <= i < shorter.len() implies (#[trigger] shorter[i]).id
            != entry_id by {
            assert(shorter[i] == rows[i]);
            assert(rows[i].id != rows[k].id);
        }
        without_absent(shorter, entry_id);
        assert(rows.remove(k) =~= shorter);
    } else {
        assert(rows[k].id != rows[rows.len() - 1].id);
        assert(unique_ids(shorter)) by {
            assert forall|i: int, j: int| 0 <= i < j < shorter.len() implies (
            #[trigger] shorter[i]).id != (#[trigger] shorter[j]).id by {
                assert(shorter[i] == rows[i] && shorter[j] == rows[j]);
                assert(rows[i].id != rows[j].id);
            }
        }
        assert(shorter[k] == rows[k]);
        without_one(shorter, k);
        assert(shorter.remove(k).push(last) =~= rows.remove(k));
    }
}

/// The entries after the deletion of the one listed at `position`, among dense
/// entries: those listed before it as they were, those listed behind it one
/// place and one position lower.
pub open spec fn closed_up(entries: Seq<EntryView>, position: int) -> Seq<EntryView> {
    Seq::new(
        (entries.len() - 1) as nat,
        |i: int|
            if i < position - 1 {
                entries[i]
            } else {
                EntryView { idx: (i + 1) as i32, ..entries[i + 1] }
            },
    )
}

/// The rows while a gap is being closed: `made` of the moves are made.
spec fn closing_up(entries: Seq<EntryView>, position: int, made: int) -> Seq<EntryView> {
    Seq::new(
        (entries.len() - 1) as nat,
        |i: int|
            if i < position - 1 {
                entries[i]
            } else if i < position - 1 + made {
                EntryView { idx: (i + 1) as i32, ..entries[i + 1] }
            } else {
                entries[i + 1]
            },
    )
}

/// What the store holds after the first `made` moves of a deletion.
proof fn gap_closes(entries: Seq<EntryView>, position: int, made: int)
    requires
        dense(entries),
        unique_ids(entries),
        1 <= position <= entries.len(),
        0 <= made <= entries.len() - position,
    ensures
        after_moves(
            entries.remove(position - 1),
            closing_among_dense(entries, position).take(made),
        ) == closing_up(entries, position, made),
    decreases made,
{
    let rows = entries.remove(position - 1);
    let moves = closing_among_dense(entries, position);
    let some = moves.take(made);
    if made == 0 {
        assert(closing_up(entries, position, made) =~= rows);
    } else {
        gap_closes(entries, position, made - 1);
        assert(some.drop_last() == moves.take(made - 1));
        assert(some.last() == moves[made - 1]);
        let before = closing_up(entries, position, made - 1);
        let mover = entries[position + made - 1];
        assert(moves[made - 1] == (mover.id, (position + made - 1) as i32));
        let after = repositioned(before, mover.id, (position + made - 1) as i32);
        assert forall|i: int| 0 <= i < after.len() implies after[i] == closing_up(
            entries,
            position,
            made,
        )[i] by {
            if i < position - 1 {
                assert(before[i] == entries[i]);
                assert(entries[i].id != entries[position + made - 1].id);
            } else if i == position + made - 2 {
                assert(before[i] == entries[i + 1]);
            } else if i < position + made - 2 {
                assert(entries[i + 1].id != entries[position + made - 1].id);
            } else {
                assert(before[i] == entries[i + 1]);
                assert(entries[position + made - 1].id != entries[i + 1].id);
            }
        }
        assert(after =~= closing_up(entries, position, made));
    }
}

/// After any deletion of a listed entry, the entries are one fewer, their
/// positions are dense again, and they stand in the order in which they stood:
/// those listed before the deleted one as they were, those behind it one
/// position lower. This holds of every listing that the store can give once
/// it has carried out the plan.
pub proof fn delete_closes_the_gap(
    entries: Seq<EntryView>,
    position: usize,
    listing: Seq<EntryView>,
)
    requires
        dense(entries),
        unique_ids(entries),
        1 <= position <= entries.len(),
        lists(listing, outcome(entries, delete_plan(entries, position))),
    ensures
        delete_plan(entries, position) is Ok,
        listing == closed_up(entries, position as int),
        listing.len() == entries.len() - 1,
        dense(listing),
        unique_ids(listing),
        forall|i: int| 0 <= i < position - 1 ==> listing[i] == entries[i],
        forall|i: int|
            position - 1 <= i < listing.len() ==> listing[i] == (EntryView {
                idx: (i + 1) as i32,
                ..entries[i + 1]
            }),
{
    let p = position as int;
    delete_among_dense_entries(entries, position);
    without_one(entries, p - 1);
    let moves = closing_among_dense(entries, p);
    gap_closes(entries, p, entries.len() - p);
    assert(moves.take(entries.len() - p) == moves);
    let rows = outcome(entries, delete_plan(entries, position));
    assert(rows == closing_up(entries, p, entries.len() - p));
    assert(rows =~= closed_up(entries, p));
    assert(entries[entries.len() - 1].idx == entries.len());
    assert(dense(closed_up(entries, p)));
    dense_rows_list_as_they_stand(listing, closed_up(entries, p));
    assert(unique_ids(listing)) by {
        assert forall|i: int, j: int| 0 <= i < j < listing.len() implies (#[trigger] listing[i]).id
            != (#[trigger] listing[j]).id by {
            let from_i = if i < p - 1 {
                i
            } else {
                i + 1
            };
            let from_j = if j < p - 1 {
                j
            } else {
                j + 1
            };
            assert(listing[i].id == entries[from_i].id);
            assert(listing[j].id == entries[from_j].id);
            assert(entries[from_i].id != entries[from_j].id);
        }
    }
}

/// Two rows changing places leaves the same rows.
proof fn exchange_keeps_rows(rows: Seq<EntryView>, i: int, j: int)
    requires
        0 <= i < rows.len(),
        0 <= j < rows.len(),
    ensures
        rows.update(i, rows[j]).update(j, rows[i]).to_multiset() == rows.to_multiset(),
{
    broadcast use vstd::multiset::group_multiset_axioms;

    let half = rows.update(i, rows[j]);
    to_multiset_update(rows, i, rows[j]);
    to_multiset_update(half, j, rows[i]);
    to_multiset_contains(rows, rows[i]);
    to_multiset_contains(rows, rows[j]);
    assert(rows.contains(rows[i]));
    assert(rows.contains(rows[j]));
    assert(half.update(j, rows[i]).to_multiset() =~= rows.to_multiset());
}

/// The entries after a swap of the positions `a` and `b`, among dense
/// entries: the two entries have changed places, and each holds the position
/// of its new place.
pub open spec fn exchanged(entries: Seq<EntryView>, a: int, b: int) -> Seq<EntryView> {
    Seq::new(
        entries.len(),
        |i: int|
            if i == a - 1 {
                EntryView { idx: a as i32, ..entries[b - 1] }
            } else if i == b - 1 {
                EntryView { idx: b as i32, ..entries[a - 1] }
            } else {
                entries[i]
            },
    )
}

/// What the store holds after the two moves of a swap.
proof fn swap_moves_rows(entries: Seq<EntryView>, a: int, b: int)
    requires
        dense(entries),
        unique_ids(entries),
        1 <= a <= entries.len(),
        1 <= b <= entries.len(),
    ensures
        after_moves(entries, swap_among_dense(entries, a, b)) == Seq::new(
            entries.len(),
            |i: int|
                if i == b - 1 {
                    EntryView { idx: a as i32, ..entries[b - 1] }
                } else if i == a - 1 {
                    EntryView { idx: b as i32, ..entries[a - 1] }
                } else {
                    entries[i]
                },
        ),
{
    let moves = swap_among_dense(entries, a, b);
    let expected = Seq::new(
        entries.len(),
        |i: int|
            if i == b - 1 {
                EntryView { idx: a as i32, ..entries[b - 1] }
            } else if i == a - 1 {
                EntryView { idx: b as i32, ..entries[a - 1] }
            } else {
                entries[i]
            },
    );
    assert(entries[entries.len() - 1].idx == entries.len());
    assert(moves.len() == 2);
    let first = moves.drop_last();
    assert(first.len() == 1);
    assert(first.drop_last().len() == 0);
    assert(first.last() == moves[0]);
    assert(moves.last() == moves[1]);
    assert(after_moves(entries, first.drop_last()) == entries);
    let half = repositioned(entries, moves[0].0, moves[0].1);
    assert(after_moves(entries, first) == half);
    let whole = repositioned(half, moves[1].0, moves[1].1);
    assert(after_moves(entries, moves) == whole);
    assert forall|i: int| 0 <= i < entries.len() implies whole[i] == expected[i] by {
        if i != a - 1 {
            assert(a - 1 < i || i < a - 1);
            assert(entries[i].id != entries[a - 1].id);
        }
        if i != b - 1 {
            assert(b - 1 < i || i < b - 1);
            assert(entries[i].id != entries[b - 1].id);
        }
        assert(entries[a - 1].idx == a);
        assert(entries[b - 1].idx == b);
    }
    assert(whole =~= expected);
}

/// After a swap of two listed entries, the store lists the entries with those
/// two in each other's place.
pub proof fn swap_exchanges(entries: Seq<EntryView>, a: usize, b: usize, listing: Seq<EntryView>)
    requires
        dense(entries),
        unique_ids(entries),
        1 <= a <= entries.len(),
        1 <= b <= entries.len(),
        lists(listing, outcome(entries, swap_plan(entries, a, b))),
    ensures
        swap_plan(entries, a, b) is Ok,
        listing == exchanged(entries, a as int, b as int),
        dense(listing),
        unique_ids(listing),
{
    swap_among_dense_entries(entries, a, b);
    swap_moves_rows(entries, a as int, b as int);
    let rows = outcome(entries, swap_plan(entries, a, b));
    let target = exchanged(entries, a as int, b as int);
    assert(entries[entries.len() - 1].idx == entries.len());
    assert(entries[a - 1].idx == a);
    assert(entries[b - 1].idx == b);
    exchange_keeps_rows(rows, a - 1, b - 1);
    assert(rows.update(a - 1, rows[b - 1]).update(b - 1, rows[a - 1]) =~= target);
    assert(dense(target));
    dense_rows_list_as_they_stand(listing, target);
    assert(unique_ids(target)) by {
        assert forall|i: int, j: int| 0 <= i < j < target.len() implies (#[trigger] target[i]).id
            != (#[trigger] target[j]).id by {
            let from_i = if i == a - 1 {
                b - 1
            } else if i == b - 1 {
                a - 1
            } else {
                i
            };
            let from_j = if j == a - 1 {
                b - 1
            } else if j == b - 1 {
                a - 1
            } else {
                j
            };
            assert(target[i].id == entries[from_i].id);
            assert(target[j].id == entries[from_j].id);
            assert(from_i != from_j);
            if from_i < from_j {
                assert(entries[from_i].id != entries[from_j].id);
            } else {
                assert(entries[from_j].id != entries[from_i].id);
            }
        }
    }
}

/// A swap made twice restores the entries: after `swap(a, b)` and `swap(a, b)`
/// again, each carried out by the store and followed by its listing, the
/// entries are listed as they were at first.
pub proof fn swap_twice_restores(
    entries: Seq<EntryView>,
    a: usize,
    b: usize,
    first: Seq<EntryView>,
    second: Seq<EntryView>,
)
    requires
        dense(entries),
        unique_ids(entries),
        1 <= a <= entries.len(),
        1 <= b <= entries.len(),
        lists(first, outcome(entries, swap_plan(entries, a, b))),
        lists(second, outcome(first, swap_plan(first, a, b))),
    ensures
        swap_plan(entries, a, b) is Ok,
        swap_plan(first, a, b) is Ok,
        second == entries,
{
    swap_exchanges(entries, a, b, first);
    swap_exchanges(first, a, b, second);
    assert(entries[a - 1].idx == a);
    assert(entries[b - 1].idx == b);
    assert(second =~= entries);
}

/// On a fresh keyword, the entries that are learnt one after the other get
/// the positions 1, 2, 3 and so on, in the order of the calls: `taught[k]` is
/// what the store inserted for the call number `k`, made when the entries
/// before it were held.
pub proof fn learning_counts_up(
    keyword: KeywordView,
    taught: Seq<EntryView>,
    nicks: Seq<Seq<char>>,
    texts: Seq<Seq<char>>,
    times: Seq<Timestamp>,
)
    requires
        taught.len() == nicks.len(),
        taught.len() == texts.len(),
        taught.len() == times.len(),
        forall|k: int|
            0 <= k < taught.len() ==> match learn_plan(
                KeywordDetailsView { keyword, entries: #[trigger] taught.take(k) },
                nicks[k],
                texts[k],
                times[k],
            ) {
                Ok(new) => inserted(taught[k], new),
                Err(_) => false,
            },
    ensures
        dense(taught),
{
    assert forall|k: int| 0 <= k < taught.len() implies (#[trigger] taught[k]).idx == k + 1 by {
        let before = taught.take(k);
        assert(before.len() == k);
        assert(learn_plan(
            KeywordDetailsView { keyword, entries: before },
            nicks[k],
            texts[k],
            times[k],
        ) is Ok);
    }
}

/// Learning keeps the positions dense: the entry that the store inserts for
/// the record of `learn` goes behind the others, at the position that is the
/// new number of entries.
pub proof fn learning_keeps_dense(
    details: KeywordDetailsView,
    nick: Seq<char>,
    text: Seq<char>,
    now: Timestamp,
    entry: EntryView,
)
    requires
        dense(details.entries),
        match learn_plan(details, nick, text, now) {
            Ok(new) => inserted(entry, new),
            Err(_) => false,
        },
    ensures
        entry.idx == details.entries.len() + 1,
        dense(details.entries.push(entry)),
{
}

/// Moving an entry to a negative target is deleting it: the two ask the same
/// of the store, and are refused alike.
pub proof fn move_below_zero_deletes(entries: Seq<EntryView>, position: usize, target: i32)
    requires
        target < 0,
    ensures
        move_plan(entries, position, target) == delete_plan(entries, position),
{
}

/// Moving an entry to any other target is the swap with that position.
pub proof fn move_elsewhere_swaps(entries: Seq<EntryView>, position: usize, target: i32)
    requires
        target >= 0,
    ensures
        move_plan(entries, position, target) == swap_plan(entries, position, target as usize),
{
}

/// The first place at which a keyword has a scope is a place of the list, and
/// the keyword there has that scope; no keyword has it where there is no such
/// place.
pub proof fn first_scoped_finds(candidates: Seq<KeywordView>, scope: Seq<char>)
    ensures
        match first_scoped(candidates, scope) {
            Some(i) => 0 <= i < candidates.len() && candidates[i].chan == scope,
            None => forall|j: int|
                0 <= j < candidates.len() ==> (#[trigger] candidates[j]).chan != scope,
        },
    decreases candidates.len(),
{
    if candidates.len() > 0 {
        let shorter = candidates.drop_last();
        first_scoped_finds(shorter, scope);
        assert(candidates.last() == candidates[candidates.len() - 1]);
        assert(forall|j: int| 0 <= j < shorter.len() ==> #[trigger] shorter[j] == candidates[j]);
        match first_scoped(shorter, scope) {
            Some(i) => {
                assert(shorter[i] == candidates[i]);
            },
            None => {
                assert forall|j: int| 0 <= j < candidates.len() - 1 implies (
                #[trigger] candidates[j]).chan != scope by {
                    assert(shorter[j] == candidates[j]);
                }
            },
        }
    }
}

/// A lookup takes the keyword of the channel before a general one: where the
/// store found a keyword scoped to the channel, such a one is chosen; where it
/// found none of the channel but a general one, a general one is chosen; and
/// where it found neither, none is chosen.
pub proof fn lookup_prefers_the_channel(candidates: Seq<KeywordView>, chan: Seq<char>)
    ensures
        (exists|i: int| 0 <= i < candidates.len() && (#[trigger] candidates[i]).chan == chan)
            ==> chosen(candidates, chan) is Some && chosen(candidates, chan)->Some_0.chan == chan
            && candidates.contains(chosen(candidates, chan)->Some_0),
        !(exists|i: int| 0 <= i < candidates.len() && (#[trigger] candidates[i]).chan == chan) && (
        exists|i: int|
            0 <= i < candidates.len() && (#[trigger] candidates[i]).chan == general_scope())
            ==> chosen(candidates, chan) is Some && chosen(candidates, chan)->Some_0.is_general()
            && candidates.contains(chosen(candidates, chan)->Some_0),
        !(exists|i: int| 0 <= i < candidates.len() && (#[trigger] candidates[i]).chan == chan)
            && !(exists|i: int|
            0 <= i < candidates.len() && (#[trigger] candidates[i]).chan == general_scope())
            ==> chosen(candidates, chan) is None,
{
    first_scoped_finds(candidates, chan);
    first_scoped_finds(candidates, general_scope());
}

/// A general keyword is closed to all but the administrators: a command that
/// changes entries, from a sender who is none of them, ends in the error
/// `PermissionDenied` once the keyword is known to be general. The session is
/// over with that notice, so the store is asked for no change.
pub proof fn general_keywords_are_closed(
    admins: Seq<Seq<char>>,
    context: ContextView,
    details: KeywordDetailsView,
)
    requires
        context.command.mutates(),
        details.keyword.is_general(),
        !admins.contains(context.nick),
    ensures
        act(admins, context, details) == failure(
            context.nick,
            context.chan,
            ErrorView::PermissionDenied,
        ),
        act(admins, context, details) is Finish,
{
}

/// No general keyword is made for anyone but an administrator: where a
/// command that changes entries looks for a general keyword, none is found and
/// the sender is no administrator, the session ends in the error
/// `PermissionDenied`, and the store is asked for nothing: neither for a
/// keyword nor for an entry.
pub proof fn no_general_keyword_is_made_for_others(
    admins: Seq<Seq<char>>,
    context: ContextView,
    candidates: Seq<KeywordView>,
)
    requires
        context.command.mutates(),
        context.scope() == general_scope(),
        chosen(candidates, context.scope()) is None,
        !admins.contains(context.nick),
    ensures
        found(admins, context, candidates) == failure(
            context.nick,
            context.chan,
            ErrorView::PermissionDenied,
        ),
        found(admins, context, candidates) is Finish,
{
}

/// Whether a session is still looking a keyword up and has found none but a
/// general one: it waits for the keywords of a name, or for the entries of a
/// general keyword.
pub open spec fn looks_up_general(phase: PhaseView) -> bool {
    match phase {
        PhaseView::Finding => true,
        PhaseView::Listing { keyword } => keyword.is_general(),
        _ => false,
    }
}

/// Whoever may not change general keywords never has the store asked for a
/// change to one. A session for a command that changes entries in the general
/// scope, from a sender who is no administrator, only ever looks keywords up
/// and lists the entries of a general one, until it ends: whatever the store
/// answers, the next step asks for the entries of a general keyword, follows
/// an alias by another lookup, or ends the session.
pub proof fn others_change_nothing_general(
    admins: Seq<Seq<char>>,
    session: SessionView,
    answer: AnswerView,
)
    requires
        session.context.command.mutates(),
        session.context.scope() == general_scope(),
        !admins.contains(session.context.nick),
        looks_up_general(session.phase),
    ensures
        match next(admins, session, answer) {
            StepView::Finish(_) => true,
            StepView::Ask(after, request) => {
                &&& after.context == session.context
                &&& looks_up_general(after.phase)
                &&& request is FindKeyword || request is ListEntries
            },
        },
{
    if session.phase is Finding {
        if let AnswerView::Keywords(candidates) = answer {
            first_scoped_finds(candidates, general_scope());
        }
    }
}

/// A private message changes nothing: a command that changes entries and
/// comes from no channel ends in the error `ScopeViolation` at its first
/// step, with or without the general mark and whoever sent it, and the store
/// is asked for nothing.
pub proof fn private_messages_change_nothing(context: ContextView)
    requires
        context.command.mutates(),
        !is_channel(context.chan),
    ensures
        approach(context) == failure(context.nick, context.chan, ErrorView::ScopeViolation),
        approach(context) is Finish,
{
}

/// The line for an entry holds what it says in one piece: behind the marks of
/// style stands the label, name, place, text and date, unbroken, and behind
/// it only the mark that ends all style.
pub proof fn the_label_stands_unbroken(details: KeywordDetailsView, position: usize)
    requires
        1 <= position <= details.entries.len(),
    ensures
        formatted(details, position) is Some,
        ({
            let line = formatted(details, position)->Some_0;
            let style = line_style(details.keyword);
            let label = entry_label(details, position as int);
            &&& line.len() == style.len() + label.len() + 1
            &&& line.subrange(0, style.len() as int) == style
            &&& line.subrange(style.len() as int, (style.len() + label.len()) as int) == label
            &&& line[line.len() - 1] == '\x0f'
        }),
{
    reveal_strlit("\x0f");
    let line = formatted(details, position)->Some_0;
    let style = line_style(details.keyword);
    let label = entry_label(details, position as int);
    assert(line.subrange(0, style.len() as int) =~= style);
    assert(line.subrange(style.len() as int, (style.len() + label.len()) as int) =~= label);
}

/// What counting writes is the number counted to: the new text of today's
/// counter reads as the number that its old text read as, plus `delta`.
pub proof fn counting_writes_the_sum(
    details: KeywordDetailsView,
    nick: Seq<char>,
    delta: i32,
    now: Timestamp,
)
    requires
        details.entries.len() <= usize::MAX,
        counter(details.entries, now.date) is Some,
    ensures
        adjustment(details, nick, delta, now) matches Ok(
            AdjustmentView::Update { position, text, .. },
        ) && counter(details.entries, now.date) == Some(position as int) && signed_value(text)
            == Some(i32_value(details.entries[position - 1].text)->Some_0 + delta),
{
    counter_is_a_place(details.entries, now.date);
    let position = counter(details.entries, now.date)->Some_0;
    decimal_reads_back(i32_value(details.entries[position - 1].text)->Some_0 + delta);
}

/// Today's counter is a place of the list, and the entry there counts for
/// today.
pub proof fn counter_is_a_place(entries: Seq<EntryView>, today: Date)
    ensures
        match counter(entries, today) {
            Some(position) => 1 <= position <= entries.len() && counts(
                entries[position - 1],
                today,
            ),
            None => forall|i: int| 0 <= i < entries.len() ==> !counts(#[trigger] entries[i], today),
        },
    decreases entries.len(),
{
    if entries.len() > 0 {
        let shorter = entries.drop_last();
        counter_is_a_place(shorter, today);
        assert(entries.last() == entries[entries.len() - 1]);
        assert(forall|i: int| 0 <= i < shorter.len() ==> #[trigger] shorter[i] == entries[i]);
        if !counts(entries.last(), today) {
            match counter(shorter, today) {
                Some(position) => {
                    assert(shorter[position - 1] == entries[position - 1]);
                },
                None => {
                    assert forall|i: int| 0 <= i < entries.len() implies !counts(
                        #[trigger] entries[i],
                        today,
                    ) by {
                        if i < shorter.len() {
                            assert(shorter[i] == entries[i]);
                        }
                    }
                },
            }
        }
    }
}

/// A session run against a store that holds `rows` of the keyword and makes
/// every change that it is asked for: the step at which the session asks for
/// something other than a change, or ends, and what the store holds then. No
/// more than `limit` changes are followed.
pub open spec fn run_changes(
    admins: Seq<Seq<char>>,
    step: StepView,
    rows: Seq<EntryView>,
    limit: nat,
) -> (StepView, Seq<EntryView>)
    decreases limit,
{
    if limit == 0 {
        (step, rows)
    } else {
        match step {
            StepView::Ask(session, RequestView::DeleteEntry { entry_id }) => run_changes(
                admins,
                next(admins, session, AnswerView::Done),
                without(rows, entry_id),
                (limit - 1) as nat,
            ),
            StepView::Ask(
                session,
                RequestView::UpdateEntryPosition { entry_id, idx },
            ) => run_changes(
                admins,
                next(admins, session, AnswerView::Done),
                repositioned(rows, entry_id, idx),
                (limit - 1) as nat,
            ),
            _ => (step, rows),
        }
    }
}

/// Moves can be made from the first on: the first one, then the others.
proof fn moves_from_the_first(rows: Seq<EntryView>, moves: Seq<(i32, i32)>)
    requires
        moves.len() > 0,
    ensures
        after_moves(rows, moves) == after_moves(
            repositioned(rows, moves[0].0, moves[0].1),
            moves.skip(1),
        ),
    decreases moves.len(),
{
    let first = repositioned(rows, moves[0].0, moves[0].1);
    if moves.len() == 1 {
        assert(moves.drop_last().len() == 0);
        assert(moves.skip(1).len() == 0);
        assert(moves.last() == moves[0]);
        assert(after_moves(rows, moves.drop_last()) == rows);
        assert(after_moves(first, moves.skip(1)) == first);
    } else {
        let shorter = moves.drop_last();
        let others = moves.skip(1);
        moves_from_the_first(rows, shorter);
        assert(shorter[0] == moves[0]);
        assert(shorter.skip(1) == others.drop_last());
        assert(others.last() == moves.last());
        assert(after_moves(rows, moves) == repositioned(
            after_moves(rows, shorter),
            moves.last().0,
            moves.last().1,
        ));
        assert(after_moves(first, others) == repositioned(
            after_moves(first, others.drop_last()),
            others.last().0,
            others.last().1,
        ));
    }
}

/// A session that has `done` of its moves made goes on to make the others, in
/// their order, and then asks for the entries of the keyword.
proof fn the_moves_are_made(
    admins: Seq<Seq<char>>,
    context: ContextView,
    details: KeywordDetailsView,
    moves: Seq<(i32, i32)>,
    done: int,
    rows: Seq<EntryView>,
    limit: nat,
)
    requires
        0 <= done <= moves.len(),
        moves.len() <= usize::MAX,
        limit >= moves.len() - done,
    ensures
        run_changes(admins, carry_on(context, details, moves, done), rows, limit) == (
            StepView::Ask(
                SessionView { context, phase: PhaseView::Reloading { details } },
                RequestView::ListEntries { keyword_id: details.keyword.id },
            ),
            after_moves(rows, moves.skip(done)),
        ),
    decreases moves.len() - done,
{
    if done == moves.len() {
        assert(moves.skip(done).len() == 0);
    } else {
        let left = moves.skip(done);
        moves_from_the_first(rows, left);
        assert(left[0] == moves[done]);
        assert(left.skip(1) == moves.skip(done + 1));
        let session = SessionView {
            context,
            phase: PhaseView::Moving { details, moves, done: done as usize },
        };
        assert(next(admins, session, AnswerView::Done) == carry_on(
            context,
            details,
            moves,
            done + 1,
        ));
        the_moves_are_made(
            admins,
            context,
            details,
            moves,
            done + 1,
            repositioned(rows, moves[done].0, moves[done].1),
            (limit - 1) as nat,
        );
    }
}

/// A move is carried out as planned. The session for a move that is not
/// refused asks the store for the removal of the plan, if it has one, and for
/// its moves in their order; the store then holds what `after_plan` says. Next
/// the session asks for the entries of the keyword, and whatever is listed, it
/// ends with the notice that confirms the move.
pub proof fn a_move_is_carried_out(
    admins: Seq<Seq<char>>,
    context: ContextView,
    details: KeywordDetailsView,
    listing: Seq<EntryView>,
)
    requires
        context.command is Move,
        !details.keyword.is_general() || admins.contains(context.nick),
        move_plan(
            details.entries,
            context.command->Move_position,
            context.command->Move_target,
        ) is Ok,
        details.entries.len() <= usize::MAX,
    ensures
        ({
            let plan = move_plan(
                details.entries,
                context.command->Move_position,
                context.command->Move_target,
            )->Ok_0;
            let reload = SessionView { context, phase: PhaseView::Reloading { details } };
            &&& run_changes(
                admins,
                act(admins, context, details),
                details.entries,
                plan.moves.len() + 1,
            ) == (
                StepView::Ask(reload, RequestView::ListEntries { keyword_id: details.keyword.id }),
                after_plan(details.entries, plan),
            )
            &&& next(admins, reload, AnswerView::Entries(listing)) == reply(
                context,
                moved_text(context.command, details.keyword.name)->Some_0,
            )
        }),
{
    let position = context.command->Move_position;
    let target = context.command->Move_target;
    let plan = move_plan(details.entries, position, target)->Ok_0;
    moves_are_no_more_than_entries(details.entries, position, target);
    match plan.remove {
        Some(entry_id) => {
            let session = SessionView {
                context,
                phase: PhaseView::Removing { details, moves: plan.moves },
            };
            assert(act(admins, context, details) == StepView::Ask(
                session,
                RequestView::DeleteEntry { entry_id },
            ));
            assert(next(admins, session, AnswerView::Done) == carry_on(
                context,
                details,
                plan.moves,
                0,
            ));
            the_moves_are_made(
                admins,
                context,
                details,
                plan.moves,
                0,
                without(details.entries, entry_id),
                plan.moves.len(),
            );
            assert(plan.moves.skip(0) == plan.moves);
        },
        None => {
            assert(act(admins, context, details) == carry_on(context, details, plan.moves, 0));
            the_moves_are_made(
                admins,
                context,
                details,
                plan.moves,
                0,
                details.entries,
                plan.moves.len() + 1,
            );
            assert(plan.moves.skip(0) == plan.moves);
        },
    }
}

/// A plan never makes more moves than there are entries, but two for a swap.
proof fn moves_are_no_more_than_entries(entries: Seq<EntryView>, position: usize, target: i32)
    requires
        move_plan(entries, position, target) is Ok,
    ensures
        move_plan(entries, position, target)->Ok_0.moves.len() <= entries.len() || move_plan(
            entries,
            position,
            target,
        )->Ok_0.moves.len() == 2,
{
    if target < 0 {
        closing_moves_are_few(entries, position as int);
    }
}

/// The moves that close a gap are no more than the entries.
proof fn closing_moves_are_few(entries: Seq<EntryView>, position: int)
    ensures
        closing_moves(entries, position).len() <= entries.len(),
    decreases entries.len(),
{
    if entries.len() > 0 {
        closing_moves_are_few(entries.drop_last(), position);
    }
}

/// A line that moves an entry to a negative target deletes it, from the line
/// to the last notice. Said in a channel by a sender who may change the
/// keyword, the line `??subject[position]->target` with a negative target
/// leads to a lookup of the subject in that channel; once a keyword is chosen
/// and its entries are listed, without an alias, the session does what
/// `delete(position)` asks: where that is refused, it ends in that error and
/// the store is asked for nothing more; otherwise the store is asked for the
/// removal and the moves of that plan and for no swap, it holds afterwards
/// what it holds after the deletion, and the session ends with the notice
/// that confirms the deletion.
pub proof fn a_line_with_a_negative_target_deletes(
    admins: Seq<Seq<char>>,
    from: Seq<char>,
    nick: Seq<char>,
    chan: Seq<char>,
    now: Timestamp,
    subject: Seq<char>,
    position: usize,
    target: i32,
    candidates: Seq<KeywordView>,
    keyword: KeywordView,
    entries: Seq<EntryView>,
    listing: Seq<EntryView>,
)
    requires
        nick_of(from) == Some(nick),
        is_channel(chan),
        plain_subject(subject),
        target < 0,
        chosen(candidates, chan) == Some(keyword),
        alias_target(entries) is None,
        !keyword.is_general() || admins.contains(nick),
        entries.len() <= usize::MAX,
    ensures
        ({
            let line = move_line(subject, position as nat, target as int);
            let context = ContextView {
                nick,
                chan,
                now,
                command: CommandView::Move { general: false, subject, position, target },
            };
            let details = KeywordDetailsView { keyword, entries };
            let reload = SessionView { context, phase: PhaseView::Reloading { details } };
            &&& begin(from, chan, line, now) == StepView::Ask(
                SessionView { context, phase: PhaseView::Finding },
                RequestView::FindKeyword { name: subject, chan },
            )
            &&& next(
                admins,
                SessionView { context, phase: PhaseView::Finding },
                AnswerView::Keywords(candidates),
            ) == StepView::Ask(
                SessionView { context, phase: PhaseView::Listing { keyword } },
                RequestView::ListEntries { keyword_id: keyword.id },
            )
            &&& next(
                admins,
                SessionView { context, phase: PhaseView::Listing { keyword } },
                AnswerView::Entries(entries),
            ) == act(admins, context, details)
            &&& match delete_plan(entries, position) {
                Err(refusal) => act(admins, context, details) == failure(
                    nick,
                    chan,
                    refused(refusal),
                ),
                Ok(plan) => {
                    &&& run_changes(
                        admins,
                        act(admins, context, details),
                        entries,
                        plan.moves.len() + 1,
                    ) == (
                        StepView::Ask(reload, RequestView::ListEntries { keyword_id: keyword.id }),
                        outcome(entries, delete_plan(entries, position)),
                    )
                    &&& next(admins, reload, AnswerView::Entries(listing)) == reply(
                        context,
                        deleted_text(keyword.name, position as nat),
                    )
                },
            }
        }),
{
    a_move_line_is_a_move(subject, position, target);
    let context = ContextView {
        nick,
        chan,
        now,
        command: CommandView::Move { general: false, subject, position, target },
    };
    let details = KeywordDetailsView { keyword, entries };
    assert(context.scope() == chan);
    if delete_plan(entries, position) is Ok {
        a_move_is_carried_out(admins, context, details, listing);
    }
}

/// A line that counts, on a keyword without a counter of today, learns a new
/// entry, from the line to the last notice. Said in a channel by a sender who
/// may change the keyword, the line `??subject++` leads to a lookup of the
/// subject in that channel; once a keyword is chosen and its entries are
/// listed, without an alias and without an entry of today that is a number,
/// the store is asked to insert one entry: behind the others, with the text
/// `1`, or `-1` for `--`, by the sender, at the time of the line. When the
/// store has inserted it, the session ends with the line that shows it as the
/// last entry, and the entries before it are what they were.
pub proof fn a_line_that_counts_starts_a_counter(
    admins: Seq<Seq<char>>,
    from: Seq<char>,
    nick: Seq<char>,
    chan: Seq<char>,
    now: Timestamp,
    subject: Seq<char>,
    up: bool,
    candidates: Seq<KeywordView>,
    keyword: KeywordView,
    entries: Seq<EntryView>,
    entry: EntryView,
)
    requires
        nick_of(from) == Some(nick),
        is_channel(chan),
        plain_subject(subject),
        chosen(candidates, chan) == Some(keyword),
        alias_target(entries) is None,
        !keyword.is_general() || admins.contains(nick),
        counter(entries, now.date) is None,
        entries.len() < i32::MAX,
    ensures
        ({
            let context = ContextView {
                nick,
                chan,
                now,
                command: CommandView::Adjust { general: false, subject, up },
            };
            let details = KeywordDetailsView { keyword, entries };
            let new = NewEntryView {
                keyword_id: keyword.id,
                idx: (entries.len() + 1) as i32,
                text: if up {
                    seq!['1']
                } else {
                    seq!['-', '1']
                },
                creation_ts: now,
                created_by: nick,
            };
            let learning = SessionView { context, phase: PhaseView::Learning { details } };
            let after = KeywordDetailsView { keyword, entries: entries.push(entry) };
            &&& begin(from, chan, adjust_line(subject, up), now) == StepView::Ask(
                SessionView { context, phase: PhaseView::Finding },
                RequestView::FindKeyword { name: subject, chan },
            )
            &&& next(
                admins,
                SessionView { context, phase: PhaseView::Finding },
                AnswerView::Keywords(candidates),
            ) == StepView::Ask(
                SessionView { context, phase: PhaseView::Listing { keyword } },
                RequestView::ListEntries { keyword_id: keyword.id },
            )
            &&& next(
                admins,
                SessionView { context, phase: PhaseView::Listing { keyword } },
                AnswerView::Entries(entries),
            ) == StepView::Ask(learning, RequestView::InsertEntry(new))
            &&& inserted(entry, new) ==> next(admins, learning, AnswerView::Entry(entry)) == reply(
                context,
                entry_line(after, entries.len() as int + 1),
            ) && entry.idx == entries.len() + 1 && after.entries.take(entries.len() as int)
                == entries
        }),
{
    an_adjust_line_is_an_adjustment(subject, up);
    let context = ContextView {
        nick,
        chan,
        now,
        command: CommandView::Adjust { general: false, subject, up },
    };
    assert(context.scope() == chan);
    assert(nat_digits(1) =~= seq!['1']);
    assert(decimal(1) =~= seq!['1']);
    assert(decimal(-1) =~= seq!['-', '1']);
    assert(entries.push(entry).take(entries.len() as int) =~= entries);
}

} // verus!
