use paroxysm::clock::{Date, Timestamp};
use paroxysm::keyword::{Adjustment, KeywordDetails, Plan, Refusal, Resolved};
use paroxysm::models::{Entry, Keyword, NewEntry, NewKeyword};
use paroxysm::store::Request;

fn at(year: i32, month: u32, day: u32) -> Timestamp {
    Timestamp { date: Date { year, month, day }, hour: 12, minute: 30, second: 15, nanosecond: 0 }
}

fn keyword(id: i32, name: &str, chan: &str) -> Keyword {
    Keyword { id, name: name.to_string(), chan: chan.to_string() }
}

fn entry(id: i32, idx: i32, text: &str, when: Timestamp) -> Entry {
    Entry {
        id,
        keyword_id: 7,
        idx,
        text: text.to_string(),
        creation_ts: when,
        created_by: "alice".to_string(),
    }
}

/// A keyword with the given texts at the positions 1, 2, 3 and so on; the
/// entry at position `p` has the id `100 + p`.
fn details(chan: &str, texts: &[&str]) -> KeywordDetails {
    let mut entries = Vec::new();
    for (i, text) in texts.iter().enumerate() {
        entries.push(entry(101 + i as i32, 1 + i as i32, text, at(2024, 2, 29)));
    }
    KeywordDetails { keyword: keyword(7, "bar", chan), entries }
}

#[test]
fn learn_goes_behind_the_last_entry() {
    let kwd = details("#a", &["one", "two"]);
    let new = kwd.learn("bob", "three", at(2024, 3, 1)).unwrap();
    assert_eq!(
        new,
        NewEntry {
            keyword_id: 7,
            idx: 3,
            text: "three".to_string(),
            creation_ts: at(2024, 3, 1),
            created_by: "bob".to_string(),
        }
    );
}

#[test]
fn learn_on_a_fresh_keyword_counts_from_one() {
    let mut kwd = details("#a", &[]);
    for round in 1..=5 {
        let new = kwd.learn("bob", "text", at(2024, 3, 1)).unwrap();
        assert_eq!(new.idx, round);
        let stored = Entry {
            id: 900 + round,
            keyword_id: new.keyword_id,
            idx: new.idx,
            text: new.text,
            creation_ts: new.creation_ts,
            created_by: new.created_by,
        };
        assert_eq!(kwd.learned(stored), round as usize);
    }
    let positions: Vec<i32> = kwd.entries.iter().map(|e| e.idx).collect();
    assert_eq!(positions, vec![1, 2, 3, 4, 5]);
}

#[test]
fn learned_keeps_the_keyword_and_appends() {
    let mut kwd = details("#a", &["one"]);
    let added = entry(500, 2, "two", at(2024, 3, 1));
    assert_eq!(kwd.learned(added.clone()), 2);
    assert_eq!(kwd.keyword, keyword(7, "bar", "#a"));
    assert_eq!(kwd.entries.len(), 2);
    assert_eq!(kwd.entries[1], added);
}

#[test]
fn swap_moves_each_entry_to_the_other_position() {
    let kwd = details("#a", &["one", "two", "three", "four"]);
    assert_eq!(kwd.swap(2, 4), Ok(Plan { remove: None, moves: vec![(102, 4), (104, 2)] }));
    assert_eq!(kwd.swap(4, 2), Ok(Plan { remove: None, moves: vec![(102, 4), (104, 2)] }));
    assert_eq!(kwd.swap(1, 2), Ok(Plan { remove: None, moves: vec![(101, 2), (102, 1)] }));
}

#[test]
fn swap_of_a_position_with_itself() {
    let kwd = details("#a", &["one", "two"]);
    assert_eq!(kwd.swap(2, 2), Ok(Plan { remove: None, moves: vec![(102, 2), (102, 2)] }));
}

#[test]
fn swap_is_refused_for_an_empty_position() {
    let kwd = details("#a", &["one", "two"]);
    assert_eq!(kwd.swap(1, 3), Err(Refusal::InvalidSwap));
    assert_eq!(kwd.swap(3, 1), Err(Refusal::InvalidSwap));
    assert_eq!(kwd.swap(0, 1), Err(Refusal::InvalidSwap));
    assert_eq!(kwd.swap(3, 4), Err(Refusal::InvalidSwap));
    assert_eq!(kwd.swap(1, usize::MAX), Err(Refusal::InvalidSwap));
    assert_eq!(details("#a", &[]).swap(1, 1), Err(Refusal::InvalidSwap));
}

#[test]
fn swap_counts_entries_by_their_position() {
    let mut kwd = details("#a", &["one", "two", "three"]);
    kwd.entries[2].idx = 2;
    assert_eq!(kwd.swap(1, 2), Err(Refusal::InvalidSwap));
    assert_eq!(kwd.swap(2, 7), Ok(Plan { remove: None, moves: vec![(102, 7), (103, 7)] }));
}

#[test]
fn delete_removes_and_closes_the_gap() {
    let kwd = details("#a", &["one", "two", "three", "four"]);
    assert_eq!(kwd.delete(2), Ok(Plan { remove: Some(102), moves: vec![(103, 2), (104, 3)] }));
    assert_eq!(
        kwd.delete(1),
        Ok(Plan { remove: Some(101), moves: vec![(102, 1), (103, 2), (104, 3)] })
    );
    assert_eq!(kwd.delete(4), Ok(Plan { remove: Some(104), moves: vec![] }));
}

#[test]
fn delete_is_refused_for_an_empty_position() {
    let kwd = details("#a", &["one", "two"]);
    assert_eq!(kwd.delete(0), Err(Refusal::NoSuchEntry));
    assert_eq!(kwd.delete(3), Err(Refusal::NoSuchEntry));
    assert_eq!(kwd.delete(usize::MAX), Err(Refusal::NoSuchEntry));
    assert_eq!(details("#a", &[]).delete(1), Err(Refusal::NoSuchEntry));
}

#[test]
fn move_to_a_negative_target_is_delete() {
    let kwd = details("#a", &["one", "two", "three"]);
    for position in 0..5 {
        assert_eq!(kwd.move_entry(position, -1), kwd.delete(position));
        assert_eq!(kwd.move_entry(position, i32::MIN), kwd.delete(position));
    }
}

#[test]
fn move_to_another_target_is_swap() {
    let kwd = details("#a", &["one", "two", "three"]);
    for position in 0..5 {
        for target in 0..5 {
            assert_eq!(kwd.move_entry(position, target), kwd.swap(position, target as usize));
        }
    }
}

#[test]
fn reload_takes_the_entries_of_the_store() {
    let mut kwd = details("#a", &["one", "two"]);
    let listed = vec![entry(102, 1, "two", at(2024, 2, 29))];
    kwd.reload(listed.clone());
    assert_eq!(kwd.entries, listed);
    assert_eq!(kwd.keyword, keyword(7, "bar", "#a"));
}

#[test]
fn format_entry_shows_name_place_text_and_date() {
    let kwd = details("#a", &["hello"]);
    assert_eq!(
        kwd.format_entry(1),
        Some("\x02bar[1/1]: hello [2024-02-29]\x0f".to_string())
    );
}

#[test]
fn format_entry_marks_a_general_keyword() {
    let kwd = details("*", &["one", "two", "three"]);
    assert_eq!(
        kwd.format_entry(2),
        Some("\x02\x0307bar[2/3]: two [2024-02-29]\x0f".to_string())
    );
}

#[test]
fn format_entry_holds_the_label_in_one_piece() {
    let kwd = details("#a", &["hello"]);
    let line = kwd.format_entry(1).unwrap();
    assert!(line.contains("bar[1/1]: hello"));
    assert!(line.contains("bar[1/1]: hello [2024-02-29]"));
    assert!(line.starts_with("\x02bar["));
    assert!(line.ends_with("]\x0f"));
    let general = details("*", &["hello"]).format_entry(1).unwrap();
    assert!(general.contains("bar[1/1]: hello [2024-02-29]"));
    assert!(general.starts_with("\x02\x0307bar["));
}

#[test]
fn format_entry_gives_nothing_out_of_range() {
    let kwd = details("#a", &["one", "two"]);
    assert_eq!(kwd.format_entry(0), None);
    assert_eq!(kwd.format_entry(3), None);
    assert_eq!(kwd.format_entry(usize::MAX), None);
    assert_eq!(details("#a", &[]).format_entry(1), None);
}

#[test]
fn format_entry_goes_by_place_and_counts_many() {
    let texts: Vec<String> = (1..=12).map(|i| format!("text {}", i)).collect();
    let borrowed: Vec<&str> = texts.iter().map(|t| t.as_str()).collect();
    let kwd = details("#a", &borrowed);
    assert_eq!(
        kwd.format_entry(10),
        Some("\x02bar[10/12]: text 10 [2024-02-29]\x0f".to_string())
    );
}

#[test]
fn get_prefers_the_keyword_of_the_channel() {
    let general = keyword(1, "foo", "*");
    let local = keyword(2, "foo", "#a");
    let both = vec![general.clone(), local.clone()];
    let turned = vec![local.clone(), general.clone()];
    assert_eq!(KeywordDetails::get(both.clone(), "#a"), Some(local.clone()));
    assert_eq!(KeywordDetails::get(turned, "#a"), Some(local.clone()));
    assert_eq!(KeywordDetails::get(both, "#b"), Some(general.clone()));
    assert_eq!(KeywordDetails::get(vec![general.clone()], "#a"), Some(general.clone()));
    assert_eq!(KeywordDetails::get(vec![local.clone()], "#a"), Some(local.clone()));
}

#[test]
fn get_takes_no_keyword_of_another_channel() {
    let other = keyword(3, "foo", "#c");
    assert_eq!(KeywordDetails::get(vec![other.clone()], "#a"), None);
    assert_eq!(KeywordDetails::get(vec![], "#a"), None);
    assert_eq!(
        KeywordDetails::get(vec![other, keyword(4, "foo", "*")], "*"),
        Some(keyword(4, "foo", "*"))
    );
}

#[test]
fn get_takes_the_first_of_several() {
    let first = keyword(5, "Foo", "#a");
    let second = keyword(6, "foo", "#a");
    assert_eq!(KeywordDetails::get(vec![first.clone(), second], "#a"), Some(first));
}

#[test]
fn resolve_gives_the_keyword_with_its_entries() {
    let kwd = details("#a", &["one", "see: two"]);
    assert_eq!(
        KeywordDetails::resolve(kwd.keyword.clone(), kwd.entries.clone()),
        Resolved::Details(kwd)
    );
    let empty = details("#a", &[]);
    assert_eq!(
        KeywordDetails::resolve(empty.keyword.clone(), empty.entries.clone()),
        Resolved::Details(empty)
    );
}

#[test]
fn resolve_follows_an_alias_in_the_first_entry() {
    let kwd = details("#a", &["see: other topic", "two"]);
    assert_eq!(
        KeywordDetails::resolve(kwd.keyword, kwd.entries),
        Resolved::Alias("other topic".to_string())
    );
    let twice = details("#a", &["see: see: x"]);
    assert_eq!(
        KeywordDetails::resolve(twice.keyword, twice.entries),
        Resolved::Alias("see: x".to_string())
    );
    let bare = details("#a", &["see: "]);
    assert_eq!(KeywordDetails::resolve(bare.keyword, bare.entries), Resolved::Alias(String::new()));
}

#[test]
fn resolve_needs_the_whole_mark() {
    for text in ["see:", "see:x", "See: x", " see: x", "sees: x", ""] {
        let kwd = details("#a", &[text]);
        assert_eq!(
            KeywordDetails::resolve(kwd.keyword.clone(), kwd.entries.clone()),
            Resolved::Details(kwd)
        );
    }
}

#[test]
fn create_names_the_keyword_and_its_channel() {
    assert_eq!(
        KeywordDetails::create("foo", "#a"),
        NewKeyword { name: "foo".to_string(), chan: "#a".to_string() }
    );
    assert_eq!(
        KeywordDetails::created(keyword(9, "foo", "#a")),
        KeywordDetails { keyword: keyword(9, "foo", "#a"), entries: vec![] }
    );
}

#[test]
fn get_or_create_lists_what_was_found_and_creates_what_was_not() {
    assert_eq!(
        KeywordDetails::get_or_create(&Some(keyword(9, "foo", "*")), "foo", "#a"),
        Request::ListEntries { keyword_id: 9 }
    );
    assert_eq!(
        KeywordDetails::get_or_create(&None, "foo", "#a"),
        Request::CreateKeyword(NewKeyword { name: "foo".to_string(), chan: "#a".to_string() })
    );
}

#[test]
fn process_moves_asks_for_each_move_and_then_for_the_entries() {
    let kwd = details("#a", &["one", "two", "three"]);
    let moves = vec![(102, 1), (103, 2)];
    assert_eq!(
        kwd.process_moves(&moves, 0),
        Request::UpdateEntryPosition { entry_id: 102, idx: 1 }
    );
    assert_eq!(
        kwd.process_moves(&moves, 1),
        Request::UpdateEntryPosition { entry_id: 103, idx: 2 }
    );
    assert_eq!(kwd.process_moves(&moves, 2), Request::ListEntries { keyword_id: 7 });
    assert_eq!(kwd.process_moves(&moves, 9), Request::ListEntries { keyword_id: 7 });
    assert_eq!(kwd.process_moves(&vec![], 0), Request::ListEntries { keyword_id: 7 });
}

#[test]
fn counter_is_the_last_number_of_today() {
    let today = at(2024, 3, 1);
    let mut kwd = details("#a", &["5", "text", "7", "8"]);
    kwd.entries[0].creation_ts = today;
    kwd.entries[1].creation_ts = today;
    kwd.entries[2].creation_ts = today;
    assert_eq!(kwd.counter(today.date), Some((3, 7)));
    assert_eq!(kwd.counter(Date { year: 2024, month: 2, day: 29 }), Some((4, 8)));
    assert_eq!(kwd.counter(Date { year: 2024, month: 3, day: 2 }), None);
}

#[test]
fn counter_passes_over_what_is_no_number() {
    let today = at(2024, 2, 29);
    assert_eq!(details("#a", &["five", "", " 5", "5 "]).counter(today.date), None);
    assert_eq!(details("#a", &["-3", "2147483648"]).counter(today.date), Some((1, -3)));
    assert_eq!(details("#a", &[]).counter(today.date), None);
}

#[test]
fn counting_changes_the_counter_of_today() {
    let today = at(2024, 2, 29);
    let kwd = details("#a", &["hello", "5"]);
    assert_eq!(
        kwd.increment_or_decrement("bob", 1, today),
        Ok(Adjustment::Update { position: 2, entry_id: 102, text: "6".to_string() })
    );
    assert_eq!(
        kwd.increment_or_decrement("bob", -1, today),
        Ok(Adjustment::Update { position: 2, entry_id: 102, text: "4".to_string() })
    );
}

#[test]
fn counting_starts_a_counter_where_today_has_none() {
    let kwd = details("#a", &["5"]);
    let tomorrow = at(2024, 3, 1);
    assert_eq!(
        kwd.increment_or_decrement("bob", 1, tomorrow),
        Ok(Adjustment::Learn(NewEntry {
            keyword_id: 7,
            idx: 2,
            text: "1".to_string(),
            creation_ts: tomorrow,
            created_by: "bob".to_string(),
        }))
    );
    assert_eq!(
        details("#a", &[]).increment_or_decrement("bob", -1, tomorrow),
        Ok(Adjustment::Learn(NewEntry {
            keyword_id: 7,
            idx: 1,
            text: "-1".to_string(),
            creation_ts: tomorrow,
            created_by: "bob".to_string(),
        }))
    );
}

#[test]
fn counting_goes_past_the_range_of_the_counter() {
    let today = at(2024, 2, 29);
    assert_eq!(
        details("#a", &["2147483647"]).increment_or_decrement("bob", 1, today),
        Ok(Adjustment::Update { position: 1, entry_id: 101, text: "2147483648".to_string() })
    );
    assert_eq!(
        details("#a", &["-2147483648"]).increment_or_decrement("bob", -1, today),
        Ok(Adjustment::Update { position: 1, entry_id: 101, text: "-2147483649".to_string() })
    );
}

#[test]
fn update_replaces_one_text() {
    let mut kwd = details("#a", &["one", "5", "three"]);
    let before = kwd.clone();
    kwd.update(2, "6");
    assert_eq!(kwd.entries[1].text, "6");
    assert_eq!(kwd.entries[1].id, before.entries[1].id);
    assert_eq!(kwd.entries[1].idx, 2);
    assert_eq!(kwd.entries[1].created_by, "alice");
    assert_eq!(kwd.entries[0], before.entries[0]);
    assert_eq!(kwd.entries[2], before.entries[2]);
    assert_eq!(kwd.keyword, before.keyword);
}

#[test]
fn update_out_of_range_changes_nothing() {
    let mut kwd = details("#a", &["one", "two"]);
    let before = kwd.clone();
    kwd.update(0, "x");
    kwd.update(3, "x");
    assert_eq!(kwd, before);
}
