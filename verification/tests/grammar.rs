use paroxysm::grammar::{parse, Command, Reading, Selector};
use regex::Regex;

fn learn(general: bool, subject: &str, value: &str) -> Reading {
    Reading::Command(Command::Learn {
        general,
        subject: subject.to_string(),
        value: value.to_string(),
    })
}

fn moving(general: bool, subject: &str, position: usize, target: i32) -> Reading {
    Reading::Command(Command::Move { general, subject: subject.to_string(), position, target })
}

fn adjust(general: bool, subject: &str, up: bool) -> Reading {
    Reading::Command(Command::Adjust { general, subject: subject.to_string(), up })
}

fn query(subject: &str, selector: Selector) -> Reading {
    Reading::Command(Command::Query { subject: subject.to_string(), selector })
}

/// The four shapes of a command as patterns.
struct Patterns {
    learn_re: Regex,
    move_re: Regex,
    adjust_re: Regex,
    query_re: Regex,
}

fn patterns() -> Patterns {
    Patterns {
        learn_re: Regex::new(r"^\?\?(?P<gen>!)?\s*(?P<subj>[^\[:]*):\s*(?P<val>.*)").unwrap(),
        move_re: Regex::new(
            r"^\?\?(?P<gen>!)?\s*(?P<subj>[^\[:]*)(?P<idx>\[[^\]]+\])->(?P<new_idx>.*)",
        )
        .unwrap(),
        adjust_re: Regex::new(r"^\?\?(?P<gen>!)?\s*(?P<subj>[^\[:]*)(?P<incrdecr>(\+\+|--))")
            .unwrap(),
        query_re: Regex::new(r"^\?\?\s*(?P<subj>[^\[:]*)(?P<idx>\[[^\]]+\])?").unwrap(),
    }
}

/// What the four patterns, tried in their order, make of a line.
fn by_patterns(shapes: &Patterns, line: &str) -> Reading {
    let Patterns { learn_re, move_re, adjust_re, query_re } = shapes;
    if let Some(found) = learn_re.captures(line) {
        return learn(found.name("gen").is_some(), &found["subj"], &found["val"]);
    }
    if let Some(found) = move_re.captures(line) {
        let idx = &found["idx"];
        let position = match idx[1..(idx.len() - 1)].parse::<usize>() {
            Ok(position) => position,
            Err(_) => return Reading::InvalidIndex,
        };
        let target = match found["new_idx"].parse::<i32>() {
            Ok(target) => target,
            Err(_) => return Reading::InvalidTarget,
        };
        return moving(found.name("gen").is_some(), &found["subj"], position, target);
    }
    if let Some(found) = adjust_re.captures(line) {
        return adjust(found.name("gen").is_some(), &found["subj"], &found["incrdecr"] == "++");
    }
    if let Some(found) = query_re.captures(line) {
        let selector = match found.name("idx") {
            None => Selector::First,
            Some(idx) => {
                let idx = idx.as_str();
                match &idx[1..(idx.len() - 1)] {
                    "*" | "all" => Selector::All,
                    number => match number.parse::<usize>() {
                        Ok(n) => Selector::At(n),
                        Err(_) => return Reading::InvalidIndex,
                    },
                }
            }
        };
        return query(&found["subj"], selector);
    }
    Reading::NotACommand
}

#[test]
fn move_wins_over_query() {
    assert_eq!(parse("??x[1]->2"), moving(false, "x", 1, 2));
}

#[test]
fn query_is_what_is_left_of_a_move() {
    assert_eq!(parse("??x[1]"), query("x", Selector::At(1)));
    assert_eq!(parse("??x[1]-"), query("x", Selector::At(1)));
    assert_eq!(parse("??x[1]>2"), query("x", Selector::At(1)));
}

#[test]
fn learn_reads_subject_and_value() {
    assert_eq!(parse("??foo: bar baz"), learn(false, "foo", "bar baz"));
    assert_eq!(parse("??foo:bar"), learn(false, "foo", "bar"));
    assert_eq!(parse("?? foo : bar"), learn(false, "foo ", "bar"));
    assert_eq!(parse("??foo:"), learn(false, "foo", ""));
    assert_eq!(parse("??:x"), learn(false, "", "x"));
}

#[test]
fn learn_with_general_mark() {
    assert_eq!(parse("??!foo: bar"), learn(true, "foo", "bar"));
    assert_eq!(parse("??! foo: bar"), learn(true, "foo", "bar"));
    assert_eq!(parse("?? !foo: bar"), learn(false, "!foo", "bar"));
}

#[test]
fn learn_wins_over_the_other_shapes() {
    assert_eq!(parse("??x++: y"), learn(false, "x++", "y"));
    assert_eq!(parse("??x: a[1]->2"), learn(false, "x", "a[1]->2"));
    assert_eq!(parse("??x: see: y"), learn(false, "x", "see: y"));
}

#[test]
fn learn_value_ends_with_the_line() {
    assert_eq!(parse("??foo: bar\nbaz"), learn(false, "foo", "bar"));
    assert_eq!(parse("??foo:\n \n  bar"), learn(false, "foo", "bar"));
}

#[test]
fn subject_stops_at_bracket_before_colon() {
    assert_eq!(parse("??a[b]:c"), Reading::InvalidIndex);
    assert_eq!(parse("??a[1]:c"), query("a", Selector::At(1)));
}

#[test]
fn move_reads_index_and_target() {
    assert_eq!(parse("??foo[3]->1"), moving(false, "foo", 3, 1));
    assert_eq!(parse("??!foo[3]->-1"), moving(true, "foo", 3, -1));
    assert_eq!(parse("?? foo [12]->+4"), moving(false, "foo ", 12, 4));
    assert_eq!(parse("??foo[+2]->0"), moving(false, "foo", 2, 0));
    assert_eq!(parse("??foo[0]->-0"), moving(false, "foo", 0, 0));
    assert_eq!(parse("??foo[2]->-2147483648"), moving(false, "foo", 2, i32::MIN));
    assert_eq!(parse("??foo[2]->2147483647"), moving(false, "foo", 2, i32::MAX));
}

#[test]
fn move_with_bad_index() {
    assert_eq!(parse("??foo[x]->1"), Reading::InvalidIndex);
    assert_eq!(parse("??foo[-1]->1"), Reading::InvalidIndex);
    assert_eq!(parse("??foo[1 ]->1"), Reading::InvalidIndex);
    assert_eq!(parse("??foo[*]->1"), Reading::InvalidIndex);
    assert_eq!(parse("??foo[99999999999999999999999]->1"), Reading::InvalidIndex);
    assert_eq!(parse("??foo[x]->y"), Reading::InvalidIndex);
}

#[test]
fn move_with_bad_target() {
    assert_eq!(parse("??foo[1]->"), Reading::InvalidTarget);
    assert_eq!(parse("??foo[1]->x"), Reading::InvalidTarget);
    assert_eq!(parse("??foo[1]-> 2"), Reading::InvalidTarget);
    assert_eq!(parse("??foo[1]->2 "), Reading::InvalidTarget);
    assert_eq!(parse("??foo[1]->2147483648"), Reading::InvalidTarget);
    assert_eq!(parse("??foo[1]->-2147483649"), Reading::InvalidTarget);
    assert_eq!(parse("??foo[1]->-"), Reading::InvalidTarget);
    assert_eq!(parse("??foo[1]->+"), Reading::InvalidTarget);
}

#[test]
fn index_at_the_limit_of_usize() {
    let most = usize::MAX.to_string();
    assert_eq!(parse(&format!("??foo[{}]", most)), query("foo", Selector::At(usize::MAX)));
    assert_eq!(parse(&format!("??foo[{}0]", most)), Reading::InvalidIndex);
    assert_eq!(parse(&format!("??foo[000{}]", most)), query("foo", Selector::At(usize::MAX)));
}

#[test]
fn adjust_counts_up_and_down() {
    assert_eq!(parse("??foo++"), adjust(false, "foo", true));
    assert_eq!(parse("??foo--"), adjust(false, "foo", false));
    assert_eq!(parse("??!foo++"), adjust(true, "foo", true));
    assert_eq!(parse("??! foo --"), adjust(true, "foo ", false));
    assert_eq!(parse("??++"), adjust(false, "", true));
}

#[test]
fn adjust_takes_the_last_step() {
    assert_eq!(parse("??a--b++"), adjust(false, "a--b", true));
    assert_eq!(parse("??a++b--c"), adjust(false, "a++b", false));
    assert_eq!(parse("??a+++"), adjust(false, "a+", true));
    assert_eq!(parse("??a++ and more"), adjust(false, "a", true));
    assert_eq!(parse("??a++[1]"), adjust(false, "a", true));
}

#[test]
fn adjust_needs_the_step_in_the_subject() {
    assert_eq!(parse("??a+-"), query("a+-", Selector::First));
    assert_eq!(parse("??a[1]++"), query("a", Selector::At(1)));
    assert_eq!(parse("??a+"), query("a+", Selector::First));
}

#[test]
fn query_without_index() {
    assert_eq!(parse("??foo"), query("foo", Selector::First));
    assert_eq!(parse("?? foo bar"), query("foo bar", Selector::First));
    assert_eq!(parse("??"), query("", Selector::First));
    assert_eq!(parse("??!foo"), query("!foo", Selector::First));
    assert_eq!(parse("??foo["), query("foo", Selector::First));
    assert_eq!(parse("??foo[]"), query("foo", Selector::First));
    assert_eq!(parse("??foo[1"), query("foo", Selector::First));
}

#[test]
fn query_with_index() {
    assert_eq!(parse("??foo[2]"), query("foo", Selector::At(2)));
    assert_eq!(parse("??foo[0]"), query("foo", Selector::At(0)));
    assert_eq!(parse("??foo[+7]"), query("foo", Selector::At(7)));
    assert_eq!(parse("??foo[2] and more"), query("foo", Selector::At(2)));
}

#[test]
fn query_for_every_entry() {
    assert_eq!(parse("??foo[*]"), query("foo", Selector::All));
    assert_eq!(parse("??foo[all]"), query("foo", Selector::All));
}

#[test]
fn query_with_bad_index() {
    assert_eq!(parse("??foo[x]"), Reading::InvalidIndex);
    assert_eq!(parse("??foo[ALL]"), Reading::InvalidIndex);
    assert_eq!(parse("??foo[**]"), Reading::InvalidIndex);
    assert_eq!(parse("??foo[-1]"), Reading::InvalidIndex);
    assert_eq!(parse("??foo[1.5]"), Reading::InvalidIndex);
}

#[test]
fn lines_that_are_no_commands() {
    assert_eq!(parse(""), Reading::NotACommand);
    assert_eq!(parse("?"), Reading::NotACommand);
    assert_eq!(parse("hello"), Reading::NotACommand);
    assert_eq!(parse(" ??foo"), Reading::NotACommand);
    assert_eq!(parse("?!?foo"), Reading::NotACommand);
    assert_eq!(parse("foo: bar"), Reading::NotACommand);
}

#[test]
fn white_space_of_every_kind_is_skipped() {
    assert_eq!(parse("??\u{a0}\u{2003}\t foo: \u{3000}bar"), learn(false, "foo", "bar"));
    assert_eq!(parse("??\u{200b}foo"), query("\u{200b}foo", Selector::First));
}

#[test]
fn subjects_beyond_ascii() {
    assert_eq!(parse("??caf\u{e9}: cr\u{e8}me"), learn(false, "caf\u{e9}", "cr\u{e8}me"));
    assert_eq!(parse("??\u{1f980}[2]->1"), moving(false, "\u{1f980}", 2, 1));
}

#[test]
fn parser_agrees_with_the_patterns_on_chosen_lines() {
    let lines = [
        "??x[1]->2",
        "??foo: bar",
        "??!foo: bar",
        "??foo++",
        "??foo--",
        "??foo[*]",
        "??foo[all]",
        "??foo[3]",
        "??foo",
        "?? spaced out [2] -> 3",
        "??a:b:c",
        "??a[b]:c",
        "??a[1][2]->3",
        "??a]b[1]->2",
        "??a[1]->2->3",
        "??a[1]->2\n",
        "??a++\n++",
        "??a\n++",
        "??\n\n!a: b",
        "??!!a++",
        "??! !a--",
        "plain talk",
        "",
    ];
    let shapes = patterns();
    for line in lines {
        assert_eq!(parse(line), by_patterns(&shapes, line), "line {:?}", line);
    }
}

#[test]
fn parser_agrees_with_the_patterns_on_all_short_lines() {
    let letters =
        ['!', ' ', 'x', '[', ']', ':', '+', '-', '>', '1', '0', '*', 'a', 'l', '?', '\n', '\u{a0}'];
    let mut lines: Vec<String> = vec![String::from("??")];
    let mut from = 0;
    for _ in 0..4 {
        let to = lines.len();
        for i in from..to {
            for c in letters {
                let mut longer = lines[i].clone();
                longer.push(c);
                lines.push(longer);
            }
        }
        from = to;
    }
    assert_eq!(lines.len(), 1 + 17 + 289 + 4913 + 83521);
    let shapes = patterns();
    for line in &lines {
        assert_eq!(parse(line), by_patterns(&shapes, line), "line {:?}", line);
    }
}
