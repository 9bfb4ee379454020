//! The command grammar: how one line of chat is read as a command.
//!
//! A command starts with `??`. Four shapes are tried in a fixed order, and the
//! first one that the beginning of the line has is taken; what follows it on
//! the line is ignored:
//!
//! 1. learn: `??`, an optional `!`, white space, a subject, `:`, white space,
//!    a value;
//! 2. move: `??`, an optional `!`, white space, a subject, an index in square
//!    brackets, `->`, a target;
//! 3. adjust: `??`, an optional `!`, white space, a subject, `++` or `--`;
//! 4. query: `??`, white space, a subject, and optionally an index in square
//!    brackets.
//!
//! A subject is a run of characters other than `[` and `:`, as long as it can
//! be. The order matters: `??x[1]->2` has the shape of a move and of a query,
//! and is a move.
//!
//! Written as regular expressions, matched at the start of the line, the
//! shapes are
//!
//! ```text
//! ^\?\?(!)?\s*([^\[:]*):\s*(.*)
//! ^\?\?(!)?\s*([^\[:]*)(\[[^\]]+\])->(.*)
//! ^\?\?(!)?\s*([^\[:]*)(\+\+|--)
//! ^\?\?\s*([^\[:]*)(\[[^\]]+\])?
//! ```
//!
//! with `\s` for the white space of Unicode and `.` for every character but
//! the line feed, each group as long as it can be.

use vstd::prelude::*;

use crate::text::{
    chars_of, copy_of, decimal, decimal_reads_back, digits_read_back, i32_value, index_value,
    is_digit, is_space, nat_digits, past_spaces, read_i32, read_index, skip_spaces, string_of,
    unsigned_value,
};

verus! {

/// Which entries a query asks for.
#[derive(Clone, Copy, Debug, PartialEq, Eq, Structural)]
pub enum Selector {
    /// No index was given: the first entry.
    First,
    /// `[*]` or `[all]`: every entry.
    All,
    /// `[N]`: the entry at position `N`.
    At(usize),
}

/// A command, with the fields that the line gave.
#[derive(Clone, Debug, PartialEq, Eq)]
pub enum Command {
    /// Teach `value` as a new entry of `subject`.
    Learn { general: bool, subject: String, value: String },
    /// Move the entry at `position`: a negative `target` deletes it, any other
    /// swaps it with the entry at `target`.
    Move { general: bool, subject: String, position: usize, target: i32 },
    /// Count up or down on `subject`.
    Adjust { general: bool, subject: String, up: bool },
    /// Show entries of `subject`.
    Query { subject: String, selector: Selector },
}

/// What a `Command` holds.
pub enum CommandView {
    Learn { general: bool, subject: Seq<char>, value: Seq<char> },
    Move { general: bool, subject: Seq<char>, position: usize, target: i32 },
    Adjust { general: bool, subject: Seq<char>, up: bool },
    Query { subject: Seq<char>, selector: Selector },
}

impl View for Command {
    type V = CommandView;

    open spec fn view(&self) -> CommandView {
        match self {
            Command::Learn { general, subject, value } => CommandView::Learn {
                general: *general,
                subject: subject@,
                value: value@,
            },
            Command::Move { general, subject, position, target } => CommandView::Move {
                general: *general,
                subject: subject@,
                position: *position,
                target: *target,
            },
            Command::Adjust { general, subject, up } => CommandView::Adjust {
                general: *general,
                subject: subject@,
                up: *up,
            },
            Command::Query { subject, selector } => CommandView::Query {
                subject: subject@,
                selector: *selector,
            },
        }
    }
}

impl CommandView {
    /// The name of the keyword that the command is about.
    pub open spec fn subject(self) -> Seq<char> {
        match self {
            CommandView::Learn { subject, .. } => subject,
            CommandView::Move { subject, .. } => subject,
            CommandView::Adjust { subject, .. } => subject,
            CommandView::Query { subject, .. } => subject,
        }
    }

    /// Whether the command bears the mark of the general scope.
    pub open spec fn general(self) -> bool {
        match self {
            CommandView::Learn { general, .. } => general,
            CommandView::Move { general, .. } => general,
            CommandView::Adjust { general, .. } => general,
            CommandView::Query { .. } => false,
        }
    }

    /// Whether the command changes entries: every command but a query does.
    pub open spec fn mutates(self) -> bool {
        !(self is Query)
    }
}

impl Command {
    /// The name of the keyword that the command is about.
    pub fn subject(&self) -> (out: String)
        ensures
            out@ == self@.subject(),
    {
        match self {
            Command::Learn { subject, .. } => copy_of(subject.as_str()),
            Command::Move { subject, .. } => copy_of(subject.as_str()),
            Command::Adjust { subject, .. } => copy_of(subject.as_str()),
            Command::Query { subject, .. } => copy_of(subject.as_str()),
        }
    }

    /// Whether the command bears the mark of the general scope.
    pub fn general(&self) -> (out: bool)
        ensures
            out == self@.general(),
    {
        match self {
            Command::Learn { general, .. } => *general,
            Command::Move { general, .. } => *general,
            Command::Adjust { general, .. } => *general,
            Command::Query { .. } => false,
        }
    }

    /// Whether the command changes entries.
    pub fn mutates(&self) -> (out: bool)
        ensures
            out == self@.mutates(),
    {
        match self {
            Command::Query { .. } => false,
            _ => true,
        }
    }
}

/// What a line was read as.
#[derive(Clone, Debug, PartialEq, Eq)]
pub enum Reading {
    /// The line is no command: it is passed over in silence.
    NotACommand,
    /// A move or a query whose index is no number that `usize` holds.
    InvalidIndex,
    /// A move whose target is no number that `i32` holds.
    InvalidTarget,
    /// A command.
    Command(Command),
}

/// What a `Reading` holds.
pub enum ReadingView {
    NotACommand,
    InvalidIndex,
    InvalidTarget,
    Command(CommandView),
}

impl View for Reading {
    type V = ReadingView;

    open spec fn view(&self) -> ReadingView {
        match self {
            Reading::NotACommand => ReadingView::NotACommand,
            Reading::InvalidIndex => ReadingView::InvalidIndex,
            Reading::InvalidTarget => ReadingView::InvalidTarget,
            Reading::Command(c) => ReadingView::Command(c@),
        }
    }
}

/// The first index at or after `from` that holds `a` or `b`, or the length of
/// `s` where neither follows.
pub open spec fn first_of(s: Seq<char>, from: int, a: char, b: char) -> int
    decreases s.len() - from,
{
    if 0 <= from < s.len() && s[from] != a && s[from] != b {
        first_of(s, from + 1, a, b)
    } else {
        from
    }
}

/// Where the line that holds the index `from` ends: at the next line feed, or
/// at the end of `s`.
pub open spec fn line_end(s: Seq<char>, from: int) -> int {
    first_of(s, from, '\n', '\n')
}

/// Whether `s` starts with the marker of a command, `??`.
pub open spec fn has_marker(s: Seq<char>) -> bool {
    s.len() >= 2 && s[0] == '?' && s[1] == '?'
}

/// Whether a `!` follows the marker: the command is meant for the general
/// scope.
pub open spec fn general_flag(s: Seq<char>) -> bool {
    s.len() > 2 && s[2] == '!'
}

/// Where the subject starts in a shape that takes the `!`: behind the marker,
/// the `!` if there is one, and white space.
pub open spec fn subject_from(s: Seq<char>) -> int {
    skip_spaces(
        s,
        if general_flag(s) {
            3
        } else {
            2
        },
    )
}

/// Where that subject ends: at the first `[` or `:`, or at the end of `s`.
pub open spec fn subject_to(s: Seq<char>) -> int {
    first_of(s, subject_from(s), '[', ':')
}

/// The place of the `]` that closes an index opened at `open`: `s` has a `[`
/// at `open`, then one character or more other than `]`, then that `]`.
pub open spec fn index_close(s: Seq<char>, open: int) -> Option<int> {
    let close = first_of(s, open + 1, ']', ']');
    if 0 <= open < s.len() && s[open] == '[' && open + 1 < close < s.len() {
        Some(close)
    } else {
        None
    }
}

/// Whether `++` or `--` stands at `at`.
pub open spec fn is_step(s: Seq<char>, at: int) -> bool {
    &&& 0 <= at
    &&& at + 1 < s.len()
    &&& s[at] == s[at + 1]
    &&& (s[at] == '+' || s[at] == '-')
}

/// The last place in `s[from..to]` at which a whole `++` or `--` stands.
pub open spec fn last_step(s: Seq<char>, from: int, to: int) -> Option<int>
    decreases to - from,
{
    if to - from < 2 {
        None
    } else if is_step(s, to - 2) {
        Some(to - 2)
    } else {
        last_step(s, from, to - 1)
    }
}

/// The line read as a learn command, where it has that shape.
pub open spec fn learn_of(s: Seq<char>) -> Option<CommandView> {
    let from = subject_from(s);
    let to = subject_to(s);
    if to < s.len() && s[to] == ':' {
        let value_from = skip_spaces(s, to + 1);
        Some(
            CommandView::Learn {
                general: general_flag(s),
                subject: s.subrange(from, to),
                value: s.subrange(value_from, line_end(s, value_from)),
            },
        )
    } else {
        None
    }
}

/// The line read as a move command, where it has that shape. The index and the
/// target are then read as numbers, the index first.
pub open spec fn move_of(s: Seq<char>) -> Option<ReadingView> {
    let from = subject_from(s);
    let to = subject_to(s);
    match index_close(s, to) {
        Some(close) => {
            if close + 2 < s.len() && s[close + 1] == '-' && s[close + 2] == '>' {
                let target_from = close + 3;
                Some(
                    match index_value(s.subrange(to + 1, close)) {
                        None => ReadingView::InvalidIndex,
                        Some(position) => match i32_value(
                            s.subrange(target_from, line_end(s, target_from)),
                        ) {
                            None => ReadingView::InvalidTarget,
                            Some(target) => ReadingView::Command(
                                CommandView::Move {
                                    general: general_flag(s),
                                    subject: s.subrange(from, to),
                                    position,
                                    target,
                                },
                            ),
                        },
                    },
                )
            } else {
                None
            }
        },
        None => None,
    }
}

/// The line read as an adjust command, where it has that shape. Of several
/// `++` or `--` in the run of the subject, the last one counts.
pub open spec fn adjust_of(s: Seq<char>) -> Option<CommandView> {
    let from = subject_from(s);
    let to = subject_to(s);
    match last_step(s, from, to) {
        Some(at) => Some(
            CommandView::Adjust {
                general: general_flag(s),
                subject: s.subrange(from, at),
                up: s[at] == '+',
            },
        ),
        None => None,
    }
}

/// What the text between the brackets of a query asks for: `*` and `all` ask
/// for every entry, a number for one position.
pub open spec fn selector_of(index: Seq<char>) -> Option<Selector> {
    if index == seq!['*'] || index == seq!['a', 'l', 'l'] {
        Some(Selector::All)
    } else {
        match index_value(index) {
            Some(n) => Some(Selector::At(n)),
            None => None,
        }
    }
}

/// The line read as a query. Every line that starts with the marker has that
/// shape. A `!` behind the marker belongs to the subject here.
pub open spec fn query_of(s: Seq<char>) -> ReadingView {
    let from = skip_spaces(s, 2);
    let to = first_of(s, from, '[', ':');
    match index_close(s, to) {
        Some(close) => match selector_of(s.subrange(to + 1, close)) {
            Some(selector) => ReadingView::Command(
                CommandView::Query { subject: s.subrange(from, to), selector },
            ),
            None => ReadingView::InvalidIndex,
        },
        None => ReadingView::Command(
            CommandView::Query { subject: s.subrange(from, to), selector: Selector::First },
        ),
    }
}

/// What a line is read as: the four shapes in their order.
pub open spec fn read(s: Seq<char>) -> ReadingView {
    if !has_marker(s) {
        ReadingView::NotACommand
    } else if learn_of(s) is Some {
        ReadingView::Command(learn_of(s).unwrap())
    } else if move_of(s) is Some {
        move_of(s).unwrap()
    } else if adjust_of(s) is Some {
        ReadingView::Command(adjust_of(s).unwrap())
    } else {
        query_of(s)
    }
}

/// Computes `first_of`.
pub(crate) fn find_first(chars: &Vec<char>, from: usize, a: char, b: char) -> (at: usize)
    requires
        from <= chars.len(),
    ensures
        at == first_of(chars@, from as int, a, b),
        from <= at <= chars.len(),
{
    let mut i: usize = from;
    while i < chars.len() && chars[i] != a && chars[i] != b
        invariant
            from <= i <= chars.len(),
            first_of(chars@, from as int, a, b) == first_of(chars@, i as int, a, b),
        decreases chars.len() - i,
    {
        i += 1;
    }
    i
}

/// Computes `index_close`.
fn find_close(chars: &Vec<char>, open: usize) -> (close: Option<usize>)
    requires
        open <= chars.len(),
    ensures
        match close {
            Some(k) => index_close(chars@, open as int) == Some(k as int) && open + 1 < k
                < chars.len(),
            None => index_close(chars@, open as int) is None,
        },
{
    if open < chars.len() && chars[open] == '[' {
        let k = find_first(chars, open + 1, ']', ']');
        if open + 1 < k && k < chars.len() {
            Some(k)
        } else {
            None
        }
    } else {
        None
    }
}

/// Computes `last_step`.
fn find_last_step(chars: &Vec<char>, from: usize, to: usize) -> (at: Option<usize>)
    requires
        from <= to <= chars.len(),
    ensures
        match at {
            Some(p) => last_step(chars@, from as int, to as int) == Some(p as int) && from <= p
                && p + 2 <= to,
            None => last_step(chars@, from as int, to as int) is None,
        },
{
    let mut end: usize = to;
    while end - from >= 2
        invariant
            from <= end <= to <= chars.len(),
            last_step(chars@, from as int, to as int) == last_step(chars@, from as int, end as int),
        decreases end - from,
    {
        let c: char = chars[end - 2];
        if c == chars[end - 1] && (c == '+' || c == '-') {
            return Some(end - 2);
        }
        end -= 1;
    }
    None
}

/// Reads the text between the brackets of a query.
fn read_selector(chars: &Vec<char>, from: usize, to: usize) -> (out: Option<Selector>)
    requires
        from <= to <= chars.len(),
    ensures
        out == selector_of(chars@.subrange(from as int, to as int)),
{
    let ghost index = chars@.subrange(from as int, to as int);
    if to - from == 1 && chars[from] == '*' {
        assert(index =~= seq!['*']);
        return Some(Selector::All);
    }
    if to - from == 3 && chars[from] == 'a' && chars[from + 1] == 'l' && chars[from + 2] == 'l' {
        assert(index =~= seq!['a', 'l', 'l']);
        return Some(Selector::All);
    }
    assert(index != seq!['*']) by {
        if index == seq!['*'] {
            assert(index.len() == 1 && index[0] == '*');
        }
    }
    assert(index != seq!['a', 'l', 'l']) by {
        if index == seq!['a', 'l', 'l'] {
            assert(index.len() == 3 && index[0] == 'a' && index[1] == 'l' && index[2] == 'l');
        }
    }
    match read_index(chars, from, to) {
        Some(n) => Some(Selector::At(n)),
        None => None,
    }
}

/// Reads the line as a move, where it has that shape.
fn read_move(chars: &Vec<char>, general: bool, from: usize, to: usize) -> (out: Option<Reading>)
    requires
        has_marker(chars@),
        general == general_flag(chars@),
        from == subject_from(chars@),
        to == subject_to(chars@),
        from <= to <= chars.len(),
    ensures
        match out {
            Some(reading) => move_of(chars@) == Some(reading@),
            None => move_of(chars@) is None,
        },
{
    let n: usize = chars.len();
    match find_close(chars, to) {
        Some(close) => {
            if n - close > 2 && chars[close + 1] == '-' && chars[close + 2] == '>' {
                let target_from: usize = close + 3;
                let target_to: usize = find_first(chars, target_from, '\n', '\n');
                match read_index(chars, to + 1, close) {
                    None => Some(Reading::InvalidIndex),
                    Some(position) => match read_i32(chars, target_from, target_to) {
                        None => Some(Reading::InvalidTarget),
                        Some(target) => Some(
                            Reading::Command(
                                Command::Move {
                                    general,
                                    subject: string_of(chars, from, to),
                                    position,
                                    target,
                                },
                            ),
                        ),
                    },
                }
            } else {
                None
            }
        },
        None => None,
    }
}

/// Reads the line as a query.
fn read_query(chars: &Vec<char>) -> (out: Reading)
    requires
        has_marker(chars@),
    ensures
        out@ == query_of(chars@),
{
    let from: usize = past_spaces(chars, 2);
    let to: usize = find_first(chars, from, '[', ':');
    match find_close(chars, to) {
        Some(close) => match read_selector(chars, to + 1, close) {
            Some(selector) => Reading::Command(
                Command::Query { subject: string_of(chars, from, to), selector },
            ),
            None => Reading::InvalidIndex,
        },
        None => Reading::Command(
            Command::Query { subject: string_of(chars, from, to), selector: Selector::First },
        ),
    }
}

/// Reads one line of chat.
pub fn parse(line: &str) -> (out: Reading)
    ensures
        out@ == read(line@),
{
    let chars = chars_of(line);
    let n: usize = chars.len();
    if n < 2 || chars[0] != '?' || chars[1] != '?' {
        return Reading::NotACommand;
    }
    let general: bool = n > 2 && chars[2] == '!';
    let from: usize = past_spaces(
        &chars,
        if general {
            3
        } else {
            2
        },
    );
    let to: usize = find_first(&chars, from, '[', ':');
    if to < n && chars[to] == ':' {
        let value_from: usize = past_spaces(&chars, to + 1);
        let value_to: usize = find_first(&chars, value_from, '\n', '\n');
        return Reading::Command(
            Command::Learn {
                general,
                subject: string_of(&chars, from, to),
                value: string_of(&chars, value_from, value_to),
            },
        );
    }
    match read_move(&chars, general, from, to) {
        Some(reading) => {
            return reading;
        },
        None => {},
    }
    match find_last_step(&chars, from, to) {
        Some(at) => {
            return Reading::Command(
                Command::Adjust {
                    general,
                    subject: string_of(&chars, from, at),
                    up: chars[at] == '+',
                },
            );
        },
        None => {},
    }
    read_query(&chars)
}

/// A line with the shape of a move is read as a move, though it has the shape
/// of a query too: it cannot have the shape of a learn command, which alone
/// is tried before, and so it becomes a move or, where its index or its
/// target is no number, an error; never a query.
pub proof fn move_wins_over_query(s: Seq<char>)
    requires
        has_marker(s),
        move_of(s) is Some,
    ensures
        learn_of(s) is None,
        read(s) == move_of(s)->Some_0,
        read(s) is InvalidIndex || read(s) is InvalidTarget || read(s) is Command && read(
            s,
        )->Command_0 is Move,
{
}

/// A line is passed over in silence exactly where it does not start with the
/// marker: every line that starts with it is a command or an error.
pub proof fn only_unmarked_lines_are_passed_over(s: Seq<char>)
    ensures
        read(s) is NotACommand <==> !has_marker(s),
{
}

/// `first_of` stops at or behind `from`, within `s`, and passes over nothing
/// that is `a` or `b`.
pub proof fn first_of_is_first(s: Seq<char>, from: int, a: char, b: char)
    requires
        0 <= from <= s.len(),
    ensures
        from <= first_of(s, from, a, b) <= s.len(),
        forall|i: int| from <= i < first_of(s, from, a, b) ==> s[i] != a && s[i] != b,
        first_of(s, from, a, b) < s.len() ==> s[first_of(s, from, a, b)] == a || s[first_of(
            s,
            from,
            a,
            b,
        )] == b,
    decreases s.len() - from,
{
    if from < s.len() && s[from] != a && s[from] != b {
        first_of_is_first(s, from + 1, a, b);
    }
}

/// `skip_spaces` stops at or behind `from`, within `s`.
proof fn skip_spaces_goes_on(s: Seq<char>, from: int)
    requires
        0 <= from <= s.len(),
    ensures
        from <= skip_spaces(s, from) <= s.len(),
    decreases s.len() - from,
{
    if from < s.len() && is_space(s[from]) {
        skip_spaces_goes_on(s, from + 1);
    }
}

/// `last_step` finds a place at which a whole step stands within the range.
proof fn last_step_is_within(s: Seq<char>, from: int, to: int)
    ensures
        last_step(s, from, to) matches Some(at) ==> from <= at && at + 2 <= to && is_step(s, at),
    decreases to - from,
{
    if to - from >= 2 && !is_step(s, to - 2) {
        last_step_is_within(s, from, to - 1);
    }
}

/// The subject of a command holds neither `[` nor `:`, whatever the line.
pub proof fn subjects_hold_no_bracket_or_colon(s: Seq<char>)
    ensures
        read(s) matches ReadingView::Command(command) ==> forall|i: int|
            0 <= i < command.subject().len() ==> command.subject()[i] != '[' && command.subject()[i]
                != ':',
{
    if has_marker(s) {
        let start: int = if general_flag(s) {
            3
        } else {
            2
        };
        skip_spaces_goes_on(s, start);
        skip_spaces_goes_on(s, 2);
        let from = subject_from(s);
        let to = subject_to(s);
        first_of_is_first(s, from, '[', ':');
        let plain_from = skip_spaces(s, 2);
        let plain_to = first_of(s, plain_from, '[', ':');
        first_of_is_first(s, plain_from, '[', ':');
        last_step_is_within(s, from, to);
        if learn_of(s) is Some {
        } else if move_of(s) is Some {
        } else if adjust_of(s) is Some {
            let at = last_step(s, from, to)->Some_0;
            let subject = s.subrange(from, at);
            assert forall|i: int| 0 <= i < subject.len() implies subject[i] != '[' && subject[i]
                != ':' by {
                assert(subject[i] == s[from + i]);
            }
        } else {
            let subject = s.subrange(plain_from, plain_to);
            assert forall|i: int| 0 <= i < subject.len() implies subject[i] != '[' && subject[i]
                != ':' by {
                assert(subject[i] == s[plain_from + i]);
            }
        }
    }
}

/// `first_of` stops at `at` where nothing before `at` is `a` or `b` and `at`
/// holds one of them or is the end.
pub proof fn first_of_stops_at(s: Seq<char>, from: int, a: char, b: char, at: int)
    requires
        0 <= from <= at <= s.len(),
        forall|i: int| from <= i < at ==> s[i] != a && s[i] != b,
        at < s.len() ==> s[at] == a || s[at] == b,
    ensures
        first_of(s, from, a, b) == at,
    decreases at - from,
{
    if from < at {
        first_of_stops_at(s, from + 1, a, b, at);
    }
}

/// A subject that a line gives as it stands: it holds neither `[` nor `:`,
/// and starts neither with white space, which is skipped, nor with `!`, which
/// is the general mark.
pub open spec fn plain_subject(subject: Seq<char>) -> bool {
    &&& forall|i: int| 0 <= i < subject.len() ==> subject[i] != '[' && subject[i] != ':'
    &&& subject.len() > 0 ==> subject[0] != '!' && !is_space(subject[0])
}

/// The line that moves the entry at `position` of `subject` to `target`:
/// `??`, the subject, the position in brackets, `->` and the target.
pub open spec fn move_line(subject: Seq<char>, position: nat, target: int) -> Seq<char> {
    seq!['?', '?'] + subject + seq!['['] + nat_digits(position) + seq![']', '-', '>'] + decimal(
        target,
    )
}

/// The line that counts up or down on `subject`: `??`, the subject, and `++`
/// or `--`.
pub open spec fn adjust_line(subject: Seq<char>, up: bool) -> Seq<char> {
    seq!['?', '?'] + subject + (if up {
        seq!['+', '+']
    } else {
        seq!['-', '-']
    })
}

/// Every line of the form of `move_line` is read as that move: of the subject
/// as it stands, without the general mark, with the position and the target
/// that the line writes.
pub proof fn a_move_line_is_a_move(subject: Seq<char>, position: usize, target: i32)
    requires
        plain_subject(subject),
    ensures
        read(move_line(subject, position as nat, target as int)) == ReadingView::Command(
            CommandView::Move { general: false, subject, position, target },
        ),
{
    let index = nat_digits(position as nat);
    let goal = decimal(target as int);
    let s = move_line(subject, position as nat, target as int);
    let n = subject.len() as int;
    let m = index.len() as int;
    digits_read_back(position as nat);
    decimal_reads_back(target as int);
    if target < 0 {
        digits_read_back((-(target as int)) as nat);
    } else {
        digits_read_back(target as nat);
    }
    assert(s.len() == n + m + goal.len() + 6);
    assert(s[0] == '?' && s[1] == '?');
    assert forall|i: int| 0 <= i < n implies s[2 + i] == subject[i] by {}
    assert(s[2 + n] == '[');
    assert forall|i: int| 0 <= i < m implies s[3 + n + i] == index[i] by {}
    assert(s[3 + n + m] == ']' && s[4 + n + m] == '-' && s[5 + n + m] == '>');
    assert forall|i: int| 0 <= i < goal.len() implies s[6 + n + m + i] == #[trigger] goal[i] by {}
    assert(!general_flag(s));
    assert(skip_spaces(s, 2) == 2);
    assert(subject_from(s) == 2);
    assert forall|i: int| 2 <= i < 2 + n implies s[i] != '[' && s[i] != ':' by {
        assert(s[i] == subject[i - 2]);
    }
    first_of_stops_at(s, 2, '[', ':', 2 + n);
    assert(subject_to(s) == 2 + n);
    assert(learn_of(s) is None);
    assert forall|i: int| 3 + n <= i < 3 + n + m implies s[i] != ']' by {
        assert(s[i] == index[i - 3 - n]);
        assert(is_digit(index[i - 3 - n]));
    }
    first_of_stops_at(s, 3 + n, ']', ']', 3 + n + m);
    assert(index_close(s, 2 + n) == Some(3 + n + m));
    assert forall|i: int| 6 + n + m <= i < s.len() implies s[i] != '\n' by {
        let k = i - 6 - n - m;
        assert(s[i] == goal[k]);
        if target < 0 {
            let digits = nat_digits((-(target as int)) as nat);
            if k > 0 {
                assert(goal[k] == digits[k - 1]);
                assert(is_digit(digits[k - 1]));
            }
        } else {
            assert(is_digit(goal[k]));
        }
    }
    first_of_stops_at(s, 6 + n + m, '\n', '\n', s.len() as int);
    assert(line_end(s, 6 + n + m) == s.len());
    assert(s.subrange(2, 2 + n) =~= subject);
    assert(s.subrange(3 + n, 3 + n + m) =~= index);
    assert(s.subrange(6 + n + m, s.len() as int) =~= goal);
    assert(is_digit(index[0]));
    assert(unsigned_value(index) == Some(position as nat));
    assert(index_value(index) == Some(position));
    assert(i32_value(goal) == Some(target));
}

/// Every line of the form of `adjust_line` is read as that adjustment: of the
/// subject as it stands, without the general mark, up for `++` and down for
/// `--`.
pub proof fn an_adjust_line_is_an_adjustment(subject: Seq<char>, up: bool)
    requires
        plain_subject(subject),
    ensures
        read(adjust_line(subject, up)) == ReadingView::Command(
            CommandView::Adjust { general: false, subject, up },
        ),
{
    let s = adjust_line(subject, up);
    let n = subject.len() as int;
    assert(s.len() == n + 4);
    assert(s[0] == '?' && s[1] == '?');
    assert forall|i: int| 0 <= i < n implies s[2 + i] == subject[i] by {}
    assert(s[2 + n] == s[3 + n]);
    assert(s[2 + n] == (if up {
        '+'
    } else {
        '-'
    }));
    assert(!general_flag(s));
    assert(skip_spaces(s, 2) == 2);
    assert forall|i: int| 2 <= i < s.len() implies s[i] != '[' && s[i] != ':' by {
        if i < 2 + n {
            assert(s[i] == subject[i - 2]);
        }
    }
    first_of_stops_at(s, 2, '[', ':', s.len() as int);
    assert(subject_to(s) == s.len());
    assert(learn_of(s) is None);
    assert(index_close(s, s.len() as int) is None);
    assert(move_of(s) is None);
    assert(is_step(s, 2 + n));
    assert(last_step(s, 2, s.len() as int) == Some(2 + n));
    assert(s.subrange(2, 2 + n) =~= subject);
}

} // verus!
