//! The dispatcher: what becomes of one line of chat.
//!
//! Handling a line is a session. It never reaches the store or the chat
//! itself: each step either asks one thing of the store, and goes on when the
//! answer is handed to `App::resume`, or finishes with the notices to send.
//! Whoever runs the session carries out the requests and sends the notices.

use vstd::prelude::*;

use crate::clock::{current_time, Timestamp};
use crate::grammar::{
    find_first, first_of, parse, read, Command, CommandView, Reading, ReadingView, Selector,
};
use crate::keyword::{
    adjustment, chosen, entry_line, formatted, keyword_views, learn_plan, move_plan, next_move,
    resolved, with_text, Adjustment, AdjustmentView, KeywordDetails, KeywordDetailsView, Plan,
    Resolved, ResolvedView,
};
use crate::models::{
    general_scope, option_view, EntryView, Keyword, KeywordView, NewKeywordView,
};
use crate::notice::{
    deleted_text, error_text, message, no_entries_text, notice_views, refused, swapped_text,
    write_deleted, write_error, write_no_entries, write_swapped, Error, ErrorView, Notice,
    NoticeView,
};
use crate::store::{Answer, AnswerView, Request, RequestView};
use crate::text::{chars_of, copy_of, same_text, string_of};

verus! {

/// What stays the same while one command is handled.
#[derive(Clone, Debug, PartialEq, Eq)]
pub struct Context {
    /// The sender's nickname.
    pub nick: String,
    /// Where the line was said: a channel, or the service's own name for a
    /// private message.
    pub chan: String,
    /// When the line came.
    pub now: Timestamp,
    /// The command that the line was read as.
    pub command: Command,
}

/// What a `Context` holds.
pub struct ContextView {
    pub nick: Seq<char>,
    pub chan: Seq<char>,
    pub now: Timestamp,
    pub command: CommandView,
}

impl View for Context {
    type V = ContextView;

    open spec fn view(&self) -> ContextView {
        ContextView { nick: self.nick@, chan: self.chan@, now: self.now, command: self.command@ }
    }
}

/// How far a session has come: what it has asked of the store last.
#[derive(Clone, Debug, PartialEq, Eq)]
pub enum Phase {
    /// The keywords of a name were asked for.
    Finding,
    /// The entries of the keyword found were asked for.
    Listing { keyword: Keyword },
    /// A new keyword was asked for.
    Creating,
    /// A new entry was handed in.
    Learning { details: KeywordDetails },
    /// The removal of an entry was asked for; `moves` are to follow.
    Removing { details: KeywordDetails, moves: Vec<(i32, i32)> },
    /// The move `moves[done]` was asked for.
    Moving { details: KeywordDetails, moves: Vec<(i32, i32)>, done: usize },
    /// After the moves, the entries were asked for again.
    Reloading { details: KeywordDetails },
    /// The text `text` was handed in for the entry listed at `position`.
    Updating { details: KeywordDetails, position: usize, text: String },
}

/// What a `Phase` holds.
pub enum PhaseView {
    Finding,
    Listing { keyword: KeywordView },
    Creating,
    Learning { details: KeywordDetailsView },
    Removing { details: KeywordDetailsView, moves: Seq<(i32, i32)> },
    Moving { details: KeywordDetailsView, moves: Seq<(i32, i32)>, done: usize },
    Reloading { details: KeywordDetailsView },
    Updating { details: KeywordDetailsView, position: usize, text: Seq<char> },
}

impl View for Phase {
    type V = PhaseView;

    open spec fn view(&self) -> PhaseView {
        match self {
            Phase::Finding => PhaseView::Finding,
            Phase::Listing { keyword } => PhaseView::Listing { keyword: keyword@ },
            Phase::Creating => PhaseView::Creating,
            Phase::Learning { details } => PhaseView::Learning { details: details@ },
            Phase::Removing { details, moves } => PhaseView::Removing {
                details: details@,
                moves: moves@,
            },
            Phase::Moving { details, moves, done } => PhaseView::Moving {
                details: details@,
                moves: moves@,
                done: *done,
            },
            Phase::Reloading { details } => PhaseView::Reloading { details: details@ },
            Phase::Updating { details, position, text } => PhaseView::Updating {
                details: details@,
                position: *position,
                text: text@,
            },
        }
    }
}

/// The handling of one command, between two steps.
#[derive(Clone, Debug, PartialEq, Eq)]
pub struct Session {
    pub context: Context,
    pub phase: Phase,
}

/// What a `Session` holds.
pub struct SessionView {
    pub context: ContextView,
    pub phase: PhaseView,
}

impl View for Session {
    type V = SessionView;

    open spec fn view(&self) -> SessionView {
        SessionView { context: self.context@, phase: self.phase@ }
    }
}

/// One step of a session.
#[derive(Clone, Debug, PartialEq, Eq)]
pub enum Step {
    /// The store is asked one thing; its answer goes to `App::resume`, with
    /// the session.
    Ask(Session, Request),
    /// The session is over; the notices are to be sent, in their order.
    Finish(Vec<Notice>),
}

/// What a `Step` holds.
pub enum StepView {
    Ask(SessionView, RequestView),
    Finish(Seq<NoticeView>),
}

impl View for Step {
    type V = StepView;

    open spec fn view(&self) -> StepView {
        match self {
            Step::Ask(session, request) => StepView::Ask(session@, request@),
            Step::Finish(notices) => StepView::Finish(notice_views(notices@)),
        }
    }
}

/// Whether `chan` names a channel: it starts with `#`.
pub open spec fn is_channel(chan: Seq<char>) -> bool {
    chan.len() > 0 && chan[0] == '#'
}

/// The nickname in a sender's identity: what stands before the first `!`.
pub open spec fn nick_of(from: Seq<char>) -> Option<Seq<char>> {
    let at = first_of(from, 0, '!', '!');
    if at < from.len() {
        Some(from.subrange(0, at))
    } else {
        None
    }
}

impl ContextView {
    /// The scope in which the keyword is looked up: general for a command
    /// with that mark, otherwise the channel of the line.
    pub open spec fn scope(self) -> Seq<char> {
        if self.command.general() {
            general_scope()
        } else {
            self.chan
        }
    }

    /// Where answers go: to the channel, or to the sender of a private
    /// message.
    pub open spec fn target(self) -> Seq<char> {
        if is_channel(self.chan) {
            self.chan
        } else {
            self.nick
        }
    }
}

/// The end of a session in an error: one notice to the sender.
pub open spec fn failure(nick: Seq<char>, chan: Seq<char>, error: ErrorView) -> StepView {
    StepView::Finish(seq![NoticeView { target: nick, text: error_text(chan, message(error)) }])
}

/// The end of a session in one notice to where answers go.
pub open spec fn reply(context: ContextView, text: Seq<char>) -> StepView {
    StepView::Finish(seq![NoticeView { target: context.target(), text }])
}

/// The step that asks the store for the keywords of the name `word`.
pub open spec fn lookup(context: ContextView, word: Seq<char>) -> StepView {
    StepView::Ask(
        SessionView { context, phase: PhaseView::Finding },
        RequestView::FindKeyword { name: word, chan: context.scope() },
    )
}

/// The first step for a command: a command that changes entries is refused
/// where it comes by private message, with or without the mark of the general
/// scope and whoever sends it; otherwise the keyword is looked up.
pub open spec fn approach(context: ContextView) -> StepView {
    if context.command.mutates() && !is_channel(context.chan) {
        failure(context.nick, context.chan, ErrorView::ScopeViolation)
    } else {
        lookup(context, context.command.subject())
    }
}

/// The first step for a line: nothing for a line that is no command, an error
/// for a sender without nickname or a number that cannot be read, and
/// otherwise the first step for the command.
pub open spec fn begin(
    from: Seq<char>,
    chan: Seq<char>,
    line: Seq<char>,
    now: Timestamp,
) -> StepView {
    match read(line) {
        ReadingView::NotACommand => StepView::Finish(Seq::<NoticeView>::empty()),
        reading => match nick_of(from) {
            None => failure(from, chan, ErrorView::InvalidSource),
            Some(nick) => match reading {
                ReadingView::InvalidIndex => failure(nick, chan, ErrorView::InvalidIndex),
                ReadingView::InvalidTarget => failure(nick, chan, ErrorView::InvalidTarget),
                ReadingView::Command(command) => approach(ContextView { nick, chan, now, command }),
                ReadingView::NotACommand => StepView::Finish(Seq::<NoticeView>::empty()),
            },
        },
    }
}

/// The answer to a query: every entry for a star, otherwise the one asked
/// for, position 0 read as position 1. A position behind the last entry is an
/// error; a keyword without entries, asked without a position, is told so.
pub open spec fn query_answer(
    context: ContextView,
    details: KeywordDetailsView,
    selector: Selector,
) -> StepView {
    let subject = context.command.subject();
    match selector {
        Selector::All => StepView::Finish(
            Seq::new(
                details.entries.len(),
                |i: int| NoticeView { target: context.target(), text: entry_line(details, i + 1) },
            ),
        ),
        Selector::At(n) => match formatted(
            details,
            if n == 0 {
                1
            } else {
                n
            },
        ) {
            Some(line) => reply(context, line),
            None => failure(
                context.nick,
                context.chan,
                ErrorView::OutOfRange { subject, count: details.entries.len() as usize },
            ),
        },
        Selector::First => match formatted(details, 1) {
            Some(line) => reply(context, line),
            None => reply(context, no_entries_text(subject)),
        },
    }
}

/// The step after `done` of the `moves` are made: the next move, or the
/// entries of the keyword once more.
pub open spec fn carry_on(
    context: ContextView,
    details: KeywordDetailsView,
    moves: Seq<(i32, i32)>,
    done: int,
) -> StepView {
    StepView::Ask(
        SessionView {
            context,
            phase: if 0 <= done < moves.len() {
                PhaseView::Moving { details, moves, done: done as usize }
            } else {
                PhaseView::Reloading { details }
            },
        },
        next_move(details, moves, done),
    )
}

/// The step that follows once the keyword and its entries are known. A query
/// is answered. Any other command is refused where the keyword is general and
/// the sender is none of `admins`; otherwise the store is asked for the first
/// change that the command makes.
pub open spec fn act(
    admins: Seq<Seq<char>>,
    context: ContextView,
    details: KeywordDetailsView,
) -> StepView {
    match context.command {
        CommandView::Query { selector, .. } => query_answer(context, details, selector),
        command => if details.keyword.is_general() && !admins.contains(context.nick) {
            failure(context.nick, context.chan, ErrorView::PermissionDenied)
        } else {
            match command {
                CommandView::Learn { value, .. } => match learn_plan(
                    details,
                    context.nick,
                    value,
                    context.now,
                ) {
                    Ok(new) => StepView::Ask(
                        SessionView { context, phase: PhaseView::Learning { details } },
                        RequestView::InsertEntry(new),
                    ),
                    Err(refusal) => failure(context.nick, context.chan, refused(refusal)),
                },
                CommandView::Move { position, target, .. } => match move_plan(
                    details.entries,
                    position,
                    target,
                ) {
                    Ok(plan) => match plan.remove {
                        Some(entry_id) => StepView::Ask(
                            SessionView {
                                context,
                                phase: PhaseView::Removing { details, moves: plan.moves },
                            },
                            RequestView::DeleteEntry { entry_id },
                        ),
                        None => carry_on(context, details, plan.moves, 0),
                    },
                    Err(refusal) => failure(context.nick, context.chan, refused(refusal)),
                },
                CommandView::Adjust { up, .. } => match adjustment(
                    details,
                    context.nick,
                    if up {
                        1i32
                    } else {
                        -1i32
                    },
                    context.now,
                ) {
                    Ok(AdjustmentView::Update { position, entry_id, text }) => StepView::Ask(
                        SessionView {
                            context,
                            phase: PhaseView::Updating { details, position, text },
                        },
                        RequestView::UpdateEntryText { entry_id, text },
                    ),
                    Ok(AdjustmentView::Learn(new)) => StepView::Ask(
                        SessionView { context, phase: PhaseView::Learning { details } },
                        RequestView::InsertEntry(new),
                    ),
                    Err(refusal) => failure(context.nick, context.chan, refused(refusal)),
                },
                CommandView::Query { selector, .. } => query_answer(context, details, selector),
            }
        },
    }
}

/// The step after the store has named the keywords of a name: the entries of
/// the one chosen are asked for. Where none can be chosen, a query ends in an
/// error, and a command that changes entries has a new keyword made, of the
/// name that the command gave and for the scope in which it was looked up;
/// but a general keyword is made for none but the administrators: anyone else
/// is refused, and the store is asked for nothing.
pub open spec fn found(
    admins: Seq<Seq<char>>,
    context: ContextView,
    candidates: Seq<KeywordView>,
) -> StepView {
    match chosen(candidates, context.scope()) {
        Some(keyword) => StepView::Ask(
            SessionView { context, phase: PhaseView::Listing { keyword } },
            RequestView::ListEntries { keyword_id: keyword.id },
        ),
        None => if context.command.mutates() && context.scope() == general_scope()
            && !admins.contains(context.nick) {
            failure(context.nick, context.chan, ErrorView::PermissionDenied)
        } else if context.command.mutates() {
            StepView::Ask(
                SessionView { context, phase: PhaseView::Creating },
                RequestView::CreateKeyword(
                    NewKeywordView { name: context.command.subject(), chan: context.scope() },
                ),
            )
        } else {
            failure(
                context.nick,
                context.chan,
                ErrorView::UnknownKeyword { subject: context.command.subject() },
            )
        },
    }
}

/// The step after the store has listed the entries of the keyword found: an
/// alias is followed, by a lookup of the name that it gives; otherwise the
/// command is acted on.
pub open spec fn listed(
    admins: Seq<Seq<char>>,
    context: ContextView,
    keyword: KeywordView,
    entries: Seq<EntryView>,
) -> StepView {
    match resolved(keyword, entries) {
        ResolvedView::Alias(name) => lookup(context, name),
        ResolvedView::Details(details) => act(admins, context, details),
    }
}

/// The text that confirms the move that a command asked for; none for a
/// command that is no move.
pub open spec fn moved_text(command: CommandView, name: Seq<char>) -> Option<Seq<char>> {
    match command {
        CommandView::Move { position, target, .. } => Some(
            if target < 0 {
                deleted_text(name, position as nat)
            } else {
                swapped_text(name, position as nat, target as nat)
            },
        ),
        _ => None,
    }
}

/// The end of a session whose new entry the store has inserted: the entry is
/// shown, as the last of the keyword.
pub open spec fn taught(
    context: ContextView,
    details: KeywordDetailsView,
    entry: EntryView,
) -> StepView {
    let after = KeywordDetailsView {
        keyword: details.keyword,
        entries: details.entries.push(entry),
    };
    reply(context, entry_line(after, after.entries.len() as int))
}

/// The end of a session whose new text the store has taken: the entry is
/// shown with that text.
pub open spec fn updated(
    context: ContextView,
    details: KeywordDetailsView,
    position: usize,
    text: Seq<char>,
) -> StepView {
    let after = KeywordDetailsView {
        keyword: details.keyword,
        entries: with_text(details.entries, position as int, text),
    };
    match formatted(after, position) {
        Some(line) => reply(context, line),
        None => StepView::Finish(Seq::<NoticeView>::empty()),
    }
}

/// The step that follows the store's answer. A failure of the store ends the
/// session in an error, and so does an answer that the session's last request
/// cannot have.
pub open spec fn next(
    admins: Seq<Seq<char>>,
    session: SessionView,
    answer: AnswerView,
) -> StepView {
    let context = session.context;
    let unexpected = failure(context.nick, context.chan, ErrorView::Unexpected);
    match answer {
        AnswerView::Failed(text) => failure(context.nick, context.chan, ErrorView::Store(text)),
        AnswerView::Keywords(candidates) => match session.phase {
            PhaseView::Finding => found(admins, context, candidates),
            _ => unexpected,
        },
        AnswerView::Keyword(keyword) => match session.phase {
            PhaseView::Creating => act(
                admins,
                context,
                KeywordDetailsView { keyword, entries: Seq::<EntryView>::empty() },
            ),
            _ => unexpected,
        },
        AnswerView::Entries(entries) => match session.phase {
            PhaseView::Listing { keyword } => listed(admins, context, keyword, entries),
            PhaseView::Reloading { details } => match moved_text(
                context.command,
                details.keyword.name,
            ) {
                Some(text) => reply(context, text),
                None => unexpected,
            },
            _ => unexpected,
        },
        AnswerView::Entry(entry) => match session.phase {
            PhaseView::Learning { details } => taught(context, details, entry),
            _ => unexpected,
        },
        AnswerView::Done => match session.phase {
            PhaseView::Removing { details, moves } => carry_on(context, details, moves, 0),
            PhaseView::Moving { details, moves, done } => carry_on(
                context,
                details,
                moves,
                done + 1,
            ),
            PhaseView::Updating { details, position, text } => updated(
                context,
                details,
                position,
                text,
            ),
            _ => unexpected,
        },
    }
}

/// The names in a list of strings.
pub open spec fn names(list: Seq<String>) -> Seq<Seq<char>> {
    Seq::new(list.len(), |i: int| list[i]@)
}

/// Whether `chan` names a channel.
pub fn check_channel(chan: &str) -> (out: bool)
    ensures
        out == is_channel(chan@),
{
    let chars = chars_of(chan);
    chars.len() > 0 && chars[0] == '#'
}

/// The nickname in a sender's identity, where it has one.
pub fn nickname(from: &str) -> (out: Option<String>)
    ensures
        option_view(out) == nick_of(from@),
{
    let chars = chars_of(from);
    let at = find_first(&chars, 0, '!', '!');
    if at < chars.len() {
        Some(string_of(&chars, 0, at))
    } else {
        None
    }
}

impl Context {
    /// The scope in which the keyword is looked up.
    pub fn scope(&self) -> (out: String)
        ensures
            out@ == self@.scope(),
    {
        if self.command.general() {
            proof {
                reveal_strlit("*");
                assert("*"@ =~= general_scope());
            }
            copy_of("*")
        } else {
            copy_of(self.chan.as_str())
        }
    }

    /// Where answers go.
    pub fn target(&self) -> (out: String)
        ensures
            out@ == self@.target(),
    {
        if check_channel(self.chan.as_str()) {
            copy_of(self.chan.as_str())
        } else {
            copy_of(self.nick.as_str())
        }
    }

    /// The end of the session in an error.
    fn fail(&self, error: Error) -> (step: Step)
        ensures
            step@ == failure(self@.nick, self@.chan, error@),
    {
        fail(self.nick.as_str(), self.chan.as_str(), error)
    }

    /// The end of the session in one notice to where answers go.
    fn reply(&self, text: String) -> (step: Step)
        ensures
            step@ == reply(self@, text@),
    {
        let notice = Notice { target: self.target(), text };
        let notices = vec![notice];
        assert(notice_views(notices@) =~= seq![notice@]);
        Step::Finish(notices)
    }
}

/// The end of a session in an error: one notice to the sender.
fn fail(nick: &str, chan: &str, error: Error) -> (step: Step)
    ensures
        step@ == failure(nick@, chan@, error@),
{
    let wording = error.message();
    let notice = App::report_error(nick, chan, wording.as_str());
    let notices = vec![notice];
    assert(notice_views(notices@) =~= seq![notice@]);
    Step::Finish(notices)
}

/// The end of a session without a notice.
fn silence() -> (step: Step)
    ensures
        step@ == StepView::Finish(Seq::<NoticeView>::empty()),
{
    let notices: Vec<Notice> = Vec::new();
    assert(notice_views(notices@) =~= Seq::<NoticeView>::empty());
    Step::Finish(notices)
}

/// Asks the store for the keywords of the name `word`.
fn look_up(context: Context, word: String) -> (step: Step)
    ensures
        step@ == lookup(context@, word@),
{
    let chan = context.scope();
    Step::Ask(Session { context, phase: Phase::Finding }, Request::FindKeyword { name: word, chan })
}

/// Goes on with the moves of a plan, `done` of which are made.
fn carry(context: Context, details: KeywordDetails, moves: Vec<(i32, i32)>, done: usize) -> (step:
    Step)
    ensures
        step@ == carry_on(context@, details@, moves@, done as int),
{
    let request = details.process_moves(&moves, done);
    if done < moves.len() {
        Step::Ask(Session { context, phase: Phase::Moving { details, moves, done } }, request)
    } else {
        Step::Ask(Session { context, phase: Phase::Reloading { details } }, request)
    }
}

/// Answers a query.
fn answer_query(context: &Context, details: &KeywordDetails, selector: Selector) -> (step: Step)
    ensures
        step@ == query_answer(context@, details@, selector),
{
    match selector {
        Selector::All => {
            let mut notices: Vec<Notice> = Vec::new();
            let mut i: usize = 0;
            while i < details.entries.len()
                invariant
                    i <= details.entries.len(),
                    notices@.len() == i,
                    forall|k: int|
                        0 <= k < i ==> (#[trigger] notices@[k])@ == (NoticeView {
                            target: context@.target(),
                            text: entry_line(details@, k + 1),
                        }),
                decreases details.entries.len() - i,
            {
                match details.format_entry(i + 1) {
                    Some(line) => {
                        notices.push(Notice { target: context.target(), text: line });
                    },
                    None => {
                        assert(false);
                    },
                }
                i += 1;
            }
            assert(notice_views(notices@) =~= Seq::new(
                details@.entries.len(),
                |i: int|
                    NoticeView { target: context@.target(), text: entry_line(details@, i + 1) },
            ));
            Step::Finish(notices)
        },
        Selector::At(n) => {
            let position: usize = if n == 0 {
                1
            } else {
                n
            };
            match details.format_entry(position) {
                Some(line) => context.reply(line),
                None => context.fail(
                    Error::OutOfRange {
                        subject: context.command.subject(),
                        count: details.entries.len(),
                    },
                ),
            }
        },
        Selector::First => {
            match details.format_entry(1) {
                Some(line) => context.reply(line),
                None => {
                    let subject = context.command.subject();
                    context.reply(write_no_entries(subject.as_str()))
                },
            }
        },
    }
}

/// The application: the one setting that handling a line depends on.
#[derive(Clone, Debug, PartialEq, Eq)]
pub struct App {
    /// The nicknames of the administrators, who alone may change general
    /// keywords.
    pub admins: Vec<String>,
}

impl App {
    /// The nicknames of the administrators.
    pub open spec fn admin_names(&self) -> Seq<Seq<char>> {
        names(self.admins@)
    }

    /// Whether `nick` is an administrator.
    pub fn is_admin(&self, nick: &str) -> (out: bool)
        ensures
            out == self.admin_names().contains(nick@),
    {
        let mut i: usize = 0;
        while i < self.admins.len()
            invariant
                i <= self.admins.len(),
                forall|k: int| 0 <= k < i ==> self.admin_names()[k] != nick@,
            decreases self.admins.len() - i,
        {
            if same_text(self.admins[i].as_str(), nick) {
                assert(self.admin_names()[i as int] == nick@);
                return true;
            }
            i += 1;
        }
        false
    }

    /// The notice that reports an error to `nick`: it names the channel
    /// `chan`, in which the line was said, and gives the wording `msg`.
    pub fn report_error(nick: &str, chan: &str, msg: &str) -> (out: Notice)
        ensures
            out@ == (NoticeView { target: nick@, text: error_text(chan@, msg@) }),
    {
        Notice { target: copy_of(nick), text: write_error(chan, msg) }
    }

    /// The first step for a command: the lookup of its keyword, in the general
    /// scope where the command bears that mark and in the channel of the line
    /// otherwise. A command that changes entries is refused where it comes by
    /// private message.
    pub fn keyword_from_captures(context: Context) -> (step: Step)
        ensures
            step@ == approach(context@),
    {
        if context.command.mutates() && !check_channel(context.chan.as_str()) {
            return context.fail(Error::ScopeViolation);
        }
        let word = context.command.subject();
        look_up(context, word)
    }

    /// The first step for the line `msg`, said by `from` in `chan` at the time
    /// `now`.
    pub fn handle_privmsg_at(&self, from: &str, chan: &str, msg: &str, now: Timestamp) -> (step:
        Step)
        ensures
            step@ == begin(from@, chan@, msg@, now),
    {
        let reading = parse(msg);
        if let Reading::NotACommand = reading {
            return silence();
        }
        match nickname(from) {
            None => fail(from, chan, Error::InvalidSource),
            Some(nick) => match reading {
                Reading::NotACommand => silence(),
                Reading::InvalidIndex => fail(nick.as_str(), chan, Error::InvalidIndex),
                Reading::InvalidTarget => fail(nick.as_str(), chan, Error::InvalidTarget),
                Reading::Command(command) => Self::keyword_from_captures(
                    Context { nick, chan: copy_of(chan), now, command },
                ),
            },
        }
    }

    /// The first step for the line `msg`, said by `from` in `chan`, at the
    /// time that the clock shows.
    pub fn handle_privmsg(&self, from: &str, chan: &str, msg: &str) -> (step: Step)
        ensures
            exists|now: Timestamp| now.in_range() && step@ == begin(from@, chan@, msg@, now),
    {
        let now = current_time();
        self.handle_privmsg_at(from, chan, msg, now)
    }

    /// The first step for a message that came in: `prefix` is the sender's
    /// identity, `channel` is where the message was said and `message` is its
    /// text. A message without sender is passed over.
    pub fn handle_msg(&self, prefix: Option<&str>, channel: &str, message: &str) -> (step: Step)
        ensures
            match prefix {
                Some(from) => exists|now: Timestamp|
                    now.in_range() && step@ == begin(from@, channel@, message@, now),
                None => step@ == StepView::Finish(Seq::<NoticeView>::empty()),
            },
    {
        match prefix {
            Some(from) => self.handle_privmsg(from, channel, message),
            None => silence(),
        }
    }

    /// Acts on the command once the keyword and its entries are known.
    fn act(&self, context: Context, details: KeywordDetails) -> (step: Step)
        ensures
            step@ == act(self.admin_names(), context@, details@),
    {
        if let Command::Query { selector, .. } = &context.command {
            return answer_query(&context, &details, *selector);
        }
        let general = same_text(details.keyword.chan.as_str(), "*");
        proof {
            reveal_strlit("*");
            assert("*"@ =~= general_scope());
        }
        if general && !self.is_admin(context.nick.as_str()) {
            return context.fail(Error::PermissionDenied);
        }
        match &context.command {
            Command::Learn { value, .. } => {
                match details.learn(context.nick.as_str(), value.as_str(), context.now) {
                    Ok(new) => Step::Ask(
                        Session { context, phase: Phase::Learning { details } },
                        Request::InsertEntry(new),
                    ),
                    Err(refusal) => context.fail(Error::from_refusal(refusal)),
                }
            },
            Command::Move { position, target, .. } => {
                match details.move_entry(*position, *target) {
                    Ok(plan) => {
                        let Plan { remove, moves } = plan;
                        match remove {
                            Some(entry_id) => Step::Ask(
                                Session { context, phase: Phase::Removing { details, moves } },
                                Request::DeleteEntry { entry_id },
                            ),
                            None => carry(context, details, moves, 0),
                        }
                    },
                    Err(refusal) => context.fail(Error::from_refusal(refusal)),
                }
            },
            Command::Adjust { up, .. } => {
                let delta: i32 = if *up {
                    1
                } else {
                    -1
                };
                match details.increment_or_decrement(context.nick.as_str(), delta, context.now) {
                    Ok(Adjustment::Update { position, entry_id, text }) => {
                        let copy = copy_of(text.as_str());
                        Step::Ask(
                            Session { context, phase: Phase::Updating { details, position, text } },
                            Request::UpdateEntryText { entry_id, text: copy },
                        )
                    },
                    Ok(Adjustment::Learn(new)) => Step::Ask(
                        Session { context, phase: Phase::Learning { details } },
                        Request::InsertEntry(new),
                    ),
                    Err(refusal) => context.fail(Error::from_refusal(refusal)),
                }
            },
            Command::Query { selector, .. } => answer_query(&context, &details, *selector),
        }
    }

    /// The step after the store has named the keywords of a name.
    fn found(&self, context: Context, candidates: Vec<Keyword>) -> (step: Step)
        ensures
            step@ == found(self.admin_names(), context@, keyword_views(candidates@)),
    {
        let scope = context.scope();
        let pick = KeywordDetails::get(candidates, scope.as_str());
        if pick.is_none() && !context.command.mutates() {
            let subject = context.command.subject();
            return context.fail(Error::UnknownKeyword { subject });
        }
        if pick.is_none() {
            let general = same_text(scope.as_str(), "*");
            proof {
                reveal_strlit("*");
                assert("*"@ =~= general_scope());
            }
            if general && !self.is_admin(context.nick.as_str()) {
                return context.fail(Error::PermissionDenied);
            }
        }
        let subject = context.command.subject();
        let request = KeywordDetails::get_or_create(&pick, subject.as_str(), scope.as_str());
        match pick {
            Some(keyword) => Step::Ask(
                Session { context, phase: Phase::Listing { keyword } },
                request,
            ),
            None => Step::Ask(Session { context, phase: Phase::Creating }, request),
        }
    }

    /// The step that follows the store's answer to the request that the
    /// session's last step made.
    pub fn resume(&self, session: Session, answer: Answer) -> (step: Step)
        ensures
            step@ == next(self.admin_names(), session@, answer@),
    {
        let Session { context, phase } = session;
        match answer {
            Answer::Failed(text) => context.fail(Error::Store(text)),
            Answer::Keywords(candidates) => match phase {
                Phase::Finding => self.found(context, candidates),
                _ => context.fail(Error::Unexpected),
            },
            Answer::Keyword(keyword) => match phase {
                Phase::Creating => self.act(context, KeywordDetails::created(keyword)),
                _ => context.fail(Error::Unexpected),
            },
            Answer::Entries(entries) => match phase {
                Phase::Listing { keyword } => match KeywordDetails::resolve(keyword, entries) {
                    Resolved::Alias(name) => look_up(context, name),
                    Resolved::Details(details) => self.act(context, details),
                },
                Phase::Reloading { details } => {
                    let mut details = details;
                    details.reload(entries);
                    match &context.command {
                        Command::Move { position, target, .. } => {
                            let text = if *target < 0 {
                                write_deleted(details.keyword.name.as_str(), *position)
                            } else {
                                write_swapped(
                                    details.keyword.name.as_str(),
                                    *position,
                                    *target as usize,
                                )
                            };
                            context.reply(text)
                        },
                        _ => context.fail(Error::Unexpected),
                    }
                },
                _ => context.fail(Error::Unexpected),
            },
            Answer::Entry(entry) => match phase {
                Phase::Learning { details } => {
                    let mut details = details;
                    let position = details.learned(entry);
                    match details.format_entry(position) {
                        Some(line) => context.reply(line),
                        None => silence(),
                    }
                },
                _ => context.fail(Error::Unexpected),
            },
            Answer::Done => match phase {
                Phase::Removing { details, moves } => carry(context, details, moves, 0),
                Phase::Moving { details, moves, done } => {
                    let made: usize = if done < moves.len() {
                        done + 1
                    } else {
                        done
                    };
                    carry(context, details, moves, made)
                },
                Phase::Updating { details, position, text } => {
                    let mut details = details;
                    details.update(position, text.as_str());
                    match details.format_entry(position) {
                        Some(line) => context.reply(line),
                        None => silence(),
                    }
                },
                _ => context.fail(Error::Unexpected),
            },
        }
    }
}

} // verus!
