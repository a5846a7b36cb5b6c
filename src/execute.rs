//! Executing a command: the platform actions it asks for, in order, and
//! what a failed action does to the rest. The platform itself stays
//! outside: a caller performs each action that `Execution::advance` hands
//! out and reports back how it went.

use vstd::prelude::*;
use crate::command::{help_text, Command, CommandModel, DEVELOPER};
use crate::text::{decimal, push_decimal, same_text};

verus! {

/// The direct message a banned user gets, around the reason.
pub const BAN_NOTICE_HEAD: &'static str = "You were given a ban in the __Baba is You Discord Server__ for the following reason:\n> *";

pub const BAN_NOTICE_TAIL: &'static str = "*\nIf you think was done in error, you can DM the staff for appeal. \nWe recommend waiting at least a week for appeals!\nNote that a long time having been passed is not usually enough for an appeal.\n\nThere is no chance for appeal if the ban was for the following reasons:\n\u{274C}Being discriminatory in any form.\n\u{274C}Breaking discord's ToS or sharing otherwise illegal content.\n\u{274C}Pirating Baba is You or sharing other pirated media.\n\u{274C}Promoting Cryptocurrencies, misinformation, or other unwarranted advertisements.\n\nThere are cases where appeal is guaranteed:\n\u{2705}If your account was compromised and banned for being so, and you have regained access to the account.\n\u{2705}Having pirated Baba is You, but then purchasing it legitimately.\n\u{2705}Being banned for being underage, but then being of a legal age to join in the user's country.\n";

/// The direct message a muted user gets, around the reason.
pub const MUTE_NOTICE_HEAD: &'static str = "You were given a mute in the __Baba is You Discord Server__ for the following reason:\n> *";

pub const MUTE_NOTICE_TAIL: &'static str = "*\nIf you beleive this to be in error, contact the staff team.\n";

/// The confirmation of a ban, around the member's name.
pub const BANNED_HEAD: &'static str = "Successfully banned ";

pub const BANNED_MIDDLE: &'static str = " for the following reason: \n>";

/// The confirmation of a mute, before the reason.
pub const MUTED_HEAD: &'static str = "Successfully muted user for the following reason: \n>";

/// A notice, around its text.
pub const NOTICE_HEAD: &'static str = "The following is an official announcement from the Baba is You staff team:\n> **";

pub const NOTICE_TAIL: &'static str = "**";

pub const PRIVATE_UNIMPLEMENTED: &'static str = "One-Time private mod messages are unimplemented. For now, you can use the modmail system.";

/// A comic's link, around its number.
pub const XKCD_HEAD: &'static str = "https://xkcd.com/";

pub const XKCD_TAIL: &'static str = "/";

pub const DONT_ASK_TO_ASK: &'static str = "https://dontasktoask.com/";

/// The answer to a help request that names no command.
pub const HELP_HEADER: &'static str = "Availible Commands:\n";

/// The suggestion relayed to the developer, after this head.
pub const SUGGESTION_HEAD: &'static str = "Heads up Cami! Someone sent in a suggestion:\n> ";

pub const SUGGESTION_SENT: &'static str = "Successfully sent suggestion off to Cami!\nIf this is an emergency, I'd reccomend pinging her.";

/// A refusal, before its reason.
pub const INVALID_HEAD: &'static str = "Oops! That command was invalid for the following reason: \n> ";

pub const SHUTTING_DOWN: &'static str = "Shutting down...";

pub const COIN_HEADS: &'static str = "The result of the coin flip was... ||heads!||";

pub const COIN_TAILS: &'static str = "The result of the coin flip was... ||tails!||";

/// A random number's announcement: the bound, then the number.
pub const RANDOM_HEAD: &'static str = "Between 0 and ";

pub const RANDOM_MIDDLE: &'static str = ", I choose... ||";

pub const RANDOM_TAIL: &'static str = "!||";

pub const KEKE_VIDEO: &'static str = "https://cdn.discordapp.com/attachments/563196186912096256/799820975666888764/SPOILER_Untitled_28_1080p.mp4";

/// One thing the platform or the store is asked to do.
#[derive(Debug)]
pub enum Action {
    /// Look the user up as a member of the server; on success the outcome
    /// carries the member's user name.
    LookUpMember(u64),
    /// Send a message to the channel the command came from.
    Reply(String),
    /// Send a direct message to a user.
    DirectMessage(u64, String),
    /// Ban a member with a reason, deleting none of their messages.
    BanMember(u64, String),
    /// Disable a member's communication for this many seconds from now.
    MuteMember(u64, u64),
    /// Add a user to the opt-in set.
    OptIn(u64),
    /// Remove a user from the opt-in set.
    OptOut(u64),
    /// Stop the bot.
    Halt,
}

/// An action with its texts as character sequences.
pub enum ActionModel {
    LookUpMember(u64),
    Reply(Seq<char>),
    DirectMessage(u64, Seq<char>),
    BanMember(u64, Seq<char>),
    MuteMember(u64, u64),
    OptIn(u64),
    OptOut(u64),
    Halt,
}

impl View for Action {
    type V = ActionModel;

    open spec fn view(&self) -> ActionModel {
        match self {
            Action::LookUpMember(u) => ActionModel::LookUpMember(*u),
            Action::Reply(m) => ActionModel::Reply(m@),
            Action::DirectMessage(u, m) => ActionModel::DirectMessage(*u, m@),
            Action::BanMember(u, m) => ActionModel::BanMember(*u, m@),
            Action::MuteMember(u, s) => ActionModel::MuteMember(*u, *s),
            Action::OptIn(u) => ActionModel::OptIn(*u),
            Action::OptOut(u) => ActionModel::OptOut(*u),
            Action::Halt => ActionModel::Halt,
        }
    }
}

/// Why executing a command failed.
#[derive(Debug, Clone, Copy, PartialEq, Eq, Structural)]
pub enum ExecError {
    /// The user to ban is no member of the server.
    MemberNotFound,
    /// The end of a mute lies beyond the times that can be represented.
    TimestampOverflow,
    /// A call to the platform failed.
    Platform,
    /// Reading or writing the opt-in set failed.
    Storage,
}

/// How the last action that was handed out went.
#[derive(Debug)]
pub enum Outcome {
    /// It was done.
    Done,
    /// The member was found; this is their user name.
    Member(String),
    /// It failed.
    Failed(ExecError),
}

/// What to do next.
#[derive(Debug)]
pub enum Progress {
    /// Perform this action, then report how it went.
    Perform(Action),
    /// The command is done, or failed.
    Finished(Result<(), ExecError>),
}

/// `bound` times the fraction `draw / 2^64`, rounded down: a draw that is
/// uniform over `u64` gives a number uniform over `[0, bound)`.
pub open spec fn scaled(draw: u64, bound: u64) -> u64 {
    ((draw as int * bound as int) / 0x1_0000_0000_0000_0000int) as u64
}

/// Whether a developer action stops the bot.
pub open spec fn is_stop(a: Seq<char>) -> bool {
    a == "stop"@ || a == "halt"@
}

/// The actions that executing `c` asks for, in order. `actor` gave the
/// command, `heads` is a fair coin, `draw` a uniform `u64`, and `member` the
/// name under which the platform found a user to ban.
pub open spec fn plan(
    c: CommandModel,
    actor: u64,
    heads: bool,
    draw: u64,
    member: Seq<char>,
) -> Seq<ActionModel> {
    match c {
        CommandModel::Ban(id, reason) => seq![
            ActionModel::LookUpMember(id),
            ActionModel::BanMember(id, reason),
            ActionModel::DirectMessage(id, BAN_NOTICE_HEAD@ + reason + BAN_NOTICE_TAIL@),
            ActionModel::Reply(BANNED_HEAD@ + member + BANNED_MIDDLE@ + reason),
        ],
        CommandModel::Mute(id, t, reason) => seq![
            ActionModel::MuteMember(
                id,
                (t.seconds + 60 * t.minutes + 3600 * t.hours + 86400 * t.days) as u64,
            ),
            ActionModel::DirectMessage(id, MUTE_NOTICE_HEAD@ + reason + MUTE_NOTICE_TAIL@),
            ActionModel::Reply(MUTED_HEAD@ + reason),
        ],
        CommandModel::Notice(m) => seq![ActionModel::Reply(NOTICE_HEAD@ + m + NOTICE_TAIL@)],
        CommandModel::PrivateModMessage { .. } => seq![ActionModel::Reply(PRIVATE_UNIMPLEMENTED@)],
        CommandModel::Xkcd(n) => seq![ActionModel::Reply(XKCD_HEAD@ + decimal(n as nat) + XKCD_TAIL@)],
        CommandModel::DontAskToAsk => seq![ActionModel::Reply(DONT_ASK_TO_ASK@)],
        CommandModel::Help(k) => match k {
            Some(k) => seq![ActionModel::Reply(help_text(k))],
            None => seq![ActionModel::Reply(HELP_HEADER@)],
        },
        CommandModel::Suggestion(s) => seq![
            ActionModel::DirectMessage(DEVELOPER, SUGGESTION_HEAD@ + s),
            ActionModel::Reply(SUGGESTION_SENT@),
        ],
        CommandModel::NotValid(r) => seq![ActionModel::Reply(INVALID_HEAD@ + r)],
        CommandModel::NotACommand => Seq::empty(),
        CommandModel::Dev(a) => if is_stop(a) {
            seq![ActionModel::Reply(SHUTTING_DOWN@), ActionModel::Halt]
        } else {
            Seq::empty()
        },
        CommandModel::CoinFlip => seq![
            ActionModel::Reply(
                if heads {
                    COIN_HEADS@
                } else {
                    COIN_TAILS@
                },
            ),
        ],
        CommandModel::RandomInt(b) => seq![
            ActionModel::Reply(
                RANDOM_HEAD@ + decimal(b as nat) + RANDOM_MIDDLE@ + decimal(scaled(draw, b) as nat)
                    + RANDOM_TAIL@,
            ),
        ],
        CommandModel::Optin => seq![ActionModel::OptIn(actor)],
        CommandModel::Optout => seq![ActionModel::OptOut(actor)],
        CommandModel::Keke => seq![ActionModel::Reply(KEKE_VIDEO@)],
    }
}

/// Whether a failure of action `k` is let pass: only that of the farewell
/// before a halt. Any other failure ends the execution.
pub open spec fn failure_ignored(c: CommandModel, k: int) -> bool {
    c is Dev && k == 0
}

/// Scales a uniform `u64` draw to `[0, bound)`; 0 where `bound` is 0.
pub fn scale_draw(draw: u64, bound: u64) -> (r: u64)
    ensures
        r == scaled(draw, bound),
        bound > 0 ==> r < bound,
        bound == 0 ==> r == 0,
{
    assert(draw as int * bound as int <= 0xffff_ffff_ffff_ffffint * 0xffff_ffff_ffff_ffffint)
        by (nonlinear_arith)
        requires
            draw <= 0xffff_ffff_ffff_ffffint,
            bound <= 0xffff_ffff_ffff_ffffint,
    ;
    let p = draw as u128 * bound as u128;
    let q = p / 0x1_0000_0000_0000_0000u128;
    assert(q < bound || bound == 0) by (nonlinear_arith)
        requires
            p == draw * bound,
            q == p / 0x1_0000_0000_0000_0000u128,
            draw < 0x1_0000_0000_0000_0000int,
    ;
    assert(q < 0x1_0000_0000_0000_0000int) by (nonlinear_arith)
        requires
            p == draw * bound,
            q == p / 0x1_0000_0000_0000_0000u128,
            draw < 0x1_0000_0000_0000_0000int,
            bound < 0x1_0000_0000_0000_0000int,
    ;
    if bound == 0 {
        assert(p == 0);
    }
    q as u64
}

/// Executing a random integer with a positive bound asks for one reply
/// alone, and the number it announces lies in `[0, bound)`.
pub proof fn lemma_random_int_one_reply(
    bound: u64,
    actor: u64,
    heads: bool,
    draw: u64,
    member: Seq<char>,
)
    requires
        bound > 0,
    ensures
        plan(CommandModel::RandomInt(bound), actor, heads, draw, member).len() == 1,
        plan(CommandModel::RandomInt(bound), actor, heads, draw, member)[0] == ActionModel::Reply(
            RANDOM_HEAD@ + decimal(bound as nat) + RANDOM_MIDDLE@ + decimal(scaled(draw, bound) as nat)
                + RANDOM_TAIL@,
        ),
        scaled(draw, bound) < bound,
{
    let p = draw as int * bound as int;
    assert(p / 0x1_0000_0000_0000_0000int < bound) by (nonlinear_arith)
        requires
            p == draw as int * bound as int,
            0 <= draw < 0x1_0000_0000_0000_0000int,
            bound > 0,
    ;
}

/// The unix time `seconds` after `now`, where it fits in an `i64`.
pub fn end_after(now: i64, seconds: u64) -> (r: Option<i64>)
    ensures
        now + seconds <= i64::MAX ==> r == Some((now + seconds) as i64),
        now + seconds > i64::MAX ==> r is None,
{
    let sum: i128 = now as i128 + seconds as i128;
    if sum > i64::MAX as i128 {
        None
    } else {
        Some(sum as i64)
    }
}

/// Relies on `chrono::Utc::now`: the current unix time in seconds, read
/// from the system clock. Nothing is promised of it.
#[verifier::external_body]
fn unix_now() -> (r: i64) {
    chrono::Utc::now().timestamp()
}

/// The unix time at which a mute of `seconds` from now ends, where it
/// fits in an `i64`.
pub fn mute_end(seconds: u64) -> (r: Option<i64>)
    ensures
        seconds == 0 ==> r is Some,
{
    end_after(unix_now(), seconds)
}

/// Relies on `rand::random`: a value from the thread's generator. Nothing is
/// promised of it.
pub assume_specification<T>[ rand::random::<T> ]() -> (r: T)
    where
        rand::distributions::Standard: rand::distributions::Distribution<T>,
;

/// `head`, then `tail`, as one text.
fn two(head: &str, tail: &str) -> (r: String)
    ensures
        r@ == head@ + tail@,
{
    let mut r = String::from_str(head);
    r.append(tail);
    r
}

/// `head`, then `middle`, then `tail`, as one text.
fn three(head: &str, middle: &str, tail: &str) -> (r: String)
    ensures
        r@ == head@ + middle@ + tail@,
{
    let mut r = String::from_str(head);
    r.append(middle);
    r.append(tail);
    r
}


/// The execution of one command, one action at a time.
pub struct Execution {
    command: Command,
    actor: u64,
    heads: bool,
    draw: u64,
    next: usize,
    member: String,
    finished: bool,
}

/// The state of an execution, as the contracts see it.
pub struct ExecutionModel {
    pub command: CommandModel,
    pub actor: u64,
    pub heads: bool,
    pub draw: u64,
    /// How many actions were handed out.
    pub next: nat,
    /// The name under which the platform found the member, once it did.
    pub member: Seq<char>,
    pub finished: bool,
}

impl View for Execution {
    type V = ExecutionModel;

    closed spec fn view(&self) -> ExecutionModel {
        ExecutionModel {
            command: self.command@,
            actor: self.actor,
            heads: self.heads,
            draw: self.draw,
            next: self.next as nat,
            member: self.member@,
            finished: self.finished,
        }
    }
}

/// The actions of an execution, with what it knows of the member.
pub open spec fn steps_of(e: ExecutionModel, member: Seq<char>) -> Seq<ActionModel> {
    plan(e.command, e.actor, e.heads, e.draw, member)
}

/// The member's name once `last` is known.
pub open spec fn member_after(e: ExecutionModel, last: Outcome) -> Seq<char> {
    match last {
        Outcome::Member(name) => if e.next > 0 {
            name@
        } else {
            e.member
        },
        _ => e.member,
    }
}

/// Whether `last` is a failure that ends the execution.
pub open spec fn fails_on(e: ExecutionModel, last: Outcome) -> bool {
    e.next > 0 && last is Failed && !failure_ignored(e.command, e.next - 1)
}

impl Execution {
    /// Starts executing `command`, given by user `actor`; `heads` is the
    /// coin to flip, `draw` the number to scale for a random integer.
    pub fn start(command: Command, actor: u64, heads: bool, draw: u64) -> (r: Execution)
        ensures
            r@ == (ExecutionModel {
                command: command@,
                actor,
                heads,
                draw,
                next: 0,
                member: Seq::empty(),
                finished: false,
            }),
    {
        Execution { command, actor, heads, draw, next: 0, member: String::new(), finished: false }
    }

    /// Whether the execution is over.
    pub fn is_finished(&self) -> (r: bool)
        ensures
            r == self@.finished,
    {
        self.finished
    }

    /// How many actions executing the command asks for.
    fn plan_len(&self) -> (r: usize)
        ensures
            r == steps_of(self@, self@.member).len(),
    {
        match &self.command {
            Command::Ban(..) => 4,
            Command::Mute(..) => 3,
            Command::Suggestion(..) => 2,
            Command::NotACommand => 0,
            Command::Dev(a) => if same_text(a.as_str(), "stop") || same_text(a.as_str(), "halt") {
                2
            } else {
                0
            },
            _ => 1,
        }
    }

    /// The action at index `k` of the plan.
    fn action_at(&self, k: usize) -> (r: Action)
        requires
            k < steps_of(self@, self@.member).len(),
        ensures
            r@ == steps_of(self@, self@.member)[k as int],
    {
        match &self.command {
            Command::Ban(id, reason) => {
                if k == 0 {
                    Action::LookUpMember(*id)
                } else if k == 1 {
                    Action::BanMember(*id, reason.clone())
                } else if k == 2 {
                    Action::DirectMessage(
                        *id,
                        three(BAN_NOTICE_HEAD, reason.as_str(), BAN_NOTICE_TAIL),
                    )
                } else {
                    let mut m = three(BANNED_HEAD, self.member.as_str(), BANNED_MIDDLE);
                    m.append(reason.as_str());
                    Action::Reply(m)
                }
            },
            Command::Mute(id, t, reason) => {
                if k == 0 {
                    Action::MuteMember(*id, t.total_seconds())
                } else if k == 1 {
                    Action::DirectMessage(
                        *id,
                        three(MUTE_NOTICE_HEAD, reason.as_str(), MUTE_NOTICE_TAIL),
                    )
                } else {
                    Action::Reply(two(MUTED_HEAD, reason.as_str()))
                }
            },
            Command::Notice(m) => Action::Reply(three(NOTICE_HEAD, m.as_str(), NOTICE_TAIL)),
            Command::PrivateModMessage { .. } => Action::Reply(
                String::from_str(PRIVATE_UNIMPLEMENTED),
            ),
            Command::Xkcd(n) => {
                let mut m = String::from_str(XKCD_HEAD);
                push_decimal(&mut m, *n);
                m.append(XKCD_TAIL);
                Action::Reply(m)
            },
            Command::DontAskToAsk => Action::Reply(String::from_str(DONT_ASK_TO_ASK)),
            Command::Help(kind) => match kind {
                Some(kind) => Action::Reply(kind.help_message()),
                None => Action::Reply(String::from_str(HELP_HEADER)),
            },
            Command::Suggestion(s) => {
                if k == 0 {
                    Action::DirectMessage(DEVELOPER, two(SUGGESTION_HEAD, s.as_str()))
                } else {
                    Action::Reply(String::from_str(SUGGESTION_SENT))
                }
            },
            Command::NotValid(r) => Action::Reply(two(INVALID_HEAD, r.as_str())),
            Command::NotACommand => {
                // The plan of a non-command is empty: no index reaches here.
                assert(false);
                Action::Halt
            },
            Command::Dev(_) => {
                if k == 0 {
                    Action::Reply(String::from_str(SHUTTING_DOWN))
                } else {
                    Action::Halt
                }
            },
            Command::CoinFlip => {
                if self.heads {
                    Action::Reply(String::from_str(COIN_HEADS))
                } else {
                    Action::Reply(String::from_str(COIN_TAILS))
                }
            },
            Command::RandomInt(bound) => {
                let mut m = String::from_str(RANDOM_HEAD);
                push_decimal(&mut m, *bound);
                m.append(RANDOM_MIDDLE);
                push_decimal(&mut m, scale_draw(self.draw, *bound));
                m.append(RANDOM_TAIL);
                Action::Reply(m)
            },
            Command::Optin => Action::OptIn(self.actor),
            Command::Optout => Action::OptOut(self.actor),
            Command::Keke => Action::Reply(String::from_str(KEKE_VIDEO)),
        }
    }

    /// Reports how the last action handed out went (`last` is not read
    /// before the first one) and says what to do next: a failure ends the
    /// execution with its error, except that of the farewell before a halt;
    /// else the next action is handed out, or the execution ends well.
    pub fn advance(&mut self, last: Outcome) -> (r: Progress)
        requires
            !old(self)@.finished,
        ensures
            ({
                let e = old(self)@;
                let member = member_after(e, last);
                let steps = steps_of(e, member);
                if fails_on(e, last) {
                    &&& r matches Progress::Finished(Err(err)) && last == Outcome::Failed(err)
                    &&& final(self)@.finished
                } else if e.next < steps.len() {
                    &&& r matches Progress::Perform(a) && a@ == steps[e.next as int]
                    &&& final(self)@ == ExecutionModel { next: e.next + 1, member, ..e }
                } else {
                    &&& r matches Progress::Finished(Ok(()))
                    &&& final(self)@.finished
                }
            }),
    {
        if self.next > 0 {
            match last {
                Outcome::Failed(err) => {
                    let ignored = matches!(self.command, Command::Dev(_)) && self.next == 1;
                    if !ignored {
                        self.finished = true;
                        return Progress::Finished(Err(err));
                    }
                },
                Outcome::Member(name) => {
                    self.member = name;
                },
                Outcome::Done => {},
            }
        }
        if self.next < self.plan_len() {
            let a = self.action_at(self.next);
            self.next = self.next + 1;
            Progress::Perform(a)
        } else {
            self.finished = true;
            Progress::Finished(Ok(()))
        }
    }
}

impl Command {
    /// Starts executing this command, given by user `actor`, with a coin
    /// and a number drawn at random.
    pub fn execute_command(self, actor: u64) -> (r: Execution)
        ensures
            r@.command == self@,
            r@.actor == actor,
            r@.next == 0,
            r@.member == Seq::<char>::empty(),
            !r@.finished,
    {
        let heads = rand::random::<bool>();
        let draw = rand::random::<u64>();
        Execution::start(self, actor, heads, draw)
    }
}

} // verus!
