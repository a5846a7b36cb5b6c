//! The command grammar: the kinds of command, the words that name them, the
//! parsed command itself, and the gates that refuse privileged commands to
//! users who may not give them.

use vstd::prelude::*;
use vstd::string::StrSliceExecFns;
use crate::text::{
    is_white_space, join_words, lowercase, lowercase_of, parse_u64, same_text, split_words, str_views, u64_value,
    vec_str_to_string, words,
};
use crate::time::{parse_time, Time, TimeErr};

verus! {

/// Messages for the bot start with this character.
pub const PREFIX: char = '-';

/// The one user who may give developer commands.
pub const DEVELOPER: u64 = 284883095981916160;

/// The kind of a command, without its arguments.
#[derive(Clone, Copy, PartialEq, Eq, Debug, Structural)]
pub enum CommandType {
    /// A ban
    Ban,
    /// A mute
    Mute,
    /// An anonymous mod notice
    Notice,
    /// A private mod message
    PrivateModMessage,
    /// An XKCD link
    Xkcd,
    /// dontasktoask.com
    DontAskToAsk,
    /// Not a valid command
    NotValid,
    /// Not a command
    NotACommand,
    /// A help command
    Help,
    /// A suggestion
    Suggestion,
    /// A dev command
    Dev,
    /// Flips a coin
    CoinFlip,
    /// A random integer between 0 and a bound
    RandomInt,
    /// Opts into being keke'd
    Optin,
    /// Opts out of being keke'd
    Optout,
    /// kekes
    Keke,
}

/// The kind that a lowercase word names; every other word names `NotValid`.
pub open spec fn kind_of_word(w: Seq<char>) -> CommandType {
    if w == "ban"@ {
        CommandType::Ban
    } else if w == "mute"@ {
        CommandType::Mute
    } else if w == "notice"@ {
        CommandType::Notice
    } else if w == "private"@ || w == "pvm"@ {
        CommandType::PrivateModMessage
    } else if w == "xkcd"@ {
        CommandType::Xkcd
    } else if w == "dontasktoask"@ || w == "da2a"@ {
        CommandType::DontAskToAsk
    } else if w == "help"@ {
        CommandType::Help
    } else if w == "suggest"@ {
        CommandType::Suggestion
    } else if w == "dev"@ {
        CommandType::Dev
    } else if w == "coinflip"@ || w == "flip"@ {
        CommandType::CoinFlip
    } else if w == "randint"@ || w == "rand"@ {
        CommandType::RandomInt
    } else if w == "optin"@ {
        CommandType::Optin
    } else if w == "optout"@ {
        CommandType::Optout
    } else if w == "keke"@ {
        CommandType::Keke
    } else {
        CommandType::NotValid
    }
}

/// The kind that a token names, whatever its case.
pub open spec fn classify_spec(token: Seq<char>) -> CommandType {
    kind_of_word(lowercase_of(token))
}

/// The index of the first space or newline in `s`, or its length.
pub open spec fn first_break(s: Seq<char>) -> int
    decreases s.len(),
{
    if s.len() == 0 {
        0
    } else if s[0] == ' ' || s[0] == '\n' {
        0
    } else {
        1 + first_break(s.drop_first())
    }
}

/// The text after one optional leading `-`, up to its first space or newline.
pub open spec fn leading_piece(s: Seq<char>) -> Seq<char> {
    let t = if s.len() > 0 && s[0] == '-' {
        s.drop_first()
    } else {
        s
    };
    t.take(first_break(t))
}

proof fn lemma_first_break(s: Seq<char>, k: int)
    requires
        0 <= k <= s.len(),
        forall|j: int| 0 <= j < k ==> #[trigger] s[j] != ' ' && s[j] != '\n',
        k == s.len() || s[k] == ' ' || s[k] == '\n',
    ensures
        first_break(s) == k,
    decreases k,
{
    if k > 0 {
        let t = s.drop_first();
        assert forall|j: int| 0 <= j < k - 1 implies #[trigger] t[j] != ' ' && t[j] != '\n' by {
            assert(t[j] == s[j + 1]);
        }
        if k < s.len() {
            assert(t[k - 1] == s[k]);
        }
        lemma_first_break(t, k - 1);
    }
}

/// Whether the character at `i` ends a word: a space or a newline.
fn breaks_at(s: &str, i: usize) -> (r: bool)
    requires
        i < s@.len(),
    ensures
        r == (s@[i as int] == ' ' || s@[i as int] == '\n'),
{
    let c = s.get_char(i);
    c == ' ' || c == '\n'
}

impl CommandType {
    /// The kind that a lowercase word names (`NotValid` for any other word).
    pub fn from_word(w: &str) -> (r: CommandType)
        ensures
            r == kind_of_word(w@),
    {
        if same_text(w, "ban") {
            CommandType::Ban
        } else if same_text(w, "mute") {
            CommandType::Mute
        } else if same_text(w, "notice") {
            CommandType::Notice
        } else if same_text(w, "private") || same_text(w, "pvm") {
            CommandType::PrivateModMessage
        } else if same_text(w, "xkcd") {
            CommandType::Xkcd
        } else if same_text(w, "dontasktoask") || same_text(w, "da2a") {
            CommandType::DontAskToAsk
        } else if same_text(w, "help") {
            CommandType::Help
        } else if same_text(w, "suggest") {
            CommandType::Suggestion
        } else if same_text(w, "dev") {
            CommandType::Dev
        } else if same_text(w, "coinflip") || same_text(w, "flip") {
            CommandType::CoinFlip
        } else if same_text(w, "randint") || same_text(w, "rand") {
            CommandType::RandomInt
        } else if same_text(w, "optin") {
            CommandType::Optin
        } else if same_text(w, "optout") {
            CommandType::Optout
        } else if same_text(w, "keke") {
            CommandType::Keke
        } else {
            CommandType::NotValid
        }
    }

    /// The kind that a token names, whatever its case. Every token names
    /// some kind: an unknown one names `NotValid`.
    pub fn classify(token: &str) -> (r: CommandType)
        ensures
            r == classify_spec(token@),
    {
        let lowered = lowercase(token);
        CommandType::from_word(lowered.as_str())
    }

    /// The kind named by the first word of `s`, after one optional `-`;
    /// words here end at a space or a newline.
    pub fn from_text(s: &str) -> (r: CommandType)
        ensures
            r == classify_spec(leading_piece(s@)),
    {
        let n = s.unicode_len();
        let start: usize = if n > 0 && s.get_char(0) == '-' {
            1
        } else {
            0
        };
        let ghost t = s@.subrange(start as int, n as int);
        assert(t == (if s@.len() > 0 && s@[0] == '-' {
            s@.drop_first()
        } else {
            s@
        }));
        let mut end = start;
        while end < n && !breaks_at(s, end)
            invariant
                start <= end <= n,
                n == s@.len(),
                t == s@.subrange(start as int, n as int),
                forall|j: int| 0 <= j < end - start ==> #[trigger] t[j] != ' ' && t[j] != '\n',
            decreases n - end,
        {
            assert(t[end - start] == s@[end as int]);
            end = end + 1;
        }
        proof {
            if end < n {
                assert(t[end - start] == s@[end as int]);
            }
            lemma_first_break(t, end - start);
            assert(t.take(end - start) == s@.subrange(start as int, end as int));
        }
        let piece = s.substring_char(start, end);
        CommandType::classify(piece)
    }
}

impl std::str::FromStr for CommandType {
    type Err = std::convert::Infallible;

    fn from_str(s: &str) -> Result<CommandType, std::convert::Infallible> {
        Ok(CommandType::from_text(s))
    }
}

/// Usage texts, one per kind, written with the prefix `-`.
pub const HELP_BAN: &'static str = "```\n-ban [user] - Mod Only!\n================================\nBans a user from the server. Note that bans require, at least,\nhalf or more of the mod team to agree to ban someone in most cases.\n```\n";

pub const HELP_MUTE: &'static str = "```\n-mute [user] [time] [reason] - Mod Only!\n================================\nMutes a user for a specified time.\nThis uses discord's 'Time Out' feature,\nrather than\n```\n";

pub const HELP_NOTICE: &'static str = "```\n-notice [...message] - Mod Only!\n================================\nAnonymously gives a broadcast to the channel.\n```\n";

pub const HELP_PRIVATE: &'static str = "```\n-pvm [...message]\n================================\nSends a one-time message to the mod channel.\n```\n";

pub const HELP_XKCD: &'static str = "```\n-xkcd [<index:number> OR <phrase:word(s)>]\n================================\nSends a pre-formatted XKCD link.\nSome phrases have link mappings (e.g. 'tautology' maps to XKCD 703.)\n```\n";

pub const HELP_DA2A: &'static str = "```\n-da2a | -dontasktoask\n================================\nSends the link 'https://dontasktoask.com/', verbatim.\n```\n";

pub const HELP_NOT_VALID: &'static str = "```\niNVALID COMMAND\n```\n";

pub const HELP_NOT_A_COMMAND: &'static str = "```\nINVALID COMMAND\n```\n";

pub const HELP_HELP: &'static str = "```\n-help <command>\n================================\nHey, wait a minute...\n```\n";

pub const HELP_SUGGEST: &'static str = "```\n-suggest [phrase:word(s)]\n================================\nSends a suggestion to be reviewed at a later date.\n```\n";

pub const HELP_DEV: &'static str = "```\n-dev [command] - Dev Only!\n================================\nCan preform a variety of developer options.\n```\n";

pub const HELP_COINFLIP: &'static str = "```\n-coinflip\n================================\n50/50 chance to return Heads or Tails.\n```\n";

pub const HELP_RANDINT: &'static str = "```\n-randint [max:number]\n================================\nReturns a random number from 0 up to, but not including, max.\n```\n";

pub const HELP_OPTIN: &'static str = "```\n-optin\n================================\nAllows you to get keke'd.\nSpecifically, your name can be changed by saying 'I'm ___' or a similar phrase.\n```\n";

pub const HELP_OPTOUT: &'static str = "```\n-optout\n================================\nOpts out of getting keke'd.\n```\n";

pub const HELP_KEKE: &'static str = "```\n-keke\n================================\nSends the original 'lmao get keke'd' video.\n```\n";

/// The usage text of each kind.
pub open spec fn help_text(k: CommandType) -> Seq<char> {
    match k {
        CommandType::Ban => HELP_BAN@,
        CommandType::Mute => HELP_MUTE@,
        CommandType::Notice => HELP_NOTICE@,
        CommandType::PrivateModMessage => HELP_PRIVATE@,
        CommandType::Xkcd => HELP_XKCD@,
        CommandType::DontAskToAsk => HELP_DA2A@,
        CommandType::NotValid => HELP_NOT_VALID@,
        CommandType::NotACommand => HELP_NOT_A_COMMAND@,
        CommandType::Help => HELP_HELP@,
        CommandType::Suggestion => HELP_SUGGEST@,
        CommandType::Dev => HELP_DEV@,
        CommandType::CoinFlip => HELP_COINFLIP@,
        CommandType::RandomInt => HELP_RANDINT@,
        CommandType::Optin => HELP_OPTIN@,
        CommandType::Optout => HELP_OPTOUT@,
        CommandType::Keke => HELP_KEKE@,
    }
}

impl CommandType {
    /// The usage text of this kind, ready to send.
    pub fn help_message(&self) -> (r: String)
        ensures
            r@ == help_text(*self),
    {
        match self {
            CommandType::Ban => String::from_str(HELP_BAN),
            CommandType::Mute => String::from_str(HELP_MUTE),
            CommandType::Notice => String::from_str(HELP_NOTICE),
            CommandType::PrivateModMessage => String::from_str(HELP_PRIVATE),
            CommandType::Xkcd => String::from_str(HELP_XKCD),
            CommandType::DontAskToAsk => String::from_str(HELP_DA2A),
            CommandType::NotValid => String::from_str(HELP_NOT_VALID),
            CommandType::NotACommand => String::from_str(HELP_NOT_A_COMMAND),
            CommandType::Help => String::from_str(HELP_HELP),
            CommandType::Suggestion => String::from_str(HELP_SUGGEST),
            CommandType::Dev => String::from_str(HELP_DEV),
            CommandType::CoinFlip => String::from_str(HELP_COINFLIP),
            CommandType::RandomInt => String::from_str(HELP_RANDINT),
            CommandType::Optin => String::from_str(HELP_OPTIN),
            CommandType::Optout => String::from_str(HELP_OPTOUT),
            CommandType::Keke => String::from_str(HELP_KEKE),
        }
    }
}

/// The comic that a lowercase phrase names; 404 for any other phrase.
pub open spec fn xkcd_alias(w: Seq<char>) -> u64 {
    if w == "tautology"@ || w == "tautological"@ || w == "honor society"@ {
        703
    } else if w == "python"@ || w == "import antigravity"@ || w == "antigravity"@ {
        353
    } else if w == "haskell"@ || w == "side effects"@ {
        1312
    } else if w == "trolley problem"@ {
        1455
    } else if w == "linux"@ || w == "os"@ {
        272
    } else {
        404
    }
}

/// The comic that a text names: its number, or else the phrase it is.
pub open spec fn xkcd_number(s: Seq<char>) -> u64 {
    match u64_value(s) {
        Some(v) => v,
        None => xkcd_alias(lowercase_of(s)),
    }
}

/// The comic that a lowercase phrase names; 404 for any other phrase.
pub fn xkcd_from_alias(w: &str) -> (r: u64)
    ensures
        r == xkcd_alias(w@),
{
    if same_text(w, "tautology") || same_text(w, "tautological") || same_text(w, "honor society") {
        703
    } else if same_text(w, "python") || same_text(w, "import antigravity") || same_text(
        w,
        "antigravity",
    ) {
        353
    } else if same_text(w, "haskell") || same_text(w, "side effects") {
        1312
    } else if same_text(w, "trolley problem") {
        1455
    } else if same_text(w, "linux") || same_text(w, "os") {
        272
    } else {
        404
    }
}

/// The comic that a text names: read as a number where it is one, else
/// looked up, whatever its case, among the known phrases.
pub fn xkcd_from_string(string: &str) -> (r: u64)
    ensures
        r == xkcd_number(string@),
{
    match parse_u64(string) {
        Some(v) => v,
        None => {
            let lowered = lowercase(string);
            xkcd_from_alias(lowered.as_str())
        },
    }
}


/// A parsed user request.
#[derive(Debug, PartialEq, Eq)]
pub enum Command {
    /// Bans a user, with a reason
    Ban(u64, String),
    /// Mutes a user for a specified time and reason
    Mute(u64, Time, String),
    /// Gives a mod notice to the current channel
    Notice(String),
    /// Gives a message privately to the staff bot channel
    PrivateModMessage {
        /// The message to send
        message: String,
        /// The relevant user
        user: String,
    },
    /// Shows an XKCD link
    Xkcd(u64),
    /// Sends, literally, https://dontasktoask.com/
    DontAskToAsk,
    /// Help Command
    Help(Option<CommandType>),
    /// A suggestion for the bot
    Suggestion(String),
    /// The command wasn't valid (for one reason or another)
    NotValid(String),
    /// The message wasn't a given command
    NotACommand,
    /// A developer command
    Dev(String),
    /// A single coin flip
    CoinFlip,
    /// A randomly generated integer from 0 to the field
    RandomInt(u64),
    /// Opt into getting keke'd
    Optin,
    /// Opt out of get keke'd
    Optout,
    /// Sends a link to the original "get keke'd" video
    Keke,
}

/// A command with its texts as character sequences.
pub enum CommandModel {
    Ban(u64, Seq<char>),
    Mute(u64, Time, Seq<char>),
    Notice(Seq<char>),
    PrivateModMessage { message: Seq<char>, user: Seq<char> },
    Xkcd(u64),
    DontAskToAsk,
    Help(Option<CommandType>),
    Suggestion(Seq<char>),
    NotValid(Seq<char>),
    NotACommand,
    Dev(Seq<char>),
    CoinFlip,
    RandomInt(u64),
    Optin,
    Optout,
    Keke,
}

impl View for Command {
    type V = CommandModel;

    open spec fn view(&self) -> CommandModel {
        match self {
            Command::Ban(u, r) => CommandModel::Ban(*u, r@),
            Command::Mute(u, t, r) => CommandModel::Mute(*u, *t, r@),
            Command::Notice(m) => CommandModel::Notice(m@),
            Command::PrivateModMessage { message, user } => CommandModel::PrivateModMessage {
                message: message@,
                user: user@,
            },
            Command::Xkcd(n) => CommandModel::Xkcd(*n),
            Command::DontAskToAsk => CommandModel::DontAskToAsk,
            Command::Help(k) => CommandModel::Help(*k),
            Command::Suggestion(m) => CommandModel::Suggestion(m@),
            Command::NotValid(m) => CommandModel::NotValid(m@),
            Command::NotACommand => CommandModel::NotACommand,
            Command::Dev(m) => CommandModel::Dev(m@),
            Command::CoinFlip => CommandModel::CoinFlip,
            Command::RandomInt(n) => CommandModel::RandomInt(*n),
            Command::Optin => CommandModel::Optin,
            Command::Optout => CommandModel::Optout,
            Command::Keke => CommandModel::Keke,
        }
    }
}

/// The kind of a command.
pub open spec fn kind_of(c: CommandModel) -> CommandType {
    match c {
        CommandModel::Ban(..) => CommandType::Ban,
        CommandModel::Mute(..) => CommandType::Mute,
        CommandModel::Notice(..) => CommandType::Notice,
        CommandModel::PrivateModMessage { .. } => CommandType::PrivateModMessage,
        CommandModel::Xkcd(..) => CommandType::Xkcd,
        CommandModel::DontAskToAsk => CommandType::DontAskToAsk,
        CommandModel::Help(..) => CommandType::Help,
        CommandModel::Suggestion(..) => CommandType::Suggestion,
        CommandModel::NotValid(..) => CommandType::NotValid,
        CommandModel::NotACommand => CommandType::NotACommand,
        CommandModel::Dev(..) => CommandType::Dev,
        CommandModel::CoinFlip => CommandType::CoinFlip,
        CommandModel::RandomInt(..) => CommandType::RandomInt,
        CommandModel::Optin => CommandType::Optin,
        CommandModel::Optout => CommandType::Optout,
        CommandModel::Keke => CommandType::Keke,
    }
}

/// Whether only a moderator may give the command.
pub open spec fn is_privileged(c: CommandModel) -> bool {
    c is Ban || c is Mute || c is Notice
}

/// The moderator gate: `moderator` is the answer to "is the actor a
/// moderator", `None` where it could not be had. A privileged command is
/// refused unless the answer is yes; any other passes unchanged.
pub open spec fn gate_moderator(c: CommandModel, moderator: Option<bool>) -> CommandModel {
    if !is_privileged(c) {
        c
    } else {
        match moderator {
            Some(true) => c,
            Some(false) => CommandModel::NotValid("User is not a moderator!"@),
            None => CommandModel::NotValid(
                "Could not determine whether the user is a mod, so I'm falling back to not allowing it."@,
            ),
        }
    }
}

/// The developer gate: only the developer's commands pass.
pub open spec fn gate_developer(c: CommandModel, actor: u64) -> CommandModel {
    if actor == DEVELOPER {
        c
    } else {
        CommandModel::NotValid("User is not the dev!"@)
    }
}

/// Whether serenity would cut a mention `<@..` inside its last character.
pub open spec fn mention_would_split(s: Seq<char>) -> bool {
    s.len() >= 2 && s[0] == '<' && s[1] == '@' && (s.last() as u32) >= 128
}

/// The user that `s` names: a mention `<@id>` or `<@!id>` (whose last
/// character is dropped unread), or else a plain number.
pub open spec fn user_id_value(s: Seq<char>) -> Option<u64> {
    if s.len() >= 4 && s[0] == '<' && s[1] == '@' && s[2] == '!' {
        u64_value(s.subrange(3, s.len() - 1))
    } else if s.len() >= 4 && s[0] == '<' && s[1] == '@' {
        u64_value(s.subrange(2, s.len() - 1))
    } else {
        u64_value(s)
    }
}

/// The user that a token names, if any.
pub open spec fn user_in(s: Seq<char>) -> Option<u64> {
    if mention_would_split(s) {
        None
    } else {
        user_id_value(s)
    }
}

/// Relies on serenity's `UserId::from_str`: `utils::parse_username` reads a
/// mention, else the text is read as a `u64`. It slices off the last byte of
/// a mention, which panics where the last character is wider than a byte.
#[verifier::external_body]
fn parse_user_id(s: &str) -> (r: Option<u64>)
    requires
        !mention_would_split(s@),
    ensures
        r == user_id_value(s@),
{
    s.parse::<serenity::model::id::UserId>().ok().map(|u| u.0)
}

/// The user that a token names, if any; none for a mention that serenity
/// could not cut.
fn user_id_of(s: &str) -> (r: Option<u64>)
    ensures
        r == user_in(s@),
{
    let n = s.unicode_len();
    if n >= 2 && s.get_char(0) == '<' && s.get_char(1) == '@' && (s.get_char(n - 1) as u32) >= 128 {
        None
    } else {
        parse_user_id(s)
    }
}

/// The words after the first `k`, joined with single spaces.
pub open spec fn rest_from(ws: Seq<Seq<char>>, k: int) -> Seq<char> {
    join_words(ws.subrange(k, ws.len() as int))
}

/// The command that a message holds, its arguments parsed, before any gate.
pub open spec fn parse_ungated(ws: Seq<Seq<char>>, author: Seq<char>) -> CommandModel {
    let head = ws[0].drop_first();
    match classify_spec(head) {
        CommandType::Ban => if ws.len() < 2 || user_in(ws[1]) is None {
            CommandModel::NotValid("Given user was not a valid UserID"@)
        } else {
            CommandModel::Ban(user_in(ws[1])->Some_0, rest_from(ws, 2))
        },
        CommandType::Mute => if ws.len() < 2 || user_in(ws[1]) is None {
            CommandModel::NotValid("Given user was not a valid UserID"@)
        } else if ws.len() < 3 || parse_time(ws[2]) is Err {
            CommandModel::NotValid("Given time was invalid!"@)
        } else {
            CommandModel::Mute(user_in(ws[1])->Some_0, parse_time(ws[2])->Ok_0, rest_from(ws, 3))
        },
        CommandType::Notice => CommandModel::Notice(rest_from(ws, 1)),
        CommandType::PrivateModMessage => CommandModel::PrivateModMessage {
            message: rest_from(ws, 1),
            user: author,
        },
        CommandType::Xkcd => CommandModel::Xkcd(xkcd_number(rest_from(ws, 1))),
        CommandType::DontAskToAsk => CommandModel::DontAskToAsk,
        CommandType::NotValid => CommandModel::NotValid("I couldn't parse the command!"@),
        CommandType::NotACommand => CommandModel::NotACommand,
        CommandType::Help => if ws.len() == 1 {
            CommandModel::Help(None)
        } else {
            CommandModel::Help(Some(classify_spec(leading_piece(rest_from(ws, 1)))))
        },
        CommandType::Suggestion => CommandModel::Suggestion(rest_from(ws, 1)),
        CommandType::Dev => CommandModel::Dev(rest_from(ws, 1)),
        CommandType::CoinFlip => CommandModel::CoinFlip,
        CommandType::RandomInt => match u64_value(rest_from(ws, 1)) {
            Some(v) => CommandModel::RandomInt(v),
            None => CommandModel::NotValid("Couldn't parse an integer from the given arguments!"@),
        },
        CommandType::Optin => CommandModel::Optin,
        CommandType::Optout => CommandModel::Optout,
        CommandType::Keke => CommandModel::Keke,
    }
}

/// The command that `text`, sent by user `actor` named `author`, holds once
/// both gates have seen it. `moderator` answers whether the actor is a
/// moderator (`None`: the answer could not be had).
pub open spec fn parse_message(
    text: Seq<char>,
    author: Seq<char>,
    actor: u64,
    moderator: Option<bool>,
) -> CommandModel {
    if !(text.len() > 0 && text[0] == PREFIX) || words(text).len() == 0 {
        CommandModel::NotACommand
    } else {
        let c = parse_ungated(words(text), author);
        gate_developer_if_dev(gate_moderator(c, moderator), actor)
    }
}

/// The developer gate, applied to developer commands only.
pub open spec fn gate_developer_if_dev(c: CommandModel, actor: u64) -> CommandModel {
    if c is Dev {
        gate_developer(c, actor)
    } else {
        c
    }
}

proof fn lemma_words_nonempty(s: Seq<char>)
    ensures
        forall|i: int| 0 <= i < words(s).len() ==> (#[trigger] words(s)[i]).len() > 0,
        s.len() > 0 && !is_white_space(s.last()) ==> words(s).len() > 0,
    decreases s.len(),
{
    if s.len() > 0 {
        let t = s.drop_last();
        lemma_words_nonempty(t);
        let prev = words(t);
        let c = s.last();
        if !is_white_space(c) && s.len() >= 2 && !is_white_space(s[s.len() - 2]) {
            assert(t.last() == s[s.len() - 2]);
            assert(prev.len() > 0);
            assert forall|i: int| 0 <= i < words(s).len() implies (#[trigger] words(s)[i]).len()
                > 0 by {
                if i < prev.len() - 1 {
                    assert(words(s)[i] == prev[i]);
                }
            }
        } else if !is_white_space(c) {
            assert forall|i: int| 0 <= i < words(s).len() implies (#[trigger] words(s)[i]).len()
                > 0 by {
                if i < prev.len() {
                    assert(words(s)[i] == prev[i]);
                }
            }
        }
    }
}

/// Parses the arguments of a message split into words `args`, the first
/// of which is the prefix and the command's name.
fn parse_args(args: &Vec<&str>, author: &str) -> (r: Command)
    requires
        args@.len() > 0,
        args@[0]@.len() > 0,
    ensures
        r@ == parse_ungated(str_views(args@), author@),
{
    let ghost ws = str_views(args@);
    let first = args[0];
    let head = first.substring_char(1, first.unicode_len());
    assert(head@ == ws[0].drop_first());
    match CommandType::classify(head) {
        CommandType::Ban => {
            let id = if args.len() < 2 {
                None
            } else {
                user_id_of(args[1])
            };
            match id {
                Some(id) => Command::Ban(id, vec_str_to_string(args.as_slice(), Some(2))),
                None => Command::NotValid(String::from_str("Given user was not a valid UserID")),
            }
        },
        CommandType::Mute => {
            let id = if args.len() < 2 {
                None
            } else {
                user_id_of(args[1])
            };
            match id {
                Some(id) => {
                    let time = if args.len() < 3 {
                        Err(TimeErr::MissingUnit)
                    } else {
                        Time::parse(args[2])
                    };
                    match time {
                        Ok(time) => Command::Mute(
                            id,
                            time,
                            vec_str_to_string(args.as_slice(), Some(3)),
                        ),
                        Err(_) => Command::NotValid(String::from_str("Given time was invalid!")),
                    }
                },
                None => Command::NotValid(String::from_str("Given user was not a valid UserID")),
            }
        },
        CommandType::Notice => Command::Notice(vec_str_to_string(args.as_slice(), Some(1))),
        CommandType::PrivateModMessage => Command::PrivateModMessage {
            message: vec_str_to_string(args.as_slice(), Some(1)),
            user: String::from_str(author),
        },
        CommandType::Xkcd => {
            let rest = vec_str_to_string(args.as_slice(), Some(1));
            Command::Xkcd(xkcd_from_string(rest.as_str()))
        },
        CommandType::DontAskToAsk => Command::DontAskToAsk,
        CommandType::NotValid => Command::NotValid(
            String::from_str("I couldn't parse the command!"),
        ),
        CommandType::NotACommand => Command::NotACommand,
        CommandType::Help => {
            if args.len() == 1 {
                Command::Help(None)
            } else {
                let rest = vec_str_to_string(args.as_slice(), Some(1));
                Command::Help(Some(CommandType::from_text(rest.as_str())))
            }
        },
        CommandType::Suggestion => Command::Suggestion(vec_str_to_string(args.as_slice(), Some(1))),
        CommandType::Dev => Command::Dev(vec_str_to_string(args.as_slice(), Some(1))),
        CommandType::CoinFlip => Command::CoinFlip,
        CommandType::RandomInt => {
            let rest = vec_str_to_string(args.as_slice(), Some(1));
            match parse_u64(rest.as_str()) {
                Some(v) => Command::RandomInt(v),
                None => Command::NotValid(
                    String::from_str("Couldn't parse an integer from the given arguments!"),
                ),
            }
        },
        CommandType::Optin => Command::Optin,
        CommandType::Optout => Command::Optout,
        CommandType::Keke => Command::Keke,
    }
}

/// Whether the answer to "is the actor a moderator" can change what
/// `content` parses to: only for a ban, mute or notice. Where it cannot,
/// any answer gives the same command.
pub fn needs_moderator_check(content: &str) -> (r: bool)
    ensures
        !r ==> forall|author: Seq<char>, actor: u64, m: Option<bool>|
            #[trigger] parse_message(content@, author, actor, m) == parse_message(
                content@,
                author,
                actor,
                None,
            ),
{
    let n = content.unicode_len();
    if n == 0 || content.get_char(0) != PREFIX {
        return false;
    }
    let args = split_words(content);
    if args.len() == 0 {
        return false;
    }
    proof {
        lemma_words_nonempty(content@);
        assert(str_views(args@)[0] == args@[0]@);
    }
    let first = args[0];
    let head = first.substring_char(1, first.unicode_len());
    match CommandType::classify(head) {
        CommandType::Ban | CommandType::Mute | CommandType::Notice => true,
        _ => false,
    }
}

impl Command {
    /// Parses the message `content` sent by user `actor`, whose name is
    /// `author`. `moderator` answers whether the actor is a moderator
    /// (`None`: the answer could not be had); it matters to a ban, a mute
    /// and a notice only. A message without the prefix is no command;
    /// every failure to parse is a `NotValid` command.
    pub fn parse_from_message(
        content: &str,
        actor: u64,
        author: &str,
        moderator: Option<bool>,
    ) -> (r: Command)
        ensures
            r@ == parse_message(content@, author@, actor, moderator),
    {
        let n = content.unicode_len();
        if n == 0 || content.get_char(0) != PREFIX {
            return Command::NotACommand;
        }
        let args = split_words(content);
        if args.len() == 0 {
            return Command::NotACommand;
        }
        proof {
            lemma_words_nonempty(content@);
            assert(str_views(args@)[0] == args@[0]@);
        }
        let parsed = parse_args(&args, author);
        let gated = parsed.requires_mod(moderator);
        if matches!(gated, Command::Dev(_)) {
            gated.requires_dev(actor)
        } else {
            gated
        }
    }

    /// The moderator gate. `moderator` answers whether the actor is a
    /// moderator, `None` where the answer could not be had: then, as for a
    /// no, a ban, mute or notice is refused. Any other command is returned
    /// unchanged.
    pub fn requires_mod(self, moderator: Option<bool>) -> (r: Command)
        ensures
            r@ == gate_moderator(self@, moderator),
            is_privileged(self@) && moderator != Some(true) ==> r@ is NotValid,
            !is_privileged(self@) ==> r@ == self@,
    {
        match self {
            Command::Ban(..) | Command::Mute(..) | Command::Notice(..) => match moderator {
                Some(true) => self,
                Some(false) => Command::NotValid(String::from_str("User is not a moderator!")),
                None => Command::NotValid(
                    String::from_str(
                        "Could not determine whether the user is a mod, so I'm falling back to not allowing it.",
                    ),
                ),
            },
            other => other,
        }
    }

    /// The developer gate: a command of anyone but the developer is refused.
    pub fn requires_dev(self, actor: u64) -> (r: Command)
        ensures
            r@ == gate_developer(self@, actor),
            actor != DEVELOPER ==> r@ == CommandModel::NotValid("User is not the dev!"@),
            actor == DEVELOPER ==> r@ == self@,
    {
        if actor == DEVELOPER {
            self
        } else {
            Command::NotValid(String::from_str("User is not the dev!"))
        }
    }
}


impl From<Command> for CommandType {
    fn from(value: Command) -> CommandType {
        match value {
            Command::Ban(..) => CommandType::Ban,
            Command::Mute(..) => CommandType::Mute,
            Command::Notice(..) => CommandType::Notice,
            Command::PrivateModMessage { .. } => CommandType::PrivateModMessage,
            Command::Xkcd(..) => CommandType::Xkcd,
            Command::DontAskToAsk => CommandType::DontAskToAsk,
            Command::NotValid(..) => CommandType::NotValid,
            Command::NotACommand => CommandType::NotACommand,
            Command::Help(..) => CommandType::Help,
            Command::Suggestion(..) => CommandType::Suggestion,
            Command::Dev(..) => CommandType::Dev,
            Command::CoinFlip => CommandType::CoinFlip,
            Command::RandomInt(..) => CommandType::RandomInt,
            Command::Optin => CommandType::Optin,
            Command::Optout => CommandType::Optout,
            Command::Keke => CommandType::Keke,
        }
    }
}

impl vstd::std_specs::convert::FromSpecImpl<Command> for CommandType {
    open spec fn obeys_from_spec() -> bool {
        true
    }

    open spec fn from_spec(v: Command) -> CommandType {
        kind_of(v@)
    }
}

/// The kind of a ban is the kind that the token `ban` is classified as.
pub proof fn lemma_ban_kind_round_trip(id: u64, reason: Seq<char>)
    ensures
        kind_of(CommandModel::Ban(id, reason)) == classify_spec("ban"@),
{
    lemma_ban_word();
}

proof fn lemma_ban_word()
    ensures
        classify_spec("ban"@) == CommandType::Ban,
{
    reveal_strlit("ban");
    let w = "ban"@;
    assert(is_ascii_text_of(w));
    assert(w.map_values(|c: char| crate::text::ascii_lower_char(c)) =~= w);
}

spec fn is_ascii_text_of(s: Seq<char>) -> bool {
    crate::text::is_ascii_text(s)
}

/// A ban given by a user who is no moderator is refused, with a reason
/// that says so: for any message `-<word> <user> ...` whose word
/// lowercases to `ban` and whose user is one that a token can name.
pub proof fn lemma_ban_by_non_moderator(text: Seq<char>, author: Seq<char>, actor: u64)
    requires
        text.len() > 0,
        text[0] == PREFIX,
        words(text).len() >= 2,
        classify_spec(words(text)[0].drop_first()) == CommandType::Ban,
        user_in(words(text)[1]) is Some,
    ensures
        parse_message(text, author, actor, Some(false)) == CommandModel::NotValid(
            "User is not a moderator!"@,
        ),
{
}

/// The message `-ban <user> ...` from a user who is no moderator is
/// refused as above.
pub proof fn lemma_ban_word_by_non_moderator(text: Seq<char>, author: Seq<char>, actor: u64)
    requires
        text.len() > 0,
        text[0] == PREFIX,
        words(text).len() >= 2,
        words(text)[0].drop_first() == "ban"@,
        user_in(words(text)[1]) is Some,
    ensures
        parse_message(text, author, actor, Some(false)) == CommandModel::NotValid(
            "User is not a moderator!"@,
        ),
{
    lemma_ban_word();
    lemma_ban_by_non_moderator(text, author, actor);
}

} // verus!
