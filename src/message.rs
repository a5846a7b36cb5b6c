//! What the bot does with a message besides its command: relaying private
//! messages to the developer, and renaming opted-in users who introduce
//! themselves ("I'm ...").

use vstd::prelude::*;
use vstd::string::StrSliceExecFns;
use crate::command::DEVELOPER;

verus! {

/// Represents the origin of a message (either private or public)
#[derive(Clone, Copy, PartialEq, Eq, Debug, Structural)]
pub enum MessageOrigin {
    /// A public channel (inside a server)
    PublicChannel,
    /// A private channel (inside a DM)
    PrivateChannel,
}

/// The longest nickname that a user is renamed to.
pub const NICKNAME_LIMIT: usize = 32;

pub const RELAY_HEAD: &'static str = "Incoming message from ";

pub const RELAY_MIDDLE: &'static str = ":\n> ";

pub const KEKE_IS: &'static str = " is `";

pub const KEKE_IS_NOT: &'static str = " is NOT `";

pub const KEKE_TAIL: &'static str = "`!\n\nWanna optout? use -keke!";

/// The text of the relay of a private message by `author`.
pub open spec fn relay_text(author: Seq<char>, content: Seq<char>) -> Seq<char> {
    RELAY_HEAD@ + author + RELAY_MIDDLE@ + content
}

/// Whether `c` is `p` up to ASCII case.
pub open spec fn same_up_to_case(c: char, p: char) -> bool {
    c == p || ('a' <= p && p <= 'z' && (c as u32) + 32 == (p as u32))
}

/// Whether `s` starts with `p`, up to ASCII case.
pub open spec fn starts_up_to_case(s: Seq<char>, p: Seq<char>) -> bool {
    p.len() <= s.len() && forall|i: int| 0 <= i < p.len() ==> same_up_to_case(#[trigger] s[i], p[i])
}

/// What follows an introduction "i'm " or "i am " (in any case) at the start
/// of `s`, if it has one.
pub open spec fn introduced(s: Seq<char>) -> Option<Seq<char>> {
    if starts_up_to_case(s, "i'm "@) {
        Some(s.subrange(4, s.len() as int))
    } else if starts_up_to_case(s, "i am "@) {
        Some(s.subrange(5, s.len() as int))
    } else {
        None
    }
}

/// The answer to an opted-in user's introduction.
pub enum Keke {
    /// Rename the user to `nickname` and announce it.
    Rename { nickname: String, announcement: String },
    /// Announce, without renaming, that the nickname is too long.
    Refuse { announcement: String },
}

/// Where a private message is relayed to the developer: the direct message
/// to send, for a message from a private channel only.
pub fn relay_to_developer(origin: MessageOrigin, author: &str, content: &str) -> (r: Option<
    (u64, String),
>)
    ensures
        origin is PublicChannel ==> r is None,
        origin is PrivateChannel ==> (r matches Some((to, text)) && to == DEVELOPER && text@
            == relay_text(author@, content@)),
{
    match origin {
        MessageOrigin::PublicChannel => None,
        MessageOrigin::PrivateChannel => {
            let mut text = String::from_str(RELAY_HEAD);
            text.append(author);
            text.append(RELAY_MIDDLE);
            text.append(content);
            Some((DEVELOPER, text))
        },
    }
}

fn starts_with_up_to_case(s: &str, p: &str) -> (r: bool)
    ensures
        r == starts_up_to_case(s@, p@),
{
    let n = s.unicode_len();
    let m = p.unicode_len();
    if m > n {
        return false;
    }
    let mut i: usize = 0;
    while i < m
        invariant
            m <= n,
            n == s@.len(),
            m == p@.len(),
            i <= m,
            forall|j: int| 0 <= j < i ==> same_up_to_case(#[trigger] s@[j], p@[j]),
        decreases m - i,
    {
        let c = s.get_char(i);
        let q = p.get_char(i);
        let same = c == q || ('a' <= q && q <= 'z' && (c as u32) + 32 == (q as u32));
        if !same {
            return false;
        }
        i = i + 1;
    }
    true
}

/// The answer to a message of a user: `opted_in` says whether they opted
/// in. An opted-in user whose message starts with "i'm " or "i am " (in any
/// case) is renamed to the rest of the message where it has at most 32
/// characters, and told it is too long otherwise. Any other message gets no
/// answer.
pub fn keke_author(content: &str, name: &str, opted_in: bool) -> (r: Option<Keke>)
    ensures
        !opted_in || introduced(content@) is None ==> r is None,
        opted_in && introduced(content@) is Some ==> ({
            let rest = introduced(content@)->Some_0;
            if rest.len() <= NICKNAME_LIMIT {
                r matches Some(Keke::Rename { nickname, announcement }) && nickname@ == rest
                    && announcement@ == name@ + KEKE_IS@ + rest + KEKE_TAIL@
            } else {
                r matches Some(Keke::Refuse { announcement }) && announcement@ == name@
                    + KEKE_IS_NOT@ + rest + KEKE_TAIL@
            }
        }),
{
    if !opted_in {
        return None;
    }
    let n = content.unicode_len();
    let start: usize = if starts_with_up_to_case(content, "i'm ") {
        proof {
            reveal_strlit("i'm ");
        }
        4
    } else if starts_with_up_to_case(content, "i am ") {
        proof {
            reveal_strlit("i am ");
        }
        5
    } else {
        return None;
    };
    let rest = content.substring_char(start, n);
    let mut announcement = String::from_str(name);
    if n - start <= NICKNAME_LIMIT {
        announcement.append(KEKE_IS);
        announcement.append(rest);
        announcement.append(KEKE_TAIL);
        Some(Keke::Rename { nickname: String::from_str(rest), announcement })
    } else {
        announcement.append(KEKE_IS_NOT);
        announcement.append(rest);
        announcement.append(KEKE_TAIL);
        Some(Keke::Refuse { announcement })
    }
}

} // verus!
