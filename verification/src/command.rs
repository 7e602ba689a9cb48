//! The chat commands: the closed set the front-end understands, reading a
//! command out of a message, and the help text.

use vstd::prelude::*;
use crate::updates::find_char;
use crate::utils::str_is;

verus! {

/// One chat command.
#[derive(Debug, PartialEq, Eq, Structural, Clone, Copy)]
pub enum Command {
    Start,
    Help,
    Balance,
    Subscribe,
    Subscriptions,
    Unsubscribe,
}

/// The bot's name; a command may be addressed to it explicitly, as in
/// `/help@Congruity`.
pub open spec fn spec_bot_suffix() -> Seq<char> {
    "@Congruity"@
}

/// The first whitespace-separated token of a message.
pub open spec fn first_token(s: Seq<char>) -> Seq<char> {
    match find_char(s, ' ', 0) {
        Some(i) => s.subrange(0, i),
        None => s,
    }
}

/// The token with an explicit bot-name suffix taken off.
pub open spec fn strip_bot_suffix(t: Seq<char>) -> Seq<char> {
    if t.len() >= spec_bot_suffix().len() && t.subrange(
        t.len() - spec_bot_suffix().len(),
        t.len() as int,
    ) == spec_bot_suffix() {
        t.subrange(0, t.len() - spec_bot_suffix().len())
    } else {
        t
    }
}

/// The command a token names.
pub open spec fn spec_command_of(t: Seq<char>) -> Option<Command> {
    if t == "/start"@ {
        Some(Command::Start)
    } else if t == "/help"@ {
        Some(Command::Help)
    } else if t == "/balance"@ {
        Some(Command::Balance)
    } else if t == "/subscribe"@ {
        Some(Command::Subscribe)
    } else if t == "/subscriptions"@ {
        Some(Command::Subscriptions)
    } else if t == "/unsubscribe"@ {
        Some(Command::Unsubscribe)
    } else {
        None
    }
}

/// What reading a command out of a message yields: the first token, less
/// an explicit bot-name suffix, must name a command.
pub open spec fn spec_parse_command(s: Seq<char>) -> Option<Command> {
    spec_command_of(strip_bot_suffix(first_token(s)))
}

/// Reads a command out of a message.
pub fn parse_command(text: &str) -> (r: Option<Command>)
    ensures
        r == spec_parse_command(text@),
{
    let n = text.unicode_len();
    let mut i: usize = 0;
    while i < n
        invariant
            n == text@.len(),
            0 <= i <= n,
            find_char(text@, ' ', 0) == find_char(text@, ' ', i as int),
        ensures
            n == text@.len(),
            0 <= i <= n,
            find_char(text@, ' ', 0) == (if i < n {
                Some(i as int)
            } else {
                None
            }),
        decreases n - i,
    {
        if text.get_char(i) == ' ' {
            break ;
        }
        i = i + 1;
    }
    let token = text.substring_char(0, i);
    proof {
        assert(token@ == first_token(text@));
    }
    let tn = token.unicode_len();
    let base: &str = if tn >= 10 {
        let tail = token.substring_char(tn - 10, tn);
        let t: String = tail.to_owned();
        if str_is(&t, "@Congruity") {
            token.substring_char(0, tn - 10)
        } else {
            token
        }
    } else {
        token
    };
    proof {
        reveal_strlit("@Congruity");
        assert(spec_bot_suffix().len() == 10);
        assert(base@ == strip_bot_suffix(token@));
    }
    let b: String = base.to_owned();
    if str_is(&b, "/start") {
        Some(Command::Start)
    } else if str_is(&b, "/help") {
        Some(Command::Help)
    } else if str_is(&b, "/balance") {
        Some(Command::Balance)
    } else if str_is(&b, "/subscribe") {
        Some(Command::Subscribe)
    } else if str_is(&b, "/subscriptions") {
        Some(Command::Subscriptions)
    } else if str_is(&b, "/unsubscribe") {
        Some(Command::Unsubscribe)
    } else {
        None
    }
}

/// The help text: every visible command with its description, one per
/// line.
pub open spec fn spec_help_text() -> Seq<char> {
    "/help - show help\n/balance - get current balance for an address\n/subscribe - subscribe to on-chain events for an address\n/subscriptions - list subscribed addresses\n/unsubscribe - unsubscribe from on-chain events"@
}

pub fn help_text() -> (r: String)
    ensures
        r@ == spec_help_text(),
{
    String::from_str(
        "/help - show help\n/balance - get current balance for an address\n/subscribe - subscribe to on-chain events for an address\n/subscriptions - list subscribed addresses\n/unsubscribe - unsubscribe from on-chain events",
    )
}

} // verus!
