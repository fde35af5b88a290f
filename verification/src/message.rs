//! The message grammar: one framed line is parsed into an optional
//! prefix, a command, an optional trailing parameter, and the raw text
//! kept for chat delivery.
//!
//! The prefix is introduced by a leading colon and ends at the first
//! space.  The trailing parameter begins only at a space immediately
//! followed by a colon, never at a bare colon embedded in an earlier
//! token, and runs verbatim to the end of the line.

use vstd::prelude::*;

use crate::command::{
    cmd_result_view, spec_parse_command, Command, CommandModel, CommandParseError, ParseErrModel,
};
use crate::strutil::{find_char, find_trailing, scan_char, scan_trailing};

verus! {

/// One parsed protocol line.
#[derive(Debug, Clone)]
pub struct Message {
    /// The origin of the message, without its leading colon.
    prefix: Option<String>,
    command: Command,
    trailing: Option<String>,
    raw: String,
}

/// The mathematical shape of a [`Message`].
#[verifier::ext_equal]
pub ghost struct MessageModel {
    pub prefix: Option<Seq<char>>,
    pub command: CommandModel,
    pub trailing: Option<Seq<char>>,
    pub raw: Seq<char>,
}

impl View for Message {
    type V = MessageModel;

    closed spec fn view(&self) -> MessageModel {
        MessageModel {
            prefix: self.prefix.deep_view(),
            command: self.command@,
            trailing: self.trailing.deep_view(),
            raw: self.raw@,
        }
    }
}

/// Splits the remainder of a line into its command section and optional
/// trailing text at the first space-colon pair; the two delimiter
/// characters belong to neither part.
pub open spec fn spec_split_trailing(rest: Seq<char>) -> (Seq<char>, Option<Seq<char>>) {
    let t = find_trailing(rest);
    if t >= 0 {
        (rest.take(t), Some(rest.subrange(t + 2, rest.len() as int)))
    } else {
        (rest, None)
    }
}

/// Parses what follows the prefix: the trailing text is split off, the
/// command section goes through the command grammar, and the raw text is
/// the whole remainder for `RAW` (free chat text) or the command section
/// otherwise.
pub open spec fn spec_parse_rest(prefix: Option<Seq<char>>, rest: Seq<char>) -> Result<
    MessageModel,
    ParseErrModel,
> {
    let (cmd_sec, trailing) = spec_split_trailing(rest);
    match spec_parse_command(cmd_sec) {
        Err(e) => Err(e),
        Ok(c) => Ok(
            MessageModel {
                prefix,
                command: c,
                trailing,
                raw: if c is RAW {
                    rest
                } else {
                    cmd_sec
                },
            },
        ),
    }
}

/// What parsing one line yields.  A line opening with a colon carries a
/// prefix up to the first space; a prefix with nothing after it is
/// rejected as `PrefixOnly`.
pub open spec fn spec_parse_message(line: Seq<char>) -> Result<MessageModel, ParseErrModel> {
    if line.len() > 0 && line[0] == ':' {
        let sp = find_char(line, ' ');
        if sp < 0 {
            Err(ParseErrModel::PrefixOnly(line))
        } else {
            spec_parse_rest(Some(line.subrange(1, sp)), line.subrange(sp + 1, line.len() as int))
        }
    } else {
        spec_parse_rest(None, line)
    }
}

/// The view of a message parse result, for stating contracts.
pub open spec fn msg_result_view(r: Result<Message, CommandParseError>) -> Result<
    MessageModel,
    ParseErrModel,
> {
    match r {
        Ok(m) => Ok(m@),
        Err(e) => Err(e@),
    }
}

impl Message {
    /// Parses one line, exactly as [`spec_parse_message`] describes.
    pub fn parse(message_str: String) -> (r: Result<Self, CommandParseError>)
        ensures
            msg_result_view(r) == spec_parse_message(message_str@),
    {
        let s = message_str.as_str();
        let n = s.unicode_len();
        let (prefix, rest): (Option<String>, &str) = if n > 0 && s.get_char(0) == ':' {
            match scan_char(s, ' ') {
                None => {
                    return Err(CommandParseError::PrefixOnly(message_str));
                },
                Some(sp) => {
                    let p = s.substring_char(1, sp).to_owned();
                    (Some(p), s.substring_char(sp + 1, n))
                },
            }
        } else {
            (None, s)
        };
        let rn = rest.unicode_len();
        let (cmd_sec, trailing): (&str, Option<String>) = match scan_trailing(rest) {
            Some(t) => (rest.substring_char(0, t), Some(rest.substring_char(t + 2, rn).to_owned())),
            None => (rest, None),
        };
        proof {
            assert(rest@.subrange(0, rest@.len() as int) =~= rest@);
        }
        let command = match Command::parse(cmd_sec) {
            Ok(c) => c,
            Err(e) => {
                return Err(e);
            },
        };
        let raw = match &command {
            Command::RAW => rest.to_owned(),
            _ => cmd_sec.to_owned(),
        };
        Ok(Message { prefix, command, trailing, raw })
    }

    /// The origin of the message, if the line carried a prefix.
    pub fn prefix(&self) -> (r: Option<&str>)
        ensures
            match r {
                Some(p) => self@.prefix == Some(p@),
                None => self@.prefix is None,
            },
    {
        match &self.prefix {
            Some(prefix) => Some(prefix.as_str()),
            None => None,
        }
    }

    /// The raw text kept for chat delivery: the whole remainder after the
    /// prefix for free text, the command section otherwise.
    pub fn raw_message(&self) -> (r: &str)
        ensures
            r@ == self@.raw,
    {
        self.raw.as_str()
    }

    /// The parsed command.
    pub fn command(&self) -> (r: &Command)
        ensures
            r@ == self@.command,
    {
        &self.command
    }

    /// The trailing parameter, if the line carried one.
    pub fn trailing(&self) -> (r: Option<&str>)
        ensures
            match r {
                Some(t) => self@.trailing == Some(t@),
                None => self@.trailing is None,
            },
    {
        match &self.trailing {
            Some(trailing) => Some(trailing.as_str()),
            None => None,
        }
    }
}

} // verus!
