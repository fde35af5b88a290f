//! The command grammar: a command section (verb plus space-separated
//! arguments, list arguments comma-split) is parsed into one tagged
//! variant per protocol verb, with a catch-all `RAW` variant for
//! unknown verbs and free chat text.

use vstd::prelude::*;

use crate::strutil::{split_on, lemma_split_on_len, split_string, str_eq};

verus! {

/// Channel flags, one per mode character.
#[allow(missing_docs)]
#[derive(Debug, Clone, PartialEq, Eq)]
pub enum ChannelMode {
    /// o = change operator permissions
    OperatorPrivileges,
    /// p = private channel
    PrivateChannel,
    /// s = secret channel
    SecretChannel,
    /// i = invite only channel
    InviteOnly,
    /// t = topic settable by operator only
    TopicSettability,
    /// n = no messages to the channel from outside clients
    NoOutSideClients,
    /// m = moderated channel
    ModeratedChannel,
    /// l = set user limit
    UserLimit,
    /// b = set a ban mask
    BanSet,
    /// v = toggle the ability to speak on a moderated channel
    VoiceToggle,
    /// k = set a channel key / password
    ChannelPassword,
    /// unrecognized character
    Unknown(char),
}

/// User flags, one per mode character.
#[derive(Debug, Clone, PartialEq, Eq)]
pub enum UserMode {
    /// i = invisible
    Invisible,
    /// s = receives server notices
    NoticeList,
    /// w = user receives wallops
    Wallops,
    /// o = operator: user is an operator
    Operator,
    /// a = away
    Away,
    /// r = restricted
    Restricted,
    /// x = user host is hidden
    MaskedHost,
    /// unknown character
    Unknown(char),
}

/// A family of mode tags, each derived from a single mode character by a
/// fixed lookup table.
pub trait ModeTrait: Sized + core::fmt::Debug + Clone + PartialEq + Eq {
    /// The table itself: which tag a character stands for.
    spec fn spec_from_char(c: char) -> Self;

    /// Looks the character up in the table.
    fn from_char(c: char) -> (r: Self)
        ensures
            r == Self::spec_from_char(c),
    ;
}

impl ModeTrait for ChannelMode {
    open spec fn spec_from_char(c: char) -> Self {
        if c == 'o' {
            Self::OperatorPrivileges
        } else if c == 'p' {
            Self::PrivateChannel
        } else if c == 's' {
            Self::SecretChannel
        } else if c == 'i' {
            Self::InviteOnly
        } else if c == 't' {
            Self::TopicSettability
        } else if c == 'n' {
            Self::NoOutSideClients
        } else if c == 'm' {
            Self::ModeratedChannel
        } else if c == 'l' {
            Self::UserLimit
        } else if c == 'b' {
            Self::BanSet
        } else if c == 'v' {
            Self::VoiceToggle
        } else if c == 'k' {
            Self::ChannelPassword
        } else {
            Self::Unknown(c)
        }
    }

    fn from_char(c: char) -> (r: Self) {
        match c {
            'o' => Self::OperatorPrivileges,
            'p' => Self::PrivateChannel,
            's' => Self::SecretChannel,
            'i' => Self::InviteOnly,
            't' => Self::TopicSettability,
            'n' => Self::NoOutSideClients,
            'm' => Self::ModeratedChannel,
            'l' => Self::UserLimit,
            'b' => Self::BanSet,
            'v' => Self::VoiceToggle,
            'k' => Self::ChannelPassword,
            _ => Self::Unknown(c),
        }
    }
}

impl ModeTrait for UserMode {
    open spec fn spec_from_char(c: char) -> Self {
        if c == 'i' {
            Self::Invisible
        } else if c == 's' {
            Self::NoticeList
        } else if c == 'w' {
            Self::Wallops
        } else if c == 'o' {
            Self::Operator
        } else if c == 'a' {
            Self::Away
        } else if c == 'r' {
            Self::Restricted
        } else if c == 'x' {
            Self::MaskedHost
        } else {
            Self::Unknown(c)
        }
    }

    fn from_char(c: char) -> (r: Self) {
        match c {
            'i' => Self::Invisible,
            's' => Self::NoticeList,
            'w' => Self::Wallops,
            'o' => Self::Operator,
            'a' => Self::Away,
            'r' => Self::Restricted,
            'x' => Self::MaskedHost,
            _ => Self::Unknown(c),
        }
    }
}

/// A mode change: a tag is either added or removed.
#[derive(Debug, Clone, PartialEq, Eq)]
pub enum Mode<T: ModeTrait> {
    Add(T),
    Sub(T),
}

/// Why a line could not be parsed.
#[derive(Debug, Clone)]
pub enum CommandParseError {
    /// A required argument for the command is missing.
    MissingArgument,
    /// No recognized command was identified in the given text.
    NoCommandFound(String),
    /// The text handed to the parser is empty.
    EmptyString,
    /// The message holds only a prefix and no command.
    PrefixOnly(String),
    /// More than the permitted number of bytes accumulated without a
    /// line terminator.
    LineTooLong,
    /// A framed line is not valid text.
    EncodingError,
}

/// The mathematical shape of a parse failure.
pub ghost enum ParseErrModel {
    MissingArgument,
    NoCommandFound(Seq<char>),
    EmptyString,
    PrefixOnly(Seq<char>),
    LineTooLong,
    EncodingError,
}

impl View for CommandParseError {
    type V = ParseErrModel;

    open spec fn view(&self) -> ParseErrModel {
        match self {
            CommandParseError::MissingArgument => ParseErrModel::MissingArgument,
            CommandParseError::NoCommandFound(s) => ParseErrModel::NoCommandFound(s@),
            CommandParseError::EmptyString => ParseErrModel::EmptyString,
            CommandParseError::PrefixOnly(s) => ParseErrModel::PrefixOnly(s@),
            CommandParseError::LineTooLong => ParseErrModel::LineTooLong,
            CommandParseError::EncodingError => ParseErrModel::EncodingError,
        }
    }
}

/// One variant per protocol verb, plus the catch-all `RAW`.  Only the
/// verbs of the registration, channel, and miscellaneous sections are
/// produced by the parser today; the remaining variants complete the
/// protocol surface for callers that construct commands directly.
#[allow(non_camel_case_types)]
#[derive(Clone, Debug, PartialEq, Eq)]
pub enum Command {
    /// PASS :password
    PASS(String),
    /// NICK :nickname
    NICK(String),
    /// USER username hostname servername realname
    USER(String, String, String, String),
    /// OPER name :password
    OPER(String, String),
    /// MODE nickname modes
    UserMode(String, Vec<Mode<UserMode>>),
    /// SERVICE nickname reserved distribution type reserved :info
    SERVICE(String, String, String, String, String, String),
    /// QUIT :comment
    QUIT(Option<String>),
    /// SQUIT server :comment
    SQUIT(String, String),
    /// JOIN chanlist chankeys :realname — joins the channels, or switches
    /// the active channel when already joined
    JOIN(Vec<String>, Vec<String>, Option<String>),
    /// PART chanlist :comment
    PART(Vec<String>, Option<String>),
    /// set channel modes
    ChannelMode(String, Vec<Mode<ChannelMode>>),
    /// TOPIC channel :topic
    TOPIC(String, Option<String>),
    /// NAMES chanlist :target
    NAMES(Vec<String>, Option<String>),
    /// LIST chanlist :target
    LIST(Vec<String>, Option<String>),
    /// INVITE nickname channel
    INVITE(String, String),
    /// KICK chanlist userlist :comment
    KICK(String, String, Option<String>),
    /// PRIVMSG msgtarget :message
    PRIVMSG(String, String),
    /// NOTICE msgtarget :message
    NOTICE(String, String),
    /// used internally to carry a numeric response code
    RESPONSE(u16),
    /// MOTD :target
    MOTD(Option<String>),
    /// LUSERS mask :target
    LUSERS(Option<String>, Option<String>),
    /// VERSION :target
    VERSION(Option<String>),
    /// STATS query :target
    STATS(Option<String>, Option<String>),
    /// LINKS remote-server server :mask
    LINKS(Option<String>, Option<String>),
    /// TIME :target
    TIME(Option<String>),
    /// CONNECT target server port :remote server
    CONNECT(String, String, Option<String>),
    /// TRACE :target
    TRACE(Option<String>),
    /// ADMIN :target
    ADMIN(Option<String>),
    /// INFO :target
    INFO(Option<String>),
    /// SERVLIST mask :type
    SERVLIST(Option<String>, Option<String>),
    /// SQUERY servicename text
    SQUERY(String, String),
    /// WHO mask o
    WHO(Option<String>, Option<bool>),
    /// WHOIS target masklist
    WHOIS(Option<String>, String),
    /// WHOWAS nicklist count :target
    WHOWAS(String, Option<String>, Option<String>),
    /// KILL nickname :comment
    KILL(String, String),
    /// PING server1 :server2
    PING(String, Option<String>),
    /// PONG server :server2
    PONG(String, Option<String>),
    /// ERROR :message
    ERROR(String),
    /// AWAY :message
    AWAY(Option<String>),
    /// REHASH
    REHASH,
    /// DIE
    DIE,
    /// RESTART
    RESTART,
    /// SUMMON user target :channel
    SUMMON(String, Option<String>, Option<String>),
    /// USERS :target
    USERS(Option<String>),
    /// WALLOPS :text to be sent
    WALLOPS(String),
    /// USERHOST space-separated nicklist
    USERHOST(Vec<String>),
    /// ISON space-separated nicklist
    ISON(Vec<String>),
    /// Catch-all for unknown verbs and free chat text.
    RAW,
}

/// The mathematical shape of a [`Command`], with every string replaced by
/// its character sequence.
#[allow(non_camel_case_types)]
pub ghost enum CommandModel {
    PASS(Seq<char>),
    NICK(Seq<char>),
    USER(Seq<char>, Seq<char>, Seq<char>, Seq<char>),
    OPER(Seq<char>, Seq<char>),
    UserMode(Seq<char>, Seq<Mode<UserMode>>),
    SERVICE(Seq<char>, Seq<char>, Seq<char>, Seq<char>, Seq<char>, Seq<char>),
    QUIT(Option<Seq<char>>),
    SQUIT(Seq<char>, Seq<char>),
    JOIN(Seq<Seq<char>>, Seq<Seq<char>>, Option<Seq<char>>),
    PART(Seq<Seq<char>>, Option<Seq<char>>),
    ChannelMode(Seq<char>, Seq<Mode<ChannelMode>>),
    TOPIC(Seq<char>, Option<Seq<char>>),
    NAMES(Seq<Seq<char>>, Option<Seq<char>>),
    LIST(Seq<Seq<char>>, Option<Seq<char>>),
    INVITE(Seq<char>, Seq<char>),
    KICK(Seq<char>, Seq<char>, Option<Seq<char>>),
    PRIVMSG(Seq<char>, Seq<char>),
    NOTICE(Seq<char>, Seq<char>),
    RESPONSE(u16),
    MOTD(Option<Seq<char>>),
    LUSERS(Option<Seq<char>>, Option<Seq<char>>),
    VERSION(Option<Seq<char>>),
    STATS(Option<Seq<char>>, Option<Seq<char>>),
    LINKS(Option<Seq<char>>, Option<Seq<char>>),
    TIME(Option<Seq<char>>),
    CONNECT(Seq<char>, Seq<char>, Option<Seq<char>>),
    TRACE(Option<Seq<char>>),
    ADMIN(Option<Seq<char>>),
    INFO(Option<Seq<char>>),
    SERVLIST(Option<Seq<char>>, Option<Seq<char>>),
    SQUERY(Seq<char>, Seq<char>),
    WHO(Option<Seq<char>>, Option<bool>),
    WHOIS(Option<Seq<char>>, Seq<char>),
    WHOWAS(Seq<char>, Option<Seq<char>>, Option<Seq<char>>),
    KILL(Seq<char>, Seq<char>),
    PING(Seq<char>, Option<Seq<char>>),
    PONG(Seq<char>, Option<Seq<char>>),
    ERROR(Seq<char>),
    AWAY(Option<Seq<char>>),
    REHASH,
    DIE,
    RESTART,
    SUMMON(Seq<char>, Option<Seq<char>>, Option<Seq<char>>),
    USERS(Option<Seq<char>>),
    WALLOPS(Seq<char>),
    USERHOST(Seq<Seq<char>>),
    ISON(Seq<Seq<char>>),
    RAW,
}

impl View for Command {
    type V = CommandModel;

    open spec fn view(&self) -> CommandModel {
        match self {
            Command::PASS(a) => CommandModel::PASS(a@),
            Command::NICK(a) => CommandModel::NICK(a@),
            Command::USER(a, b, c, d) => CommandModel::USER(a@, b@, c@, d@),
            Command::OPER(a, b) => CommandModel::OPER(a@, b@),
            Command::UserMode(a, b) => CommandModel::UserMode(a@, b@),
            Command::SERVICE(a, b, c, d, e, f) => CommandModel::SERVICE(a@, b@, c@, d@, e@, f@),
            Command::QUIT(a) => CommandModel::QUIT(a.deep_view()),
            Command::SQUIT(a, b) => CommandModel::SQUIT(a@, b@),
            Command::JOIN(a, b, c) => CommandModel::JOIN(a.deep_view(), b.deep_view(), c.deep_view()),
            Command::PART(a, b) => CommandModel::PART(a.deep_view(), b.deep_view()),
            Command::ChannelMode(a, b) => CommandModel::ChannelMode(a@, b@),
            Command::TOPIC(a, b) => CommandModel::TOPIC(a@, b.deep_view()),
            Command::NAMES(a, b) => CommandModel::NAMES(a.deep_view(), b.deep_view()),
            Command::LIST(a, b) => CommandModel::LIST(a.deep_view(), b.deep_view()),
            Command::INVITE(a, b) => CommandModel::INVITE(a@, b@),
            Command::KICK(a, b, c) => CommandModel::KICK(a@, b@, c.deep_view()),
            Command::PRIVMSG(a, b) => CommandModel::PRIVMSG(a@, b@),
            Command::NOTICE(a, b) => CommandModel::NOTICE(a@, b@),
            Command::RESPONSE(a) => CommandModel::RESPONSE(*a),
            Command::MOTD(a) => CommandModel::MOTD(a.deep_view()),
            Command::LUSERS(a, b) => CommandModel::LUSERS(a.deep_view(), b.deep_view()),
            Command::VERSION(a) => CommandModel::VERSION(a.deep_view()),
            Command::STATS(a, b) => CommandModel::STATS(a.deep_view(), b.deep_view()),
            Command::LINKS(a, b) => CommandModel::LINKS(a.deep_view(), b.deep_view()),
            Command::TIME(a) => CommandModel::TIME(a.deep_view()),
            Command::CONNECT(a, b, c) => CommandModel::CONNECT(a@, b@, c.deep_view()),
            Command::TRACE(a) => CommandModel::TRACE(a.deep_view()),
            Command::ADMIN(a) => CommandModel::ADMIN(a.deep_view()),
            Command::INFO(a) => CommandModel::INFO(a.deep_view()),
            Command::SERVLIST(a, b) => CommandModel::SERVLIST(a.deep_view(), b.deep_view()),
            Command::SQUERY(a, b) => CommandModel::SQUERY(a@, b@),
            Command::WHO(a, b) => CommandModel::WHO(a.deep_view(), *b),
            Command::WHOIS(a, b) => CommandModel::WHOIS(a.deep_view(), b@),
            Command::WHOWAS(a, b, c) => CommandModel::WHOWAS(a@, b.deep_view(), c.deep_view()),
            Command::KILL(a, b) => CommandModel::KILL(a@, b@),
            Command::PING(a, b) => CommandModel::PING(a@, b.deep_view()),
            Command::PONG(a, b) => CommandModel::PONG(a@, b.deep_view()),
            Command::ERROR(a) => CommandModel::ERROR(a@),
            Command::AWAY(a) => CommandModel::AWAY(a.deep_view()),
            Command::REHASH => CommandModel::REHASH,
            Command::DIE => CommandModel::DIE,
            Command::RESTART => CommandModel::RESTART,
            Command::SUMMON(a, b, c) => CommandModel::SUMMON(a@, b.deep_view(), c.deep_view()),
            Command::USERS(a) => CommandModel::USERS(a.deep_view()),
            Command::WALLOPS(a) => CommandModel::WALLOPS(a@),
            Command::USERHOST(a) => CommandModel::USERHOST(a.deep_view()),
            Command::ISON(a) => CommandModel::ISON(a.deep_view()),
            Command::RAW => CommandModel::RAW,
        }
    }
}

/// The token at index `i`, if there is one.
pub open spec fn opt_tok(toks: Seq<Seq<char>>, i: int) -> Option<Seq<char>> {
    if toks.len() > i {
        Some(toks[i])
    } else {
        None
    }
}

/// The token at index `i` comma-split into a list, or the empty list if
/// there is no such token.
pub open spec fn list_tok(toks: Seq<Seq<char>>, i: int) -> Seq<Seq<char>> {
    if toks.len() > i {
        split_on(toks[i], ',')
    } else {
        Seq::empty()
    }
}

/// The verb dispatch over an already-tokenised command section.  The first
/// token selects the variant by exact, case-sensitive match; each verb then
/// takes its fixed arity of required, optional, and comma-split arguments.
/// Unknown verbs yield `RAW`.
pub open spec fn spec_match_field(toks: Seq<Seq<char>>) -> Result<CommandModel, ParseErrModel> {
    let verb = toks[0];
    if verb == "PASS"@ {
        if toks.len() >= 2 {
            Ok(CommandModel::PASS(toks[1]))
        } else {
            Err(ParseErrModel::MissingArgument)
        }
    } else if verb == "NICK"@ {
        if toks.len() >= 2 {
            Ok(CommandModel::NICK(toks[1]))
        } else {
            Err(ParseErrModel::MissingArgument)
        }
    } else if verb == "JOIN"@ {
        if toks.len() >= 2 {
            Ok(CommandModel::JOIN(split_on(toks[1], ','), list_tok(toks, 2), opt_tok(toks, 3)))
        } else {
            Err(ParseErrModel::MissingArgument)
        }
    } else if verb == "LIST"@ {
        Ok(CommandModel::LIST(list_tok(toks, 1), opt_tok(toks, 2)))
    } else if verb == "PART"@ {
        Ok(CommandModel::PART(list_tok(toks, 1), opt_tok(toks, 2)))
    } else if verb == "QUIT"@ {
        Ok(CommandModel::QUIT(opt_tok(toks, 1)))
    } else if verb == "USER"@ {
        if toks.len() >= 5 {
            Ok(CommandModel::USER(toks[1], toks[2], toks[3], toks[4]))
        } else {
            Err(ParseErrModel::MissingArgument)
        }
    } else if verb == "PING"@ {
        if toks.len() >= 2 {
            Ok(CommandModel::PING(toks[1], opt_tok(toks, 2)))
        } else {
            Err(ParseErrModel::MissingArgument)
        }
    } else if verb == "PONG"@ {
        if toks.len() >= 2 {
            Ok(CommandModel::PONG(toks[1], opt_tok(toks, 2)))
        } else {
            Err(ParseErrModel::MissingArgument)
        }
    } else if verb == "NAMES"@ {
        Ok(CommandModel::NAMES(list_tok(toks, 1), opt_tok(toks, 2)))
    } else {
        Ok(CommandModel::RAW)
    }
}

/// What parsing a command section yields: the section is space-split, an
/// empty verb is rejected, and the verb dispatch of [`spec_match_field`]
/// decides the rest.
pub open spec fn spec_parse_command(s: Seq<char>) -> Result<CommandModel, ParseErrModel> {
    let toks = split_on(s, ' ');
    if toks[0].len() == 0 {
        Err(ParseErrModel::EmptyString)
    } else {
        spec_match_field(toks)
    }
}

/// The view of a parse result, for stating contracts.
pub open spec fn cmd_result_view(r: Result<Command, CommandParseError>) -> Result<
    CommandModel,
    ParseErrModel,
> {
    match r {
        Ok(c) => Ok(c@),
        Err(e) => Err(e@),
    }
}

impl Command {
    /// Parses a command section into a [`Command`], exactly as
    /// [`spec_parse_command`] describes.
    pub fn parse(command_str: &str) -> (r: Result<Command, CommandParseError>)
        ensures
            cmd_result_view(r) == spec_parse_command(command_str@),
    {
        let toks = split_string(command_str, ' ');
        proof {
            lemma_split_on_len(command_str@, ' ');
        }
        let field = toks[0].clone();
        if field.as_str().is_empty() {
            return Err(CommandParseError::EmptyString);
        }
        Self::match_field(field.as_str(), &toks)
    }

    /// The required single argument at index `i`: the token itself, or
    /// `MissingArgument` if absent.
    fn grab_arg(args: &Vec<String>, i: usize) -> (r: Result<String, CommandParseError>)
        ensures
            match r {
                Ok(s) => opt_tok(args.deep_view(), i as int) == Some(s@),
                Err(e) => opt_tok(args.deep_view(), i as int) is None && e@
                    == ParseErrModel::MissingArgument,
            },
    {
        if i < args.len() {
            Ok(args[i].clone())
        } else {
            Err(CommandParseError::MissingArgument)
        }
    }

    /// The required comma-split list argument at index `i`, or
    /// `MissingArgument` if absent.
    fn grab_required_args(args: &Vec<String>, i: usize) -> (r: Result<
        Vec<String>,
        CommandParseError,
    >)
        ensures
            match r {
                Ok(v) => args.deep_view().len() > i && v.deep_view() == split_on(
                    args.deep_view()[i as int],
                    ',',
                ),
                Err(e) => args.deep_view().len() <= i && e@ == ParseErrModel::MissingArgument,
            },
    {
        if i < args.len() {
            Ok(split_string(args[i].as_str(), ','))
        } else {
            Err(CommandParseError::MissingArgument)
        }
    }

    /// The optional comma-split list argument at index `i`, defaulting to
    /// the empty list.
    fn grab_args(args: &Vec<String>, i: usize) -> (r: Vec<String>)
        ensures
            r.deep_view() == list_tok(args.deep_view(), i as int),
    {
        if i < args.len() {
            split_string(args[i].as_str(), ',')
        } else {
            let empty: Vec<String> = Vec::new();
            proof {
                assert(empty.deep_view() =~= Seq::<Seq<char>>::empty());
            }
            empty
        }
    }

    /// The optional single argument at index `i`.
    fn opt_arg(args: &Vec<String>, i: usize) -> (r: Option<String>)
        ensures
            r.deep_view() == opt_tok(args.deep_view(), i as int),
    {
        if i < args.len() {
            Some(args[i].clone())
        } else {
            None
        }
    }

    /// Dispatches on the verb token, as [`spec_match_field`] describes.
    fn match_field(field: &str, toks: &Vec<String>) -> (r: Result<Command, CommandParseError>)
        requires
            toks.deep_view().len() >= 1,
            field@ == toks.deep_view()[0],
            field@.len() != 0,
        ensures
            cmd_result_view(r) == spec_match_field(toks.deep_view()),
    {
        if str_eq(field, "PASS") {
            let a = match Self::grab_arg(toks, 1) {
                Ok(v) => v,
                Err(e) => {
                    return Err(e);
                },
            };
            Ok(Command::PASS(a))
        } else if str_eq(field, "NICK") {
            let a = match Self::grab_arg(toks, 1) {
                Ok(v) => v,
                Err(e) => {
                    return Err(e);
                },
            };
            Ok(Command::NICK(a))
        } else if str_eq(field, "JOIN") {
            let chans = match Self::grab_required_args(toks, 1) {
                Ok(v) => v,
                Err(e) => {
                    return Err(e);
                },
            };
            let keys = Self::grab_args(toks, 2);
            let trailing = Self::opt_arg(toks, 3);
            Ok(Command::JOIN(chans, keys, trailing))
        } else if str_eq(field, "LIST") {
            Ok(Command::LIST(Self::grab_args(toks, 1), Self::opt_arg(toks, 2)))
        } else if str_eq(field, "PART") {
            Ok(Command::PART(Self::grab_args(toks, 1), Self::opt_arg(toks, 2)))
        } else if str_eq(field, "QUIT") {
            Ok(Command::QUIT(Self::opt_arg(toks, 1)))
        } else if str_eq(field, "USER") {
            let a = match Self::grab_arg(toks, 1) {
                Ok(v) => v,
                Err(e) => {
                    return Err(e);
                },
            };
            let b = match Self::grab_arg(toks, 2) {
                Ok(v) => v,
                Err(e) => {
                    return Err(e);
                },
            };
            let c = match Self::grab_arg(toks, 3) {
                Ok(v) => v,
                Err(e) => {
                    return Err(e);
                },
            };
            let d = match Self::grab_arg(toks, 4) {
                Ok(v) => v,
                Err(e) => {
                    return Err(e);
                },
            };
            Ok(Command::USER(a, b, c, d))
        } else if str_eq(field, "PING") {
            let a = match Self::grab_arg(toks, 1) {
                Ok(v) => v,
                Err(e) => {
                    return Err(e);
                },
            };
            Ok(Command::PING(a, Self::opt_arg(toks, 2)))
        } else if str_eq(field, "PONG") {
            let a = match Self::grab_arg(toks, 1) {
                Ok(v) => v,
                Err(e) => {
                    return Err(e);
                },
            };
            Ok(Command::PONG(a, Self::opt_arg(toks, 2)))
        } else if str_eq(field, "NAMES") {
            Ok(Command::NAMES(Self::grab_args(toks, 1), Self::opt_arg(toks, 2)))
        } else {
            Ok(Command::RAW)
        }
    }
}

} // verus!
