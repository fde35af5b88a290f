//! A registered user: the four registration fields and an optional
//! nickname set later.  The structural hash over the fields is offered
//! for compatibility, but it is not an identity: the registry assigns
//! every user a permanent identifier at registration time instead.

use std::collections::hash_map::DefaultHasher;
use std::hash::Hasher;

use vstd::prelude::*;
use vstd::std_specs::hash::DefaultHasherAdditionalSpecFns;
use vstd::utf8::encode_utf8;

use crate::strutil::{find_char, scan_char};

verus! {

/// One user record.
#[derive(Debug, Clone, PartialEq, Hash)]
pub struct User {
    username: String,
    hostname: String,
    realname: String,
    server: String,
    nick: Option<String>,
}

/// The mathematical shape of a [`User`].
#[verifier::ext_equal]
pub ghost struct UserModel {
    pub username: Seq<char>,
    pub hostname: Seq<char>,
    pub realname: Seq<char>,
    pub server: Seq<char>,
    pub nick: Option<Seq<char>>,
}

impl View for User {
    type V = UserModel;

    closed spec fn view(&self) -> UserModel {
        UserModel {
            username: self.username@,
            hostname: self.hostname@,
            realname: self.realname@,
            server: self.server@,
            nick: self.nick.deep_view(),
        }
    }
}

/// The signature of a user on the wire: `nick!username@hostname` when a
/// nickname is set, `username@hostname` otherwise.
pub open spec fn spec_sig(u: UserModel) -> Seq<char> {
    match u.nick {
        Some(n) => n + "!"@ + u.username + "@"@ + u.hostname,
        None => u.username + "@"@ + u.hostname,
    }
}

/// What [`User::parse_sig`] recovers from a signature: an optional
/// nickname before the first `!`, then a username up to the first `@` of
/// the remainder, then the hostname.  Without an `@` the whole remainder
/// is the username and the hostname is empty.
pub open spec fn spec_parse_sig(s: Seq<char>) -> (Option<Seq<char>>, Seq<char>, Seq<char>) {
    let bang = find_char(s, '!');
    let rest = if bang >= 0 {
        s.subrange(bang + 1, s.len() as int)
    } else {
        s
    };
    let nick = if bang >= 0 {
        Some(s.take(bang))
    } else {
        None
    };
    let at = find_char(rest, '@');
    if at >= 0 {
        (nick, rest.take(at), rest.subrange(at + 1, rest.len() as int))
    } else {
        (nick, rest, Seq::<char>::empty())
    }
}

/// The sequence of byte strings that [`User::gen_hash`] feeds to the
/// hasher: the four registration fields, then a tag byte for the
/// nickname, then the nickname itself when set.
pub open spec fn spec_hash_writes(u: UserModel) -> Seq<Seq<u8>> {
    let base = seq![
        encode_utf8(u.username),
        encode_utf8(u.hostname),
        encode_utf8(u.realname),
        encode_utf8(u.server),
    ];
    match u.nick {
        None => base.push(seq![0u8]),
        Some(n) => base.push(seq![1u8]).push(encode_utf8(n)),
    }
}

impl User {
    /// A fresh user with no nickname.
    pub fn new(username: String, hostname: String, realname: String, server: String) -> (r: Self)
        ensures
            r@ == (UserModel {
                username: username@,
                hostname: hostname@,
                realname: realname@,
                server: server@,
                nick: None,
            }),
    {
        Self { username, hostname, realname, server, nick: None }
    }

    /// Sets the nickname; every other field keeps its value.
    pub fn nick(&mut self, nick: String)
        ensures
            final(self)@ == (UserModel { nick: Some(nick@), ..old(self)@ }),
    {
        self.nick = Some(nick);
    }

    /// The nickname, if one has been set.
    pub fn nickname(&self) -> (r: &Option<String>)
        ensures
            r.deep_view() == self@.nick,
    {
        &self.nick
    }

    /// A structural hash over all fields, as `spec_hash_writes` lays them
    /// out.  Two equal records hash equally; this is a convenience, not an
    /// identity.
    pub fn gen_hash(&self) -> (r: u64)
        ensures
            r == DefaultHasher::spec_finish(spec_hash_writes(self@)),
    {
        let mut hasher = DefaultHasher::new();
        hasher.write(self.username.as_str().as_bytes());
        hasher.write(self.hostname.as_str().as_bytes());
        hasher.write(self.realname.as_str().as_bytes());
        hasher.write(self.server.as_str().as_bytes());
        match &self.nick {
            None => {
                let mut tag: Vec<u8> = Vec::new();
                tag.push(0u8);
                hasher.write(tag.as_slice());
                proof {
                    assert(tag@ =~= seq![0u8]);
                    assert(hasher@ =~= spec_hash_writes(self@));
                }
            },
            Some(n) => {
                let mut tag: Vec<u8> = Vec::new();
                tag.push(1u8);
                hasher.write(tag.as_slice());
                hasher.write(n.as_str().as_bytes());
                proof {
                    assert(tag@ =~= seq![1u8]);
                    assert(hasher@ =~= spec_hash_writes(self@));
                }
            },
        }
        hasher.finish()
    }

    /// The signature `nick!username@hostname`, or `username@hostname`
    /// without a nickname.
    pub fn sig(&self) -> (r: String)
        ensures
            r@ == spec_sig(self@),
    {
        match &self.nick {
            Some(nick) => nick.clone().concat("!").concat(self.username.as_str()).concat(
                "@",
            ).concat(self.hostname.as_str()),
            None => self.username.clone().concat("@").concat(self.hostname.as_str()),
        }
    }

    /// The username.
    pub fn username(&self) -> (r: &str)
        ensures
            r@ == self@.username,
    {
        self.username.as_str()
    }

    /// Takes a signature apart again, as [`spec_parse_sig`] describes.
    pub fn parse_sig(sig: &str) -> (r: (Option<String>, String, String))
        ensures
            (r.0.deep_view(), r.1@, r.2@) == spec_parse_sig(sig@),
    {
        let n = sig.unicode_len();
        let (nick, rest): (Option<String>, &str) = match scan_char(sig, '!') {
            Some(bang) => (
                Some(sig.substring_char(0, bang).to_owned()),
                sig.substring_char(bang + 1, n),
            ),
            None => (None, sig),
        };
        let rn = rest.unicode_len();
        match scan_char(rest, '@') {
            Some(at) => (
                nick,
                rest.substring_char(0, at).to_owned(),
                rest.substring_char(at + 1, rn).to_owned(),
            ),
            None => (nick, rest.to_owned(), String::new()),
        }
    }
}

} // verus!
