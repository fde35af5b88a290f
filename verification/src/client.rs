//! Client-side input normalisation: a line beginning with `/` is a
//! command, whose verb (everything up to the first space) is
//! uppercased and whose leading slash and surrounding whitespace are
//! dropped; any other line is free chat text and passes through
//! verbatim.

use vstd::prelude::*;

use crate::command::CommandParseError;
use crate::strutil::{find_char, scan_char};

verus! {

/// The ASCII uppercase of a character: letters `a` to `z` are mapped up,
/// everything else is unchanged.
pub open spec fn to_upper(c: char) -> char {
    if 'a' <= c && c <= 'z' {
        (((c as u8) - 32) as char)
    } else {
        c
    }
}

/// Whitespace dropped from the ends of a normalised command line.
pub open spec fn is_space_char(c: char) -> bool {
    c == ' ' || c == '\t' || c == '\r' || c == '\n'
}

/// Drops leading whitespace.
pub open spec fn trim_front(s: Seq<char>) -> Seq<char>
    decreases s.len(),
{
    if s.len() > 0 && is_space_char(s[0]) {
        trim_front(s.drop_first())
    } else {
        s
    }
}

/// Drops trailing whitespace.
pub open spec fn trim_back(s: Seq<char>) -> Seq<char>
    decreases s.len(),
{
    if s.len() > 0 && is_space_char(s.last()) {
        trim_back(s.drop_last())
    } else {
        s
    }
}

/// Drops whitespace from both ends.
pub open spec fn trim_seq(s: Seq<char>) -> Seq<char> {
    trim_back(trim_front(s))
}

pub proof fn lemma_trim_front(s: Seq<char>, a: int)
    requires
        0 <= a <= s.len(),
        forall|j: int| 0 <= j < a ==> is_space_char(s[j]),
        a < s.len() ==> !is_space_char(s[a]),
    ensures
        trim_front(s) == s.skip(a),
    decreases a,
{
    if a == 0 {
        assert(s.skip(0) =~= s);
    } else {
        let t = s.drop_first();
        assert(forall|j: int| 0 <= j < a - 1 ==> t[j] == s[j + 1] && is_space_char(s[j + 1]));
        lemma_trim_front(t, a - 1);
        assert(t.skip(a - 1) =~= s.skip(a));
    }
}

pub proof fn lemma_trim_back(s: Seq<char>, b: int)
    requires
        -1 <= b < s.len(),
        forall|j: int| b < j < s.len() ==> is_space_char(s[j]),
        b >= 0 ==> !is_space_char(s[b]),
    ensures
        trim_back(s) == s.take(b + 1),
    decreases s.len(),
{
    if b + 1 == s.len() {
        assert(s.take(b + 1) =~= s);
    } else {
        let t = s.drop_last();
        assert(is_space_char(s.last()));
        assert(forall|j: int| b < j < t.len() ==> t[j] == s[j] && is_space_char(s[j]));
        assert(b >= 0 ==> t[b] == s[b]);
        lemma_trim_back(t, b);
        assert(t.take(b + 1) =~= s.take(b + 1));
    }
}

/// The body of a slash command with its verb uppercased: the characters
/// after the slash, each uppercased while it lies before the first
/// space of the whole line (with no space, the whole body).
pub open spec fn upcased(input: Seq<char>) -> Seq<char> {
    let sp = find_char(input, ' ');
    Seq::new(
        (input.len() - 1) as nat,
        |i: int|
            if sp < 0 || i + 1 < sp {
                to_upper(input[i + 1])
            } else {
                input[i + 1]
            },
    )
}

/// What normalising one input line yields: a `/`-line becomes its
/// uppercased, trimmed command form; anything else passes through.
pub open spec fn spec_parse_input(input: Seq<char>) -> Seq<char> {
    if input.len() > 0 && input[0] == '/' {
        trim_seq(upcased(input))
    } else {
        input
    }
}

/// Relies on `String::push`: it appends exactly one character.
#[verifier::external_body]
fn push_char(s: &mut String, c: char)
    ensures
        final(s)@ == old(s)@.push(c),
{
    s.push(c);
}

/// Turns raw console input into protocol lines for the session's
/// outbound stream.
pub struct CmdOperator {
    channel: String,
}

impl CmdOperator {
    /// An operator starting in the default channel.
    pub fn default() -> (r: Self)
        ensures
            r.channel_name() == "Welcome"@,
    {
        Self { channel: String::from_str("Welcome") }
    }

    /// The channel the operator considers current.
    pub closed spec fn channel_name(&self) -> Seq<char> {
        self.channel@
    }

    /// Normalises one input line, exactly as [`spec_parse_input`]
    /// describes.
    pub fn parse_input(input: String) -> (r: Result<String, CommandParseError>)
        ensures
            r matches Ok(s) && s@ == spec_parse_input(input@),
    {
        let s = input.as_str();
        let n = s.unicode_len();
        if n > 0 && s.get_char(0) == '/' {
            let sp = scan_char(s, ' ');
            let mut body = String::new();
            let ghost up = upcased(input@);
            let mut i: usize = 1;
            while i < n
                invariant
                    n == s@.len(),
                    s@ == input@,
                    1 <= i <= n,
                    up == upcased(input@),
                    up.len() == n - 1,
                    (match sp {
                        Some(k) => k == find_char(s@, ' ') && k < n,
                        None => find_char(s@, ' ') == -1,
                    }),
                    body@ =~= up.take(i - 1),
                decreases n - i,
            {
                let c = s.get_char(i);
                let upper = match sp {
                    Some(k) => {
                        if i < k {
                            Self::upper_char(c)
                        } else {
                            c
                        }
                    },
                    None => Self::upper_char(c),
                };
                push_char(&mut body, upper);
                proof {
                    assert(up.take(i as int) =~= up.take(i - 1).push(up[i - 1]));
                }
                i = i + 1;
            }
            proof {
                assert(body@ =~= up);
            }
            Ok(Self::trim_string(body.as_str()))
        } else {
            Ok(input)
        }
    }

    /// The ASCII uppercase of one character, as [`to_upper`] describes.
    fn upper_char(c: char) -> (r: char)
        ensures
            r == to_upper(c),
    {
        if 'a' <= c && c <= 'z' {
            ((c as u8) - 32) as char
        } else {
            c
        }
    }

    /// Whether the character is whitespace, as [`is_space_char`]
    /// describes.
    fn is_space(c: char) -> (r: bool)
        ensures
            r == is_space_char(c),
    {
        c == ' ' || c == '\t' || c == '\r' || c == '\n'
    }

    /// Drops whitespace from both ends, as [`trim_seq`] describes.
    fn trim_string(s: &str) -> (r: String)
        ensures
            r@ == trim_seq(s@),
    {
        let n = s.unicode_len();
        let mut a: usize = 0;
        while a < n && Self::is_space(s.get_char(a))
            invariant
                n == s@.len(),
                a <= n,
                forall|j: int| 0 <= j < a ==> is_space_char(s@[j]),
            decreases n - a,
        {
            a = a + 1;
        }
        proof {
            lemma_trim_front(s@, a as int);
        }
        if a == n {
            proof {
                assert(s@.skip(n as int) =~= Seq::<char>::empty());
                assert(trim_back(Seq::<char>::empty()) =~= Seq::<char>::empty());
            }
            return String::new();
        }
        let mut b: usize = n - 1;
        while b > a && Self::is_space(s.get_char(b))
            invariant
                n == s@.len(),
                a <= b < n,
                forall|j: int| b < j < n ==> is_space_char(s@[j]),
            decreases b,
        {
            b = b - 1;
        }
        proof {
            let front = s@.skip(a as int);
            assert(!is_space_char(s@[a as int]));
            assert(forall|j: int|
                0 <= j < front.len() ==> front[j] == s@[j + a]);
            lemma_trim_back(front, b - a);
            assert(front.take(b - a + 1) =~= s@.subrange(a as int, b as int + 1));
        }
        s.substring_char(a, b + 1).to_owned()
    }
}

} // verus!
