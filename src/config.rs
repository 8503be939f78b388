//! Process settings: the check interval, the stored credentials record and the
//! command line's shape.

use vstd::prelude::*;

verus! {

/// Minutes between two cycles when no valid interval is configured.
pub const DEFAULT_INTERVAL_MINUTES: u64 = 60;

/// The command line: one subcommand.
pub struct Cli {
    pub command: Commands,
}

/// The subcommands.
pub enum Commands {
    /// Store credentials; `skip_encryption` keeps the password in the
    /// configuration file instead of the system keyring.
    Credentials { skip_encryption: bool },
    /// Show grades once; `current` picks today's semester instead of asking.
    Grades { current: bool },
    /// Run the daemon.
    Start,
}

/// The stored credentials record. The password is present only when it is
/// kept in the file; otherwise it lives in the system keyring.
pub struct Config {
    pub username: String,
    pub password: Option<String>,
}

/// Where the password of a stored record is to be read.
pub enum PasswordSource {
    /// The record holds it.
    File(String),
    /// The system keyring holds it, under the record's username.
    Keyring,
}

impl Config {
    /// The record to store for `username` and `password`: the password goes
    /// into the record only when encryption is skipped.
    pub fn for_storage(username: &str, password: &str, skip_encryption: bool) -> (r: Config)
        ensures
            r.username@ == username@,
            skip_encryption ==> (r.password matches Some(p) && p@ == password@),
            !skip_encryption ==> r.password is None,
    {
        Config {
            username: String::from_str(username),
            password: if skip_encryption {
                Some(String::from_str(password))
            } else {
                None
            },
        }
    }

    /// Where the password is to be read: the record first, then the keyring.
    pub fn password_source(&self) -> (r: PasswordSource)
        ensures
            match self.password {
                Some(p) => r matches PasswordSource::File(q) && q@ == p@,
                None => r is Keyring,
            },
    {
        match &self.password {
            Some(p) => PasswordSource::File(p.clone()),
            None => PasswordSource::Keyring,
        }
    }
}

/// A character is an ASCII decimal digit.
pub open spec fn is_digit(c: char) -> bool {
    '0' <= c && c <= '9'
}

/// Value of a decimal digit character.
pub open spec fn digit_value(c: char) -> int {
    (c as int) - ('0' as int)
}

/// Value of a string of decimal digits, most significant first.
pub open spec fn digits_value(s: Seq<char>) -> int
    decreases s.len(),
{
    if s.len() == 0 {
        0
    } else {
        digits_value(s.drop_last()) * 10 + digit_value(s.last())
    }
}

/// The digits of an unsigned number's text: all of it, or what follows a
/// leading `+`.
pub open spec fn unsigned_digits(s: Seq<char>) -> Seq<char> {
    if s.len() > 0 && s[0] == '+' {
        s.drop_first()
    } else {
        s
    }
}

/// The `u64` that a text denotes: an optional `+` and at least one decimal
/// digit, of value at most `u64::MAX`; `None` for any other text.
pub open spec fn u64_of_text(s: Seq<char>) -> Option<u64> {
    let d = unsigned_digits(s);
    if d.len() > 0 && (forall|i: int| 0 <= i < d.len() ==> is_digit(#[trigger] d[i]))
        && digits_value(d) <= u64::MAX {
        Some(digits_value(d) as u64)
    } else {
        None
    }
}

/// Reads a `u64` written in decimal, with an optional leading `+`.
pub fn parse_u64(s: &str) -> (r: Option<u64>)
    ensures
        r == u64_of_text(s@),
{
    let n = s.unicode_len();
    let start: usize = if n > 0 && s.get_char(0) == '+' {
        1
    } else {
        0
    };
    let ghost d = unsigned_digits(s@);
    proof {
        assert(d =~= s@.subrange(start as int, n as int));
    }
    if start == n {
        return None;
    }
    let mut acc: u64 = 0;
    let mut over = false;
    let mut i: usize = start;
    while i < n
        invariant
            start <= i <= n,
            n == s@.len(),
            d == s@.subrange(start as int, n as int),
            d == unsigned_digits(s@),
            forall|k: int| 0 <= k < i - start ==> is_digit(#[trigger] d[k]),
            !over ==> acc == digits_value(d.subrange(0, i - start)),
            over ==> digits_value(d.subrange(0, i - start)) > u64::MAX,
            digits_value(d.subrange(0, i - start)) >= 0,
        decreases n - i,
    {
        let c = s.get_char(i);
        if !('0' <= c && c <= '9') {
            proof {
                assert(d[i - start] == c);
                assert(!is_digit(d[i - start]));
                assert(u64_of_text(s@) is None);
            }
            return None;
        }
        let v: u64 = (c as u32 - '0' as u32) as u64;
        proof {
            let p = d.subrange(0, i - start);
            let q = d.subrange(0, i + 1 - start);
            assert(q.drop_last() =~= p);
            assert(q.last() == c);
            assert(digits_value(q) == digits_value(p) * 10 + v);
        }
        if !over {
            if acc > (u64::MAX - v) / 10 {
                over = true;
            } else {
                acc = acc * 10 + v;
            }
        }
        i = i + 1;
    }
    proof {
        assert(d.subrange(0, n - start) =~= d);
    }
    if over {
        None
    } else {
        Some(acc)
    }
}

/// The interval between cycles, in minutes: the configured value when it
/// reads as a `u64`, else `DEFAULT_INTERVAL_MINUTES`.
pub fn interval_minutes(raw: Option<&str>) -> (r: u64)
    ensures
        r == match raw {
            Some(s) => match u64_of_text(s@) {
                Some(v) => v,
                None => DEFAULT_INTERVAL_MINUTES,
            },
            None => DEFAULT_INTERVAL_MINUTES,
        },
{
    match raw {
        Some(s) => match parse_u64(s) {
            Some(v) => v,
            None => DEFAULT_INTERVAL_MINUTES,
        },
        None => DEFAULT_INTERVAL_MINUTES,
    }
}

/// The pause between cycles in seconds, capped at `u64::MAX`.
pub fn interval_seconds(minutes: u64) -> (r: u64)
    ensures
        r == if minutes * 60 <= u64::MAX {
            minutes * 60
        } else {
            u64::MAX as int
        },
{
    if minutes > u64::MAX / 60 {
        u64::MAX
    } else {
        minutes * 60
    }
}

} // verus!
