use vstd::prelude::*;

verus! {

/// The settings of one transfer run, fixed when it starts.
#[derive(Debug, Clone)]
pub struct Config {
    pub server: String,
    pub port: u16,
    pub login: String,
    pub password: String,
    pub folder: String,
    pub directory: String,
    pub recursive: bool,
    pub symlink: bool,
    pub random_id: bool,
    pub skip_verify_cert: bool,
}

/// Why a configuration could not be built.
#[derive(Debug, Clone, Copy, PartialEq, Eq, Structural)]
pub enum ConfigError {
    /// The port is not a decimal number from 0 to 65535.
    InvalidPort,
}

pub open spec fn is_digit(c: char) -> bool {
    '0' <= c <= '9'
}

pub open spec fn digit_value(c: char) -> nat {
    (c as u32 - '0' as u32) as nat
}

/// The number that the decimal digits `d` spell.
pub open spec fn digits_value(d: Seq<char>) -> nat
    decreases d.len(),
{
    if d.len() == 0 {
        0
    } else {
        digits_value(d.drop_last()) * 10 + digit_value(d.last())
    }
}

/// The digits of a port: the text after an optional leading `+`.
pub open spec fn port_digits(s: Seq<char>) -> Seq<char> {
    if s.len() > 0 && s[0] == '+' {
        s.skip(1)
    } else {
        s
    }
}

/// The port that `s` names: one or more decimal digits after an optional `+`, with a
/// value that fits in 16 bits.
pub open spec fn port_value(s: Seq<char>) -> Option<u16> {
    let d = port_digits(s);
    if d.len() > 0 && (forall|i: int| 0 <= i < d.len() ==> is_digit(#[trigger] d[i]))
        && digits_value(d) <= u16::MAX {
        Some(digits_value(d) as u16)
    } else {
        None
    }
}

/// A number spelled by digits is at least the number spelled by any prefix of them.
pub proof fn lemma_digits_value_prefix(d: Seq<char>, k: int)
    requires
        0 <= k <= d.len(),
        forall|i: int| 0 <= i < d.len() ==> is_digit(#[trigger] d[i]),
    ensures
        digits_value(d.take(k)) <= digits_value(d),
    decreases d.len(),
{
    if k < d.len() {
        let shorter = d.drop_last();
        assert(shorter.take(k) =~= d.take(k));
        assert forall|i: int| 0 <= i < shorter.len() implies is_digit(#[trigger] shorter[i]) by {
            assert(shorter[i] == d[i]);
        }
        lemma_digits_value_prefix(shorter, k);
    } else {
        assert(d.take(k) =~= d);
    }
}

/// Reads a port number, as `u16`'s `FromStr` does.
pub fn parse_port(text: &str) -> (r: Option<u16>)
    ensures
        r == port_value(text@),
{
    let n = text.unicode_len();
    let mut start: usize = 0;
    if n > 0 && text.get_char(0) == '+' {
        start = 1;
    }
    let ghost d = port_digits(text@);
    assert(d =~= text@.skip(start as int));
    if start == n {
        return None;
    }
    let mut value: u32 = 0;
    let mut i: usize = start;
    while i < n
        invariant
            n == text@.len(),
            d == text@.skip(start as int),
            d == port_digits(text@),
            start < n,
            start <= i <= n,
            forall|j: int| 0 <= j < i - start ==> is_digit(#[trigger] d[j]),
            value as nat == digits_value(d.take(i - start)),
            value <= u16::MAX,
        decreases n - i,
    {
        let c = text.get_char(i);
        if c < '0' || c > '9' {
            assert(!is_digit(d[i - start]));
            return None;
        }
        assert(d.take(i + 1 - start).drop_last() =~= d.take(i - start));
        value = value * 10 + (c as u32 - '0' as u32);
        i = i + 1;
        if value > 65535 {
            proof {
                if forall|j: int| 0 <= j < d.len() ==> is_digit(#[trigger] d[j]) {
                    lemma_digits_value_prefix(d, i - start);
                }
            }
            return None;
        }
    }
    assert(d.take(n - start) =~= d);
    Some(value as u16)
}

impl Config {
    /// Builds a configuration from the values given to the program; the port is read as
    /// decimal text.
    pub fn new(
        server: String,
        port: &str,
        login: String,
        password: String,
        folder: String,
        directory: String,
        recursive: bool,
        symlink: bool,
        random_id: bool,
        skip_verify_cert: bool,
    ) -> (r: Result<Config, ConfigError>)
        ensures
            port_value(port@) is None ==> r == Err::<Config, ConfigError>(ConfigError::InvalidPort),
            port_value(port@) matches Some(p) ==> r == Ok::<Config, ConfigError>(
                Config {
                    server,
                    port: p,
                    login,
                    password,
                    folder,
                    directory,
                    recursive,
                    symlink,
                    random_id,
                    skip_verify_cert,
                },
            ),
    {
        match parse_port(port) {
            None => Err(ConfigError::InvalidPort),
            Some(port) => Ok(
                Config {
                    server,
                    port,
                    login,
                    password,
                    folder,
                    directory,
                    recursive,
                    symlink,
                    random_id,
                    skip_verify_cert,
                },
            ),
        }
    }
}

} // verus!
