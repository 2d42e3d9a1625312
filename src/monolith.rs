//! Settings of the single-process edition of the system. Each setting comes
//! from the environment when it is present there, and from a default
//! otherwise; reading the environment is the caller's part.
use crate::config::ConfigError;
use vstd::prelude::*;

verus! {

/// Largest value a port can take.
pub const MAX_PORT: u32 = 65535;

/// Database location, listening host and port.
#[derive(Clone, Debug)]
pub struct Config {
    pub database_url: String,
    pub host: String,
    pub port: u16,
}

pub open spec fn is_digit(c: char) -> bool {
    '0' <= c <= '9'
}

/// The number that a string of decimal digits denotes.
pub open spec fn digits_value(s: Seq<char>) -> int
    decreases s.len(),
{
    if s.len() == 0 {
        0
    } else {
        digits_value(s.drop_last()) * 10 + (s.last() as int - '0' as int)
    }
}

/// A port written in decimal, as Rust writes a `u16`: an optional leading
/// `+`, then at least one digit and nothing but digits, with a value that
/// fits a port.
pub open spec fn is_port_text(s: Seq<char>) -> bool {
    let d = port_digits(s);
    &&& d.len() > 0
    &&& forall|i: int| 0 <= i < d.len() ==> is_digit(#[trigger] d[i])
    &&& digits_value(d) <= MAX_PORT
}

/// The digits of a port text: what follows the leading `+`, if there is one.
pub open spec fn port_digits(s: Seq<char>) -> Seq<char> {
    if s.len() > 0 && s[0] == '+' {
        s.skip(1)
    } else {
        s
    }
}

/// The port that a port text denotes.
pub open spec fn port_value(s: Seq<char>) -> int {
    digits_value(port_digits(s))
}

/// Extending a string of digits never lowers its value.
proof fn lemma_digits_value_grows(s: Seq<char>, k: int)
    requires
        0 <= k <= s.len(),
        forall|i: int| 0 <= i < s.len() ==> is_digit(#[trigger] s[i]),
    ensures
        0 <= digits_value(s.take(k)) <= digits_value(s),
    decreases s.len(),
{
    if s.len() > 0 {
        if k == s.len() {
            assert(s.take(k) =~= s);
            lemma_digits_value_grows(s.drop_last(), k - 1);
            assert(s.drop_last().take(k - 1) =~= s.take(k - 1));
        } else {
            lemma_digits_value_grows(s.drop_last(), k);
            assert(s.drop_last().take(k) =~= s.take(k));
            lemma_digits_value_grows(s.drop_last(), s.len() - 1);
            assert(s.drop_last().take(s.len() - 1) =~= s.drop_last());
        }
    } else {
        assert(s.take(k) =~= s);
    }
}

/// The port that `text` denotes, or `None` when it is not a decimal number
/// from 0 to 65535 with at most a leading `+`.
pub fn parse_port(text: &str) -> (r: Option<u16>)
    ensures
        r is Some <==> is_port_text(text@),
        r matches Some(p) ==> p as int == port_value(text@),
{
    let n = text.unicode_len();
    let start: usize = if n > 0 && text.get_char(0) == '+' {
        1
    } else {
        0
    };
    let ghost d = port_digits(text@);
    assert(d =~= text@.skip(start as int));
    if n == start {
        return None;
    }
    let mut acc: u32 = 0;
    let mut i: usize = start;
    while i < n
        invariant
            n == text@.len(),
            start <= i <= n,
            d == text@.skip(start as int),
            d == port_digits(text@),
            forall|j: int| 0 <= j < i - start ==> is_digit(#[trigger] d[j]),
            acc as int == digits_value(d.take(i - start)),
            acc <= MAX_PORT,
        decreases n - i,
    {
        let c = text.get_char(i);
        assert(d[i - start] == c);
        if !('0' <= c && c <= '9') {
            assert(!is_digit(d[i - start]));
            return None;
        }
        let next = acc * 10 + (c as u32 - '0' as u32);
        assert(d.take(i - start + 1).drop_last() =~= d.take(i - start));
        if next > MAX_PORT {
            proof {
                if is_port_text(text@) {
                    lemma_digits_value_grows(d, i - start + 1);
                }
            }
            return None;
        }
        acc = next;
        i = i + 1;
    }
    assert(d.take(n - start) =~= d);
    Some(acc as u16)
}

/// Database used when none is configured.
pub fn default_database_url() -> (r: String)
    ensures
        r@ == "sqlite://db.sqlite3"@,
{
    "sqlite://db.sqlite3".to_owned()
}

/// Host listened on when none is configured.
pub fn default_host() -> (r: String)
    ensures
        r@ == "127.0.0.1"@,
{
    "127.0.0.1".to_owned()
}

/// Port listened on when none is configured.
pub fn default_port() -> (r: u16)
    ensures
        r == 3000,
{
    3000
}

impl Config {
    /// Settings from the values found in the environment: each absent value
    /// takes its default. Fails exactly when a port is given that is not a
    /// `u16` as Rust writes it: a decimal number from 0 to 65535, with at
    /// most a leading `+`.
    pub fn from_env(database_url: Option<String>, host: Option<String>, port: Option<String>) -> (r:
        Result<Config, ConfigError>)
        ensures
            r is Err <==> (port matches Some(p) && !is_port_text(p@)),
            r matches Ok(c) ==> {
                &&& c.database_url@ == (match database_url {
                    Some(d) => d@,
                    None => "sqlite://db.sqlite3"@,
                })
                &&& c.host@ == (match host {
                    Some(h) => h@,
                    None => "127.0.0.1"@,
                })
                &&& c.port as int == (match port {
                    Some(p) => port_value(p@),
                    None => 3000,
                })
            },
    {
        let port = match port {
            Some(p) => match parse_port(p.as_str()) {
                Some(v) => v,
                None => {
                    let mut msg = "invalid port: ".to_owned();
                    msg.append(p.as_str());
                    return Err(ConfigError(msg));
                },
            },
            None => default_port(),
        };
        let database_url = match database_url {
            Some(d) => d,
            None => default_database_url(),
        };
        let host = match host {
            Some(h) => h,
            None => default_host(),
        };
        Ok(Config { database_url, host, port })
    }
}

/// Figures shown on the administration page.
#[derive(Clone, Debug)]
pub struct AdminStats {
    pub user_count: i64,
    pub uptime: u64,
}

/// Credentials sent to log in.
#[derive(Clone, Debug)]
pub struct LoginRequest {
    pub email: String,
    pub password: String,
}

/// The token handed out on a successful login.
#[derive(Clone, Debug)]
pub struct LoginResponse {
    pub token: String,
}

/// Body of the liveness answer.
#[derive(Clone, Debug)]
pub struct HealthResponse {
    pub status: String,
}

/// What a user has opted into; both off unless given.
#[derive(Clone, Copy, Debug, Default, PartialEq, Eq, Structural)]
pub struct UserPreferences {
    pub newsletter: bool,
    pub notifications: bool,
}

/// Applies the database schema; the work itself is done by the program.
pub struct MigrationRunner;

/// Runs periodic background work; the program drives the timer.
pub struct JobScheduler;

impl JobScheduler {
    /// A scheduler with nothing running yet.
    pub fn new() -> (r: JobScheduler) {
        JobScheduler
    }
}

} // verus!
