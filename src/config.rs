//! The settings the service runs with, the domain list it manages, and the
//! rules that turn raw setting values into them.

use vstd::prelude::*;
use crate::logging::LogLevel;
use crate::text::{trim, trimmed};

verus! {

/// One managed domain and the DNS provider that issues its certificate.
#[derive(Clone, Debug)]
pub struct DomainEntry {
    pub name: String,
    pub dns_provider: String,
}

/// The list of managed domains, in the order of the configuration file.
#[derive(Clone, Debug)]
pub struct DomainConfig {
    pub domains: Vec<DomainEntry>,
}

/// The settings of the service.
#[derive(Clone, Debug)]
pub struct AppConfig {
    pub log_level: LogLevel,
    /// Seconds between two renewal checks.
    pub update_interval_secs: u64,
    /// The data directory, with `~` already expanded.
    pub dir_path: String,
    pub bind_port: u16,
}

pub open spec fn default_update_hours() -> u64 {
    24
}

pub open spec fn default_bind_port() -> u16 {
    33301
}

/// The severity that a lower-case level name selects; any other name selects
/// `Info`.
pub open spec fn level_named(name: Seq<char>) -> LogLevel {
    if name == "debug"@ {
        LogLevel::Debug
    } else if name == "warn"@ {
        LogLevel::Warn
    } else if name == "error"@ {
        LogLevel::Error
    } else {
        LogLevel::Info
    }
}

/// The Unicode lower case of `s`.
pub uninterp spec fn lowercase_of(s: Seq<char>) -> Seq<char>;

/// Relies on `str::to_lowercase`: the Unicode lower case of the characters,
/// which depends on them alone.
#[verifier::external_body]
fn lowercase(s: &str) -> (r: String)
    ensures
        r@ == lowercase_of(s@),
{
    s.to_lowercase()
}

/// The severity that the lower-case level name `name` selects.
pub fn log_level_named(name: &str) -> (r: LogLevel)
    ensures
        r == level_named(name@),
{
    let n = String::from_str(name);
    if n == String::from_str("debug") {
        LogLevel::Debug
    } else if n == String::from_str("warn") {
        LogLevel::Warn
    } else if n == String::from_str("error") {
        LogLevel::Error
    } else {
        LogLevel::Info
    }
}

/// The severity that a level setting selects, compared without regard to
/// case.
pub fn parse_log_level(setting: &str) -> (r: LogLevel)
    ensures
        r == level_named(lowercase_of(setting@)),
{
    let lower = lowercase(setting);
    log_level_named(lower.as_str())
}

pub open spec fn is_digit(c: char) -> bool {
    48 <= c as u32 <= 57
}

/// The number that the decimal digits `d` spell.
pub open spec fn digits_value(d: Seq<char>) -> int
    decreases d.len(),
{
    if d.len() == 0 {
        0
    } else {
        digits_value(d.drop_last()) * 10 + (d.last() as u32 - 48)
    }
}

/// The digits of a decimal setting: one optional leading `+` is dropped.
pub open spec fn unsigned_digits(s: Seq<char>) -> Seq<char> {
    if s.len() > 1 && s[0] == '+' {
        s.drop_first()
    } else {
        s
    }
}

/// All characters of `d` are ASCII digits.
pub open spec fn all_digits(d: Seq<char>) -> bool {
    forall|i: int| 0 <= i < d.len() ==> #[trigger] is_digit(d[i])
}

/// The value of an unsigned decimal: an optional `+`, then one or more ASCII
/// digits and nothing else.
pub open spec fn decimal_value(s: Seq<char>) -> Option<int> {
    let d = unsigned_digits(s);
    if d.len() > 0 && all_digits(d) {
        Some(digits_value(d))
    } else {
        None
    }
}

proof fn lemma_digits_nonneg(d: Seq<char>)
    requires
        forall|k: int| 0 <= k < d.len() ==> #[trigger] is_digit(d[k]),
    ensures
        digits_value(d) >= 0,
    decreases d.len(),
{
    if d.len() > 0 {
        let p = d.drop_last();
        assert forall|k: int| 0 <= k < p.len() implies #[trigger] is_digit(p[k]) by {
            assert(is_digit(d[k]));
        }
        lemma_digits_nonneg(p);
        assert(is_digit(d[d.len() - 1]));
    }
}

proof fn lemma_digits_grow(d: Seq<char>, i: int, j: int)
    requires
        0 <= i <= j <= d.len(),
        forall|k: int| 0 <= k < d.len() ==> #[trigger] is_digit(d[k]),
    ensures
        digits_value(d.subrange(0, i)) <= digits_value(d.subrange(0, j)),
    decreases j - i,
{
    if i < j {
        lemma_digits_grow(d, i, j - 1);
        let p = d.subrange(0, j - 1);
        assert(d.subrange(0, j).drop_last() =~= p);
        assert(is_digit(d[j - 1]));
        assert forall|k: int| 0 <= k < p.len() implies #[trigger] is_digit(p[k]) by {
            assert(is_digit(d[k]));
        }
        lemma_digits_nonneg(p);
    }
}

/// The value of the unsigned decimal `s` where it is at most `max`.
pub fn parse_decimal(s: &str, max: u64) -> (r: Option<u64>)
    ensures
        r == (match decimal_value(s@) {
            Some(v) => if v <= max {
                Some(v as u64)
            } else {
                None
            },
            None => None,
        }),
        r matches Some(x) ==> x <= max,
        decimal_value(s@) matches Some(v) ==> v >= 0,
{
    let c = crate::text::chars_of(s);
    proof {
        let d = unsigned_digits(s@);
        if all_digits(d) {
            lemma_digits_nonneg(d);
        }
    }
    let n = c.len();
    let start: usize = if n > 1 && c[0] == '+' {
        1
    } else {
        0
    };
    let ghost d = unsigned_digits(s@);
    assert(d =~= c@.subrange(start as int, n as int));
    if start == n {
        return None;
    }
    let mut value: u64 = 0;
    let mut i: usize = start;
    assert(d.subrange(0, 0) =~= Seq::<char>::empty());
    while i < n
        invariant
            c@ == s@,
            n == c@.len(),
            start <= i <= n,
            d == c@.subrange(start as int, n as int),
            d == unsigned_digits(s@),
            forall|k: int| 0 <= k < i - start ==> #[trigger] is_digit(d[k]),
            value == digits_value(d.subrange(0, i - start)),
            value <= max,
        decreases n - i,
    {
        let u = c[i] as u32;
        if u < 48 || u > 57 {
            assert(!is_digit(d[i - start]));
            assert(!all_digits(d));
            return None;
        }
        let digit: u64 = (u - 48) as u64;
        assert(d.subrange(0, i - start + 1).drop_last() =~= d.subrange(0, i - start));
        if digit > max || value > (max - digit) / 10 {
            proof {
                assert(value * 10 + digit > max) by (nonlinear_arith)
                    requires
                        digit > max || value > (max - digit) / 10,
                        value >= 0,
                ;
                assert(digits_value(d.subrange(0, i - start + 1)) > max);
                if all_digits(d) {
                    lemma_digits_grow(d, i - start + 1, d.len() as int);
                    assert(d.subrange(0, d.len() as int) =~= d);
                }
            }
            return None;
        }
        assert(value * 10 + digit <= max) by (nonlinear_arith)
            requires
                digit <= max,
                value <= (max - digit) / 10,
        ;
        value = value * 10 + digit;
        i = i + 1;
    }
    assert(d.subrange(0, d.len() as int) =~= d);
    Some(value)
}

/// Seconds in `hours` hours, at most the largest `u64`.
pub open spec fn interval_secs(hours: u64) -> u64 {
    if hours * 3600 > u64::MAX {
        u64::MAX
    } else {
        (hours * 3600) as u64
    }
}

/// The settings that raw setting values give: a missing or malformed value
/// falls back to its default (level `Info`, 24 hours, port 33301).
pub open spec fn config_from(
    log_level: Option<Seq<char>>,
    update_hours: Option<Seq<char>>,
    dir_path: Seq<char>,
    bind_port: Option<Seq<char>>,
    r: AppConfig,
) -> bool {
    let hours = match update_hours {
        Some(h) => match decimal_value(h) {
            Some(v) => if v <= u64::MAX {
                v as u64
            } else {
                default_update_hours()
            },
            None => default_update_hours(),
        },
        None => default_update_hours(),
    };
    &&& r.log_level == match log_level {
        Some(l) => level_named(lowercase_of(l)),
        None => LogLevel::Info,
    }
    &&& r.update_interval_secs == interval_secs(hours)
    &&& r.dir_path@ == dir_path
    &&& r.bind_port == match bind_port {
        Some(p) => match decimal_value(p) {
            Some(v) => if v <= u16::MAX {
                v as u16
            } else {
                default_bind_port()
            },
            None => default_bind_port(),
        },
        None => default_bind_port(),
    }
}

impl AppConfig {
    /// The settings from the raw values of the level, the interval in hours,
    /// the data directory and the port; `None` where a value is not set.
    pub fn from_settings(
        log_level: Option<&str>,
        update_hours: Option<&str>,
        dir_path: String,
        bind_port: Option<&str>,
    ) -> (r: AppConfig)
        ensures
            config_from(
                match log_level {
                    Some(l) => Some(l@),
                    None => None,
                },
                match update_hours {
                    Some(h) => Some(h@),
                    None => None,
                },
                dir_path@,
                match bind_port {
                    Some(p) => Some(p@),
                    None => None,
                },
                r,
            ),
    {
        let level = match log_level {
            Some(l) => parse_log_level(l),
            None => LogLevel::Info,
        };
        let hours: u64 = match update_hours {
            Some(h) => match parse_decimal(h, u64::MAX) {
                Some(v) => v,
                None => 24,
            },
            None => 24,
        };
        let secs: u64 = if hours > u64::MAX / 3600 {
            assert(hours * 3600 > u64::MAX) by (nonlinear_arith)
                requires
                    hours > u64::MAX / 3600,
            ;
            u64::MAX
        } else {
            assert(hours * 3600 <= u64::MAX) by (nonlinear_arith)
                requires
                    hours <= u64::MAX / 3600,
            ;
            hours * 3600
        };
        let port: u16 = match bind_port {
            Some(p) => match parse_decimal(p, 65535) {
                Some(v) => {
                    assert(v <= 65535);
                    v as u16
                },
                None => 33301,
            },
            None => 33301,
        };
        let r = AppConfig { log_level: level, update_interval_secs: secs, dir_path, bind_port: port };
        r
    }
}

/// The name of the configuration file of DNS provider `provider`:
/// `<provider>.dns.toml`, the name trimmed.
pub fn provider_config_file(provider: &str) -> (r: String)
    ensures
        r@ == trimmed(provider@) + ".dns.toml"@,
{
    let mut r = trim(provider);
    r.append(".dns.toml");
    r
}

} // verus!
