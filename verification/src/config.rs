//! The application's settings.
use crate::text::{digits, digits_value, is_digit, lemma_digits_are_digits, nat_text};
use vstd::prelude::*;

verus! {

/// The port the server listens on when `APP_PORT` is missing or unreadable.
pub const DEFAULT_PORT: u16 = 3000;

/// The text after an optional leading `+`.
pub open spec fn unsigned_digits(t: Seq<char>) -> Seq<char> {
    if t.len() > 0 && t[0] == '+' {
        t.drop_first()
    } else {
        t
    }
}

/// What `str::parse::<u16>` reads: an optional `+` then at least one decimal digit,
/// of a value no larger than 65535; anything else is refused.
pub open spec fn parse_u16(t: Seq<char>) -> Option<int> {
    let d = unsigned_digits(t);
    if d.len() > 0 && (forall|i: int| 0 <= i < d.len() ==> is_digit(#[trigger] d[i]))
        && digits_value(d) <= 65535 {
        Some(digits_value(d))
    } else {
        None
    }
}

/// The port for an `APP_PORT` setting: its value when it reads as a port number,
/// 3000 when it is missing or does not.
pub open spec fn port_setting(setting: Option<Seq<char>>) -> int {
    match setting {
        Some(t) => match parse_u16(t) {
            Some(v) => v,
            None => DEFAULT_PORT as int,
        },
        None => DEFAULT_PORT as int,
    }
}

proof fn lemma_digits_value_grows(d: Seq<char>, k: int)
    requires
        0 <= k <= d.len(),
        forall|i: int| 0 <= i < d.len() ==> is_digit(#[trigger] d[i]),
    ensures
        digits_value(d.take(k)) <= digits_value(d),
        digits_value(d.take(k)) >= 0,
    decreases d.len() - k,
{
    if k == d.len() {
        assert(d.take(k) == d);
        lemma_digits_value_nonnegative(d);
    } else {
        lemma_digits_value_grows(d, k + 1);
        assert(d.take(k + 1).drop_last() == d.take(k));
        lemma_digits_value_nonnegative(d.take(k));
    }
}

proof fn lemma_digits_value_nonnegative(d: Seq<char>)
    requires
        forall|i: int| 0 <= i < d.len() ==> is_digit(#[trigger] d[i]),
    ensures
        digits_value(d) >= 0,
    decreases d.len(),
{
    if d.len() > 0 {
        assert forall|i: int| 0 <= i < d.drop_last().len() implies is_digit(
            #[trigger] d.drop_last()[i],
        ) by {
            assert(d.drop_last()[i] == d[i]);
        }
        lemma_digits_value_nonnegative(d.drop_last());
    }
}

/// A port written in decimal, as `Display` writes it, is read back as that port.
pub proof fn lemma_port_round_trip(port: u16)
    ensures
        parse_u16(nat_text(port as nat)) == Some(port as int),
        port_setting(Some(nat_text(port as nat))) == port as int,
{
    if port == 0 {
        let t = nat_text(0);
        assert(unsigned_digits(t) == t);
        assert(digits_value(t) == 0) by {
            assert(t.drop_last().len() == 0);
            assert(digits_value(t.drop_last()) == 0);
            assert(t.last() == '0');
            assert('0' as u32 == 48);
        }
    } else {
        lemma_digits_are_digits(port as nat);
        let t = digits(port as nat);
        assert(t.len() > 0);
        assert(is_digit(t[0]));
        assert(unsigned_digits(t) == t);
    }
}

/// `text.parse::<u16>().ok()`.
pub fn parse_port(text: &str) -> (r: Option<u16>)
    ensures
        match r {
            Some(p) => parse_u16(text@) == Some(p as int),
            None => parse_u16(text@) is None,
        },
{
    let n = text.unicode_len();
    let mut start: usize = 0;
    if n > 0 && text.get_char(0) == '+' {
        start = 1;
    }
    let ghost d = unsigned_digits(text@);
    assert(d == text@.subrange(start as int, n as int));
    if start == n {
        return None;
    }
    let mut i = start;
    let mut acc: u32 = 0;
    assert(text@.subrange(start as int, start as int).len() == 0);
    while i < n
        invariant
            n == text@.len(),
            start <= i <= n,
            d == text@.subrange(start as int, n as int),
            d == unsigned_digits(text@),
            acc <= 65535,
            acc == digits_value(text@.subrange(start as int, i as int)),
            forall|j: int| start <= j < i ==> is_digit(#[trigger] text@[j]),
        decreases n - i,
    {
        let c = text.get_char(i);
        let u = c as u32;
        if u < 48 || u > 57 {
            proof {
                assert(d[i - start] == c);
                assert(!is_digit(d[i - start]));
                assert(parse_u16(text@) is None);
            }
            return None;
        }
        let next = acc * 10 + (u - 48);
        proof {
            assert(text@.subrange(start as int, i + 1).drop_last() == text@.subrange(
                start as int,
                i as int,
            ));
            assert(text@.subrange(start as int, i + 1).last() == c);
            assert(digits_value(text@.subrange(start as int, i + 1)) == next);
        }
        if next > 65535 {
            proof {
                if forall|j: int| 0 <= j < d.len() ==> is_digit(#[trigger] d[j]) {
                    assert(d.take(i + 1 - start) == text@.subrange(start as int, i + 1));
                    lemma_digits_value_grows(d, i + 1 - start);
                }
                assert(parse_u16(text@) is None);
            }
            return None;
        }
        acc = next;
        i = i + 1;
    }
    proof {
        assert forall|j: int| 0 <= j < d.len() implies is_digit(#[trigger] d[j]) by {
            assert(d[j] == text@[start + j]);
        }
    }
    Some(acc as u16)
}

/// The application's settings.
#[derive(Clone)]
pub struct Config {
    pub database_url: String,
    pub jwt_secret: String,
    pub port: u16,
}

impl Config {
    /// The settings from the values of `DATABASE_URL`, `JWT_SECRET` and `APP_PORT`.
    pub fn from_settings(database_url: String, jwt_secret: String, app_port: Option<String>) -> (r:
        Config)
        ensures
            r.database_url@ == database_url@,
            r.jwt_secret@ == jwt_secret@,
            r.port == port_setting(
                match app_port {
                    Some(t) => Some(t@),
                    None => None,
                },
            ),
    {
        let port = match app_port {
            Some(t) => match parse_port(t.as_str()) {
                Some(p) => p,
                None => DEFAULT_PORT,
            },
            None => DEFAULT_PORT,
        };
        Config { database_url, jwt_secret, port }
    }
}

} // verus!
