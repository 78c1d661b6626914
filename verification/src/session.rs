//! The session cookie: the token that login stores in the browser, how a request's
//! `Cookie` header gives it back, and who the session belongs to.
use crate::ids::{hyphenated, parse_uuid};
use crate::pages::{redirects_to, Page};
use crate::text::{
    is_white_space, lemma_trim_start_skips, lemma_visible_ascii_not_white, nat_text, trim, trim_end,
    trim_start, visible_ascii, white_space,
};
use cookie::time::Duration;
use cookie::Cookie;
use vstd::prelude::*;

verus! {

/// Name of the cookie that holds the session token.
pub const AUTH_COOKIE: &'static str = "auth_token";

/// What a cookie pair starts with when it holds the session token: the name and `=`.
pub open spec fn session_prefix() -> Seq<char> {
    AUTH_COOKIE@.push('=')
}

/// Position of the first `c` in `s`, or -1.
pub open spec fn index_of(s: Seq<char>, c: char) -> int
    decreases s.len(),
{
    if s.len() == 0 {
        -1
    } else if s[0] == c {
        0
    } else {
        let r = index_of(s.drop_first(), c);
        if r < 0 {
            -1
        } else {
            r + 1
        }
    }
}

/// The token of one `name=value` pair, once trimmed, if its name is the session cookie's.
pub open spec fn token_of_pair(pair: Seq<char>) -> Option<Seq<char>> {
    let p = trim(pair);
    if session_prefix().is_prefix_of(p) {
        Some(p.skip(session_prefix().len() as int))
    } else {
        None
    }
}

/// The session token of a `Cookie` header: the header is split at every `;`, each part
/// is trimmed, and the first part that starts with `auth_token=` gives what follows it.
pub open spec fn session_token_of(header: Seq<char>) -> Option<Seq<char>>
    decreases header.len(),
{
    let i = index_of(header, ';');
    proof {
        lemma_index_of_bounds(header, ';');
    }
    if i < 0 {
        token_of_pair(header)
    } else {
        match token_of_pair(header.take(i)) {
            Some(t) => Some(t),
            None => session_token_of(header.skip(i + 1)),
        }
    }
}

pub proof fn lemma_index_of_bounds(s: Seq<char>, c: char)
    ensures
        -1 <= index_of(s, c) < s.len(),
        index_of(s, c) >= 0 ==> s[index_of(s, c)] == c,
        forall|j: int| 0 <= j < s.len() && (index_of(s, c) < 0 || j < index_of(s, c)) ==> s[j]
            != c,
    decreases s.len(),
{
    if s.len() > 0 && s[0] != c {
        lemma_index_of_bounds(s.drop_first(), c);
        assert forall|j: int|
            0 <= j < s.len() && (index_of(s, c) < 0 || j < index_of(s, c)) implies s[j] != c by {
            if j > 0 {
                assert(s[j] == s.drop_first()[j - 1]);
            }
        }
    }
}

/// The first `c` of `s` is at `k` when none comes before it.
proof fn lemma_index_of_is(s: Seq<char>, c: char, k: int)
    requires
        0 <= k <= s.len(),
        forall|j: int| 0 <= j < k ==> s[j] != c,
        k < s.len() ==> s[k] == c,
    ensures
        index_of(s, c) == (if k < s.len() { k } else { -1 }),
    decreases s.len(),
{
    if s.len() > 0 && k > 0 {
        assert forall|j: int| 0 <= j < k - 1 implies s.drop_first()[j] != c by {
            assert(s.drop_first()[j] == s[j + 1]);
        }
        lemma_index_of_is(s.drop_first(), c, k - 1);
    }
}

/// The bounds of `s[lo..hi]` once trimmed.
fn trim_range(s: &str, lo: usize, hi: usize) -> (r: (usize, usize))
    requires
        lo <= hi <= s@.len(),
    ensures
        lo <= r.0 <= r.1 <= hi,
        s@.subrange(r.0 as int, r.1 as int) == trim(s@.subrange(lo as int, hi as int)),
{
    let mut a = lo;
    while a < hi && is_white_space(s.get_char(a))
        invariant
            lo <= a <= hi <= s@.len(),
            crate::text::trim_start(s@.subrange(lo as int, hi as int)) == crate::text::trim_start(
                s@.subrange(a as int, hi as int),
            ),
        decreases hi - a,
    {
        assert(s@.subrange(a as int, hi as int).drop_first() == s@.subrange(a + 1, hi as int));
        a = a + 1;
    }
    let mut b = hi;
    while b > a && is_white_space(s.get_char(b - 1))
        invariant
            lo <= a <= b <= hi <= s@.len(),
            crate::text::trim_end(s@.subrange(a as int, hi as int)) == crate::text::trim_end(
                s@.subrange(a as int, b as int),
            ),
            a < hi ==> !white_space(s@[a as int]),
        decreases b - a,
    {
        assert(s@.subrange(a as int, b as int).drop_last() == s@.subrange(a as int, b - 1));
        b = b - 1;
    }
    (a, b)
}

/// Whether `s[a..b]` starts with `auth_token=`.
fn has_session_prefix(s: &str, a: usize, b: usize) -> (r: bool)
    requires
        a <= b <= s@.len(),
    ensures
        r == session_prefix().is_prefix_of(s@.subrange(a as int, b as int)),
{
    let name = AUTH_COOKIE;
    let n = name.unicode_len();
    if b - a <= n {
        return false;
    }
    let mut k: usize = 0;
    while k < n
        invariant
            n == name@.len(),
            name@ == AUTH_COOKIE@,
            a + n + 1 <= b <= s@.len(),
            k <= n,
            forall|j: int| 0 <= j < k ==> s@[a + j] == name@[j],
        decreases n - k,
    {
        if s.get_char(a + k) != name.get_char(k) {
            proof {
                assert(s@.subrange(a as int, b as int)[k as int] != session_prefix()[k as int]);
            }
            return false;
        }
        k = k + 1;
    }
    let r = s.get_char(a + n) == '=';
    proof {
        let sub = s@.subrange(a as int, b as int);
        if r {
            assert forall|j: int| 0 <= j < session_prefix().len() implies session_prefix()[j]
                == sub[j] by {
                if j < n {
                    assert(sub[j] == s@[a + j]);
                }
            }
        } else {
            assert(sub[n as int] != session_prefix()[n as int]);
        }
    }
    r
}

/// The session token of a request's `Cookie` header, if one of its pairs is named
/// `auth_token`.
pub fn session_token(header: &str) -> (r: Option<String>)
    ensures
        match r {
            Some(t) => session_token_of(header@) == Some(t@),
            None => session_token_of(header@) is None,
        },
{
    let n = header.unicode_len();
    let mut start: usize = 0;
    assert(header@ == header@.subrange(0, n as int));
    loop
        invariant
            n == header@.len(),
            start <= n,
            session_token_of(header@) == session_token_of(header@.subrange(start as int, n as int)),
        decreases n - start,
    {
        let ghost rest = header@.subrange(start as int, n as int);
        let mut end = start;
        while end < n && header.get_char(end) != ';'
            invariant
                n == header@.len(),
                start <= end <= n,
                forall|j: int| start <= j < end ==> header@[j] != ';',
            decreases n - end,
        {
            end = end + 1;
        }
        proof {
            lemma_index_of_is(rest, ';', end - start);
            assert(rest.take(end - start) == header@.subrange(start as int, end as int));
            if end < n {
                assert(rest.skip(end - start + 1) == header@.subrange(end + 1, n as int));
            }
        }
        let (a, b) = trim_range(header, start, end);
        if has_session_prefix(header, a, b) {
            let k = AUTH_COOKIE.unicode_len() + 1;
            let t = header.substring_char(a + k, b);
            proof {
                assert(header@.subrange(a + k, b as int) == header@.subrange(a as int, b as int).skip(
                    k as int,
                ));
            }
            return Some(t.to_string());
        }
        if end == n {
            return None;
        }
        start = end + 1;
    }
}

/// A request that carries no usable session; it is answered with the sign-in page.
pub struct AuthRedirect;

impl AuthRedirect {
    /// The answer to a request without a usable session: a redirect to `/login`.
    pub fn page(&self) -> (r: Page)
        ensures
            redirects_to(r, "/login"@),
    {
        Page::redirect("/login")
    }
}

/// The user a request's session belongs to.
pub struct AuthUser {
    pub user_id: u128,
}

/// The session token of a request's `Cookie` header, or the redirect to the sign-in
/// page when none of its pairs is named `auth_token`.
pub fn require_session_token(cookie_header: &str) -> (r: Result<String, AuthRedirect>)
    ensures
        match r {
            Ok(t) => session_token_of(cookie_header@) == Some(t@),
            Err(_) => session_token_of(cookie_header@) is None,
        },
{
    match session_token(cookie_header) {
        Some(t) => Ok(t),
        None => Err(AuthRedirect),
    }
}

impl AuthUser {
    /// The user named by the subject of a valid session token, or the redirect to the
    /// sign-in page when the subject is not an identifier. The identifier as the
    /// application writes it is read back.
    pub fn from_subject(subject: &str) -> (r: Result<AuthUser, AuthRedirect>)
        ensures
            match r {
                Ok(u) => crate::ids::uuid_parsed(subject@) == Some(u.user_id as int),
                Err(_) => crate::ids::uuid_parsed(subject@) is None,
            },
            forall|id: u128| #[trigger] hyphenated(id as int) == subject@ ==> (r matches Ok(u)
                && u.user_id == id),
    {
        match parse_uuid(subject) {
            Some(id) => Ok(AuthUser { user_id: id }),
            None => Err(AuthRedirect),
        }
    }
}

/// How long a session lasts: 24 hours, in seconds.
pub const SESSION_SECONDS: i64 = 86400;

/// Where the session cookie applies: the whole site.
pub const SESSION_COOKIE_PATH: &'static str = "/";

/// The attributes of a `Set-Cookie` text as `cookie`'s `Display` writes them for a
/// cookie with a path, maybe kept from scripts, and a lifetime in seconds.
pub open spec fn cookie_attributes(path: Seq<char>, http_only: bool, max_age: nat) -> Seq<char> {
    let h = if http_only {
        "; HttpOnly"@
    } else {
        Seq::empty()
    };
    h + "; Path="@ + path + "; Max-Age="@ + nat_text(max_age)
}

/// The `Set-Cookie` text of a cookie `name=value` with those attributes.
pub open spec fn cookie_text(
    name: Seq<char>,
    value: Seq<char>,
    path: Seq<char>,
    http_only: bool,
    max_age: nat,
) -> Seq<char> {
    name + "="@ + value + cookie_attributes(path, http_only, max_age)
}

/// `Cookie::build((name, value)).path(path).http_only(http_only).max_age(..).build()`,
/// written with `to_string()`: `cookie`'s `Display` writes the pair, then
/// `; HttpOnly` when asked, `; Path=` with the path and `; Max-Age=` with the whole
/// seconds; nothing else is set.
#[verifier::external_body]
fn set_cookie_text(name: &str, value: &str, path: &str, http_only: bool, max_age_seconds: i64) -> (r:
    String)
    requires
        0 <= max_age_seconds,
    ensures
        r@ == cookie_text(name@, value@, path@, http_only, max_age_seconds as nat),
{
    Cookie::build((name.to_string(), value.to_string()))
        .path(path.to_string())
        .http_only(http_only)
        .max_age(Duration::seconds(max_age_seconds))
        .build()
        .to_string()
}

/// The cookie that login sets: the session token, for the whole site, kept from
/// scripts, for 24 hours.
pub fn session_cookie(token: &str) -> (r: String)
    ensures
        r@ == cookie_text(AUTH_COOKIE@, token@, SESSION_COOKIE_PATH@, true, SESSION_SECONDS as nat),
{
    set_cookie_text(AUTH_COOKIE, token, SESSION_COOKIE_PATH, true, SESSION_SECONDS)
}

/// The cookie that logout sets: the same cookie with an empty token that expires at
/// once.
pub fn expired_session_cookie() -> (r: String)
    ensures
        r@ == cookie_text(AUTH_COOKIE@, Seq::empty(), SESSION_COOKIE_PATH@, true, 0),
{
    let empty = "";
    proof {
        reveal_strlit("");
    }
    set_cookie_text(AUTH_COOKIE, empty, SESSION_COOKIE_PATH, true, 0)
}

/// A token that the cookie syntax carries back unchanged: no `;`, and no white space
/// at its end.
pub open spec fn plain_token(token: Seq<char>) -> bool {
    &&& forall|i: int| 0 <= i < token.len() ==> token[i] != ';'
    &&& token.len() > 0 ==> !white_space(token.last())
}

proof fn lemma_pair_is_trimmed(token: Seq<char>)
    requires
        plain_token(token),
    ensures
        trim(session_prefix() + token) == session_prefix() + token,
        forall|i: int| 0 <= i < (session_prefix() + token).len() ==> (session_prefix() + token)[i] != ';',
{
    reveal_strlit("auth_token");
    let pair = session_prefix() + token;
    assert(pair[0] == 'a');
    assert(trim_start(pair) == pair);
    assert(pair.last() == if token.len() > 0 { token.last() } else { '=' });
    assert(trim_end(pair) == pair);
    assert forall|i: int| 0 <= i < pair.len() implies pair[i] != ';' by {
        if i >= session_prefix().len() {
            assert(pair[i] == token[i - session_prefix().len()]);
        }
    }
}

proof fn lemma_pair_then_rest(token: Seq<char>, rest: Seq<char>)
    requires
        plain_token(token),
    ensures
        session_token_of(session_prefix() + token) == Some(token),
        session_token_of(session_prefix() + token + seq![';'] + rest) == Some(token),
{
    let pair = session_prefix() + token;
    lemma_pair_is_trimmed(token);
    assert(pair.skip(session_prefix().len() as int) == token);
    assert(session_prefix().is_prefix_of(pair));
    lemma_index_of_is(pair, ';', pair.len() as int);
    let h = pair + seq![';'] + rest;
    assert forall|j: int| 0 <= j < pair.len() implies h[j] != ';' by {
        assert(h[j] == pair[j]);
    }
    lemma_index_of_is(h, ';', pair.len() as int);
    assert(h.take(pair.len() as int) == pair);
}

proof fn lemma_attributes_start_with_semicolon(path: Seq<char>, http_only: bool, max_age: nat)
    ensures
        cookie_attributes(path, http_only, max_age).len() > 0,
        cookie_attributes(path, http_only, max_age)[0] == ';',
{
    reveal_strlit("; HttpOnly");
    reveal_strlit("; Path=");
    let h = if http_only {
        "; HttpOnly"@
    } else {
        Seq::<char>::empty()
    };
    let t = "; Path="@ + path + "; Max-Age="@ + nat_text(max_age);
    assert(cookie_attributes(path, http_only, max_age) == h + t);
    assert(t[0] == ';');
    if http_only {
        assert((h + t)[0] == h[0]);
    } else {
        assert(h + t == t);
    }
}

/// What login stores comes back: a browser sends the cookie as `auth_token=<token>`,
/// alone or first in its `Cookie` header, and the session token read from it is the
/// token; the same holds of any `Set-Cookie` text of the session cookie.
pub proof fn lemma_session_cookie_round_trip(
    token: Seq<char>,
    rest: Seq<char>,
    path: Seq<char>,
    http_only: bool,
    max_age: nat,
)
    requires
        plain_token(token),
    ensures
        session_token_of(session_prefix() + token) == Some(token),
        session_token_of(session_prefix() + token + seq![';'] + rest) == Some(token),
        session_token_of(cookie_text(AUTH_COOKIE@, token, path, http_only, max_age)) == Some(token),
{
    lemma_pair_then_rest(token, rest);
    reveal_strlit("=");
    let attrs = cookie_attributes(path, http_only, max_age);
    lemma_attributes_start_with_semicolon(path, http_only, max_age);
    lemma_pair_then_rest(token, attrs.drop_first());
    assert(attrs == seq![';'] + attrs.drop_first());
    let c = cookie_text(AUTH_COOKIE@, token, path, http_only, max_age);
    assert(AUTH_COOKIE@ + "="@ == session_prefix());
    assert(c == session_prefix() + token + seq![';'] + attrs.drop_first());
}

/// The pairs of a `Cookie` header, each followed by `; ` as a browser separates them.
pub open spec fn pairs_text(pairs: Seq<Seq<char>>) -> Seq<char>
    decreases pairs.len(),
{
    if pairs.len() == 0 {
        Seq::empty()
    } else {
        pairs[0] + seq![';', ' '] + pairs_text(pairs.drop_first())
    }
}

/// A pair of another cookie: no `;` in it, and once trimmed it does not start with
/// `auth_token=`.
pub open spec fn other_pair(pair: Seq<char>) -> bool {
    &&& forall|i: int| 0 <= i < pair.len() ==> pair[i] != ';'
    &&& !session_prefix().is_prefix_of(trim(pair))
}

/// White space, then the pairs of other cookies, then the session pair, then either
/// nothing or a `;` and more: the session pair gives the token.
proof fn lemma_session_pair_after(
    lead: Seq<char>,
    pairs: Seq<Seq<char>>,
    token: Seq<char>,
    tail: Seq<char>,
)
    requires
        forall|i: int| 0 <= i < lead.len() ==> white_space(#[trigger] lead[i]),
        forall|k: int| 0 <= k < pairs.len() ==> other_pair(#[trigger] pairs[k]),
        plain_token(token),
        tail.len() == 0 || tail[0] == ';',
    ensures
        session_token_of(lead + pairs_text(pairs) + session_prefix() + token + tail) == Some(token),
    decreases pairs.len(),
{
    let h = lead + pairs_text(pairs) + session_prefix() + token + tail;
    assert forall|i: int| 0 <= i < lead.len() implies lead[i] != ';' by {
        assert(white_space(lead[i]));
    }
    if pairs.len() == 0 {
        let pair = session_prefix() + token;
        lemma_pair_is_trimmed(token);
        let seg = lead + pair;
        assert(h == seg + tail);
        assert forall|j: int| 0 <= j < seg.len() implies h[j] != ';' by {
            assert(h[j] == seg[j]);
            if j >= lead.len() {
                assert(seg[j] == pair[j - lead.len()]);
            }
        }
        lemma_index_of_is(h, ';', seg.len() as int);
        lemma_trim_start_skips(lead, pair);
        assert(trim(seg) == pair);
        assert(pair.skip(session_prefix().len() as int) == token);
        if tail.len() > 0 {
            assert(h.take(seg.len() as int) == seg);
        }
    } else {
        let p0 = pairs[0];
        let ps = pairs.drop_first();
        assert(other_pair(pairs[0]));
        let seg = lead + p0;
        let after = seq![' '] + pairs_text(ps) + session_prefix() + token + tail;
        assert(pairs_text(pairs) == p0 + seq![';', ' '] + pairs_text(ps));
        assert(h == seg + seq![';'] + after);
        assert forall|j: int| 0 <= j < seg.len() implies h[j] != ';' by {
            assert(h[j] == seg[j]);
            if j >= lead.len() {
                assert(seg[j] == p0[j - lead.len()]);
            }
        }
        assert(h[seg.len() as int] == ';');
        lemma_index_of_is(h, ';', seg.len() as int);
        assert(h.take(seg.len() as int) == seg);
        lemma_trim_start_skips(lead, p0);
        assert(trim(seg) == trim(p0));
        assert(h.skip(seg.len() as int + 1) == after);
        assert forall|k: int| 0 <= k < ps.len() implies other_pair(#[trigger] ps[k]) by {
            assert(ps[k] == pairs[k + 1]);
        }
        let sp = seq![' '];
        assert(white_space(sp[0]));
        lemma_session_pair_after(sp, ps, token, tail);
        assert(after == sp + pairs_text(ps) + session_prefix() + token + tail);
    }
}

/// The session pair is found wherever it stands among the pairs of a `Cookie` header:
/// after any number of pairs of other cookies, each followed by `; `, and whether or
/// not more pairs follow it, the session token read is the token.
pub proof fn lemma_session_pair_after_others(
    pairs: Seq<Seq<char>>,
    token: Seq<char>,
    rest: Seq<char>,
)
    requires
        forall|k: int| 0 <= k < pairs.len() ==> other_pair(#[trigger] pairs[k]),
        plain_token(token),
    ensures
        session_token_of(pairs_text(pairs) + session_prefix() + token) == Some(token),
        session_token_of(pairs_text(pairs) + session_prefix() + token + seq![';'] + rest) == Some(
            token,
        ),
{
    let e = Seq::<char>::empty();
    lemma_session_pair_after(e, pairs, token, e);
    assert(e + pairs_text(pairs) + session_prefix() + token + e == pairs_text(pairs)
        + session_prefix() + token);
    let t = seq![';'] + rest;
    lemma_session_pair_after(e, pairs, token, t);
    assert(e + pairs_text(pairs) + session_prefix() + token + t == pairs_text(pairs)
        + session_prefix() + token + seq![';'] + rest);
}

/// A token made of visible ASCII characters other than `;`, as a signed session
/// token is, is read back whole from the `Cookie` header, wherever its pair stands.
pub proof fn lemma_visible_token_reads_back(
    pairs: Seq<Seq<char>>,
    token: Seq<char>,
    rest: Seq<char>,
)
    requires
        forall|k: int| 0 <= k < pairs.len() ==> other_pair(#[trigger] pairs[k]),
        forall|i: int| 0 <= i < token.len() ==> visible_ascii(#[trigger] token[i]) && token[i]
            != ';',
    ensures
        plain_token(token),
        session_token_of(pairs_text(pairs) + session_prefix() + token) == Some(token),
        session_token_of(pairs_text(pairs) + session_prefix() + token + seq![';'] + rest) == Some(
            token,
        ),
{
    if token.len() > 0 {
        assert(visible_ascii(token[token.len() - 1]));
        lemma_visible_ascii_not_white(token.last());
    }
    lemma_session_pair_after_others(pairs, token, rest);
}

/// After logout the browser either sends an empty session token or no `Cookie`
/// header at all: the first gives the empty token, which no session decodes, the
/// second gives none.
pub proof fn lemma_logout_cookie_is_empty()
    ensures
        session_token_of(cookie_text(AUTH_COOKIE@, Seq::empty(), SESSION_COOKIE_PATH@, true, 0))
            == Some(Seq::<char>::empty()),
        session_token_of(Seq::<char>::empty()) is None,
{
    let e = Seq::<char>::empty();
    lemma_session_cookie_round_trip(e, e, SESSION_COOKIE_PATH@, true, 0);
    reveal_strlit("auth_token");
    assert(trim(e) == e);
    assert(!session_prefix().is_prefix_of(e));
}

} // verus!
