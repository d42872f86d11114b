//! # Cross-origin policy
//!
//! Which browser origins the HTTP API accepts requests from:
//!
//! 1. If the `CORS_ORIGINS` environment variable is set, its comma-separated
//!    entries that are valid header values (after trimming whitespace) are the
//!    allowed origins, unless none is.
//! 2. Otherwise, a server bound to all interfaces (`0.0.0.0` or `::`) accepts
//!    any origin.
//! 3. Otherwise the allowed origin is the configured `http://<host>:<port>`,
//!    plus `http://localhost:47890` and `http://127.0.0.1:47890` when the
//!    host is `localhost` or `127.0.0.1`.
//!
//! Restricted policies allow the `GET` and `POST` methods and the
//! `content-type` header only.

use vstd::prelude::*;

use crate::text::{lemma_index_of_bounds, chars_of, decimal_string, decimal_text, index_of, index_of_from, chars_after, chars_before, string_of, texts, contains_text};

verus! {

/// A byte of a header value is valid when it is visible (32 and above, but
/// not 127) or a tab; a character is valid when all its UTF-8 bytes are,
/// which holds of every character above ASCII.
pub open spec fn header_char_ok(c: char) -> bool {
    (c as u32 >= 32 && c as u32 != 127) || c == '\t'
}

/// Text that `http::HeaderValue` accepts.
pub open spec fn header_text_ok(s: Seq<char>) -> bool {
    forall|i: int| 0 <= i < s.len() ==> header_char_ok(#[trigger] s[i])
}

/// Calls `axum::http::HeaderValue::from_str` and reports whether it succeeded.
/// Trusted: `from_str` accepts exactly the text whose bytes are all visible
/// ASCII (32 to 126), tabs, or above 127, which is `header_text_ok`.
#[verifier::external_body]
fn header_value_ok(s: &str) -> (ok: bool)
    ensures
        ok == header_text_ok(s@),
{
    axum::http::HeaderValue::from_str(s).is_ok()
}

/// Unicode `White_Space` characters, which `str::trim` removes.
pub open spec fn is_white_space(c: char) -> bool {
    ||| ('\u{9}' <= c && c <= '\u{d}')
    ||| c == ' '
    ||| c == '\u{85}'
    ||| c == '\u{a0}'
    ||| c == '\u{1680}'
    ||| ('\u{2000}' <= c && c <= '\u{200a}')
    ||| c == '\u{2028}'
    ||| c == '\u{2029}'
    ||| c == '\u{202f}'
    ||| c == '\u{205f}'
    ||| c == '\u{3000}'
}

/// Text without its leading white space.
pub open spec fn trimmed_start(s: Seq<char>) -> Seq<char>
    decreases s.len(),
{
    if s.len() > 0 && is_white_space(s[0]) {
        trimmed_start(s.drop_first())
    } else {
        s
    }
}

/// Text without its trailing white space.
pub open spec fn trimmed_end(s: Seq<char>) -> Seq<char>
    decreases s.len(),
{
    if s.len() > 0 && is_white_space(s.last()) {
        trimmed_end(s.drop_last())
    } else {
        s
    }
}

/// Text without leading and trailing white space.
pub open spec fn trimmed(s: Seq<char>) -> Seq<char> {
    trimmed_end(trimmed_start(s))
}

/// Whether a character is Unicode `White_Space` (see [`is_white_space`]).
fn white_space(c: char) -> (b: bool)
    ensures
        b == is_white_space(c),
{
    ('\u{9}' <= c && c <= '\u{d}') || c == ' ' || c == '\u{85}' || c == '\u{a0}' || c == '\u{1680}'
        || ('\u{2000}' <= c && c <= '\u{200a}') || c == '\u{2028}' || c == '\u{2029}' || c == '\u{202f}'
        || c == '\u{205f}' || c == '\u{3000}'
}

/// The text without leading and trailing white space, as `str::trim` gives it.
fn trim_text(s: &Vec<char>) -> (r: String)
    ensures
        r@ == trimmed(s@),
{
    let n = s.len();
    let mut a: usize = 0;
    assert(s@.skip(0) == s@);
    while a < n && white_space(s[a])
        invariant
            n == s@.len(),
            a <= n,
            trimmed_start(s@.skip(a as int)) == trimmed_start(s@),
        decreases n - a,
    {
        assert(s@.skip(a as int).drop_first() == s@.skip(a + 1));
        a = a + 1;
    }
    assert(trimmed_start(s@) == s@.skip(a as int));
    let mut b: usize = n;
    while b > a && white_space(s[b - 1])
        invariant
            n == s@.len(),
            a <= b <= n,
            trimmed_end(s@.subrange(a as int, b as int)) == trimmed_end(s@.skip(a as int)),
        decreases b - a,
    {
        assert(s@.subrange(a as int, b as int).drop_last() == s@.subrange(a as int, b - 1));
        b = b - 1;
    }
    assert(s@.skip(a as int) == s@.subrange(a as int, n as int));
    assert(trimmed_end(s@.subrange(a as int, b as int)) == s@.subrange(a as int, b as int));
    let mut r = String::new();
    let mut k: usize = a;
    while k < b
        invariant
            n == s@.len(),
            a <= k <= b <= n,
            r@ == s@.subrange(a as int, k as int),
        decreases b - k,
    {
        r.push(s[k]);
        assert(s@.subrange(a as int, k + 1) == s@.subrange(a as int, k as int).push(s@[k as int]));
        k = k + 1;
    }
    r
}

/// The pieces of `s` between commas (one piece when there is no comma).
pub open spec fn comma_pieces(s: Seq<char>) -> Seq<Seq<char>>
    decreases s.len(),
{
    let k = index_of_from(s, ',', 0);
    if k >= s.len() {
        seq![s]
    } else {
        proof {
            lemma_index_of_bounds(s, ',', 0);
        }
        seq![s.take(k)] + comma_pieces(s.skip(k + 1))
    }
}

/// The origins an override names: its non-empty pieces, trimmed, that are valid header values.
pub open spec fn listed_origins(pieces: Seq<Seq<char>>) -> Seq<Seq<char>>
    decreases pieces.len(),
{
    if pieces.len() == 0 {
        Seq::empty()
    } else {
        let before = listed_origins(pieces.drop_last());
        let p = pieces.last();
        if p.len() > 0 && header_text_ok(trimmed(p)) {
            before.push(trimmed(p))
        } else {
            before
        }
    }
}

/// Add an origin unless it is already there or not a valid header value.
pub open spec fn with_origin(list: Seq<Seq<char>>, origin: Seq<char>) -> Seq<Seq<char>> {
    if list.contains(origin) || !header_text_ok(origin) {
        list
    } else {
        list.push(origin)
    }
}

/// `http://<host>:<port>`.
pub open spec fn origin_with_port(host: Seq<char>, port: u16) -> Seq<char> {
    "http://"@ + host + seq![':'] + decimal_text(port as nat)
}

/// The origins allowed for a server bound to a specific host.
pub open spec fn host_origins(host: Seq<char>, port: u16) -> Seq<Seq<char>> {
    let with_port = origin_with_port(host, port);
    let base = if header_text_ok(with_port) {
        seq![with_port]
    } else {
        Seq::empty()
    };
    if host == "localhost"@ || host == "127.0.0.1"@ {
        with_origin(with_origin(base, "http://localhost:47890"@), "http://127.0.0.1:47890"@)
    } else {
        base
    }
}

/// Abstract policy: `None` for any origin, else the allowed origins.
pub open spec fn cors_origins(host: Seq<char>, port: u16, env: Option<Seq<char>>) -> Option<Seq<Seq<char>>> {
    let listed = match env {
        Some(e) => listed_origins(comma_pieces(e)),
        None => Seq::empty(),
    };
    if listed.len() > 0 {
        Some(listed)
    } else if host == "0.0.0.0"@ || host == "::"@ {
        None
    } else {
        Some(host_origins(host, port))
    }
}

/// Which origins may call the API.
pub enum CorsPolicy {
    /// Any origin, any method, any header.
    AnyOrigin,
    /// Only these origins, methods and request headers.
    Restricted { origins: Vec<String>, methods: Vec<String>, headers: Vec<String> },
}

/// The methods a restricted policy allows.
pub open spec fn allowed_methods() -> Seq<Seq<char>> {
    seq!["GET"@, "POST"@]
}

/// The request headers a restricted policy allows.
pub open spec fn allowed_headers() -> Seq<Seq<char>> {
    seq!["content-type"@]
}

/// The origins of a policy (`None` for any origin).
pub open spec fn policy_origins(p: CorsPolicy) -> Option<Seq<Seq<char>>> {
    match p {
        CorsPolicy::AnyOrigin => None,
        CorsPolicy::Restricted { origins, .. } => Some(texts(origins@)),
    }
}

/// A restricted policy allows exactly `GET`, `POST` and the `content-type` header.
pub open spec fn restricted_to_get_post(p: CorsPolicy) -> bool {
    match p {
        CorsPolicy::AnyOrigin => true,
        CorsPolicy::Restricted { methods, headers, .. } => {
            &&& texts(methods@) == allowed_methods()
            &&& texts(headers@) == allowed_headers()
        },
    }
}

fn restricted(origins: Vec<String>) -> (p: CorsPolicy)
    ensures
        policy_origins(p) == Some(texts(origins@)),
        restricted_to_get_post(p),
{
    let mut methods: Vec<String> = Vec::new();
    methods.push(String::from_str("GET"));
    methods.push(String::from_str("POST"));
    let mut headers: Vec<String> = Vec::new();
    headers.push(String::from_str("content-type"));
    assert(texts(methods@) =~= allowed_methods());
    assert(texts(headers@) =~= allowed_headers());
    CorsPolicy::Restricted { origins, methods, headers }
}

fn comma_pieces_of(s: &Vec<char>) -> (r: Vec<Vec<char>>)
    ensures
        r@.map_values(|p: Vec<char>| p@) == comma_pieces(s@),
    decreases s@.len(),
{
    let k = index_of(s, ',');
    if k >= s.len() {
        let mut r: Vec<Vec<char>> = Vec::new();
        r.push(chars_after(s, 0));
        assert(s@.skip(0) == s@);
        assert(r@.map_values(|p: Vec<char>| p@) =~= seq![s@]);
        r
    } else {
        let first = chars_before(s, k);
        let rest = chars_after(s, k + 1);
        let tail = comma_pieces_of(&rest);
        let mut r: Vec<Vec<char>> = Vec::new();
        r.push(first);
        let mut i: usize = 0;
        while i < tail.len()
            invariant
                i <= tail@.len(),
                r@.len() == i + 1,
                r@.map_values(|p: Vec<char>| p@) == seq![s@.take(k as int)] + comma_pieces(
                    s@.skip(k + 1),
                ).take(i as int),
                tail@.map_values(|p: Vec<char>| p@) == comma_pieces(s@.skip(k + 1)),
            decreases tail@.len() - i,
        {
            let ghost before = r@;
            let p = chars_after(&tail[i], 0);
            assert(tail@[i as int]@.skip(0) == tail@[i as int]@);
            r.push(p);
            let ghost cp = comma_pieces(s@.skip(k + 1));
            assert(cp.take(i + 1) == cp.take(i as int).push(cp[i as int]));
            assert(cp[i as int] == tail@[i as int]@);
            assert(r@.map_values(|p: Vec<char>| p@) =~= before.map_values(|p: Vec<char>| p@).push(
                cp[i as int],
            ));
            assert(r@.map_values(|p: Vec<char>| p@) =~= seq![s@.take(k as int)] + cp.take(i + 1));
            i = i + 1;
        }
        assert(comma_pieces(s@.skip(k + 1)).take(tail@.len() as int) =~= comma_pieces(
            s@.skip(k + 1),
        ));
        r
    }
}

fn text_ok(v: &Vec<char>) -> (ok: bool)
    ensures
        ok == header_text_ok(v@),
{
    let s = string_of(v.as_slice());
    header_value_ok(s.as_str())
}

fn listed_origins_of(env: &str) -> (r: Vec<String>)
    ensures
        texts(r@) == listed_origins(comma_pieces(env@)),
{
    let chars = chars_of(env);
    let pieces = comma_pieces_of(&chars);
    let ghost ps = comma_pieces(env@);
    let mut r: Vec<String> = Vec::new();
    let mut i: usize = 0;
    while i < pieces.len()
        invariant
            i <= pieces@.len(),
            pieces@.map_values(|p: Vec<char>| p@) == ps,
            ps == comma_pieces(env@),
            texts(r@) == listed_origins(ps.take(i as int)),
        decreases pieces@.len() - i,
    {
        let p = &pieces[i];
        assert(ps.take(i + 1).drop_last() == ps.take(i as int));
        assert(ps.take(i + 1).last() == p@);
        if p.len() > 0 {
            let t = trim_text(p);
            if header_value_ok(t.as_str()) {
                let ghost before = r@;
                r.push(t);
                assert(texts(r@) =~= texts(before).push(trimmed(p@)));
            }
        }
        i = i + 1;
    }
    assert(ps.take(pieces@.len() as int) == ps);
    r
}

fn add_origin(list: &mut Vec<String>, origin: String)
    ensures
        texts(final(list)@) == with_origin(texts(old(list)@), origin@),
{
    let present = contains_text(list, &origin);
    let ok = header_value_ok(origin.as_str());
    if !present && ok {
        let ghost before = list@;
        list.push(origin);
        assert(texts(list@) =~= texts(before).push(origin@));
    }
}

fn host_origins_of(host: &str, port: u16) -> (r: Vec<String>)
    ensures
        texts(r@) == host_origins(host@, port),
{
    let mut with_port = String::from_str("http://");
    with_port.append(host);
    with_port.push(':');
    let digits = decimal_string(port as u64);
    with_port.append(digits.as_str());
    assert(with_port@ =~= origin_with_port(host@, port));
    let mut r: Vec<String> = Vec::new();
    if header_value_ok(with_port.as_str()) {
        r.push(with_port);
    }
    assert(texts(r@) =~= if header_text_ok(origin_with_port(host@, port)) {
        seq![origin_with_port(host@, port)]
    } else {
        Seq::empty()
    });
    let hc = chars_of(host);
    if crate::text::is_text(&hc, "localhost") || crate::text::is_text(&hc, "127.0.0.1") {
        add_origin(&mut r, String::from_str("http://localhost:47890"));
        add_origin(&mut r, String::from_str("http://127.0.0.1:47890"));
    }
    r
}

/// The cross-origin policy for a server bound to `host:port`, given the
/// `CORS_ORIGINS` override if it is set.
pub fn cors_policy(host: &str, port: u16, env_origins: Option<&str>) -> (p: CorsPolicy)
    ensures
        policy_origins(p) == cors_origins(host@, port, match env_origins {
            Some(e) => Some(e@),
            None => None,
        }),
        restricted_to_get_post(p),
{
    let listed: Vec<String> = match env_origins {
        Some(e) => listed_origins_of(e),
        None => Vec::new(),
    };
    if listed.len() > 0 {
        return restricted(listed);
    }
    let hc = chars_of(host);
    if crate::text::is_text(&hc, "0.0.0.0") || crate::text::is_text(&hc, "::") {
        CorsPolicy::AnyOrigin
    } else {
        restricted(host_origins_of(host, port))
    }
}

// ── Laws ────────────────────────────────────────────────────────────

/// A server bound to all interfaces accepts any origin unless `CORS_ORIGINS` lists one.
pub proof fn lemma_all_interfaces_any_origin(host: Seq<char>, port: u16)
    requires
        host == "0.0.0.0"@ || host == "::"@,
    ensures
        cors_origins(host, port, None) is None,
{
}

/// A restricted list never names an origin twice when the host is local.
pub proof fn lemma_local_alternatives_once(list: Seq<Seq<char>>, origin: Seq<char>)
    ensures
        with_origin(list, origin).len() <= list.len() + 1,
        with_origin(with_origin(list, origin), origin) == with_origin(list, origin),
        header_text_ok(origin) ==> with_origin(list, origin).contains(origin),
{
    if header_text_ok(origin) && !list.contains(origin) {
        assert(list.push(origin)[list.len() as int] == origin);
    }
}

/// A server bound to a specific, non-local host allows only its own `http://<host>:<port>`.
pub proof fn lemma_specific_host_only(host: Seq<char>, port: u16)
    requires
        host != "0.0.0.0"@,
        host != "::"@,
        host != "localhost"@,
        host != "127.0.0.1"@,
        header_text_ok(origin_with_port(host, port)),
    ensures
        cors_origins(host, port, None) == Some(seq![origin_with_port(host, port)]),
{
}

/// An override that lists at least one valid origin decides the policy on its
/// own: the allowed origins are exactly the listed ones, whatever host and port
/// the server is bound to (the all-interfaces hosts included).
pub proof fn lemma_override_wins(host: Seq<char>, port: u16, other_host: Seq<char>, other_port: u16, env: Seq<char>)
    requires
        listed_origins(comma_pieces(env)).len() > 0,
    ensures
        cors_origins(host, port, Some(env)) == Some(listed_origins(comma_pieces(env))),
        cors_origins(host, port, Some(env)) == cors_origins(other_host, other_port, Some(env)),
{
}

} // verus!
