//! Double-submit CSRF protection for cookie-based sessions, and the
//! `Authorization` header parsing it shares with bearer authentication.
//!
//! A `ferro_csrf` cookie is issued that the browser must mirror in an
//! `X-CSRF-Token` header on mutating requests. The check enforces that
//! match for any cookie-bearing call. Bearer-token clients are exempt:
//! `Authorization` is not attached cross-site, so it cannot be forged via a
//! CSRF flow. Requests without the cookie have no CSRF target and pass.
//!
//! The functions here take the raw header values (or `None` when the header
//! is absent or not visible ASCII); reading them off a request is the
//! server's job.

use vstd::prelude::*;
use vstd::string::*;
use vstd::utf8::*;
use crate::session::{lemma_hex_alphabet, new_token, spec_hex};
use crate::text::{
    chars_of, has_prefix_at, is_ws, skip_ws_forward, string_of, trim, trim_bounds, trim_end,
    trim_start,
};

verus! {

/// Name of the CSRF cookie.
pub const COOKIE_NAME: &'static str = "ferro_csrf";

/// Name of the header that must mirror the cookie.
pub const HEADER_NAME: &'static str = "x-csrf-token";

// ---------------------------------------------------------------------------
// Specification
// ---------------------------------------------------------------------------

/// `"Bearer "`.
pub open spec fn bearer_upper() -> Seq<char> {
    seq!['B', 'e', 'a', 'r', 'e', 'r', ' ']
}

/// `"bearer "`.
pub open spec fn bearer_lower() -> Seq<char> {
    seq!['b', 'e', 'a', 'r', 'e', 'r', ' ']
}

/// Index of the first `;` in `s`, or `s.len()`.
pub open spec fn seg_end(s: Seq<char>) -> nat
    decreases s.len(),
{
    if s.len() == 0 {
        0
    } else if s[0] == ';' {
        0
    } else {
        1 + seg_end(s.drop_first())
    }
}

/// The value of the cookie `name` in a `Cookie` header: the header is split
/// on `;`, each part is trimmed, and the first part that starts with
/// `name=` gives what follows the `=`.
pub open spec fn cookie_value(s: Seq<char>, name: Seq<char>) -> Option<Seq<char>>
    decreases s.len(),
{
    let k = seg_end(s) as int;
    let part = trim(s.take(k));
    if name.push('=').is_prefix_of(part) {
        Some(part.skip(name.len() + 1 as int))
    } else if k >= s.len() {
        None
    } else {
        cookie_value(s.skip(k + 1), name)
    }
}

/// Whether an `Authorization` value, leading whitespace aside, names the
/// bearer scheme (`Bearer ` or `bearer `).
pub open spec fn spec_has_bearer(authorization: Option<Seq<char>>) -> bool {
    match authorization {
        Some(v) => bearer_upper().is_prefix_of(trim_start(v)) || bearer_lower().is_prefix_of(
            trim_start(v),
        ),
        None => false,
    }
}

/// The token of a bearer `Authorization` value: what follows `Bearer ` (or
/// `bearer `), trimmed, when that is not empty.
pub open spec fn spec_bearer_token(header: Seq<char>) -> Option<Seq<char>> {
    if bearer_upper().is_prefix_of(header) || bearer_lower().is_prefix_of(header) {
        let t = trim(header.skip(7));
        if t.len() > 0 {
            Some(t)
        } else {
            None
        }
    } else {
        None
    }
}

/// Methods that never need the CSRF check.
pub open spec fn is_safe_method(m: Seq<char>) -> bool {
    m == seq!['G', 'E', 'T'] || m == seq!['H', 'E', 'A', 'D'] || m == seq![
        'O',
        'P',
        'T',
        'I',
        'O',
        'N',
        'S',
    ]
}

/// Whether the double-submit check lets a request through.
pub open spec fn spec_csrf_allows(
    method: Seq<char>,
    authorization: Option<Seq<char>>,
    cookie_header: Option<Seq<char>>,
    csrf_header: Option<Seq<char>>,
) -> bool {
    if is_safe_method(method) || spec_has_bearer(authorization) {
        true
    } else {
        match cookie_header {
            None => true,
            Some(raw) => match cookie_value(raw, COOKIE_NAME@) {
                None => true,
                Some(cookie) => match csrf_header {
                    Some(h) => h.len() > 0 && h == cookie,
                    None => false,
                },
            },
        }
    }
}

/// The view of an optional string slice.
pub open spec fn opt_view(s: Option<&str>) -> Option<Seq<char>> {
    match s {
        Some(v) => Some(v@),
        None => None,
    }
}

// ---------------------------------------------------------------------------
// Implementation
// ---------------------------------------------------------------------------

/// Byte equality that inspects every byte of equal-length inputs, so the
/// time taken does not reveal how long a matching prefix is.
pub fn ct_eq(a: &[u8], b: &[u8]) -> (res: bool)
    ensures
        res == (a@ == b@),
{
    if a.len() != b.len() {
        return false;
    }
    let mut diff: u8 = 0;
    let mut i: usize = 0;
    while i < a.len()
        invariant
            0 <= i <= a@.len(),
            a@.len() == b@.len(),
            (diff == 0) <==> (forall|k: int| 0 <= k < i ==> a@[k] == b@[k]),
        decreases a@.len() - i,
    {
        let x = a[i];
        let y = b[i];
        let d = diff;
        assert((d | (x ^ y)) == 0 <==> (d == 0 && x == y)) by (bit_vector);
        diff = d | (x ^ y);
        i += 1;
    }
    if diff == 0 {
        assert(a@ =~= b@);
        true
    } else {
        false
    }
}

proof fn lemma_seg_end(s: Seq<char>, j: int)
    requires
        0 <= j <= s.len(),
        forall|k: int| 0 <= k < j ==> s[k] != ';',
        j == s.len() || s[j] == ';',
    ensures
        seg_end(s) == j,
    decreases j,
{
    if j > 0 {
        lemma_seg_end(s.drop_first(), j - 1);
    }
}

/// The value of cookie `name` in a `Cookie` header value, if any.
pub fn extract_cookie(cookie_header: Option<&str>, name: &str) -> (res: Option<String>)
    ensures
        match cookie_header {
            Some(raw) => match cookie_value(raw@, name@) {
                Some(v) => res matches Some(r) && r@ == v,
                None => res is None,
            },
            None => res is None,
        },
{
    let raw = match cookie_header {
        Some(r) => r,
        None => return None,
    };
    let cs = chars_of(raw);
    let mut key = chars_of(name);
    key.push('=');
    let mut start: usize = 0;
    assert(cs@.skip(0) =~= cs@);
    loop
        invariant
            cookie_header == Some(raw),
            0 <= start <= cs@.len(),
            cs@ == raw@,
            key@ == name@.push('='),
            cookie_value(raw@, name@) == cookie_value(cs@.skip(start as int), name@),
        decreases cs@.len() - start,
    {
        let ghost rest = cs@.skip(start as int);
        let mut k = start;
        while k < cs.len() && cs[k] != ';'
            invariant
                start <= k <= cs@.len(),
                forall|m: int| start <= m < k ==> cs@[m] != ';',
            decreases cs@.len() - k,
        {
            k += 1;
        }
        proof {
            lemma_seg_end(rest, k - start);
            assert(rest.take(k - start) =~= cs@.subrange(start as int, k as int));
        }
        let (a, b) = trim_bounds(cs.as_slice(), start, k);
        let ghost part = cs@.subrange(a as int, b as int);
        if has_prefix_at(cs.as_slice(), a, key.as_slice()) && key.len() <= b - a {
            assert(key@.is_prefix_of(part));
            assert(part.skip(name@.len() + 1 as int) =~= cs@.subrange(a + key@.len(), b as int));
            return Some(string_of(cs.as_slice(), a + key.len(), b));
        }
        proof {
            if key@.is_prefix_of(part) {
                assert(key@.is_prefix_of(cs@.subrange(a as int, cs@.len() as int)));
            }
        }
        if k >= cs.len() {
            return None;
        }
        assert(rest.skip(k - start + 1) =~= cs@.skip(k + 1));
        start = k + 1;
    }
}

fn bearer_prefix_upper() -> (res: Vec<char>)
    ensures
        res@ == bearer_upper(),
{
    let v: Vec<char> = vec!['B', 'e', 'a', 'r', 'e', 'r', ' '];
    assert(v@ =~= bearer_upper());
    v
}

fn bearer_prefix_lower() -> (res: Vec<char>)
    ensures
        res@ == bearer_lower(),
{
    let v: Vec<char> = vec!['b', 'e', 'a', 'r', 'e', 'r', ' '];
    assert(v@ =~= bearer_lower());
    v
}

/// Whether an `Authorization` header value names the bearer scheme,
/// ignoring leading whitespace.
pub fn has_bearer(authorization: Option<&str>) -> (res: bool)
    ensures
        res == spec_has_bearer(opt_view(authorization)),
{
    let v = match authorization {
        Some(v) => v,
        None => return false,
    };
    let cs = chars_of(v);
    let i = skip_ws_forward(cs.as_slice(), 0);
    assert(cs@.subrange(0, cs@.len() as int) =~= cs@);
    has_prefix_at(cs.as_slice(), i, bearer_prefix_upper().as_slice()) || has_prefix_at(
        cs.as_slice(),
        i,
        bearer_prefix_lower().as_slice(),
    )
}

/// The bearer token of an `Authorization` header value: the text after
/// `Bearer ` (or `bearer `), trimmed; `None` for other schemes or an empty
/// token.
pub fn bearer_token(header: &str) -> (res: Option<String>)
    ensures
        match spec_bearer_token(header@) {
            Some(t) => res matches Some(r) && r@ == t,
            None => res is None,
        },
{
    let cs = chars_of(header);
    assert(cs@.subrange(0, cs@.len() as int) =~= cs@);
    if !(has_prefix_at(cs.as_slice(), 0, bearer_prefix_upper().as_slice()) || has_prefix_at(
        cs.as_slice(),
        0,
        bearer_prefix_lower().as_slice(),
    )) {
        return None;
    }
    assert(cs@.subrange(7, cs@.len() as int) =~= cs@.skip(7));
    let (a, b) = trim_bounds(cs.as_slice(), 7, cs.len());
    if a == b {
        return None;
    }
    Some(string_of(cs.as_slice(), a, b))
}

fn is_safe(method: &str) -> (res: bool)
    ensures
        res == is_safe_method(method@),
{
    let m = chars_of(method);
    let get: Vec<char> = vec!['G', 'E', 'T'];
    let head: Vec<char> = vec!['H', 'E', 'A', 'D'];
    let options: Vec<char> = vec!['O', 'P', 'T', 'I', 'O', 'N', 'S'];
    assert(get@ =~= seq!['G', 'E', 'T']);
    assert(head@ =~= seq!['H', 'E', 'A', 'D']);
    assert(options@ =~= seq!['O', 'P', 'T', 'I', 'O', 'N', 'S']);
    crate::text::chars_eq(m.as_slice(), get.as_slice()) || crate::text::chars_eq(
        m.as_slice(),
        head.as_slice(),
    ) || crate::text::chars_eq(m.as_slice(), options.as_slice())
}

/// The double-submit decision for a request with the given method and
/// header values: safe methods (`GET`, `HEAD`, `OPTIONS`) and bearer
/// requests pass; a request carrying the `ferro_csrf` cookie passes only
/// when `X-CSRF-Token` is present, non-empty and equal to the cookie.
pub fn csrf_allows(
    method: &str,
    authorization: Option<&str>,
    cookie_header: Option<&str>,
    csrf_header: Option<&str>,
) -> (res: bool)
    ensures
        res == spec_csrf_allows(
            method@,
            opt_view(authorization),
            opt_view(cookie_header),
            opt_view(csrf_header),
        ),
{
    if is_safe(method) {
        return true;
    }
    if has_bearer(authorization) {
        return true;
    }
    let cookie_token = match extract_cookie(cookie_header, COOKIE_NAME) {
        Some(t) => t,
        None => return true,
    };
    let header_token: &str = match csrf_header {
        Some(h) => h,
        None => "",
    };
    proof {
        reveal_strlit("");
    }
    if header_token.is_empty() || !ct_eq(header_token.as_bytes(), cookie_token.as_str().as_bytes()) {
        proof {
            if header_token@.len() > 0 && header_token@ == cookie_token@ {
                assert(header_token.spec_bytes() == encode_utf8(cookie_token@));
            }
        }
        return false;
    }
    proof {
        encode_utf8_decode_utf8(header_token@);
        encode_utf8_decode_utf8(cookie_token@);
    }
    true
}

/// The `Set-Cookie` value that issues `token` as the CSRF cookie.
pub fn csrf_cookie(token: &str) -> (res: String)
    ensures
        res@ == COOKIE_NAME@ + "="@ + token@ + "; Path=/; SameSite=Strict"@,
{
    let mut out = String::new();
    out.append(COOKIE_NAME);
    out.append("=");
    out.append(token);
    out.append("; Path=/; SameSite=Strict");
    out
}

/// A fresh CSRF token and the `Set-Cookie` value that issues it.
pub fn mint() -> (res: (String, String))
    ensures
        res.0@.len() == 64,
        exists|bytes: Seq<u8>| bytes.len() == 32 && res.0@ == spec_hex(bytes),
        res.1@ == COOKIE_NAME@ + "="@ + res.0@ + "; Path=/; SameSite=Strict"@,
{
    let token = new_token();
    let cookie = csrf_cookie(token.as_str());
    (token, cookie)
}

// ---------------------------------------------------------------------------
// Laws
// ---------------------------------------------------------------------------

/// Safe methods and bearer-authenticated requests always pass the check.
pub proof fn lemma_exempt_requests_pass(
    method: Seq<char>,
    authorization: Option<Seq<char>>,
    cookie_header: Option<Seq<char>>,
    csrf_header: Option<Seq<char>>,
)
    requires
        is_safe_method(method) || spec_has_bearer(authorization),
    ensures
        spec_csrf_allows(method, authorization, cookie_header, csrf_header),
{
}

/// A request without the CSRF cookie has no CSRF target and passes.
pub proof fn lemma_no_cookie_passes(
    method: Seq<char>,
    authorization: Option<Seq<char>>,
    cookie_header: Option<Seq<char>>,
    csrf_header: Option<Seq<char>>,
)
    requires
        match cookie_header {
            Some(raw) => cookie_value(raw, COOKIE_NAME@) is None,
            None => true,
        },
    ensures
        spec_csrf_allows(method, authorization, cookie_header, csrf_header),
{
}

/// A cookie-bearing, non-exempt request passes exactly when the header
/// mirrors the cookie and is not empty.
pub proof fn lemma_cookie_requires_matching_header(
    method: Seq<char>,
    authorization: Option<Seq<char>>,
    raw: Seq<char>,
    csrf_header: Option<Seq<char>>,
)
    requires
        !is_safe_method(method),
        !spec_has_bearer(authorization),
        cookie_value(raw, COOKIE_NAME@) is Some,
    ensures
        spec_csrf_allows(method, authorization, Some(raw), csrf_header) <==> (csrf_header matches Some(
            h,
        ) && h.len() > 0 && h == cookie_value(raw, COOKIE_NAME@)->0),
{
}

/// A value with no `;`, whose first and last characters are not
/// whitespace: the shape of the tokens issued by [`mint`].
pub open spec fn plain_cookie_value(t: Seq<char>) -> bool {
    &&& t.len() > 0
    &&& !is_ws(t[0])
    &&& !is_ws(t.last())
    &&& forall|i: int| 0 <= i < t.len() ==> #[trigger] t[i] != ';'
}

proof fn lemma_seg_end_no_sep(s: Seq<char>)
    requires
        forall|i: int| 0 <= i < s.len() ==> #[trigger] s[i] != ';',
    ensures
        seg_end(s) == s.len(),
    decreases s.len(),
{
    if s.len() > 0 {
        lemma_seg_end_no_sep(s.drop_first());
    }
}

/// The cookie a browser sends back for the issued `ferro_csrf=<token>`
/// reads back as the token, so a request echoing the token in
/// `X-CSRF-Token` passes the check.
pub proof fn lemma_issued_cookie_reads_back(token: Seq<char>, method: Seq<char>)
    requires
        plain_cookie_value(token),
    ensures
        cookie_value(COOKIE_NAME@ + "="@ + token, COOKIE_NAME@) == Some(token),
        spec_csrf_allows(method, None, Some(COOKIE_NAME@ + "="@ + token), Some(token)),
{
    reveal_strlit("ferro_csrf");
    reveal_strlit("=");
    let name = COOKIE_NAME@;
    let s = name + "="@ + token;
    assert(name.push('=') =~= name + "="@);
    assert forall|i: int| 0 <= i < s.len() implies #[trigger] s[i] != ';' by {
        if i >= name.len() + 1 {
            assert(s[i] == token[i - name.len() - 1]);
        }
    }
    lemma_seg_end_no_sep(s);
    assert(s.take(s.len() as int) =~= s);
    assert(!is_ws(s[0]));
    assert(trim_start(s) == s);
    assert(s.last() == token.last());
    assert(trim_end(s) == s);
    assert(trim(s) == s);
    assert(name.push('=').is_prefix_of(s));
    assert(s.skip(name.len() + 1 as int) =~= token);
}

/// Every token [`mint`] issues is a plain cookie value, so a request that
/// sends it back in both the cookie and the header passes.
pub proof fn lemma_minted_token_passes(bytes: Seq<u8>, method: Seq<char>)
    requires
        bytes.len() == 32,
    ensures
        plain_cookie_value(spec_hex(bytes)),
        spec_csrf_allows(
            method,
            None,
            Some(COOKIE_NAME@ + "="@ + spec_hex(bytes)),
            Some(spec_hex(bytes)),
        ),
{
    let t = spec_hex(bytes);
    crate::session::lemma_hex_len(bytes);
    lemma_hex_alphabet(bytes);
    assert(t[0] == t[0]);
    assert(t.last() == t[t.len() - 1]);
    lemma_issued_cookie_reads_back(t, method);
}

/// Only `GET`, `HEAD` and `OPTIONS` skip the check: a request with any
/// other method that carries the CSRF cookie and no bearer token passes
/// exactly when `X-CSRF-Token` is present, non-empty and equal to the
/// cookie. In particular `POST`, `PUT`, `PATCH` and `DELETE` without the
/// header are refused.
pub proof fn lemma_other_methods_are_checked(
    method: Seq<char>,
    authorization: Option<Seq<char>>,
    raw: Seq<char>,
    csrf_header: Option<Seq<char>>,
)
    requires
        method != seq!['G', 'E', 'T'],
        method != seq!['H', 'E', 'A', 'D'],
        method != seq!['O', 'P', 'T', 'I', 'O', 'N', 'S'],
        !spec_has_bearer(authorization),
        cookie_value(raw, COOKIE_NAME@) is Some,
    ensures
        spec_csrf_allows(method, authorization, Some(raw), csrf_header) <==> (csrf_header matches Some(
            h,
        ) && h.len() > 0 && h == cookie_value(raw, COOKIE_NAME@)->0),
        !spec_csrf_allows(method, authorization, Some(raw), None),
{
}

/// The three safe methods always pass, whatever the headers.
pub proof fn lemma_safe_methods_pass(
    authorization: Option<Seq<char>>,
    cookie_header: Option<Seq<char>>,
    csrf_header: Option<Seq<char>>,
)
    ensures
        spec_csrf_allows(seq!['G', 'E', 'T'], authorization, cookie_header, csrf_header),
        spec_csrf_allows(seq!['H', 'E', 'A', 'D'], authorization, cookie_header, csrf_header),
        spec_csrf_allows(
            seq!['O', 'P', 'T', 'I', 'O', 'N', 'S'],
            authorization,
            cookie_header,
            csrf_header,
        ),
{
}

} // verus!
