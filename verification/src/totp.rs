//! RFC 6238 TOTP (Time-based One-Time Password).
//!
//! Defaults match what mainstream authenticator apps accept: 6 digits,
//! 30-second step, HMAC-SHA1, drift window of one step either way.
//! Secrets are base32 strings (RFC 4648, no padding), the form used in QR
//! codes and `otpauth://` URIs. Instants are UNIX timestamps in seconds.

use vstd::prelude::*;
use vstd::string::*;
use crate::primitives::{
    all_base32, base32_decode, base32_decoded, base32_encode, base32_encoded, hmac_sha1,
    hmac_sha1_tag, is_base32_char, random_bytes,
};
use crate::text::{chars_of, push_char};

verus! {

/// Length of one time step in seconds.
pub const STEP_SECS: u64 = 30;

/// Number of digits in a code.
pub const DIGITS: u32 = 6;

/// Steps of drift accepted on either side by [`verify`].
pub const DEFAULT_WINDOW: i64 = 1;

// ---------------------------------------------------------------------------
// Specification
// ---------------------------------------------------------------------------

/// Characters that `url_encode` leaves as they are (RFC 3986 unreserved).
pub open spec fn is_unreserved(b: u8) -> bool {
    ||| 65 <= b <= 90
    ||| 97 <= b <= 122
    ||| 48 <= b <= 57
    ||| b == 45
    ||| b == 95
    ||| b == 46
    ||| b == 126
}

/// Upper-case hexadecimal digit for `n < 16`.
pub open spec fn hex_upper(n: u8) -> char {
    if n < 10 {
        (48 + n) as char
    } else {
        (55 + n) as char
    }
}

/// Percent-encoding of one byte.
pub open spec fn encode_byte(b: u8) -> Seq<char> {
    if is_unreserved(b) {
        seq![b as char]
    } else {
        seq!['%', hex_upper(b / 16), hex_upper(b % 16)]
    }
}

/// Percent-encoding of a byte string: unreserved bytes stay, every other
/// byte becomes `%XX` with upper-case hex.
pub open spec fn spec_url_encode(bytes: Seq<u8>) -> Seq<char>
    decreases bytes.len(),
{
    if bytes.len() == 0 {
        seq![]
    } else {
        spec_url_encode(bytes.drop_last()) + encode_byte(bytes.last())
    }
}

/// The `otpauth://` provisioning URI for a secret, account and issuer.
pub open spec fn spec_otpauth_uri(secret: Seq<char>, account: Seq<u8>, issuer: Seq<u8>) -> Seq<
    char,
> {
    "otpauth://totp/"@ + spec_url_encode(issuer) + ":"@ + spec_url_encode(account) + "?secret="@
        + secret + "&issuer="@ + spec_url_encode(issuer) + "&algorithm=SHA1&digits=6&period=30"@
}

/// The time step that contains the UNIX time `at` (times before the epoch
/// count as the epoch).
pub open spec fn spec_step(at: i64) -> u64 {
    if at < 0 {
        0
    } else {
        (at as u64 / 30) as u64
    }
}

/// The 8-byte big-endian encoding of a counter.
pub open spec fn be_bytes(c: u64) -> Seq<u8> {
    seq![
        ((c / 0x100000000000000) % 256) as u8,
        ((c / 0x1000000000000) % 256) as u8,
        ((c / 0x10000000000) % 256) as u8,
        ((c / 0x100000000) % 256) as u8,
        ((c / 0x1000000) % 256) as u8,
        ((c / 0x10000) % 256) as u8,
        ((c / 0x100) % 256) as u8,
        (c % 256) as u8,
    ]
}

/// RFC 4226 dynamic truncation of a 20-byte HMAC tag, reduced to six
/// decimal digits.
pub open spec fn spec_truncate(hash: Seq<u8>) -> u32 {
    let off = (hash[19] % 16) as int;
    let bin = (hash[off] % 128) as int * 0x1000000 + hash[off + 1] as int * 0x10000
        + hash[off + 2] as int * 0x100 + hash[off + 3] as int;
    (bin % 1_000_000) as u32
}

/// Decimal digit character for `d < 10`.
pub open spec fn digit_char(d: u32) -> char {
    (48 + d) as char
}

/// The six-character, zero-padded decimal text of `n < 1_000_000`.
pub open spec fn six_digits(n: u32) -> Seq<char> {
    seq![
        digit_char(n / 100000),
        digit_char((n / 10000) % 10),
        digit_char((n / 1000) % 10),
        digit_char((n / 100) % 10),
        digit_char((n / 10) % 10),
        digit_char(n % 10),
    ]
}

/// The code for `counter` under the raw key `key`.
#[verifier::opaque]
pub open spec fn spec_code(key: Seq<u8>, counter: u64) -> Seq<char> {
    six_digits(spec_truncate(hmac_sha1_tag(key, be_bytes(counter))))
}

/// The counter checked for step `center` shifted by `delta`, clamped at 0.
pub open spec fn shifted_counter(center: u64, delta: int) -> u64 {
    if center + delta < 0 {
        0
    } else {
        (center + delta) as u64
    }
}

/// Whether `code` is the code of some step within `window` of `center`.
pub open spec fn code_in_window(key: Seq<u8>, code: Seq<char>, center: u64, window: int) -> bool {
    exists|delta: int|
        -window <= delta <= window && #[trigger] spec_code(key, shifted_counter(center, delta))
            == code
}

/// What `verify_with_window` answers.
pub open spec fn spec_verify(secret: Seq<char>, code: Seq<char>, at: i64, window: int) -> bool {
    match base32_decoded(secret) {
        Some(key) => code_in_window(key, code, spec_step(at), window),
        None => false,
    }
}

// ---------------------------------------------------------------------------
// Implementation
// ---------------------------------------------------------------------------

fn hex_digit(n: u8) -> (c: char)
    requires
        n < 16,
    ensures
        c == hex_upper(n),
{
    if n < 10 {
        (48 + n) as char
    } else {
        (55 + n) as char
    }
}

/// Minimal percent-encoder for the URI label and issuer fields: keeps
/// `A-Z a-z 0-9 - _ . ~` and writes every other byte of the UTF-8 text as
/// `%XX`.
pub fn url_encode(s: &str) -> (res: String)
    ensures
        res@ == spec_url_encode(s.spec_bytes()),
{
    let bytes = s.as_bytes();
    let mut out = String::new();
    let mut i: usize = 0;
    while i < bytes.len()
        invariant
            0 <= i <= bytes@.len(),
            bytes@ == s.spec_bytes(),
            out@ == spec_url_encode(bytes@.take(i as int)),
        decreases bytes@.len() - i,
    {
        let b = bytes[i];
        assert(bytes@.take(i + 1).drop_last() =~= bytes@.take(i as int));
        if (65 <= b && b <= 90) || (97 <= b && b <= 122) || (48 <= b && b <= 57) || b == 45 || b
            == 95 || b == 46 || b == 126 {
            push_char(&mut out, b as char);
        } else {
            push_char(&mut out, '%');
            push_char(&mut out, hex_digit(b / 16));
            push_char(&mut out, hex_digit(b % 16));
        }
        i += 1;
    }
    assert(bytes@.take(bytes@.len() as int) =~= bytes@);
    out
}

/// Builds the standard `otpauth://totp/<issuer>:<account>?secret=…&issuer=…`
/// URI that authenticator apps render as a QR code.
pub fn otpauth_uri(secret: &str, account: &str, issuer: &str) -> (res: String)
    ensures
        res@ == spec_otpauth_uri(secret@, account.spec_bytes(), issuer.spec_bytes()),
{
    let issuer_enc = url_encode(issuer);
    let account_enc = url_encode(account);
    let mut out = String::new();
    out.append("otpauth://totp/");
    out.append(issuer_enc.as_str());
    out.append(":");
    out.append(account_enc.as_str());
    out.append("?secret=");
    out.append(secret);
    out.append("&issuer=");
    out.append(issuer_enc.as_str());
    out.append("&algorithm=SHA1&digits=6&period=30");
    out
}

/// The time step containing the UNIX time `at`.
pub fn step_counter(at: i64) -> (res: u64)
    ensures
        res == spec_step(at),
        res <= 307445734561825860,
{
    if at < 0 {
        0
    } else {
        at as u64 / STEP_SECS
    }
}

/// The 8-byte big-endian encoding of `c`.
pub fn counter_bytes(c: u64) -> (res: Vec<u8>)
    ensures
        res@ == be_bytes(c),
{
    let v: Vec<u8> = vec![
        ((c / 0x100000000000000) % 256) as u8,
        ((c / 0x1000000000000) % 256) as u8,
        ((c / 0x10000000000) % 256) as u8,
        ((c / 0x100000000) % 256) as u8,
        ((c / 0x1000000) % 256) as u8,
        ((c / 0x10000) % 256) as u8,
        ((c / 0x100) % 256) as u8,
        (c % 256) as u8,
    ];
    assert(v@ =~= be_bytes(c));
    v
}

/// RFC 4226 §5.4 dynamic truncation of an HMAC-SHA1 tag, reduced modulo
/// `10^6`.
pub fn truncate(hash: &[u8]) -> (res: u32)
    requires
        hash@.len() == 20,
    ensures
        res == spec_truncate(hash@),
        res < 1_000_000,
{
    let off = (hash[19] % 16) as usize;
    let bin: u32 = ((hash[off] % 128) as u32) * 0x1000000 + (hash[off + 1] as u32) * 0x10000
        + (hash[off + 2] as u32) * 0x100 + (hash[off + 3] as u32);
    bin % 1_000_000
}

pub(crate) fn digit(d: u32) -> (c: char)
    requires
        d < 10,
    ensures
        c == digit_char(d),
{
    (48 + d as u8) as char
}

/// Six-digit, zero-padded decimal text of `n`.
pub fn format_six(n: u32) -> (res: String)
    requires
        n < 1_000_000,
    ensures
        res@ == six_digits(n),
{
    let mut out = String::new();
    push_char(&mut out, digit(n / 100000));
    push_char(&mut out, digit((n / 10000) % 10));
    push_char(&mut out, digit((n / 1000) % 10));
    push_char(&mut out, digit((n / 100) % 10));
    push_char(&mut out, digit((n / 10) % 10));
    push_char(&mut out, digit(n % 10));
    assert(out@ =~= six_digits(n));
    out
}

/// HMAC-SHA1 over the 8-byte counter, then dynamic truncation to six
/// digits (RFC 4226).
pub fn format_code(key: &[u8], counter: u64) -> (res: String)
    ensures
        res@ == spec_code(key@, counter),
{
    let msg = counter_bytes(counter);
    let hash = hmac_sha1(key, msg.as_slice());
    let n = truncate(hash.as_slice());
    let res = format_six(n);
    proof {
        reveal(spec_code);
    }
    res
}

/// Generates 160 bits of random secret, encoded as base32 (RFC 4648, no
/// padding): the `secret=` value of an `otpauth://` URI.
pub fn generate_secret() -> (res: String)
    ensures
        res@.len() == 32,
        all_base32(res@),
        exists|key: Seq<u8>|
            key.len() == 20 && res@ == base32_encoded(key) && base32_decoded(res@) == Some(key),
{
    let buf = random_bytes(20);
    let s = base32_encode(buf.as_slice());
    assert(buf@.len() == 20 && s@ == base32_encoded(buf@) && base32_decoded(s@) == Some(buf@));
    s
}

/// The six-digit code valid at the UNIX time `at` for the base32 secret,
/// or `None` when the secret does not decode.
pub fn generate(secret_b32: &str, at: i64) -> (res: Option<String>)
    ensures
        match base32_decoded(secret_b32@) {
            Some(key) => res matches Some(code) && code@ == spec_code(key, spec_step(at)),
            None => res is None,
        },
        res is Some <==> all_base32(secret_b32@),
{
    let key = match base32_decode(secret_b32) {
        Some(k) => k,
        None => return None,
    };
    let counter = step_counter(at);
    Some(format_code(key.as_slice(), counter))
}

/// Verifies a code against the secret, accepting `window` steps of drift
/// on either side of the step containing `at`.
pub fn verify_with_window(secret_b32: &str, code: &str, at: i64, window: i64) -> (res: bool)
    requires
        window > i64::MIN,
        spec_step(at) + window <= i64::MAX,
    ensures
        res == spec_verify(secret_b32@, code@, at, window as int),
{
    let key = match base32_decode(secret_b32) {
        Some(k) => k,
        None => return false,
    };
    assert(base32_decoded(secret_b32@) == Some(key@));
    let want: String = code.to_owned();
    let center = step_counter(at);
    if window < 0 {
        return false;
    }
    let icenter = center as i64;
    let mut delta: i64 = -window;
    loop
        invariant
            0 <= window,
            -window <= delta <= window,
            icenter == center,
            center == spec_step(at),
            base32_decoded(secret_b32@) == Some(key@),
            icenter + window <= i64::MAX,
            want@ == code@,
            forall|d: int|
                -window <= d < delta ==> #[trigger] spec_code(key@, shifted_counter(center, d))
                    != code@,
        ensures
            forall|d: int|
                -window <= d <= window ==> #[trigger] spec_code(key@, shifted_counter(center, d))
                    != code@,
        decreases window - delta,
    {
        let sum = icenter + delta;
        let counter: u64 = if sum < 0 {
            0
        } else {
            sum as u64
        };
        assert(counter == shifted_counter(center, delta as int));
        let candidate = format_code(key.as_slice(), counter);
        if candidate == want {
            assert(spec_code(key@, shifted_counter(center, delta as int)) == code@);
            assert(code_in_window(key@, code@, center, window as int));
            return true;
        }
        if delta == window {
            break;
        }
        delta += 1;
    }
    false
}

/// Verifies a code with the default drift window of one step.
pub fn verify(secret_b32: &str, code: &str, at: i64) -> (res: bool)
    ensures
        res == spec_verify(secret_b32@, code@, at, DEFAULT_WINDOW as int),
{
    verify_with_window(secret_b32, code, at, DEFAULT_WINDOW)
}

// ---------------------------------------------------------------------------
// Laws
// ---------------------------------------------------------------------------

/// A code minted for the step that contains `at` is accepted at `at`,
/// whatever the (non-negative) drift window.
pub proof fn lemma_code_accepted_at_own_step(secret: Seq<char>, at: i64, window: int)
    requires
        base32_decoded(secret) is Some,
        0 <= window,
    ensures
        spec_verify(secret, spec_code(base32_decoded(secret)->0, spec_step(at)), at, window),
{
    let key = base32_decoded(secret)->0;
    assert(shifted_counter(spec_step(at), 0) == spec_step(at));
    assert(spec_code(key, shifted_counter(spec_step(at), 0)) == spec_code(key, spec_step(at)));
}

/// A code minted at `minted_at` is accepted at `at` whenever the two
/// instants lie at most `window` steps apart.
pub proof fn lemma_code_accepted_within_drift(
    secret: Seq<char>,
    minted_at: i64,
    at: i64,
    window: int,
)
    requires
        base32_decoded(secret) is Some,
        spec_step(at) - window <= spec_step(minted_at) <= spec_step(at) + window,
    ensures
        spec_verify(
            secret,
            spec_code(base32_decoded(secret)->0, spec_step(minted_at)),
            at,
            window,
        ),
{
    let key = base32_decoded(secret)->0;
    let d = spec_step(minted_at) - spec_step(at);
    assert(shifted_counter(spec_step(at), d) == spec_step(minted_at));
    assert(spec_code(key, shifted_counter(spec_step(at), d)) == spec_code(
        key,
        spec_step(minted_at),
    ));
}

/// Widening the drift window never turns an accepted code into a rejected
/// one.
pub proof fn lemma_window_monotone(
    secret: Seq<char>,
    code: Seq<char>,
    at: i64,
    window: int,
    wider: int,
)
    requires
        window <= wider,
        spec_verify(secret, code, at, window),
    ensures
        spec_verify(secret, code, at, wider),
{
    let key = base32_decoded(secret)->0;
    let center = spec_step(at);
    let d = choose|d: int|
        -window <= d <= window && #[trigger] spec_code(key, shifted_counter(center, d)) == code;
    assert(-wider <= d <= wider && spec_code(key, shifted_counter(center, d)) == code);
}

/// The time step of the instant `t` (UNIX seconds, any integer), with
/// instants before the epoch counted as the epoch.
pub open spec fn time_step(t: int) -> u64 {
    if t < 0 {
        0
    } else {
        (t / 30) as u64
    }
}

/// With the default window, a code is accepted at a non-negative instant
/// `at` exactly when the secret decodes and the code is the one generated
/// 30 seconds earlier, at `at` itself, or 30 seconds later.
pub proof fn lemma_verify_three_steps(secret: Seq<char>, code: Seq<char>, at: i64)
    requires
        0 <= at,
    ensures
        spec_verify(secret, code, at, DEFAULT_WINDOW as int) <==> match base32_decoded(secret) {
            Some(key) => code == spec_code(key, spec_step((at - 30) as i64)) || code == spec_code(
                key,
                spec_step(at),
            ) || code == spec_code(key, time_step(at + 30)),
            None => false,
        },
        at + 30 <= i64::MAX ==> time_step(at + 30) == spec_step((at + 30) as i64),
{
    if let Some(key) = base32_decoded(secret) {
        let center = spec_step(at);
        let before = spec_step((at - 30) as i64);
        let after = time_step(at + 30);
        assert(shifted_counter(center, -1) == before);
        assert(shifted_counter(center, 0) == center);
        assert(shifted_counter(center, 1) == after);
        if spec_verify(secret, code, at, DEFAULT_WINDOW as int) {
            let d = choose|d: int|
                -1 <= d <= 1 && #[trigger] spec_code(key, shifted_counter(center, d)) == code;
            assert(d == -1 || d == 0 || d == 1);
        }
        if code == spec_code(key, before) {
            assert(spec_code(key, shifted_counter(center, -1)) == code);
        }
        if code == spec_code(key, center) {
            assert(spec_code(key, shifted_counter(center, 0)) == code);
        }
        if code == spec_code(key, after) {
            assert(spec_code(key, shifted_counter(center, 1)) == code);
        }
    }
}

/// An accepted code is always six ASCII decimal digits: anything else is
/// rejected whatever the secret, the instant and the window.
pub proof fn lemma_accepted_code_is_six_digits(
    secret: Seq<char>,
    code: Seq<char>,
    at: i64,
    window: int,
)
    requires
        spec_verify(secret, code, at, window),
    ensures
        code.len() == 6,
        forall|i: int| 0 <= i < 6 ==> '0' <= #[trigger] code[i] && code[i] <= '9',
{
    let key = base32_decoded(secret)->0;
    let center = spec_step(at);
    let d = choose|d: int|
        -window <= d <= window && #[trigger] spec_code(key, shifted_counter(center, d)) == code;
    lemma_code_is_six_digits(key, shifted_counter(center, d));
}

/// Every code is six ASCII decimal digits.
pub proof fn lemma_code_is_six_digits(key: Seq<u8>, counter: u64)
    ensures
        spec_code(key, counter).len() == 6,
        forall|i: int|
            0 <= i < 6 ==> '0' <= #[trigger] spec_code(key, counter)[i] && spec_code(key, counter)[i]
                <= '9',
{
    reveal(spec_code);
    let n = spec_truncate(hmac_sha1_tag(key, be_bytes(counter)));
    assert(n < 1_000_000);
}

/// The percent-encoding consists only of unreserved characters, `%` and
/// upper-case hexadecimal digits, all ASCII.
pub proof fn lemma_url_encode_alphabet(bytes: Seq<u8>)
    ensures
        forall|i: int|
            0 <= i < spec_url_encode(bytes).len() ==> {
                let c = #[trigger] spec_url_encode(bytes)[i];
                is_unreserved(c as u8) || c == '%' || ('0' <= c <= '9') || ('A' <= c <= 'F')
            },
        forall|i: int| 0 <= i < spec_url_encode(bytes).len() ==> (#[trigger] spec_url_encode(bytes)[i] as u32) < 128,
    decreases bytes.len(),
{
    if bytes.len() > 0 {
        lemma_url_encode_alphabet(bytes.drop_last());
        let prev = spec_url_encode(bytes.drop_last());
        let tail = encode_byte(bytes.last());
        assert(spec_url_encode(bytes) == prev + tail);
        assert forall|i: int| 0 <= i < spec_url_encode(bytes).len() implies {
            let c = #[trigger] spec_url_encode(bytes)[i];
            (is_unreserved(c as u8) || c == '%' || ('0' <= c <= '9') || ('A' <= c <= 'F'))
                && (c as u32) < 128
        } by {
            if i < prev.len() {
                assert(spec_url_encode(bytes)[i] == prev[i]);
            } else {
                assert(spec_url_encode(bytes)[i] == tail[i - prev.len()]);
            }
        }
    }
}

/// Percent-encoding works byte by byte: encoding a concatenation encodes
/// each part.
pub proof fn lemma_url_encode_concat(a: Seq<u8>, b: Seq<u8>)
    ensures
        spec_url_encode(a + b) == spec_url_encode(a) + spec_url_encode(b),
    decreases b.len(),
{
    if b.len() == 0 {
        assert(a + b =~= a);
        assert(spec_url_encode(a) + spec_url_encode(b) =~= spec_url_encode(a));
    } else {
        lemma_url_encode_concat(a, b.drop_last());
        assert((a + b).drop_last() =~= a + b.drop_last());
        assert((a + b).last() == b.last());
        assert(spec_url_encode(a) + spec_url_encode(b.drop_last()) + encode_byte(b.last())
            =~= spec_url_encode(a) + (spec_url_encode(b.drop_last()) + encode_byte(b.last())));
    }
}

/// Unreserved bytes are kept as they are, and every other byte becomes
/// three characters starting with `%`.
pub proof fn lemma_url_encode_byte(b: u8)
    ensures
        spec_url_encode(seq![b]) == encode_byte(b),
        is_unreserved(b) ==> spec_url_encode(seq![b]) == seq![b as char],
        !is_unreserved(b) ==> spec_url_encode(seq![b]).len() == 3 && spec_url_encode(seq![b])[0]
            == '%',
{
    assert(seq![b].drop_last() =~= Seq::<u8>::empty());
    assert(seq![b].last() == b);
    assert(spec_url_encode(Seq::<u8>::empty()) =~= Seq::<char>::empty());
    assert(spec_url_encode(seq![b]) == spec_url_encode(Seq::<u8>::empty()) + encode_byte(b));
    assert(Seq::<char>::empty() + encode_byte(b) =~= encode_byte(b));
}

} // verus!
