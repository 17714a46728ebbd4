//! JSON Web Token claims issued to authenticated users.

use vstd::prelude::*;
use crate::error::{AuthError, AuthResult};
use crate::policy::UserId;
use crate::text::chars_of;

verus! {

/// Lifetime of an access token issued at login, in seconds (12 hours).
pub const JWT_TTL_SECS: i64 = 60 * 60 * 12;

/// The claims of an access token.
#[derive(Debug)]
pub struct JwtClaims {
    /// The user the token was issued to.
    pub sub: String,
    /// The issuer.
    pub iss: String,
    /// Expiry, UNIX seconds.
    pub exp: i64,
    /// Issue time, UNIX seconds.
    pub iat: i64,
    /// The user's role names.
    pub roles: Vec<String>,
}

impl JwtClaims {
    /// Claims for `sub` issued by `iss` at `now` (UNIX seconds), valid for
    /// `ttl_secs` seconds.
    pub fn issue(sub: String, iss: String, now: i64, ttl_secs: i64, roles: Vec<String>) -> (res:
        JwtClaims)
        requires
            i64::MIN <= now + ttl_secs <= i64::MAX,
        ensures
            res.sub == sub,
            res.iss == iss,
            res.iat == now,
            res.exp == now + ttl_secs,
            res.roles == roles,
    {
        JwtClaims { sub, iss, exp: now + ttl_secs, iat: now, roles }
    }

}

/// The value of a Crockford base32 letter code (`A`-`Z` without `I`, `L`,
/// `O`, `U`), if it is one.
pub open spec fn letter_value(u: u32) -> Option<u32> {
    if u < 65 || u > 90 {
        None
    } else {
        let k = (u - 65) as u32;
        if k == 8 || k == 11 || k == 14 || k == 20 {
            None
        } else {
            Some(
                (10 + k - (if k > 20 {
                    4u32
                } else if k > 14 {
                    3u32
                } else if k > 11 {
                    2u32
                } else if k > 8 {
                    1u32
                } else {
                    0u32
                })) as u32,
            )
        }
    }
}

/// The value of a Crockford base32 digit, in either case.
pub open spec fn crockford_digit(c: char) -> Option<u32> {
    let u = c as u32;
    if 48 <= u && u <= 57 {
        Some((u - 48) as u32)
    } else if 97 <= u && u <= 122 {
        letter_value((u - 32) as u32)
    } else {
        letter_value(u)
    }
}

/// `32` to the power `n`.
pub open spec fn pow32(n: nat) -> nat
    decreases n,
{
    if n == 0 {
        1
    } else {
        32 * pow32((n - 1) as nat)
    }
}

/// The number a string of Crockford base32 digits spells, most
/// significant first.
pub open spec fn crockford_value(s: Seq<char>) -> nat
    decreases s.len(),
{
    if s.len() == 0 {
        0
    } else {
        crockford_value(s.drop_last()) * 32 + match crockford_digit(s.last()) {
            Some(d) => d as nat,
            None => 0,
        }
    }
}

/// Whether `s` is the text of a ULID: 26 Crockford base32 digits, the
/// first at most `7` so that the value fits 128 bits.
pub open spec fn is_ulid_text(s: Seq<char>) -> bool {
    &&& s.len() == 26
    &&& forall|i: int| 0 <= i < 26 ==> (#[trigger] crockford_digit(s[i])) is Some
    &&& crockford_digit(s[0]) matches Some(d) && d <= 7
}

proof fn lemma_pow32_mono(a: nat, b: nat)
    requires
        a <= b,
    ensures
        pow32(a) <= pow32(b),
    decreases b,
{
    if a < b {
        lemma_pow32_mono(a, (b - 1) as nat);
    }
}

proof fn lemma_pow32_25()
    ensures
        pow32(25) * 8 == 0x1_0000_0000_0000_0000_0000_0000_0000_0000,
{
    reveal_with_fuel(pow32, 26);
}

fn digit_value(c: char) -> (res: Option<u32>)
    ensures
        res == crockford_digit(c),
{
    let u = c as u32;
    if 48 <= u && u <= 57 {
        return Some(u - 48);
    }
    let up = if 97 <= u && u <= 122 {
        u - 32
    } else {
        u
    };
    if up < 65 || up > 90 {
        return None;
    }
    let k = up - 65;
    if k == 8 || k == 11 || k == 14 || k == 20 {
        return None;
    }
    let skipped: u32 = if k > 20 {
        4
    } else if k > 14 {
        3
    } else if k > 11 {
        2
    } else if k > 8 {
        1
    } else {
        0
    };
    Some(10 + k - skipped)
}

/// Reads a user id from its ULID text; `None` when the text is not a ULID.
pub fn parse_user_id(text: &str) -> (res: Option<UserId>)
    ensures
        is_ulid_text(text@) ==> res == Some(UserId(crockford_value(text@) as u128)),
        !is_ulid_text(text@) ==> res is None,
        is_ulid_text(text@) ==> crockford_value(text@) < 0x1_0000_0000_0000_0000_0000_0000_0000_0000,
{
    let cs = chars_of(text);
    if cs.len() != 26 {
        return None;
    }
    let first = match digit_value(cs[0]) {
        Some(d) => d,
        None => return None,
    };
    if first > 7 {
        return None;
    }
    proof {
        lemma_pow32_25();
    }
    let mut acc: u128 = first as u128;
    let mut i: usize = 1;
    assert(crockford_value(cs@.take(1)) == first as nat) by {
        assert(cs@.take(1).drop_last() =~= Seq::<char>::empty());
        assert(crockford_value(Seq::<char>::empty()) == 0);
        assert(cs@.take(1).last() == cs@[0]);
    }
    while i < 26
        invariant
            cs@ == text@,
            cs@.len() == 26,
            1 <= i <= 26,
            crockford_digit(cs@[0]) == Some(first),
            first <= 7,
            pow32(25) * 8 == 0x1_0000_0000_0000_0000_0000_0000_0000_0000,
            acc == crockford_value(cs@.take(i as int)),
            acc < 8 * pow32((i - 1) as nat),
            forall|k: int| 0 <= k < i ==> (#[trigger] crockford_digit(cs@[k])) is Some,
        decreases 26 - i,
    {
        let d = match digit_value(cs[i]) {
            Some(d) => d,
            None => {
                assert(!is_ulid_text(text@)) by {
                    assert(crockford_digit(cs@[i as int]) is None);
                }
                return None;
            },
        };
        proof {
            lemma_pow32_mono((i - 1) as nat, 24);
            assert(pow32(i as nat) == 32 * pow32((i - 1) as nat));
            assert(pow32(25) == 32 * pow32(24));
            assert(d < 32) by {
                assert(crockford_digit(cs@[i as int]) == Some(d));
            }
        }
        assert(cs@.take(i + 1).drop_last() =~= cs@.take(i as int));
        assert(cs@.take(i + 1).last() == cs@[i as int]);
        acc = acc * 32 + d as u128;
        i += 1;
    }
    assert(cs@.take(26) =~= cs@);
    Some(UserId(acc))
}

impl JwtClaims {
    /// The user the token was issued to: the subject claim read as a user
    /// id; a subject that is not one is refused as `invalid sub claim`.
    pub fn user_id(&self) -> (res: AuthResult<UserId>)
        ensures
            is_ulid_text(self.sub@) ==> res == Ok::<UserId, AuthError>(
                UserId(crockford_value(self.sub@) as u128),
            ),
            !is_ulid_text(self.sub@) ==> (res matches Err(AuthError::Hash(m)) && m@
                == "invalid sub claim"@),
    {
        match parse_user_id(self.sub.as_str()) {
            Some(id) => Ok(id),
            None => Err(AuthError::Hash("invalid sub claim".to_owned())),
        }
    }
}

} // verus!
