//! Sessions: opaque random tokens, their lifetime, and the in-memory
//! session table (one entry per token).
//!
//! Instants are UNIX times in nanoseconds.

use vstd::prelude::*;
use crate::error::{AuthError, AuthResult};
use crate::policy::UserId;
use crate::primitives::random_bytes;
use crate::text::push_char;

verus! {

/// Lifetime of a session in seconds: 14 days.
pub const SESSION_TTL_SECS: u64 = 60 * 60 * 24 * 14;

/// Nanoseconds in one second.
pub const NANOS_PER_SEC: i128 = 1_000_000_000;

/// A logged-in session.
#[derive(Debug)]
pub struct Session {
    pub token: String,
    pub user_id: UserId,
    /// Creation time, UNIX nanoseconds.
    pub created_at: i128,
    /// Expiry time, UNIX nanoseconds.
    pub expires_at: i128,
    pub ip: Option<String>,
    pub user_agent: Option<String>,
}

/// Lower-case hexadecimal digit for `n < 16`.
pub open spec fn hex_lower(n: u8) -> char {
    if n < 10 {
        (48 + n) as char
    } else {
        (87 + n) as char
    }
}

/// Lower-case hexadecimal text of a byte string, two digits per byte.
pub open spec fn spec_hex(bytes: Seq<u8>) -> Seq<char>
    decreases bytes.len(),
{
    if bytes.len() == 0 {
        seq![]
    } else {
        spec_hex(bytes.drop_last()) + seq![
            hex_lower(bytes.last() / 16),
            hex_lower(bytes.last() % 16),
        ]
    }
}

pub proof fn lemma_hex_len(bytes: Seq<u8>)
    ensures
        spec_hex(bytes).len() == 2 * bytes.len(),
    decreases bytes.len(),
{
    if bytes.len() > 0 {
        lemma_hex_len(bytes.drop_last());
    }
}

/// Hex text consists of the digits `0`-`9` and `a`-`f` only.
pub proof fn lemma_hex_alphabet(bytes: Seq<u8>)
    ensures
        forall|i: int|
            0 <= i < spec_hex(bytes).len() ==> {
                let c = #[trigger] spec_hex(bytes)[i];
                ('0' <= c <= '9') || ('a' <= c <= 'f')
            },
    decreases bytes.len(),
{
    if bytes.len() > 0 {
        lemma_hex_alphabet(bytes.drop_last());
        let prev = spec_hex(bytes.drop_last());
        let tail = seq![hex_lower(bytes.last() / 16), hex_lower(bytes.last() % 16)];
        assert(spec_hex(bytes) == prev + tail);
        assert forall|i: int| 0 <= i < spec_hex(bytes).len() implies {
            let c = #[trigger] spec_hex(bytes)[i];
            ('0' <= c <= '9') || ('a' <= c <= 'f')
        } by {
            if i < prev.len() {
                assert(spec_hex(bytes)[i] == prev[i]);
            } else {
                assert(spec_hex(bytes)[i] == tail[i - prev.len()]);
            }
        }
    }
}

fn hex_digit(n: u8) -> (c: char)
    requires
        n < 16,
    ensures
        c == hex_lower(n),
{
    if n < 10 {
        (48 + n) as char
    } else {
        (87 + n) as char
    }
}

/// Lower-case hexadecimal text of `bytes`.
pub fn to_hex(bytes: &[u8]) -> (res: String)
    ensures
        res@ == spec_hex(bytes@),
        res@.len() == 2 * bytes@.len(),
{
    let mut out = String::new();
    let mut i: usize = 0;
    while i < bytes.len()
        invariant
            0 <= i <= bytes@.len(),
            out@ == spec_hex(bytes@.take(i as int)),
        decreases bytes@.len() - i,
    {
        assert(bytes@.take(i + 1).drop_last() =~= bytes@.take(i as int));
        let b = bytes[i];
        push_char(&mut out, hex_digit(b / 16));
        push_char(&mut out, hex_digit(b % 16));
        i += 1;
    }
    assert(bytes@.take(bytes@.len() as int) =~= bytes@);
    proof {
        lemma_hex_len(bytes@);
    }
    out
}

/// A fresh session token: 32 random bytes as 64 lower-case hex digits.
pub fn new_token() -> (res: String)
    ensures
        res@.len() == 64,
        exists|bytes: Seq<u8>| bytes.len() == 32 && res@ == spec_hex(bytes),
{
    let buf = random_bytes(32);
    to_hex(buf.as_slice())
}

/// Lifetime of a new session, in seconds (14 days).
pub fn default_ttl() -> (res: u64)
    ensures
        res == 1_209_600,
{
    SESSION_TTL_SECS
}

/// Copy of an optional string.
pub fn copy_opt_string(s: &Option<String>) -> (res: Option<String>)
    ensures
        res == *s,
{
    match s {
        Some(v) => Some(v.clone()),
        None => None,
    }
}

impl Session {
    /// Whether the session has expired at `now`.
    pub open spec fn expired_at(&self, now: i128) -> bool {
        now >= self.expires_at
    }

    /// Whether the session has expired at `now` (UNIX nanoseconds).
    pub fn is_expired(&self, now: i128) -> (res: bool)
        ensures
            res == self.expired_at(now),
    {
        now >= self.expires_at
    }

    /// A session for `user_id` created at `now`, expiring after the default
    /// lifetime.
    pub fn issue(
        token: String,
        user_id: UserId,
        now: i128,
        ip: Option<String>,
        user_agent: Option<String>,
    ) -> (res: Session)
        requires
            now <= i128::MAX - 1_209_600 * 1_000_000_000,
        ensures
            res.token == token,
            res.user_id == user_id,
            res.created_at == now,
            res.expires_at == now + 1_209_600 * 1_000_000_000,
            res.ip == ip,
            res.user_agent == user_agent,
    {
        let ttl = default_ttl() as i128 * NANOS_PER_SEC;
        Session { token, user_id, created_at: now, expires_at: now + ttl, ip, user_agent }
    }

    /// A copy of this session.
    pub fn duplicate(&self) -> (res: Session)
        ensures
            res == *self,
    {
        Session {
            token: self.token.clone(),
            user_id: self.user_id,
            created_at: self.created_at,
            expires_at: self.expires_at,
            ip: copy_opt_string(&self.ip),
            user_agent: copy_opt_string(&self.user_agent),
        }
    }
}

/// In-memory session table: at most one session per token. It is a list
/// with unique tokens, not a hash map keyed by `String`: vstd's
/// specification of `HashMap` promises nothing for `String` keys, so a map
/// would leave every contract below unprovable.
pub struct SessionTable {
    entries: Vec<Session>,
}

impl SessionTable {
    /// Tokens are unique.
    pub closed spec fn wf(&self) -> bool {
        forall|i: int, j: int|
            0 <= i < self.entries@.len() && 0 <= j < self.entries@.len() && i != j
                ==> #[trigger] self.entries@[i].token@ != #[trigger] self.entries@[j].token@
    }

    /// Number of stored sessions.
    pub closed spec fn len(&self) -> nat {
        self.entries@.len()
    }

    /// The stored sessions, by token.
    pub closed spec fn view(&self) -> Map<Seq<char>, Session> {
        Map::new(
            |k: Seq<char>| exists|i: int| 0 <= i < self.entries@.len() && #[trigger] self.entries@[i].token@ == k,
            |k: Seq<char>|
                self.entries@[choose|i: int|
                    0 <= i < self.entries@.len() && #[trigger] self.entries@[i].token@ == k],
        )
    }

    proof fn lemma_entry_in_view(&self, i: int)
        requires
            self.wf(),
            0 <= i < self.entries@.len(),
        ensures
            self.view().contains_key(self.entries@[i].token@),
            self.view()[self.entries@[i].token@] == self.entries@[i],
    {
        let k = self.entries@[i].token@;
        assert(self.view().contains_key(k));
        let j = choose|j: int| 0 <= j < self.entries@.len() && #[trigger] self.entries@[j].token@ == k;
        assert(self.entries@[j].token@ == k);
        if j != i {
            assert(self.entries@[i].token@ != self.entries@[j].token@);
        }
    }

    /// An empty table.
    pub fn new() -> (res: SessionTable)
        ensures
            res.wf(),
            res.view() == Map::<Seq<char>, Session>::empty(),
            res.len() == 0,
    {
        let t = SessionTable { entries: Vec::new() };
        assert(t.view() =~= Map::<Seq<char>, Session>::empty());
        t
    }

    fn find(&self, token: &String) -> (res: Option<usize>)
        ensures
            match res {
                Some(i) => i < self.entries@.len() && self.entries@[i as int].token@ == token@,
                None => forall|i: int|
                    0 <= i < self.entries@.len() ==> #[trigger] self.entries@[i].token@ != token@,
            },
    {
        let mut i: usize = 0;
        while i < self.entries.len()
            invariant
                0 <= i <= self.entries@.len(),
                forall|j: int| 0 <= j < i ==> #[trigger] self.entries@[j].token@ != token@,
            decreases self.entries@.len() - i,
        {
            if self.entries[i].token == *token {
                return Some(i);
            }
            i += 1;
        }
        None
    }

    /// Stores `session`, replacing any session with the same token.
    pub fn put(&mut self, session: Session)
        requires
            old(self).wf(),
        ensures
            final(self).wf(),
            final(self).view() == old(self).view().insert(session.token@, session),
    {
        let ghost s = session;
        match self.find(&session.token) {
            Some(i) => {
                self.entries.set(i, session);
                proof {
                    let old_e = old(self).entries@;
                    let new_e = self.entries@;
                    assert(new_e == old_e.update(i as int, s));
                    assert forall|a: int, b: int|
                        0 <= a < new_e.len() && 0 <= b < new_e.len() && a != b implies #[trigger] new_e[a].token@
                        != #[trigger] new_e[b].token@ by {
                        assert(old_e[a].token@ != old_e[b].token@);
                    }
                    assert forall|k: Seq<char>| #[trigger]
                        self.view().contains_key(k) == old(self).view().insert(
                            s.token@,
                            s,
                        ).contains_key(k) by {
                        if self.view().contains_key(k) {
                            let j = choose|j: int| 0 <= j < new_e.len() && #[trigger] new_e[j].token@ == k;
                            assert(old_e[j].token@ == new_e[j].token@);
                        }
                        if old(self).view().contains_key(k) {
                            let j = choose|j: int| 0 <= j < old_e.len() && #[trigger] old_e[j].token@ == k;
                            assert(old_e[j].token@ == new_e[j].token@);
                        }
                    }
                    assert forall|k: Seq<char>| #[trigger] self.view().contains_key(k) implies self.view()[k]
                        == old(self).view().insert(s.token@, s)[k] by {
                        let j = choose|j: int| 0 <= j < new_e.len() && #[trigger] new_e[j].token@ == k;
                        self.lemma_entry_in_view(j);
                        if j != i {
                            old(self).lemma_entry_in_view(j);
                        }
                    }
                    assert(self.view() =~= old(self).view().insert(s.token@, s));
                }
            },
            None => {
                self.entries.push(session);
                proof {
                    let old_e = old(self).entries@;
                    let new_e = self.entries@;
                    assert(new_e == old_e.push(s));
                    assert forall|a: int, b: int|
                        0 <= a < new_e.len() && 0 <= b < new_e.len() && a != b implies #[trigger] new_e[a].token@
                        != #[trigger] new_e[b].token@ by {
                        if a < old_e.len() && b < old_e.len() {
                            assert(old_e[a].token@ != old_e[b].token@);
                        } else if a < old_e.len() {
                            assert(old_e[a].token@ != s.token@);
                        } else {
                            assert(old_e[b].token@ != s.token@);
                        }
                    }
                    assert forall|k: Seq<char>| #[trigger]
                        self.view().contains_key(k) == old(self).view().insert(
                            s.token@,
                            s,
                        ).contains_key(k) by {
                        if self.view().contains_key(k) {
                            let j = choose|j: int| 0 <= j < new_e.len() && #[trigger] new_e[j].token@ == k;
                            if j < old_e.len() {
                                assert(old_e[j].token@ == k);
                            }
                        }
                        if old(self).view().contains_key(k) {
                            let j = choose|j: int| 0 <= j < old_e.len() && #[trigger] old_e[j].token@ == k;
                            assert(new_e[j].token@ == k);
                        }
                        if k == s.token@ {
                            assert(new_e[old_e.len() as int].token@ == k);
                        }
                    }
                    assert forall|k: Seq<char>| #[trigger] self.view().contains_key(k) implies self.view()[k]
                        == old(self).view().insert(s.token@, s)[k] by {
                        let j = choose|j: int| 0 <= j < new_e.len() && #[trigger] new_e[j].token@ == k;
                        self.lemma_entry_in_view(j);
                        if j < old_e.len() {
                            old(self).lemma_entry_in_view(j);
                        }
                    }
                    assert(self.view() =~= old(self).view().insert(s.token@, s));
                }
            },
        }
    }

    /// The session stored under `token`: `Ok(None)` when there is none,
    /// `Err(SessionExpired)` when it has expired at `now`, otherwise a copy.
    pub fn get(&self, token: &str, now: i128) -> (res: AuthResult<Option<Session>>)
        requires
            self.wf(),
        ensures
            res == spec_get(self.view(), token@, now),
    {
        let key: String = token.to_owned();
        match self.find(&key) {
            None => {
                assert(!self.view().contains_key(token@));
                Ok(None)
            },
            Some(i) => {
                proof {
                    self.lemma_entry_in_view(i as int);
                }
                let s = &self.entries[i];
                if s.is_expired(now) {
                    Err(AuthError::SessionExpired)
                } else {
                    Ok(Some(s.duplicate()))
                }
            },
        }
    }

    /// Removes the session stored under `token`, if any.
    pub fn delete(&mut self, token: &str)
        requires
            old(self).wf(),
        ensures
            final(self).wf(),
            final(self).view() == old(self).view().remove(token@),
    {
        let key: String = token.to_owned();
        match self.find(&key) {
            None => {
                proof {
                    assert(!old(self).view().contains_key(token@));
                    assert(self.view() =~= old(self).view().remove(token@));
                }
            },
            Some(i) => {
                let _removed = self.entries.remove(i);
                proof {
                    let old_e = old(self).entries@;
                    let new_e = self.entries@;
                    assert(new_e == old_e.remove(i as int));
                    assert forall|a: int| 0 <= a < new_e.len() implies #[trigger] new_e[a] == old_e[if a
                        < i {
                        a
                    } else {
                        a + 1
                    }] by {}
                    assert forall|a: int, b: int|
                        0 <= a < new_e.len() && 0 <= b < new_e.len() && a != b implies #[trigger] new_e[a].token@
                        != #[trigger] new_e[b].token@ by {
                        let a2 = if a < i { a } else { a + 1 };
                        let b2 = if b < i { b } else { b + 1 };
                        assert(new_e[a] == old_e[a2]);
                        assert(new_e[b] == old_e[b2]);
                        assert(old_e[a2].token@ != old_e[b2].token@);
                    }
                    assert forall|k: Seq<char>| #[trigger]
                        self.view().contains_key(k) == old(self).view().remove(
                            token@,
                        ).contains_key(k) by {
                        if self.view().contains_key(k) {
                            let j = choose|j: int| 0 <= j < new_e.len() && #[trigger] new_e[j].token@ == k;
                            let j2 = if j < i { j } else { j + 1 };
                            assert(new_e[j] == old_e[j2]);
                            assert(old_e[j2].token@ == k);
                            assert(old_e[i as int].token@ != old_e[j2].token@);
                        }
                        if old(self).view().contains_key(k) && k != token@ {
                            let j = choose|j: int| 0 <= j < old_e.len() && #[trigger] old_e[j].token@ == k;
                            assert(j != i);
                            let j2 = if j < i { j } else { j - 1 };
                            assert(new_e[j2] == old_e[j]);
                            assert(new_e[j2].token@ == k);
                        }
                    }
                    assert forall|k: Seq<char>| #[trigger] self.view().contains_key(k) implies self.view()[k]
                        == old(self).view().remove(token@)[k] by {
                        let j = choose|j: int| 0 <= j < new_e.len() && #[trigger] new_e[j].token@ == k;
                        let j2 = if j < i { j } else { j + 1 };
                        assert(new_e[j] == old_e[j2]);
                        self.lemma_entry_in_view(j);
                        old(self).lemma_entry_in_view(j2);
                    }
                    assert(self.view() =~= old(self).view().remove(token@));
                }
            },
        }
    }

    /// Removes every session expired at `now` and returns how many were
    /// removed.
    pub fn purge_expired(&mut self, now: i128) -> (res: u64)
        requires
            old(self).wf(),
        ensures
            final(self).wf(),
            forall|k: Seq<char>| #[trigger]
                final(self).view().contains_key(k) == (old(self).view().contains_key(k)
                    && !old(self).view()[k].expired_at(now)),
            forall|k: Seq<char>| #[trigger]
                final(self).view().contains_key(k) ==> final(self).view()[k] == old(self).view()[k],
            res == old(self).len() - final(self).len(),
    {
        let mut old_entries: Vec<Session> = Vec::new();
        std::mem::swap(&mut old_entries, &mut self.entries);
        let ghost old_e = old_entries@;
        assert(old_e == old(self).entries@);
        let mut kept: Vec<Session> = Vec::new();
        let ghost mut src: Seq<int> = Seq::empty();
        let mut i: usize = 0;
        while i < old_entries.len()
            invariant
                old_entries@ == old_e,
                0 <= i <= old_e.len(),
                src.len() == kept@.len(),
                kept@.len() <= i,
                forall|a: int, b: int|
                    0 <= a < old_e.len() && 0 <= b < old_e.len() && a != b ==> #[trigger] old_e[a].token@
                        != #[trigger] old_e[b].token@,
                forall|a: int|
                    0 <= a < src.len() ==> 0 <= #[trigger] src[a] < i && kept@[a] == old_e[src[a]]
                        && !old_e[src[a]].expired_at(now),
                forall|a: int, c: int| 0 <= a < c < src.len() ==> #[trigger] src[a] < #[trigger] src[c],
                forall|b: int|
                    0 <= b < i && !old_e[b].expired_at(now) ==> exists|a: int|
                        0 <= a < src.len() && #[trigger] src[a] == b,
            decreases old_e.len() - i,
        {
            let e = &old_entries[i];
            if !e.is_expired(now) {
                let copy = e.duplicate();
                kept.push(copy);
                proof {
                    let prev = src;
                    src = src.push(i as int);
                    assert forall|b: int|
                        0 <= b < i + 1 && !old_e[b].expired_at(now) implies exists|a: int|
                        0 <= a < src.len() && #[trigger] src[a] == b by {
                        if b < i {
                            let a = choose|a: int| 0 <= a < prev.len() && #[trigger] prev[a] == b;
                            assert(src[a] == b);
                        } else {
                            assert(src[prev.len() as int] == b);
                        }
                    }
                }
            }
            i += 1;
        }
        proof {
            assert forall|a: int, c: int|
                0 <= a < kept@.len() && 0 <= c < kept@.len() && a != c implies #[trigger] kept@[a].token@
                != #[trigger] kept@[c].token@ by {
                if a < c {
                    assert(src[a] < src[c]);
                } else {
                    assert(src[c] < src[a]);
                }
                assert(old_e[src[a]].token@ != old_e[src[c]].token@);
            }
        }
        let removed = (old_entries.len() - kept.len()) as u64;
        self.entries = kept;
        proof {
            let new_e = self.entries@;
            assert forall|k: Seq<char>| #[trigger]
                self.view().contains_key(k) == (old(self).view().contains_key(k) && !old(
                    self,
                ).view()[k].expired_at(now)) by {
                if self.view().contains_key(k) {
                    let a = choose|a: int| 0 <= a < new_e.len() && #[trigger] new_e[a].token@ == k;
                    let b = src[a];
                    assert(new_e[a] == old_e[b]);
                    old(self).lemma_entry_in_view(b);
                }
                if old(self).view().contains_key(k) && !old(self).view()[k].expired_at(now) {
                    let b = choose|b: int| 0 <= b < old_e.len() && #[trigger] old_e[b].token@ == k;
                    old(self).lemma_entry_in_view(b);
                    let a = choose|a: int| 0 <= a < src.len() && #[trigger] src[a] == b;
                    assert(new_e[a] == old_e[b]);
                    assert(new_e[a].token@ == k);
                }
            }
            assert forall|k: Seq<char>| #[trigger] self.view().contains_key(k) implies self.view()[k]
                == old(self).view()[k] by {
                let a = choose|a: int| 0 <= a < new_e.len() && #[trigger] new_e[a].token@ == k;
                self.lemma_entry_in_view(a);
                let b = src[a];
                assert(new_e[a] == old_e[b]);
                old(self).lemma_entry_in_view(b);
            }
        }
        removed
    }
}

/// What reading `token` at `now` from a table holding `sessions` answers:
/// `Ok(None)` when absent, `Err(SessionExpired)` once expired, otherwise
/// the session.
pub open spec fn spec_get(sessions: Map<Seq<char>, Session>, token: Seq<char>, now: i128) -> AuthResult<
    Option<Session>,
> {
    if !sessions.contains_key(token) {
        Ok(None)
    } else if sessions[token].expired_at(now) {
        Err(AuthError::SessionExpired)
    } else {
        Ok(Some(sessions[token]))
    }
}

// ---------------------------------------------------------------------------
// Laws
// ---------------------------------------------------------------------------

/// Reading a token right after storing a session under it gives that
/// session back until it expires, and `SessionExpired` from then on.
pub proof fn lemma_get_after_put(sessions: Map<Seq<char>, Session>, s: Session, now: i128)
    ensures
        spec_get(sessions.insert(s.token@, s), s.token@, now) == if s.expired_at(now) {
            Err::<Option<Session>, AuthError>(AuthError::SessionExpired)
        } else {
            Ok(Some(s))
        },
{
}

/// Storing a session leaves what every other token reads unchanged.
pub proof fn lemma_put_keeps_others(
    sessions: Map<Seq<char>, Session>,
    s: Session,
    other: Seq<char>,
    now: i128,
)
    requires
        other != s.token@,
    ensures
        spec_get(sessions.insert(s.token@, s), other, now) == spec_get(sessions, other, now),
{
}

/// After a delete the token reads as absent, and other tokens read as
/// before.
pub proof fn lemma_get_after_delete(
    sessions: Map<Seq<char>, Session>,
    token: Seq<char>,
    other: Seq<char>,
    now: i128,
)
    ensures
        spec_get(sessions.remove(token), token, now) == Ok::<Option<Session>, AuthError>(None),
        other != token ==> spec_get(sessions.remove(token), other, now) == spec_get(
            sessions,
            other,
            now,
        ),
{
}

/// The value of a lower-case hexadecimal digit.
pub open spec fn hex_digit_value(c: char) -> int {
    if '0' <= c && c <= '9' {
        c as int - 48
    } else {
        c as int - 87
    }
}

/// Hex text reads back as the bytes it encodes: the two digits at `2k`
/// and `2k + 1` spell byte `k`, high digit first.
pub proof fn lemma_hex_reads_back(bytes: Seq<u8>, k: int)
    requires
        0 <= k < bytes.len(),
    ensures
        spec_hex(bytes).len() == 2 * bytes.len(),
        hex_digit_value(spec_hex(bytes)[2 * k]) * 16 + hex_digit_value(spec_hex(bytes)[2 * k + 1])
            == bytes[k],
    decreases bytes.len(),
{
    lemma_hex_len(bytes);
    let prev = bytes.drop_last();
    lemma_hex_len(prev);
    let b = bytes.last();
    let tail = seq![hex_lower(b / 16), hex_lower(b % 16)];
    assert(spec_hex(bytes) == spec_hex(prev) + tail);
    if k < bytes.len() - 1 {
        lemma_hex_reads_back(prev, k);
        assert(spec_hex(bytes)[2 * k] == spec_hex(prev)[2 * k]);
        assert(spec_hex(bytes)[2 * k + 1] == spec_hex(prev)[2 * k + 1]);
        assert(prev[k] == bytes[k]);
    } else {
        assert(spec_hex(bytes)[2 * k] == hex_lower(b / 16));
        assert(spec_hex(bytes)[2 * k + 1] == hex_lower(b % 16));
        assert(hex_digit_value(hex_lower(b / 16)) == b / 16);
        assert(hex_digit_value(hex_lower(b % 16)) == b % 16);
    }
}

} // verus!
