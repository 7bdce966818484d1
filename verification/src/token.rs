//! The ephemeral session/token service: opaque bearer tokens mapped to
//! subject identifiers in a key-value store with per-key expiry.
//!
//! The store itself is a remote collaborator reached over the network, so
//! its atomic single-key primitives (`set_with_expiry`, `get`, `expire`,
//! `delete`) are modelled here as a verified structure whose view is the
//! map from keys to value-and-deadline pairs; the surrounding process
//! performs the matching network round-trips. Time enters as an explicit
//! clock value so that expiry is part of every contract.

use vstd::prelude::*;

use crate::TOKEN_TTL_SECS;

verus! {

/// One record of the key-value store: a key, its value, and the instant
/// (seconds) at which the record stops being visible.
pub struct KvEntry {
    pub key: String,
    pub value: String,
    pub deadline: u64,
}

/// The store as the contracts see it: key characters to value characters
/// and deadline.
pub type KvMap = Map<Seq<char>, (Seq<char>, u64)>;

/// The map described by a record sequence; a later record for a key
/// supersedes an earlier one.
pub open spec fn entries_map(s: Seq<KvEntry>) -> KvMap
    decreases s.len(),
{
    if s.len() == 0 {
        Map::empty()
    } else {
        entries_map(s.drop_last()).insert(
            s.last().key@,
            (s.last().value@, s.last().deadline),
        )
    }
}

/// True when `k` is bound and not yet expired at instant `now`.
pub open spec fn kv_live(m: KvMap, k: Seq<char>, now: u64) -> bool {
    m.contains_key(k) && m[k].1 > now
}

/// What `get` returns at instant `now`: the value while the key is live,
/// nothing once it has expired or was never set.
pub open spec fn kv_get_spec(m: KvMap, k: Seq<char>, now: u64) -> Option<Seq<char>> {
    if kv_live(m, k, now) {
        Some(m[k].0)
    } else {
        None
    }
}

/// A verified model of the key-value store at its atomic single-key
/// boundary, with an explicit clock.
pub struct KvStore {
    entries: Vec<KvEntry>,
}

impl View for KvStore {
    type V = KvMap;

    closed spec fn view(&self) -> KvMap {
        entries_map(self.entries@)
    }
}

/// The latest record for a key decides its binding: a record at `i` with
/// no later record for the same key is the binding `entries_map` reports.
proof fn lemma_entries_map_last(s: Seq<KvEntry>, i: int, k: Seq<char>)
    requires
        0 <= i < s.len(),
        s[i].key@ == k,
        forall|j: int| i < j < s.len() ==> s[j].key@ != k,
    ensures
        entries_map(s).contains_key(k),
        entries_map(s)[k] == (s[i].value@, s[i].deadline),
    decreases s.len(),
{
    if i == s.len() - 1 {
    } else {
        lemma_entries_map_last(s.drop_last(), i, k);
    }
}

/// A key with no record at all is unbound.
proof fn lemma_entries_map_absent(s: Seq<KvEntry>, k: Seq<char>)
    requires
        forall|j: int| 0 <= j < s.len() ==> s[j].key@ != k,
    ensures
        !entries_map(s).contains_key(k),
    decreases s.len(),
{
    if s.len() > 0 {
        lemma_entries_map_absent(s.drop_last(), k);
    }
}

impl KvStore {
    /// An empty store.
    pub fn new() -> (s: KvStore)
        ensures
            s@ == KvMap::empty(),
    {
        KvStore { entries: Vec::new() }
    }

    /// The position of the latest record for `key`, if any.
    fn find_latest(&self, key: &String) -> (r: Option<usize>)
        ensures
            match r {
                Some(i) => i < self.entries@.len() && self@.contains_key(key@) && self@[key@]
                    == (self.entries@[i as int].value@, self.entries@[i as int].deadline),
                None => !self@.contains_key(key@),
            },
    {
        let n = self.entries.len();
        let mut j: usize = n;
        while j > 0
            invariant
                j <= n,
                n == self.entries@.len(),
                forall|x: int| j <= x < n ==> self.entries@[x].key@ != key@,
            decreases j,
        {
            j = j - 1;
            if self.entries[j].key == *key {
                proof {
                    lemma_entries_map_last(self.entries@, j as int, key@);
                }
                return Some(j);
            }
        }
        proof {
            lemma_entries_map_absent(self.entries@, key@);
        }
        None
    }

    /// Atomically bind `key` to `value` until `now + ttl`, replacing
    /// whatever binding the key held before.
    pub fn set_with_expiry(&mut self, key: &String, value: &String, now: u64, ttl: u64)
        requires
            now + ttl <= u64::MAX,
        ensures
            final(self)@ == old(self)@.insert(key@, (value@, (now + ttl) as u64)),
            kv_live(final(self)@, key@, now) == (ttl > 0),
    {
        let rec = KvEntry { key: key.clone(), value: value.clone(), deadline: now + ttl };
        let ghost s0 = self.entries@;
        self.entries.push(rec);
        proof {
            assert(self.entries@.drop_last() =~= s0);
        }
    }

    /// The value under `key` at instant `now`, or nothing once the key has
    /// expired or was never set.
    pub fn get(&self, key: &String, now: u64) -> (r: Option<String>)
        ensures
            r.deep_view() == kv_get_spec(self@, key@, now),
            r is Some <==> kv_live(self@, key@, now),
    {
        match self.find_latest(key) {
            Some(i) => {
                if self.entries[i].deadline > now {
                    Some(self.entries[i].value.clone())
                } else {
                    None
                }
            },
            None => None,
        }
    }

    /// Move `key`'s deadline to `now + ttl` if the key is live; report
    /// whether it was. An absent or expired key is left exactly as it is.
    pub fn expire(&mut self, key: &String, now: u64, ttl: u64) -> (r: bool)
        requires
            now + ttl <= u64::MAX,
        ensures
            r == kv_live(old(self)@, key@, now),
            r ==> final(self)@ == old(self)@.insert(
                key@,
                (old(self)@[key@].0, (now + ttl) as u64),
            ),
            !r ==> final(self)@ == old(self)@,
    {
        match self.get(key, now) {
            Some(value) => {
                self.set_with_expiry(key, &value, now, ttl);
                true
            },
            None => false,
        }
    }

    /// Remove `key`'s binding. Removing an absent key changes nothing and
    /// is not a failure.
    pub fn delete(&mut self, key: &String)
        ensures
            final(self)@ == old(self)@.remove(key@),
            !old(self)@.contains_key(key@) ==> final(self)@ == old(self)@,
    {
        let ghost s0 = self.entries@;
        let ghost m0 = self@;
        let n = self.entries.len();
        let mut kept: Vec<KvEntry> = Vec::new();
        let mut i: usize = 0;
        while i < n
            invariant
                i <= n,
                n == s0.len(),
                self.entries@ == s0,
                entries_map(kept@) == entries_map(s0.subrange(0, i as int)).remove(key@),
            decreases n - i,
        {
            let e = &self.entries[i];
            let ghost kept0 = kept@;
            let ghost prefix = s0.subrange(0, i as int);
            if e.key == *key {
                proof {
                    assert(s0.subrange(0, i as int + 1).drop_last() =~= prefix);
                    assert(s0.subrange(0, i as int + 1).last() == s0[i as int]);
                    assert(entries_map(s0.subrange(0, i as int + 1)).remove(key@)
                        =~= entries_map(prefix).remove(key@));
                }
            } else {
                kept.push(
                    KvEntry {
                        key: e.key.clone(),
                        value: e.value.clone(),
                        deadline: e.deadline,
                    },
                );
                proof {
                    assert(kept@.drop_last() =~= kept0);
                    assert(s0.subrange(0, i as int + 1).drop_last() =~= prefix);
                    assert(s0.subrange(0, i as int + 1).last() == s0[i as int]);
                    assert(entries_map(kept@) =~= entries_map(
                        s0.subrange(0, i as int + 1),
                    ).remove(key@));
                }
            }
            i = i + 1;
        }
        proof {
            assert(s0.subrange(0, n as int) =~= s0);
        }
        self.entries = kept;
        proof {
            if !m0.contains_key(key@) {
                assert(self@ =~= m0);
            }
        }
    }
}

/// Characters a session token may contain.
pub open spec fn is_token_char(c: char) -> bool {
    ('a' <= c && c <= 'z') || ('A' <= c && c <= 'Z') || ('0' <= c && c <= '9')
}

/// An opaque bearer token: exactly 32 alphanumeric characters.
pub open spec fn valid_token(s: Seq<char>) -> bool {
    s.len() == 32 && forall|i: int| 0 <= i < s.len() ==> is_token_char(#[trigger] s[i])
}

/// Relies on rand's `Alphanumeric` distribution with
/// `DistString::sample_string`: the sample has exactly the requested
/// length and each of its characters is drawn from a-z, A-Z, 0-9.
#[verifier::external_body]
fn fresh_token_candidate() -> (r: String)
    ensures
        valid_token(r@),
{
    rand::distributions::DistString::sample_string(
        &rand::distributions::Alphanumeric,
        &mut rand::thread_rng(),
        32,
    )
}

/// The token service: issues, looks up, refreshes and revokes opaque
/// bearer tokens against the key-value store.
pub struct Token {}

impl Token {
    /// Issue a token for `user_id`: draw 32-character alphanumeric
    /// candidates until one is not live in the store, then atomically bind
    /// it to `user_id` for `TOKEN_TTL_SECS` seconds. Drawing is bounded; on
    /// exhaustion the empty string is returned and the store is untouched,
    /// which callers surface as an internal failure. The sentinel can come
    /// back only when some valid token really was live — in particular,
    /// against a store with no live 32-character alphanumeric key (an
    /// empty store above all), issuance must succeed.
    pub fn new(store: &mut KvStore, user_id: &String, now: u64) -> (token: String)
        requires
            now + TOKEN_TTL_SECS <= u64::MAX,
        ensures
            token@.len() == 0 ==> final(store)@ == old(store)@ && exists|k: Seq<char>|
                valid_token(k) && kv_live(old(store)@, k, now),
            token@.len() != 0 ==> valid_token(token@) && !kv_live(old(store)@, token@, now)
                && final(store)@ == old(store)@.insert(
                token@,
                (user_id@, (now + TOKEN_TTL_SECS) as u64),
            ),
    {
        let mut candidate = fresh_token_candidate();
        let mut iters: u64 = 0;
        loop
            invariant
                store@ == old(store)@,
                now + TOKEN_TTL_SECS <= u64::MAX,
                valid_token(candidate@),
                iters <= 201,
            decreases 202 - iters,
        {
            if store.get(&candidate, now).is_none() {
                store.set_with_expiry(&candidate, user_id, now, TOKEN_TTL_SECS);
                return candidate;
            }
            let ghost collided = candidate@;
            candidate = fresh_token_candidate();
            if iters > 200 {
                proof {
                    assert(valid_token(collided) && kv_live(old(store)@, collided, now));
                }
                return String::new();
            }
            iters = iters + 1;
        }
    }

    /// Look the token up: its subject while it is live, nothing otherwise.
    /// Absence is surfaced by callers as an authorization failure; the
    /// lookup itself never extends the token's life.
    pub fn find(store: &KvStore, token: &String, now: u64) -> (r: Option<String>)
        ensures
            r.deep_view() == kv_get_spec(store@, token@, now),
            r is Some <==> kv_live(store@, token@, now),
    {
        store.get(token, now)
    }

    /// Reset the token's remaining life to the full `TOKEN_TTL_SECS` if it
    /// is live, leaving its subject unchanged; report whether it was live.
    /// An absent or expired token is left exactly as it is.
    pub fn refresh(store: &mut KvStore, token: &String, now: u64) -> (r: bool)
        requires
            now + TOKEN_TTL_SECS <= u64::MAX,
        ensures
            r == kv_live(old(store)@, token@, now),
            r ==> final(store)@ == old(store)@.insert(
                token@,
                (old(store)@[token@].0, (now + TOKEN_TTL_SECS) as u64),
            ),
            !r ==> final(store)@ == old(store)@,
    {
        match store.get(token, now) {
            Some(_) => store.expire(token, now, TOKEN_TTL_SECS),
            None => false,
        }
    }

    /// Revoke the token. Revoking one that is absent, expired, or already
    /// revoked changes nothing and is not a failure.
    pub fn delete(store: &mut KvStore, token: &String)
        ensures
            final(store)@ == old(store)@.remove(token@),
            !old(store)@.contains_key(token@) ==> final(store)@ == old(store)@,
    {
        store.delete(token)
    }
}

/// Law: issuing a token for a subject and immediately looking it up
/// returns that same subject.
pub proof fn lemma_issue_then_find(
    m0: KvMap,
    m1: KvMap,
    tok: Seq<char>,
    subject: Seq<char>,
    dl: u64,
    now: u64,
)
    requires
        m1 == m0.insert(tok, (subject, dl)),
        dl > now,
    ensures
        kv_get_spec(m1, tok, now) == Some(subject),
{
}

/// Law: revoking a token is idempotent. Revoking it a second time, or
/// revoking one that never existed, leaves the store exactly as it is.
pub proof fn lemma_delete_idempotent(m0: KvMap, tok: Seq<char>)
    ensures
        m0.remove(tok).remove(tok) == m0.remove(tok),
{
    assert(m0.remove(tok).remove(tok) =~= m0.remove(tok));
}

/// Law: after a successful refresh to deadline `dl`, the token stays live
/// with its subject unchanged at every instant short of `dl`.
pub proof fn lemma_refresh_extends(
    m0: KvMap,
    m1: KvMap,
    tok: Seq<char>,
    dl: u64,
    n2: u64,
)
    requires
        m0.contains_key(tok),
        m1 == m0.insert(tok, (m0[tok].0, dl)),
        n2 < dl,
    ensures
        kv_live(m1, tok, n2),
        m1[tok].0 == m0[tok].0,
{
}

/// Law: an issue that succeeds can never capture a token that is still
/// live, so a live token is never rebound to a different subject.
pub proof fn lemma_issue_no_collision(
    m1: KvMap,
    tok1: Seq<char>,
    tok2: Seq<char>,
    now2: u64,
)
    requires
        kv_live(m1, tok1, now2),
        !kv_live(m1, tok2, now2),
    ensures
        tok1 != tok2,
{
}

} // verus!
