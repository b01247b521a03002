//! Token records and the token store of the command-line tool.
use vstd::prelude::*;
use std::collections::HashMap;
use std::time::Duration;
use crate::text::{decimal, u64_to_string};

verus! {

/// The clock's reading as whole seconds and the nanoseconds beyond them
/// since the Unix epoch: `SystemTime::now()`, then
/// `duration_since(UNIX_EPOCH)`, `as_secs` and `subsec_nanos` (the epoch
/// itself when the clock reads earlier). The nanoseconds are below one
/// billion, as `subsec_nanos` documents; the reading itself depends on the
/// clock, and nothing else is stated of it.
#[verifier::external_body]
fn unix_now() -> (r: (u64, u32))
    ensures
        r.1 < 1_000_000_000,
{
    match std::time::SystemTime::now().duration_since(std::time::UNIX_EPOCH) {
        Ok(d) => (d.as_secs(), d.subsec_nanos()),
        Err(_) => (0, 0),
    }
}

/// The whole seconds of a duration, as `Duration::as_secs` gives them.
pub uninterp spec fn duration_seconds(d: Duration) -> u64;

/// `Duration::as_secs`: the whole seconds of a duration, as named by
/// [`duration_seconds`].
#[verifier::external_body]
fn duration_secs(d: &Duration) -> (r: u64)
    ensures
        r == duration_seconds(*d),
{
    d.as_secs()
}

/// `a + b`, or the largest `u64` where the sum does not fit.
pub open spec fn saturating_sum(a: u64, b: u64) -> u64 {
    if a + b <= u64::MAX {
        (a + b) as u64
    } else {
        u64::MAX
    }
}

/// The latest Unix timestamp accepted by [`format_timestamp`]: `i64::MAX`,
/// the latest whole second that `SystemTime` holds on Unix.
pub const MAX_TIMESTAMP: u64 = 9223372036854775807;

/// The whole seconds from the clock reading `now_secs` seconds and
/// `now_nanos` nanoseconds after the Unix epoch until the Unix timestamp
/// `ts`, or `None` when `ts` lies before that reading.
pub open spec fn secs_remaining(ts: u64, now_secs: u64, now_nanos: u32) -> Option<u64> {
    if ts > now_secs {
        if now_nanos == 0 {
            Some((ts - now_secs) as u64)
        } else {
            Some((ts - now_secs - 1) as u64)
        }
    } else if ts == now_secs && now_nanos == 0 {
        Some(0)
    } else {
        None
    }
}

/// The time from a clock reading until a Unix timestamp, as
/// [`secs_remaining`] states.
pub fn remaining_secs(ts: u64, now_secs: u64, now_nanos: u32) -> (r: Option<u64>)
    ensures
        r == secs_remaining(ts, now_secs, now_nanos),
{
    if ts > now_secs {
        if now_nanos == 0 {
            Some(ts - now_secs)
        } else {
            Some(ts - now_secs - 1)
        }
    } else if ts == now_secs && now_nanos == 0 {
        Some(0)
    } else {
        None
    }
}

/// Whether a token with expiry `expires_at` is expired at Unix time `now`:
/// only a token with an expiry, and only once `now` is past it.
pub open spec fn expired_at(expires_at: Option<u64>, now: u64) -> bool {
    match expires_at {
        Some(e) => now > e,
        None => false,
    }
}

/// A stored token.
#[derive(Clone, Debug)]
pub struct TokenRecord {
    /// The token string (such as `cpsk_...`).
    pub token: String,
    /// What the token is for.
    pub subject: Option<String>,
    /// Scope strings (such as `read:/**`).
    pub scopes: Vec<String>,
    /// Unix time at which the token expires; `None` for never.
    pub expires_at: Option<u64>,
    /// Unix time at which the token was created.
    pub created_at: u64,
    /// Additional metadata.
    pub metadata: HashMap<String, String>,
}

impl TokenRecord {
    /// A record for `token` with the given scopes, created at Unix time
    /// `now`, with no subject, no expiry and no metadata.
    pub fn new_at(token: String, scopes: Vec<String>, now: u64) -> (r: Self)
        ensures
            r.token == token,
            r.subject is None,
            r.scopes == scopes,
            r.expires_at is None,
            r.created_at == now,
            r.metadata@ == Map::<String, String>::empty(),
    {
        TokenRecord {
            token,
            subject: None,
            scopes,
            expires_at: None,
            created_at: now,
            metadata: HashMap::new(),
        }
    }

    /// A record for `token` with the given scopes, created now (as
    /// [`TokenRecord::new_at`] with the clock's reading), with no subject,
    /// no expiry and no metadata.
    pub fn new(token: String, scopes: Vec<String>) -> (r: Self)
        ensures
            r.token == token,
            r.subject is None,
            r.scopes == scopes,
            r.expires_at is None,
            r.metadata@ == Map::<String, String>::empty(),
    {
        let now = unix_now().0;
        Self::new_at(token, scopes, now)
    }

    /// The record with the given subject.
    pub fn with_subject(self, subject: &str) -> (r: Self)
        ensures
            r.subject matches Some(s) && s@ == subject@,
            r.token == self.token,
            r.scopes == self.scopes,
            r.expires_at == self.expires_at,
            r.created_at == self.created_at,
            r.metadata == self.metadata,
    {
        let mut r = self;
        r.subject = Some(String::from_str(subject));
        r
    }

    /// The record expiring at Unix time `expires_at`.
    pub fn with_expires_at(self, expires_at: u64) -> (r: Self)
        ensures
            r.expires_at == Some(expires_at),
            r.token == self.token,
            r.subject == self.subject,
            r.scopes == self.scopes,
            r.created_at == self.created_at,
            r.metadata == self.metadata,
    {
        let mut r = self;
        r.expires_at = Some(expires_at);
        r
    }

    /// The record expiring `secs` seconds after Unix time `now` (at the
    /// largest time when the sum does not fit).
    pub fn with_expires_after(self, now: u64, secs: u64) -> (r: Self)
        ensures
            r.expires_at == Some(saturating_sum(now, secs)),
            r.token == self.token,
            r.subject == self.subject,
            r.scopes == self.scopes,
            r.created_at == self.created_at,
            r.metadata == self.metadata,
    {
        let mut r = self;
        r.expires_at = Some(now.saturating_add(secs));
        r
    }

    /// The record expiring `duration` (in whole seconds) after the clock's
    /// reading, as [`TokenRecord::with_expires_after`] with that reading.
    pub fn with_expires_in(self, duration: Duration) -> (r: Self)
        ensures
            exists|now: u64| r.expires_at == Some(#[trigger] saturating_sum(now, duration_seconds(duration))),
            r.token == self.token,
            r.subject == self.subject,
            r.scopes == self.scopes,
            r.created_at == self.created_at,
            r.metadata == self.metadata,
    {
        let now = unix_now().0;
        let secs = duration_secs(&duration);
        self.with_expires_after(now, secs)
    }

    /// Whether the record is expired at Unix time `now`.
    pub fn is_expired_at(&self, now: u64) -> (r: bool)
        ensures
            r == expired_at(self.expires_at, now),
    {
        match self.expires_at {
            Some(e) => now > e,
            None => false,
        }
    }

    /// Whether the record is expired now: never without an expiry.
    pub fn is_expired(&self) -> (r: bool)
        ensures
            exists|now: u64| r == expired_at(self.expires_at, now),
            self.expires_at is None ==> !r,
    {
        let now = unix_now().0;
        self.is_expired_at(now)
    }
}

/// Whether the records of a sequence have distinct tokens.
pub open spec fn distinct_tokens(s: Seq<TokenRecord>) -> bool {
    forall|i: int, j: int|
        0 <= i < s.len() && 0 <= j < s.len() && i != j ==> #[trigger] s[i].token@
            != #[trigger] s[j].token@
}

/// Whether some record of a sequence has the token `k`.
pub open spec fn has_token(s: Seq<TokenRecord>, k: Seq<char>) -> bool {
    exists|i: int| 0 <= i < s.len() && #[trigger] s[i].token@ == k
}

/// The records of a sequence as a map from token to record.
pub open spec fn records_map(s: Seq<TokenRecord>) -> Map<Seq<char>, TokenRecord> {
    Map::new(
        |k: Seq<char>| has_token(s, k),
        |k: Seq<char>| s[choose|i: int| 0 <= i < s.len() && #[trigger] s[i].token@ == k],
    )
}

/// The tokens of a sequence of records, in order.
pub open spec fn token_seq(s: Seq<TokenRecord>) -> Seq<Seq<char>> {
    s.map_values(|r: TokenRecord| r.token@)
}

/// In a sequence with distinct tokens, each record is what the map gives
/// for its token.
pub proof fn lemma_records_map_at(s: Seq<TokenRecord>, i: int)
    requires
        distinct_tokens(s),
        0 <= i < s.len(),
    ensures
        records_map(s).contains_key(s[i].token@),
        records_map(s)[s[i].token@] == s[i],
{
    let k = s[i].token@;
    assert(has_token(s, k));
    let j = choose|j: int| 0 <= j < s.len() && #[trigger] s[j].token@ == k;
    assert(s[j].token@ == k);
    if j != i {
        assert(s[i].token@ != s[j].token@);
    }
}

/// The map of a sequence with distinct tokens has as many entries as the
/// sequence has records.
pub proof fn lemma_records_map_len(s: Seq<TokenRecord>)
    requires
        distinct_tokens(s),
    ensures
        records_map(s).dom().finite(),
        records_map(s).dom().len() == s.len(),
{
    let t = token_seq(s);
    assert(t.no_duplicates()) by {
        assert forall|i: int, j: int|
            0 <= i < t.len() && 0 <= j < t.len() && i != j implies t[i] != t[j] by {
            assert(t[i] == s[i].token@);
            assert(t[j] == s[j].token@);
        }
    }
    t.unique_seq_to_set();
    assert(records_map(s).dom() =~= t.to_set()) by {
        assert forall|k: Seq<char>| records_map(s).dom().contains(k) implies t.to_set().contains(
            k,
        ) by {
            let i = choose|i: int| 0 <= i < s.len() && #[trigger] s[i].token@ == k;
            assert(t[i] == k);
        }
        assert forall|k: Seq<char>| t.to_set().contains(k) implies records_map(
            s,
        ).dom().contains(k) by {
            let i = choose|i: int| 0 <= i < t.len() && t[i] == k;
            assert(s[i].token@ == k);
        }
    }
    vstd::seq_lib::seq_to_set_is_finite(t);
}

/// The records of a token map that are not expired at Unix time `now`.
pub open spec fn unexpired(m: Map<Seq<char>, TokenRecord>, now: u64) -> Map<
    Seq<char>,
    TokenRecord,
> {
    m.restrict(m.dom().filter(|k: Seq<char>| !expired_at(m[k].expires_at, now)))
}

/// The tokens of a map whose records are expired at Unix time `now`.
pub open spec fn expired_tokens(m: Map<Seq<char>, TokenRecord>, now: u64) -> Set<Seq<char>> {
    m.dom().filter(|k: Seq<char>| expired_at(m[k].expires_at, now))
}

/// Of a finite map, pruning at `now` keeps a finite map and removes as many
/// records as are expired at `now`.
pub proof fn lemma_expired_count(m: Map<Seq<char>, TokenRecord>, now: u64)
    requires
        m.dom().finite(),
    ensures
        unexpired(m, now).dom().finite(),
        m.len() - unexpired(m, now).len() == expired_tokens(m, now).len(),
{
    let kept = unexpired(m, now).dom();
    let gone = expired_tokens(m, now);
    assert(kept =~= m.dom().filter(|k: Seq<char>| !expired_at(m[k].expires_at, now)));
    m.dom().lemma_len_filter(|k: Seq<char>| !expired_at(m[k].expires_at, now));
    m.dom().lemma_len_filter(|k: Seq<char>| expired_at(m[k].expires_at, now));
    assert(kept.disjoint(gone));
    assert(kept + gone =~= m.dom());
    vstd::set_lib::lemma_set_disjoint_lens(kept, gone);
}

/// Tokens stored by their token string. The records are kept in a vector
/// whose tokens are distinct: vstd specifies hash maps only for keys such
/// as integers, not for `String` keys, so the vector's view is what
/// carries the map.
#[derive(Debug)]
pub struct TokenStore {
    tokens: Vec<TokenRecord>,
}

impl TokenStore {
    #[verifier::type_invariant]
    spec fn distinct(self) -> bool {
        distinct_tokens(self.tokens@)
    }

    /// The stored records, in the order they were first added.
    pub closed spec fn records(&self) -> Seq<TokenRecord> {
        self.tokens@
    }

    /// An empty store.
    pub fn new() -> (s: Self)
        ensures
            s@ == Map::<Seq<char>, TokenRecord>::empty(),
            s@.dom().finite(),
    {
        let s = TokenStore { tokens: Vec::new() };
        assert(s@ =~= Map::<Seq<char>, TokenRecord>::empty());
        s
    }

    /// The index of the record with token `k`, if any.
    fn position(v: &Vec<TokenRecord>, k: &String) -> (r: Option<usize>)
        ensures
            match r {
                Some(i) => i < v.len() && v@[i as int].token@ == k@,
                None => !has_token(v@, k@),
            },
    {
        let mut i: usize = 0;
        while i < v.len()
            invariant
                i <= v.len(),
                forall|j: int| 0 <= j < i ==> #[trigger] v@[j].token@ != k@,
            decreases v.len() - i,
        {
            if v[i].token == *k {
                return Some(i);
            }
            i = i + 1;
        }
        None
    }

    /// Stores a record under its token, replacing a record with the same
    /// token.
    pub fn add(&mut self, record: TokenRecord)
        ensures
            final(self)@ == old(self)@.insert(record.token@, record),
            final(self)@.dom().finite(),
    {
        proof {
            use_type_invariant(&*self);
            lemma_records_map_len(self.tokens@);
        }
        let ghost before = self.tokens@;
        let mut v: Vec<TokenRecord> = Vec::new();
        std::mem::swap(&mut v, &mut self.tokens);
        let ghost k = record.token@;
        match Self::position(&v, &record.token) {
            Some(i) => {
                v.set(i, record);
                proof {
                    assert forall|a: int, b: int|
                        0 <= a < v@.len() && 0 <= b < v@.len() && a != b implies #[trigger] v@[a].token@
                        != #[trigger] v@[b].token@ by {
                        if a != i && b != i {
                            assert(v@[a] == before[a] && v@[b] == before[b]);
                        } else if a == i {
                            assert(v@[b] == before[b]);
                            assert(before[i as int].token@ != before[b].token@);
                        } else {
                            assert(v@[a] == before[a]);
                            assert(before[i as int].token@ != before[a].token@);
                        }
                    }
                }
                self.tokens = v;
                proof {
                    let m0 = records_map(before);
                    let m1 = records_map(self.tokens@);
                    assert forall|q: Seq<char>| #[trigger] m1.contains_key(q) <==> m0.insert(
                        k,
                        record,
                    ).contains_key(q) by {
                        if m1.contains_key(q) {
                            let j = choose|j: int|
                                0 <= j < self.tokens@.len() && #[trigger] self.tokens@[j].token@ == q;
                            if j != i {
                                assert(before[j].token@ == q);
                            }
                        }
                        if m0.contains_key(q) && q != k {
                            let j = choose|j: int|
                                0 <= j < before.len() && #[trigger] before[j].token@ == q;
                            assert(j != i);
                            assert(self.tokens@[j].token@ == q);
                        }
                        if q == k {
                            assert(self.tokens@[i as int].token@ == q);
                        }
                    }
                    assert forall|q: Seq<char>| #[trigger] m1.contains_key(q) implies m1[q] == m0.insert(
                        k,
                        record,
                    )[q] by {
                        let j = choose|j: int|
                            0 <= j < self.tokens@.len() && #[trigger] self.tokens@[j].token@ == q;
                        lemma_records_map_at(self.tokens@, j);
                        if j != i {
                            assert(before[j] == self.tokens@[j]);
                            lemma_records_map_at(before, j);
                        }
                    }
                    assert(m1 =~= m0.insert(k, record));
                }
            },
            None => {
                v.push(record);
                proof {
                    assert forall|a: int, b: int|
                        0 <= a < v@.len() && 0 <= b < v@.len() && a != b implies #[trigger] v@[a].token@
                        != #[trigger] v@[b].token@ by {
                        let n = before.len() as int;
                        if a < n && b < n {
                            assert(v@[a] == before[a] && v@[b] == before[b]);
                        } else if a == n {
                            assert(v@[b] == before[b]);
                            assert(before[b].token@ != k);
                        } else {
                            assert(v@[a] == before[a]);
                            assert(before[a].token@ != k);
                        }
                    }
                }
                self.tokens = v;
                proof {
                    let n = before.len() as int;
                    let m0 = records_map(before);
                    let m1 = records_map(self.tokens@);
                    assert forall|q: Seq<char>| #[trigger] m1.contains_key(q) <==> m0.insert(
                        k,
                        record,
                    ).contains_key(q) by {
                        if m1.contains_key(q) {
                            let j = choose|j: int|
                                0 <= j < self.tokens@.len() && #[trigger] self.tokens@[j].token@ == q;
                            if j != n {
                                assert(before[j].token@ == q);
                            }
                        }
                        if m0.contains_key(q) {
                            let j = choose|j: int|
                                0 <= j < before.len() && #[trigger] before[j].token@ == q;
                            assert(self.tokens@[j].token@ == q);
                        }
                        if q == k {
                            assert(self.tokens@[n].token@ == q);
                        }
                    }
                    assert forall|q: Seq<char>| #[trigger] m1.contains_key(q) implies m1[q] == m0.insert(
                        k,
                        record,
                    )[q] by {
                        let j = choose|j: int|
                            0 <= j < self.tokens@.len() && #[trigger] self.tokens@[j].token@ == q;
                        lemma_records_map_at(self.tokens@, j);
                        if j != n {
                            assert(before[j] == self.tokens@[j]);
                            lemma_records_map_at(before, j);
                        }
                    }
                    assert(m1 =~= m0.insert(k, record));
                }
            },
        }
    }
}

impl TokenStore {
    /// Removes the record with the given token and returns it.
    pub fn remove(&mut self, token: &str) -> (r: Option<TokenRecord>)
        ensures
            final(self)@ == old(self)@.remove(token@),
            r == old(self)@.get(token@),
            final(self)@.dom().finite(),
    {
        proof {
            use_type_invariant(&*self);
            lemma_records_map_len(self.tokens@);
        }
        let ghost before = self.tokens@;
        let key = String::from_str(token);
        let mut v: Vec<TokenRecord> = Vec::new();
        std::mem::swap(&mut v, &mut self.tokens);
        match Self::position(&v, &key) {
            Some(i) => {
                let rec = v.remove(i);
                proof {
                    assert forall|a: int, b: int|
                        0 <= a < v@.len() && 0 <= b < v@.len() && a != b implies #[trigger] v@[a].token@
                        != #[trigger] v@[b].token@ by {
                        let a0 = if a < i { a } else { a + 1 };
                        let b0 = if b < i { b } else { b + 1 };
                        assert(v@[a] == before[a0] && v@[b] == before[b0]);
                    }
                }
                self.tokens = v;
                proof {
                    let m0 = records_map(before);
                    let m1 = records_map(self.tokens@);
                    lemma_records_map_at(before, i as int);
                    assert forall|q: Seq<char>| #[trigger] m1.contains_key(q) <==> m0.remove(
                        token@,
                    ).contains_key(q) by {
                        if m1.contains_key(q) {
                            let j = choose|j: int|
                                0 <= j < self.tokens@.len() && #[trigger] self.tokens@[j].token@ == q;
                            let j0 = if j < i { j } else { j + 1 };
                            assert(self.tokens@[j] == before[j0]);
                            assert(before[j0].token@ == q);
                            assert(j0 != i);
                            assert(before[i as int].token@ != before[j0].token@);
                        }
                        if m0.contains_key(q) && q != token@ {
                            let j = choose|j: int|
                                0 <= j < before.len() && #[trigger] before[j].token@ == q;
                            assert(j != i);
                            let j1 = if j < i { j } else { j - 1 };
                            assert(self.tokens@[j1] == before[j]);
                            assert(self.tokens@[j1].token@ == q);
                        }
                    }
                    assert forall|q: Seq<char>| #[trigger] m1.contains_key(q) implies m1[q]
                        == m0.remove(token@)[q] by {
                        let j = choose|j: int|
                            0 <= j < self.tokens@.len() && #[trigger] self.tokens@[j].token@ == q;
                        lemma_records_map_at(self.tokens@, j);
                        let j0 = if j < i { j } else { j + 1 };
                        assert(self.tokens@[j] == before[j0]);
                        lemma_records_map_at(before, j0);
                    }
                    assert(m1 =~= m0.remove(token@));
                }
                Some(rec)
            },
            None => {
                self.tokens = v;
                proof {
                    assert(records_map(before).remove(token@) =~= records_map(before));
                }
                None
            },
        }
    }

    /// The record with the given token.
    pub fn get(&self, token: &str) -> (r: Option<&TokenRecord>)
        ensures
            match r {
                Some(rec) => self@.contains_key(token@) && *rec == self@[token@],
                None => !self@.contains_key(token@),
            },
    {
        proof {
            use_type_invariant(self);
        }
        let key = String::from_str(token);
        match Self::position(&self.tokens, &key) {
            Some(i) => {
                proof {
                    lemma_records_map_at(self.tokens@, i as int);
                }
                Some(&self.tokens[i])
            },
            None => None,
        }
    }

    /// All stored records, each once.
    pub fn list(&self) -> (r: &[TokenRecord])
        ensures
            records_map(r@) == self@,
            distinct_tokens(r@),
            r@.len() == self@.len(),
    {
        proof {
            use_type_invariant(self);
            lemma_records_map_len(self.tokens@);
        }
        self.tokens.as_slice()
    }

    /// The number of stored records.
    pub fn len(&self) -> (r: usize)
        ensures
            r == self@.len(),
    {
        proof {
            use_type_invariant(self);
            lemma_records_map_len(self.tokens@);
        }
        self.tokens.len()
    }

    /// Whether the store holds no record.
    pub fn is_empty(&self) -> (r: bool)
        ensures
            r == (self@.len() == 0),
    {
        proof {
            use_type_invariant(self);
            lemma_records_map_len(self.tokens@);
        }
        self.tokens.len() == 0
    }

    /// Removes every record expired at Unix time `now` and returns how
    /// many were removed.
    pub fn prune_expired_at(&mut self, now: u64) -> (r: usize)
        ensures
            final(self)@ == unexpired(old(self)@, now),
            r == old(self)@.len() - final(self)@.len(),
            r == expired_tokens(old(self)@, now).len(),
            final(self)@.dom().finite(),
    {
        proof {
            use_type_invariant(&*self);
            lemma_records_map_len(self.tokens@);
            lemma_expired_count(self@, now);
        }
        let ghost before = self.tokens@;
        let mut v: Vec<TokenRecord> = Vec::new();
        std::mem::swap(&mut v, &mut self.tokens);
        let mut kept: Vec<TokenRecord> = Vec::new();
        let mut removed: usize = 0;
        let ghost mut map_idx: Seq<int> = Seq::empty();
        let n = v.len();
        let mut i: usize = 0;
        while i < n
            invariant
                v.len() + i == n,
                n == before.len(),
                i <= n,
                v@.len() + i == before.len(),
                forall|j: int| 0 <= j < v@.len() ==> #[trigger] v@[j] == before[j + i],
                distinct_tokens(before),
                kept@.len() == map_idx.len(),
                kept@.len() + removed == i,
                forall|j: int| 0 <= j < map_idx.len() ==> 0 <= #[trigger] map_idx[j] < i,
                forall|a: int, b: int|
                    0 <= a < b < map_idx.len() ==> #[trigger] map_idx[a] < #[trigger] map_idx[b],
                forall|j: int|
                    0 <= j < kept@.len() ==> #[trigger] kept@[j] == before[map_idx[j]],
                forall|j: int|
                    0 <= j < kept@.len() ==> !expired_at(#[trigger] kept@[j].expires_at, now),
                forall|b: int|
                    0 <= b < i && !expired_at(before[b].expires_at, now) ==> exists|j: int|
                        0 <= j < map_idx.len() && #[trigger] map_idx[j] == b,
            decreases n - i,
        {
            let ghost old_idx = map_idx;
            let rec = v.remove(0);
            if rec.is_expired_at(now) {
                removed = removed + 1;
            } else {
                proof {
                    map_idx = map_idx.push(i as int);
                }
                kept.push(rec);
            }
            proof {
                assert forall|j: int| 0 <= j < v@.len() implies #[trigger] v@[j] == before[j + i
                    + 1] by {}
                assert forall|b: int|
                    0 <= b < i + 1 && !expired_at(before[b].expires_at, now) implies exists|j: int|
                    0 <= j < map_idx.len() && #[trigger] map_idx[j] == b by {
                    if b == i {
                        assert(map_idx[map_idx.len() - 1] == b);
                    } else {
                        let j = choose|j: int| 0 <= j < old_idx.len() && #[trigger] old_idx[j] == b;
                        assert(map_idx[j] == b);
                    }
                }
            }
            i = i + 1;
        }
        proof {
            assert forall|a: int, b: int|
                0 <= a < kept@.len() && 0 <= b < kept@.len() && a != b implies #[trigger] kept@[a].token@
                != #[trigger] kept@[b].token@ by {
                if a < b {
                    assert(map_idx[a] < map_idx[b]);
                } else {
                    assert(map_idx[b] < map_idx[a]);
                }
            }
        }
        self.tokens = kept;
        proof {
            let m0 = records_map(before);
            let m1 = records_map(self.tokens@);
            let target = unexpired(m0, now);
            assert forall|q: Seq<char>| #[trigger] m1.contains_key(q) <==> target.contains_key(q) by {
                if m1.contains_key(q) {
                    let j = choose|j: int|
                        0 <= j < self.tokens@.len() && #[trigger] self.tokens@[j].token@ == q;
                    lemma_records_map_at(before, map_idx[j]);
                    assert(before[map_idx[j]].token@ == q);
                }
                if target.contains_key(q) {
                    let b = choose|b: int| 0 <= b < before.len() && #[trigger] before[b].token@ == q;
                    lemma_records_map_at(before, b);
                    let j = choose|j: int| 0 <= j < map_idx.len() && #[trigger] map_idx[j] == b;
                    assert(self.tokens@[j].token@ == q);
                }
            }
            assert forall|q: Seq<char>| #[trigger] m1.contains_key(q) implies m1[q] == target[q] by {
                let j = choose|j: int|
                    0 <= j < self.tokens@.len() && #[trigger] self.tokens@[j].token@ == q;
                lemma_records_map_at(self.tokens@, j);
                lemma_records_map_at(before, map_idx[j]);
            }
            assert(m1 =~= target);
            lemma_records_map_len(self.tokens@);
        }
        removed
    }

    /// Removes every record expired now and returns how many were removed.
    pub fn prune_expired(&mut self) -> (r: usize)
        ensures
            exists|now: u64|
                final(self)@ == #[trigger] unexpired(old(self)@, now) && r == expired_tokens(
                    old(self)@,
                    now,
                ).len(),
            r == old(self)@.len() - final(self)@.len(),
            final(self)@.dom().finite(),
    {
        let now = unix_now().0;
        self.prune_expired_at(now)
    }
}

/// How `format_timestamp` describes a time that lies `remaining` seconds
/// ahead, or one that has passed (`None`).
pub open spec fn remaining_text(remaining: Option<u64>) -> Seq<char> {
    match remaining {
        None => "expired"@,
        Some(secs) => if secs < 60 {
            "in "@ + decimal(secs as nat) + " seconds"@
        } else if secs < 3600 {
            "in "@ + decimal((secs / 60) as nat) + " minutes"@
        } else if secs < 86400 {
            "in "@ + decimal((secs / 3600) as nat) + " hours"@
        } else {
            "in "@ + decimal((secs / 86400) as nat) + " days"@
        },
    }
}

/// Describes a time `remaining` seconds ahead in its largest whole unit, or
/// `expired` for a time that has passed.
pub fn describe_remaining(remaining: Option<u64>) -> (s: String)
    ensures
        s@ == remaining_text(remaining),
{
    match remaining {
        None => String::from_str("expired"),
        Some(secs) => {
            let (n, unit) = if secs < 60 {
                (secs, " seconds")
            } else if secs < 3600 {
                (secs / 60, " minutes")
            } else if secs < 86400 {
                (secs / 3600, " hours")
            } else {
                (secs / 86400, " days")
            };
            let mut s = String::from_str("in ");
            let digits = u64_to_string(n);
            s.append(digits.as_str());
            s.append(unit);
            proof {
                reveal_strlit("in ");
                reveal_strlit(" seconds");
                reveal_strlit(" minutes");
                reveal_strlit(" hours");
                reveal_strlit(" days");
                reveal_strlit("expired");
            }
            s
        },
    }
}

/// Describes the Unix timestamp `ts` relative to the clock's reading: how
/// long until it, in its largest whole unit, or `expired`.
pub fn format_timestamp(ts: u64) -> (s: String)
    requires
        ts <= MAX_TIMESTAMP,
    ensures
        exists|now_secs: u64, now_nanos: u32|
            now_nanos < 1_000_000_000 && s@ == remaining_text(
                #[trigger] secs_remaining(ts, now_secs, now_nanos),
            ),
{
    let (now_secs, now_nanos) = unix_now();
    let remaining = remaining_secs(ts, now_secs, now_nanos);
    describe_remaining(remaining)
}

impl View for TokenStore {
    type V = Map<Seq<char>, TokenRecord>;

    closed spec fn view(&self) -> Map<Seq<char>, TokenRecord> {
        records_map(self.tokens@)
    }
}

/// A record read back after it was added is the record added, and the
/// other tokens keep their records.
pub proof fn law_get_after_add(store: Map<Seq<char>, TokenRecord>, record: TokenRecord, other: Seq<char>)
    requires
        other != record.token@,
    ensures
        store.insert(record.token@, record).contains_key(record.token@),
        store.insert(record.token@, record)[record.token@] == record,
        store.insert(record.token@, record).contains_key(other) == store.contains_key(other),
        store.contains_key(other) ==> store.insert(record.token@, record)[other] == store[other],
{
}

/// Removing a token that was just added leaves the store as it was without
/// that token; the removed record is the one added.
pub proof fn law_remove_after_add(store: Map<Seq<char>, TokenRecord>, record: TokenRecord)
    ensures
        store.insert(record.token@, record).remove(record.token@) == store.remove(record.token@),
        store.insert(record.token@, record).get(record.token@) == Some(record),
{
    assert(store.insert(record.token@, record).remove(record.token@) =~= store.remove(
        record.token@,
    ));
}

/// Adding a record with a new token adds one to the count; adding one with
/// a stored token keeps the count.
pub proof fn law_add_len(store: Map<Seq<char>, TokenRecord>, record: TokenRecord)
    requires
        store.dom().finite(),
    ensures
        !store.contains_key(record.token@) ==> store.insert(record.token@, record).len()
            == store.len() + 1,
        store.contains_key(record.token@) ==> store.insert(record.token@, record).len()
            == store.len(),
{
}

/// After pruning at a time, no record left is expired at that time, every
/// record that is not expired stays, and pruning again at that time
/// removes nothing.
pub proof fn law_prune(store: Map<Seq<char>, TokenRecord>, now: u64, k: Seq<char>)
    ensures
        unexpired(store, now).contains_key(k) ==> !expired_at(
            unexpired(store, now)[k].expires_at,
            now,
        ),
        store.contains_key(k) && !expired_at(store[k].expires_at, now) ==> unexpired(
            store,
            now,
        ).contains_key(k) && unexpired(store, now)[k] == store[k],
        unexpired(unexpired(store, now), now) == unexpired(store, now),
{
    assert(unexpired(unexpired(store, now), now) =~= unexpired(store, now));
}

} // verus!
