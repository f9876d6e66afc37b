//! The rate-limited verification-code store.
//!
//! Per identity key (a seed) the store holds at most one pending code and a
//! penalty record. Expired challenges are pruned on every mutating access;
//! abandoning a challenge after a wrong guess escalates the penalty, a wrong
//! third guess deletes the challenge and escalates, a correct guess consumes
//! the challenge and clears the penalty, and an escalating ladder of block
//! windows rate-limits issuance.

use vstd::prelude::*;

verus! {

use vstd::string::StringSliceAdditionalSpecFns;

use crate::{Hash32, Milliseconds, TimestampMillis, ONE_MINUTE};
use crate::api::{Delegation, DelegationView, IncorrectCode};
use crate::assoc::{
    entries_map, find_entry, keys_distinct, lemma_entries_map_absent, lemma_entries_map_index,
    lemma_entries_map_push, lemma_entries_map_remove,
};

/// How long a verification code stays valid, in milliseconds.
pub const VERIFICATION_CODE_TTL: Milliseconds = 5 * 60 * 1000;

/// How many guesses a challenge allows before it is destroyed.
pub const MAX_CODE_ATTEMPTS: u32 = 3;

/// The mathematical value of a pending verification code.
#[verifier::ext_equal]
pub struct CodeView {
    /// The UTF-8 bytes of the code; a guess must match them exactly.
    pub code: Seq<u8>,
    pub delegation: DelegationView,
    pub created: u64,
    pub attempts: Seq<u64>,
}

/// The mathematical value of a penalty record.
#[verifier::ext_equal]
pub struct FailView {
    pub blocked_until: u64,
    pub count: u32,
}

/// A pending verification code: the code, the delegation to certify on
/// success, when it was issued, and the times of wrong guesses.
pub struct VerificationCode {
    code: String,
    delegation: Delegation,
    created: TimestampMillis,
    attempts: Vec<TimestampMillis>,
}

impl View for VerificationCode {
    type V = CodeView;

    closed spec fn view(&self) -> CodeView {
        CodeView {
            code: vstd::utf8::encode_utf8(self.code@),
            delegation: self.delegation@,
            created: self.created,
            attempts: self.attempts@,
        }
    }
}

impl VerificationCode {
    /// A fresh, unguessed challenge.
    pub fn new(code: String, delegation: Delegation, now: TimestampMillis) -> (r:
        VerificationCode)
        ensures
            r@ == (CodeView {
                code: vstd::utf8::encode_utf8(code@),
                delegation: delegation@,
                created: now,
                attempts: Seq::empty(),
            }),
    {
        let r = VerificationCode { code, delegation, created: now, attempts: Vec::new() };
        proof {
            assert(r@ =~= CodeView {
                code: vstd::utf8::encode_utf8(r.code@),
                delegation: r.delegation@,
                created: now,
                attempts: Seq::empty(),
            });
        }
        r
    }

    /// When the challenge lapses; issuance close to the end of time never
    /// lapses.
    pub fn expiry(&self) -> (r: TimestampMillis)
        ensures
            r == code_expiry(self@),
    {
        if self.created > u64::MAX - VERIFICATION_CODE_TTL {
            u64::MAX
        } else {
            self.created + VERIFICATION_CODE_TTL
        }
    }
}

/// When a pending code lapses.
pub open spec fn code_expiry(c: CodeView) -> u64 {
    if c.created + VERIFICATION_CODE_TTL > u64::MAX {
        u64::MAX
    } else {
        (c.created + VERIFICATION_CODE_TTL) as u64
    }
}

/// Whether a pending code has lapsed at `now`.
pub open spec fn code_expired(c: CodeView, now: u64) -> bool {
    code_expiry(c) < now
}

/// The block delay after the given number of failures: a fixed
/// non-decreasing ladder from one minute up to twelve hours.
pub open spec fn escalation_delay(count: u32) -> u64 {
    if count == 0 {
        0
    } else if count == 1 {
        ONE_MINUTE
    } else if count == 2 {
        (2 * ONE_MINUTE) as u64
    } else if count == 3 {
        (5 * ONE_MINUTE) as u64
    } else if count == 4 {
        (15 * ONE_MINUTE) as u64
    } else if count == 5 {
        (60 * ONE_MINUTE) as u64
    } else {
        (720 * ONE_MINUTE) as u64
    }
}

/// The block delay never shrinks as failures accumulate.
pub proof fn lemma_escalation_monotonic(c1: u32, c2: u32)
    requires
        c1 <= c2,
    ensures
        escalation_delay(c1) <= escalation_delay(c2),
{
}

/// A penalty record after one more failure at time `at`: the counter rises,
/// and the block deadline moves to `at` plus the ladder delay unless it
/// already lay further out — it never moves backwards.
pub open spec fn escalate(f: FailView, at: u64) -> FailView {
    let c: u32 = if f.count == u32::MAX {
        u32::MAX
    } else {
        (f.count + 1) as u32
    };
    let until: u64 = if at + escalation_delay(c) > u64::MAX {
        u64::MAX
    } else {
        (at + escalation_delay(c)) as u64
    };
    FailView {
        count: c,
        blocked_until: if until > f.blocked_until {
            until
        } else {
            f.blocked_until
        },
    }
}

/// Escalation only raises the counter and the block deadline.
pub proof fn lemma_escalate_monotone(f: FailView, at: u64)
    ensures
        escalate(f, at).blocked_until >= f.blocked_until,
        escalate(f, at).count >= f.count,
{
}

/// An escalation at `now` (away from the end of time) blocks for at least a
/// minute.
pub proof fn lemma_escalate_blocks(f: FailView, now: u64)
    requires
        now + ONE_MINUTE <= u64::MAX,
    ensures
        blocked_duration_of(escalate(f, now), now) matches Some(d) && d >= ONE_MINUTE,
{
    let c = escalate(f, now).count;
    lemma_escalation_monotonic(1, c);
}

/// How much longer a penalty blocks at `now`, if it still does.
pub open spec fn blocked_duration_of(f: FailView, now: u64) -> Option<u64> {
    if f.blocked_until > now {
        Some((f.blocked_until - now) as u64)
    } else {
        None
    }
}

/// The penalty record of a key, or a fresh one.
pub open spec fn fail_or_default(fails: Map<Seq<u8>, FailView>, k: Seq<u8>) -> FailView {
    if fails.contains_key(k) {
        fails[k]
    } else {
        FailView { blocked_until: 0, count: 0 }
    }
}

/// How much longer a key is blocked at `now`, if it is.
pub open spec fn blocked_of(fails: Map<Seq<u8>, FailView>, k: Seq<u8>, now: u64) -> Option<u64> {
    if fails.contains_key(k) {
        blocked_duration_of(fails[k], now)
    } else {
        None
    }
}

/// A penalty record.
pub struct FailedAttempts {
    blocked_until: TimestampMillis,
    failed_attempts: u32,
}

impl View for FailedAttempts {
    type V = FailView;

    closed spec fn view(&self) -> FailView {
        FailView { blocked_until: self.blocked_until, count: self.failed_attempts }
    }
}

impl Default for FailedAttempts {
    /// A record with no failures and no block.
    fn default() -> (r: Self)
        ensures
            r@ == (FailView { blocked_until: 0, count: 0 }),
    {
        FailedAttempts { blocked_until: 0, failed_attempts: 0 }
    }
}

impl FailedAttempts {
    /// Record one more failure at `now`.
    pub fn mark_failed_attempt(&mut self, now: TimestampMillis)
        ensures
            final(self)@ == escalate(old(self)@, now),
    {
        if self.failed_attempts < u32::MAX {
            self.failed_attempts = self.failed_attempts + 1;
        }
        let delay = escalation_delay_for(self.failed_attempts);
        let until: u64 = if now > u64::MAX - delay {
            u64::MAX
        } else {
            now + delay
        };
        if until > self.blocked_until {
            self.blocked_until = until;
        }
    }

    /// How much longer this record blocks at `now`, if it does.
    pub fn blocked_duration(&self, now: TimestampMillis) -> (r: Option<Milliseconds>)
        ensures
            r == blocked_duration_of(self@, now),
    {
        if self.blocked_until > now {
            Some(self.blocked_until - now)
        } else {
            None
        }
    }

    /// The block deadline.
    pub fn blocked_until_value(&self) -> (r: u64)
        ensures
            r == self@.blocked_until,
    {
        self.blocked_until
    }

    /// The failure counter.
    pub fn count_value(&self) -> (r: u32)
        ensures
            r == self@.count,
    {
        self.failed_attempts
    }

    /// A record rebuilt from its plain parts.
    pub fn from_parts(blocked_until: u64, failed_attempts: u32) -> (r: FailedAttempts)
        ensures
            r@ == (FailView { blocked_until, count: failed_attempts }),
    {
        FailedAttempts { blocked_until, failed_attempts }
    }
}

/// The ladder delay for a failure count.
fn escalation_delay_for(count: u32) -> (r: u64)
    ensures
        r == escalation_delay(count),
{
    if count == 0 {
        0
    } else if count == 1 {
        ONE_MINUTE
    } else if count == 2 {
        2 * ONE_MINUTE
    } else if count == 3 {
        5 * ONE_MINUTE
    } else if count == 4 {
        15 * ONE_MINUTE
    } else if count == 5 {
        60 * ONE_MINUTE
    } else {
        720 * ONE_MINUTE
    }
}

/// The penalty table, keyed by seed.
pub struct FailedAttemptsMap {
    map: Vec<(Vec<u8>, FailedAttempts)>,
}

impl View for FailedAttemptsMap {
    type V = Map<Seq<u8>, FailView>;

    closed spec fn view(&self) -> Map<Seq<u8>, FailView> {
        entries_map(self.map@)
    }
}

impl FailedAttemptsMap {
    /// Distinct keys.
    pub closed spec fn wf(&self) -> bool {
        keys_distinct(self.map@)
    }

    /// An empty table.
    pub fn new() -> (r: FailedAttemptsMap)
        ensures
            r.wf(),
            r@ == Map::<Seq<u8>, FailView>::empty(),
    {
        FailedAttemptsMap { map: Vec::new() }
    }

    /// How much longer `seed` is blocked at `now`, if it is.
    pub fn blocked_duration(&self, seed: &[u8], now: TimestampMillis) -> (r: Option<Milliseconds>)
        requires
            self.wf(),
        ensures
            r == blocked_of(self@, seed@, now),
    {
        match find_entry(&self.map, seed) {
            Some(i) => {
                proof {
                    lemma_entries_map_index(self.map@, i as int);
                }
                self.map[i].1.blocked_duration(now)
            },
            None => {
                proof {
                    lemma_entries_map_absent(self.map@, seed@);
                }
                None
            },
        }
    }

    /// Forget the penalty record of `seed`.
    pub fn remove(&mut self, seed: &[u8])
        requires
            old(self).wf(),
        ensures
            final(self).wf(),
            final(self)@ == old(self)@.remove(seed@),
    {
        match find_entry(&self.map, seed) {
            Some(i) => {
                proof {
                    lemma_entries_map_remove(self.map@, i as int);
                }
                self.map.remove(i);
            },
            None => {
                proof {
                    lemma_entries_map_absent(self.map@, seed@);
                    assert(old(self)@.remove(seed@) =~= old(self)@);
                }
            },
        }
    }

    /// Record one more failure for `seed` at `now` and return how long the
    /// key is now blocked (zero if the window has already lapsed).
    pub fn mark_failed_attempt(&mut self, seed: &[u8], now: TimestampMillis) -> (r: Milliseconds)
        requires
            old(self).wf(),
        ensures
            final(self).wf(),
            final(self)@ == old(self)@.insert(seed@, escalate(fail_or_default(old(self)@, seed@), now)),
            r == (match blocked_duration_of(escalate(fail_or_default(old(self)@, seed@), now), now) {
                Some(d) => d,
                None => 0,
            }),
    {
        match find_entry(&self.map, seed) {
            Some(i) => {
                proof {
                    lemma_entries_map_index(self.map@, i as int);
                    lemma_entries_map_remove(self.map@, i as int);
                }
                let mut entry = self.map.remove(i);
                entry.1.mark_failed_attempt(now);
                let d = match entry.1.blocked_duration(now) {
                    Some(d) => d,
                    None => 0,
                };
                proof {
                    lemma_entries_map_push(self.map@, entry);
                    assert(old(self)@.remove(seed@).insert(seed@, escalate(
                        fail_or_default(old(self)@, seed@),
                        now,
                    )) =~= old(self)@.insert(seed@, escalate(fail_or_default(old(self)@, seed@), now)));
                }
                self.map.push(entry);
                d
            },
            None => {
                proof {
                    lemma_entries_map_absent(self.map@, seed@);
                }
                let mut fresh = FailedAttempts::default();
                fresh.mark_failed_attempt(now);
                let d = match fresh.blocked_duration(now) {
                    Some(d) => d,
                    None => 0,
                };
                let entry = (crate::text::bytes_to_vec(seed), fresh);
                proof {
                    lemma_entries_map_push(self.map@, entry);
                }
                self.map.push(entry);
                d
            },
        }
    }
}

/// A penalty record as plain data, for persistence across upgrades.
pub struct FailRecord {
    pub seed: Vec<u8>,
    pub blocked_until: u64,
    pub failed_attempts: u32,
}

/// The penalty table denoted by a record sequence; later records would win,
/// exports keep keys distinct.
pub open spec fn fail_records_map(s: Seq<FailRecord>) -> Map<Seq<u8>, FailView>
    decreases s.len(),
{
    if s.len() == 0 {
        Map::empty()
    } else {
        fail_records_map(s.drop_last()).insert(
            s.last().seed@,
            FailView { blocked_until: s.last().blocked_until, count: s.last().failed_attempts },
        )
    }
}

/// Pairwise distinct record keys.
pub open spec fn fail_records_distinct(s: Seq<FailRecord>) -> bool {
    forall|i: int, j: int| 0 <= i < j < s.len() ==> s[i].seed@ != s[j].seed@
}

/// The domain of the record table is exactly the record keys.
proof fn lemma_fail_records_map_domain(s: Seq<FailRecord>, k: Seq<u8>)
    requires
        fail_records_map(s).contains_key(k),
    ensures
        exists|i: int| 0 <= i < s.len() && s[i].seed@ == k,
    decreases s.len(),
{
    if s.len() > 0 {
        if s.last().seed@ == k {
            assert(s[s.len() - 1].seed@ == k);
        } else {
            lemma_fail_records_map_domain(s.drop_last(), k);
            let i = choose|i: int| 0 <= i < s.drop_last().len() && s.drop_last()[i].seed@ == k;
            assert(s[i].seed@ == k);
        }
    }
}

impl FailedAttemptsMap {
    /// The table as plain records.
    pub fn export(&self) -> (r: Vec<FailRecord>)
        requires
            self.wf(),
        ensures
            fail_records_map(r@) == self@,
            fail_records_distinct(r@),
    {
        let mut out: Vec<FailRecord> = Vec::new();
        let mut i: usize = 0;
        while i < self.map.len()
            invariant
                self.wf(),
                i <= self.map@.len(),
                out@.len() == i,
                forall|j: int| 0 <= j < i ==> #[trigger] out@[j].seed@ == self.map@[j].0@,
                forall|j: int|
                    0 <= j < i ==> (FailView {
                        blocked_until: #[trigger] out@[j].blocked_until,
                        count: out@[j].failed_attempts,
                    }) == self.map@[j].1@,
                fail_records_map(out@) == entries_map(self.map@.take(i as int)),
            decreases self.map@.len() - i,
        {
            let ghost prev = out@;
            let entry = &self.map[i];
            let record = FailRecord {
                seed: crate::text::bytes_to_vec(entry.0.as_slice()),
                blocked_until: entry.1.blocked_until_value(),
                failed_attempts: entry.1.count_value(),
            };
            out.push(record);
            proof {
                assert(out@.drop_last() =~= prev);
                assert(fail_records_map(out@) == fail_records_map(prev).insert(
                    out@.last().seed@,
                    FailView {
                        blocked_until: out@.last().blocked_until,
                        count: out@.last().failed_attempts,
                    },
                ));
                assert(self.map@.take(i as int + 1).drop_last() =~= self.map@.take(i as int));
                assert(entries_map(self.map@.take(i as int + 1)) == entries_map(
                    self.map@.take(i as int),
                ).insert(self.map@[i as int].0@, self.map@[i as int].1@));
                assert(fail_records_map(out@) =~= entries_map(self.map@.take(i as int + 1)));
            }
            i = i + 1;
        }
        proof {
            assert(self.map@.take(self.map@.len() as int) =~= self.map@);
        }
        out
    }

    /// Rebuild a table from records, skipping any record whose key appeared
    /// before; distinct records restore the table exactly.
    pub fn import(records: &Vec<FailRecord>) -> (r: FailedAttemptsMap)
        ensures
            r.wf(),
            fail_records_distinct(records@) ==> r@ == fail_records_map(records@),
    {
        let mut map = FailedAttemptsMap::new();
        let mut i: usize = 0;
        while i < records.len()
            invariant
                map.wf(),
                i <= records@.len(),
                fail_records_distinct(records@) ==> map@ == fail_records_map(
                    records@.take(i as int),
                ),
            decreases records@.len() - i,
        {
            let record = &records[i];
            match find_entry(&map.map, record.seed.as_slice()) {
                None => {
                    let entry = (
                        crate::text::bytes_to_vec(record.seed.as_slice()),
                        FailedAttempts::from_parts(record.blocked_until, record.failed_attempts),
                    );
                    proof {
                        lemma_entries_map_push(map.map@, entry);
                    }
                    map.map.push(entry);
                },
                Some(at) => {
                    proof {
                        if fail_records_distinct(records@) {
                            lemma_entries_map_index(map.map@, at as int);
                            lemma_fail_records_map_domain(
                                records@.take(i as int),
                                records@[i as int].seed@,
                            );
                        }
                    }
                },
            }
            proof {
                if fail_records_distinct(records@) {
                    let t = records@.take(i as int + 1);
                    assert(t.drop_last() =~= records@.take(i as int));
                    assert(t.last() == records@[i as int]);
                    assert(fail_records_map(t) == fail_records_map(records@.take(i as int)).insert(
                        records@[i as int].seed@,
                        FailView {
                            blocked_until: records@[i as int].blocked_until,
                            count: records@[i as int].failed_attempts,
                        },
                    ));
                    assert(map@ =~= fail_records_map(t));
                }
            }
            i = i + 1;
        }
        proof {
            assert(records@.take(records@.len() as int) =~= records@);
        }
        map
    }
}

/// A pending challenge as plain data, for persistence across upgrades.
pub struct CodeRecord {
    pub seed: Vec<u8>,
    pub code: String,
    pub session_key: Vec<u8>,
    pub expiration: u64,
    pub created: u64,
    pub attempts: Vec<u64>,
}

/// The challenge value a record denotes.
pub open spec fn code_record_view(r: CodeRecord) -> CodeView {
    CodeView {
        code: vstd::utf8::encode_utf8(r.code@),
        delegation: DelegationView { pubkey: r.session_key@, expiration: r.expiration },
        created: r.created,
        attempts: r.attempts@,
    }
}

/// The challenge table denoted by a record sequence.
pub open spec fn code_records_map(s: Seq<CodeRecord>) -> Map<Seq<u8>, CodeView>
    decreases s.len(),
{
    if s.len() == 0 {
        Map::empty()
    } else {
        code_records_map(s.drop_last()).insert(s.last().seed@, code_record_view(s.last()))
    }
}

/// Pairwise distinct record keys.
pub open spec fn code_records_distinct(s: Seq<CodeRecord>) -> bool {
    forall|i: int, j: int| 0 <= i < j < s.len() ==> s[i].seed@ != s[j].seed@
}

/// The domain of the record table is exactly the record keys.
proof fn lemma_code_records_map_domain(s: Seq<CodeRecord>, k: Seq<u8>)
    requires
        code_records_map(s).contains_key(k),
    ensures
        exists|i: int| 0 <= i < s.len() && s[i].seed@ == k,
    decreases s.len(),
{
    if s.len() > 0 {
        if s.last().seed@ == k {
            assert(s[s.len() - 1].seed@ == k);
        } else {
            lemma_code_records_map_domain(s.drop_last(), k);
            let i = choose|i: int| 0 <= i < s.drop_last().len() && s.drop_last()[i].seed@ == k;
            assert(s[i].seed@ == k);
        }
    }
}

/// The pending codes after pruning everything expired at `now`.
pub open spec fn clear_codes(codes: Map<Seq<u8>, CodeView>, now: u64) -> Map<Seq<u8>, CodeView> {
    Map::new(
        |k: Seq<u8>| codes.contains_key(k) && !code_expired(codes[k], now),
        |k: Seq<u8>| codes[k],
    )
}

/// Whether pruning at `now` escalates the penalty of key `k`: its challenge
/// expired after at least one wrong guess.
pub open spec fn prune_escalates(codes: Map<Seq<u8>, CodeView>, k: Seq<u8>, now: u64) -> bool {
    codes.contains_key(k) && code_expired(codes[k], now) && codes[k].attempts.len() > 0
}

/// The penalty table after pruning at `now`: each abandoned-after-wrong-guess
/// challenge escalates its key's record at the moment the challenge expired.
pub open spec fn clear_fails(
    codes: Map<Seq<u8>, CodeView>,
    fails: Map<Seq<u8>, FailView>,
    now: u64,
) -> Map<Seq<u8>, FailView> {
    Map::new(
        |k: Seq<u8>| fails.contains_key(k) || prune_escalates(codes, k, now),
        |k: Seq<u8>|
            if prune_escalates(codes, k, now) {
                escalate(fail_or_default(fails, k), code_expiry(codes[k]))
            } else {
                fails[k]
            },
    )
}

/// The store of pending verification codes and penalty records.
pub struct VerificationCodes {
    codes: Vec<(Vec<u8>, VerificationCode)>,
    failed_attempts: FailedAttemptsMap,
}

impl VerificationCodes {
    /// Distinct keys in both tables.
    pub closed spec fn wf(&self) -> bool {
        keys_distinct(self.codes@) && self.failed_attempts.wf()
    }

    /// The pending codes by key.
    pub closed spec fn codes_map(&self) -> Map<Seq<u8>, CodeView> {
        entries_map(self.codes@)
    }

    /// The penalty records by key.
    pub closed spec fn fails_map(&self) -> Map<Seq<u8>, FailView> {
        self.failed_attempts@
    }

    /// An empty store.
    pub fn new() -> (r: VerificationCodes)
        ensures
            r.wf(),
            r.codes_map() == Map::<Seq<u8>, CodeView>::empty(),
            r.fails_map() == Map::<Seq<u8>, FailView>::empty(),
    {
        VerificationCodes { codes: Vec::new(), failed_attempts: FailedAttemptsMap::new() }
    }

    /// Prune expired challenges, escalating the penalty of every challenge
    /// abandoned after a wrong guess.
    fn clear_expired(&mut self, now: TimestampMillis)
        requires
            old(self).wf(),
        ensures
            final(self).wf(),
            final(self).codes_map() == clear_codes(old(self).codes_map(), now),
            final(self).fails_map() == clear_fails(
                old(self).codes_map(),
                old(self).fails_map(),
                now,
            ),
    {
        let ghost orig = self.codes@;
        let ghost orig_codes = self.codes_map();
        let ghost orig_fails = self.fails_map();
        let mut kept: Vec<(Vec<u8>, VerificationCode)> = Vec::new();
        proof {
            assert(orig_codes.remove_keys(entries_map(self.codes@).dom()) =~= Map::<
                Seq<u8>,
                CodeView,
            >::empty());
            assert(clear_fails(
                orig_codes.remove_keys(entries_map(self.codes@).dom()),
                orig_fails,
                now,
            ) =~= orig_fails);
            assert forall|i: int| 0 <= i < self.codes@.len() implies orig_codes.contains_key(
                #[trigger] self.codes@[i].0@,
            ) && orig_codes[self.codes@[i].0@] == self.codes@[i].1@ by {
                lemma_entries_map_index(orig, i);
            }
        }
        loop
            invariant
                keys_distinct(self.codes@),
                keys_distinct(kept@),
                self.failed_attempts.wf(),
                forall|i: int, j: int|
                    0 <= i < self.codes@.len() && 0 <= j < kept@.len() ==> self.codes@[i].0@
                        != kept@[j].0@,
                forall|i: int|
                    0 <= i < self.codes@.len() ==> orig_codes.contains_key(
                        #[trigger] self.codes@[i].0@,
                    ) && orig_codes[self.codes@[i].0@] == self.codes@[i].1@,
                clear_codes(orig_codes, now) == entries_map(kept@).union_prefer_right(
                    clear_codes(entries_map(self.codes@), now),
                ),
                self.failed_attempts@ == clear_fails(
                    orig_codes.remove_keys(entries_map(self.codes@).dom()),
                    orig_fails,
                    now,
                ),
            ensures
                self.codes@.len() == 0,
            decreases self.codes@.len(),
        {
            let ghost rem_pre = self.codes@;
            match self.codes.pop() {
                None => {
                    break;
                },
                Some(entry) => {
                    let ghost k = entry.0@;
                    let ghost v = entry.1@;
                    proof {
                        assert(rem_pre.drop_last() == self.codes@);
                        assert(entries_map(rem_pre) == entries_map(self.codes@).insert(k, v));
                        lemma_entries_map_absent(self.codes@, k);
                        assert(rem_pre[rem_pre.len() - 1].0@ == k);
                        assert(orig_codes.contains_key(k) && orig_codes[k] == v);
                    }
                    let expiry = entry.1.expiry();
                    if expiry < now {
                        let escalates = entry.1.attempts.len() > 0;
                        if escalates {
                            self.failed_attempts.mark_failed_attempt(entry.0.as_slice(), expiry);
                        }
                        proof {
                            let pre = orig_codes.remove_keys(entries_map(rem_pre).dom());
                            let post = orig_codes.remove_keys(entries_map(self.codes@).dom());
                            assert(entries_map(rem_pre).contains_key(k));
                            assert(clear_codes(entries_map(rem_pre), now) =~= clear_codes(
                                entries_map(self.codes@),
                                now,
                            ));
                            assert(clear_codes(orig_codes, now) =~= entries_map(
                                kept@,
                            ).union_prefer_right(clear_codes(entries_map(self.codes@), now)));
                            if escalates {
                                assert(self.failed_attempts@ =~= clear_fails(post, orig_fails, now));
                            } else {
                                assert(self.failed_attempts@ =~= clear_fails(post, orig_fails, now));
                            }
                        }
                    } else {
                        proof {
                            let pre = orig_codes.remove_keys(entries_map(rem_pre).dom());
                            let post = orig_codes.remove_keys(entries_map(self.codes@).dom());
                            lemma_entries_map_push(kept@, entry);
                            assert(clear_codes(orig_codes, now) =~= entries_map(
                                kept@.push(entry),
                            ).union_prefer_right(clear_codes(entries_map(self.codes@), now)));
                            assert(self.failed_attempts@ =~= clear_fails(post, orig_fails, now));
                        }
                        kept.push(entry);
                    }
                },
            }
        }
        proof {
            assert(entries_map(self.codes@) =~= Map::<Seq<u8>, CodeView>::empty());
            assert(clear_codes(entries_map(self.codes@), now) =~= Map::<Seq<u8>, CodeView>::empty());
            assert(clear_codes(orig_codes, now) =~= entries_map(kept@));
            assert(orig_codes.remove_keys(entries_map(self.codes@).dom()) =~= orig_codes);
        }
        self.codes = kept;
    }

    /// Store a fresh challenge for `seed`, or report the remaining block.
    ///
    /// Expired challenges are pruned first, an unconsumed prior challenge
    /// for `seed` is dropped (escalating the penalty if it had wrong
    /// guesses, so re-requesting buys no free retries), and if the key is
    /// still blocked the remaining window comes back instead of a new
    /// challenge.
    pub fn push(
        &mut self,
        seed: Hash32,
        code: String,
        delegation: Delegation,
        now: TimestampMillis,
    ) -> (r: Result<(), Milliseconds>)
        requires
            old(self).wf(),
        ensures
            final(self).wf(),
            final(self).codes_map() == push_codes(
                old(self).codes_map(),
                old(self).fails_map(),
                seed@,
                vstd::utf8::encode_utf8(code@),
                delegation@,
                now,
            ),
            final(self).fails_map() == push_fails(
                old(self).codes_map(),
                old(self).fails_map(),
                seed@,
                now,
            ),
            r == push_result(old(self).codes_map(), old(self).fails_map(), seed@, now),
            r matches Err(d) ==> d > 0,
    {
        self.clear_expired(now);
        let ghost c1 = self.codes_map();
        let ghost f1 = self.fails_map();
        match find_entry(&self.codes, seed.as_slice()) {
            Some(i) => {
                proof {
                    lemma_entries_map_index(self.codes@, i as int);
                    lemma_entries_map_remove(self.codes@, i as int);
                }
                let existing = self.codes.remove(i);
                if existing.1.attempts.len() > 0 {
                    self.failed_attempts.mark_failed_attempt(seed.as_slice(), now);
                }
            },
            None => {
                proof {
                    lemma_entries_map_absent(self.codes@, seed@);
                    assert(c1.remove(seed@) =~= c1);
                }
            },
        }
        match self.failed_attempts.blocked_duration(seed.as_slice(), now) {
            Some(d) => Err(d),
            None => {
                let entry = (
                    crate::text::bytes_to_vec(seed.as_slice()),
                    VerificationCode::new(code, delegation, now),
                );
                proof {
                    lemma_entries_map_absent(self.codes@, seed@);
                    lemma_entries_map_push(self.codes@, entry);
                }
                self.codes.push(entry);
                Ok(())
            },
        }
    }

    /// Check a guess for `seed`.
    ///
    /// Expired challenges are pruned first. With no pending challenge the
    /// guess is not found. A correct guess consumes the challenge, clears
    /// the penalty record and yields the stored delegation. A wrong guess
    /// uses up one attempt; the last wrong guess destroys the challenge,
    /// escalates the penalty and reports the new block window.
    pub fn check(&mut self, seed: Hash32, attempt: &str, now: TimestampMillis) -> (r: Result<
        Delegation,
        CheckVerificationCodeError,
    >)
        requires
            old(self).wf(),
        ensures
            final(self).wf(),
            final(self).codes_map() == check_codes(
                old(self).codes_map(),
                seed@,
                attempt.spec_bytes(),
                now,
            ),
            final(self).fails_map() == check_fails(
                old(self).codes_map(),
                old(self).fails_map(),
                seed@,
                attempt.spec_bytes(),
                now,
            ),
            ({
                match check_outcome(
                    old(self).codes_map(),
                    old(self).fails_map(),
                    seed@,
                    attempt.spec_bytes(),
                    now,
                ) {
                    CheckOutcome::NotFound => r == Err::<Delegation, CheckVerificationCodeError>(
                        CheckVerificationCodeError::NotFound,
                    ),
                    CheckOutcome::Matched(dv) => r matches Ok(d) && d@ == dv,
                    CheckOutcome::Wrong(ic) => r == Err::<Delegation, CheckVerificationCodeError>(
                        CheckVerificationCodeError::Incorrect(ic),
                    ),
                }
            }),
    {
        self.clear_expired(now);
        let ghost c1 = self.codes_map();
        let ghost f1 = self.fails_map();
        match find_entry(&self.codes, seed.as_slice()) {
            None => {
                proof {
                    lemma_entries_map_absent(self.codes@, seed@);
                }
                Err(CheckVerificationCodeError::NotFound)
            },
            Some(i) => {
                proof {
                    lemma_entries_map_index(self.codes@, i as int);
                    lemma_entries_map_remove(self.codes@, i as int);
                }
                let mut entry = self.codes.remove(i);
                let correct = crate::text::bytes_eq(
                    attempt.as_bytes(),
                    entry.1.code.as_str().as_bytes(),
                );
                if correct {
                    self.failed_attempts.remove(seed.as_slice());
                    Ok(entry.1.delegation)
                } else {
                    entry.1.attempts.push(now);
                    let n = entry.1.attempts.len();
                    if n >= MAX_CODE_ATTEMPTS as usize {
                        let d = self.failed_attempts.mark_failed_attempt(seed.as_slice(), now);
                        Err(CheckVerificationCodeError::Incorrect(IncorrectCode {
                            attempts_remaining: 0,
                            blocked_duration: Some(d),
                        }))
                    } else {
                        proof {
                            lemma_entries_map_absent(self.codes@, seed@);
                            lemma_entries_map_push(self.codes@, entry);
                            assert(c1.remove(seed@).insert(seed@, entry.1@) =~= c1.insert(
                                seed@,
                                entry.1@,
                            ));
                        }
                        let remaining = (MAX_CODE_ATTEMPTS as usize - n) as u32;
                        self.codes.push(entry);
                        Err(CheckVerificationCodeError::Incorrect(IncorrectCode {
                            attempts_remaining: remaining,
                            blocked_duration: None,
                        }))
                    }
                }
            },
        }
    }
}

impl VerificationCodes {
    /// The delegation of the pending challenge for `seed`, if one is
    /// stored.
    pub fn delegation_of(&self, seed: &Hash32) -> (r: Option<Delegation>)
        requires
            self.wf(),
        ensures
            r matches Some(d) ==> self.codes_map().contains_key(seed@)
                && self.codes_map()[seed@].delegation == d@,
            r is None ==> !self.codes_map().contains_key(seed@),
    {
        match find_entry(&self.codes, seed.as_slice()) {
            Some(i) => {
                proof {
                    lemma_entries_map_index(self.codes@, i as int);
                }
                Some(self.codes[i].1.delegation.clone())
            },
            None => {
                proof {
                    lemma_entries_map_absent(self.codes@, seed@);
                }
                None
            },
        }
    }

    /// The store as plain records: the pending challenges and the penalty
    /// table.
    pub fn export(&self) -> (r: (Vec<CodeRecord>, Vec<FailRecord>))
        requires
            self.wf(),
        ensures
            code_records_map(r.0@) == self.codes_map(),
            code_records_distinct(r.0@),
            fail_records_map(r.1@) == self.fails_map(),
            fail_records_distinct(r.1@),
    {
        let mut out: Vec<CodeRecord> = Vec::new();
        let mut i: usize = 0;
        while i < self.codes.len()
            invariant
                self.wf(),
                i <= self.codes@.len(),
                out@.len() == i,
                forall|j: int| 0 <= j < i ==> #[trigger] out@[j].seed@ == self.codes@[j].0@,
                forall|j: int|
                    0 <= j < i ==> code_record_view(#[trigger] out@[j]) == self.codes@[j].1@,
                code_records_map(out@) == entries_map(self.codes@.take(i as int)),
            decreases self.codes@.len() - i,
        {
            let ghost prev = out@;
            let entry = &self.codes[i];
            let record = CodeRecord {
                seed: crate::text::bytes_to_vec(entry.0.as_slice()),
                code: entry.1.code.clone(),
                session_key: crate::text::bytes_to_vec(entry.1.delegation.pubkey.as_slice()),
                expiration: entry.1.delegation.expiration,
                created: entry.1.created,
                attempts: crate::text::u64s_to_vec(entry.1.attempts.as_slice()),
            };
            out.push(record);
            proof {
                assert(out@.drop_last() =~= prev);
                assert(code_record_view(out@.last()) =~= self.codes@[i as int].1@);
                assert(code_records_map(out@) == code_records_map(prev).insert(
                    out@.last().seed@,
                    code_record_view(out@.last()),
                ));
                assert(self.codes@.take(i as int + 1).drop_last() =~= self.codes@.take(i as int));
                assert(entries_map(self.codes@.take(i as int + 1)) == entries_map(
                    self.codes@.take(i as int),
                ).insert(self.codes@[i as int].0@, self.codes@[i as int].1@));
                assert(code_records_map(out@) =~= entries_map(self.codes@.take(i as int + 1)));
            }
            i = i + 1;
        }
        proof {
            assert(self.codes@.take(self.codes@.len() as int) =~= self.codes@);
        }
        (out, self.failed_attempts.export())
    }

    /// Rebuild a store from records, skipping any record whose key appeared
    /// before; distinct records restore the store exactly.
    pub fn import(code_records: &Vec<CodeRecord>, fail_records: &Vec<FailRecord>) -> (r:
        VerificationCodes)
        ensures
            r.wf(),
            code_records_distinct(code_records@) ==> r.codes_map() == code_records_map(
                code_records@,
            ),
            fail_records_distinct(fail_records@) ==> r.fails_map() == fail_records_map(
                fail_records@,
            ),
    {
        let mut codes: Vec<(Vec<u8>, VerificationCode)> = Vec::new();
        let mut i: usize = 0;
        while i < code_records.len()
            invariant
                keys_distinct(codes@),
                i <= code_records@.len(),
                code_records_distinct(code_records@) ==> entries_map(codes@) == code_records_map(
                    code_records@.take(i as int),
                ),
            decreases code_records@.len() - i,
        {
            let record = &code_records[i];
            match find_entry(&codes, record.seed.as_slice()) {
                None => {
                    let entry = (
                        crate::text::bytes_to_vec(record.seed.as_slice()),
                        VerificationCode {
                            code: record.code.clone(),
                            delegation: Delegation {
                                pubkey: crate::text::bytes_to_vec(record.session_key.as_slice()),
                                expiration: record.expiration,
                            },
                            created: record.created,
                            attempts: crate::text::u64s_to_vec(record.attempts.as_slice()),
                        },
                    );
                    proof {
                        lemma_entries_map_push(codes@, entry);
                        assert(entry.1@ =~= code_record_view(code_records@[i as int]));
                    }
                    codes.push(entry);
                },
                Some(at) => {
                    proof {
                        if code_records_distinct(code_records@) {
                            lemma_entries_map_index(codes@, at as int);
                            lemma_code_records_map_domain(
                                code_records@.take(i as int),
                                code_records@[i as int].seed@,
                            );
                        }
                    }
                },
            }
            proof {
                if code_records_distinct(code_records@) {
                    let t = code_records@.take(i as int + 1);
                    assert(t.drop_last() =~= code_records@.take(i as int));
                    assert(t.last() == code_records@[i as int]);
                    assert(code_records_map(t) == code_records_map(
                        code_records@.take(i as int),
                    ).insert(
                        code_records@[i as int].seed@,
                        code_record_view(code_records@[i as int]),
                    ));
                    assert(entries_map(codes@) =~= code_records_map(t));
                }
            }
            i = i + 1;
        }
        proof {
            assert(code_records@.take(code_records@.len() as int) =~= code_records@);
        }
        VerificationCodes { codes, failed_attempts: FailedAttemptsMap::import(fail_records) }
    }
}

/// The outcome of a guess, as a mathematical value.
pub enum CheckOutcome {
    NotFound,
    Matched(DelegationView),
    Wrong(IncorrectCode),
}

/// Why a guess failed.
#[derive(PartialEq, Eq, Structural, Debug)]
pub enum CheckVerificationCodeError {
    Incorrect(IncorrectCode),
    NotFound,
}

/// The pending codes after a guess for `seed`.
pub open spec fn check_codes(
    codes: Map<Seq<u8>, CodeView>,
    seed: Seq<u8>,
    attempt: Seq<u8>,
    now: u64,
) -> Map<Seq<u8>, CodeView> {
    let c1 = clear_codes(codes, now);
    if !c1.contains_key(seed) {
        c1
    } else if attempt == c1[seed].code {
        c1.remove(seed)
    } else if c1[seed].attempts.len() + 1 >= MAX_CODE_ATTEMPTS {
        c1.remove(seed)
    } else {
        c1.insert(
            seed,
            CodeView { attempts: c1[seed].attempts.push(now), ..c1[seed] },
        )
    }
}

/// The penalty table after a guess for `seed`.
pub open spec fn check_fails(
    codes: Map<Seq<u8>, CodeView>,
    fails: Map<Seq<u8>, FailView>,
    seed: Seq<u8>,
    attempt: Seq<u8>,
    now: u64,
) -> Map<Seq<u8>, FailView> {
    let c1 = clear_codes(codes, now);
    let f1 = clear_fails(codes, fails, now);
    if !c1.contains_key(seed) {
        f1
    } else if attempt == c1[seed].code {
        f1.remove(seed)
    } else if c1[seed].attempts.len() + 1 >= MAX_CODE_ATTEMPTS {
        f1.insert(seed, escalate(fail_or_default(f1, seed), now))
    } else {
        f1
    }
}

/// What a guess for `seed` returns.
pub open spec fn check_outcome(
    codes: Map<Seq<u8>, CodeView>,
    fails: Map<Seq<u8>, FailView>,
    seed: Seq<u8>,
    attempt: Seq<u8>,
    now: u64,
) -> CheckOutcome {
    let c1 = clear_codes(codes, now);
    let f1 = clear_fails(codes, fails, now);
    if !c1.contains_key(seed) {
        CheckOutcome::NotFound
    } else if attempt == c1[seed].code {
        CheckOutcome::Matched(c1[seed].delegation)
    } else if c1[seed].attempts.len() + 1 >= MAX_CODE_ATTEMPTS {
        let f = escalate(fail_or_default(f1, seed), now);
        CheckOutcome::Wrong(
            IncorrectCode {
                attempts_remaining: 0,
                blocked_duration: Some(
                    match blocked_duration_of(f, now) {
                        Some(d) => d,
                        None => 0,
                    },
                ),
            },
        )
    } else {
        CheckOutcome::Wrong(
            IncorrectCode {
                attempts_remaining: (MAX_CODE_ATTEMPTS - (c1[seed].attempts.len() + 1)) as u32,
                blocked_duration: None,
            },
        )
    }
}

/// The pending codes after issuing for `seed`.
pub open spec fn push_codes(
    codes: Map<Seq<u8>, CodeView>,
    fails: Map<Seq<u8>, FailView>,
    seed: Seq<u8>,
    code: Seq<u8>,
    delegation: DelegationView,
    now: u64,
) -> Map<Seq<u8>, CodeView> {
    let c2 = clear_codes(codes, now).remove(seed);
    if push_blocked(codes, fails, seed, now) is Some {
        c2
    } else {
        c2.insert(
            seed,
            CodeView { code, delegation, created: now, attempts: Seq::empty() },
        )
    }
}

/// The penalty table after issuing for `seed`.
pub open spec fn push_fails(
    codes: Map<Seq<u8>, CodeView>,
    fails: Map<Seq<u8>, FailView>,
    seed: Seq<u8>,
    now: u64,
) -> Map<Seq<u8>, FailView> {
    let c1 = clear_codes(codes, now);
    let f1 = clear_fails(codes, fails, now);
    if c1.contains_key(seed) && c1[seed].attempts.len() > 0 {
        f1.insert(seed, escalate(fail_or_default(f1, seed), now))
    } else {
        f1
    }
}

/// The remaining block window that stops issuing for `seed`, if any.
pub open spec fn push_blocked(
    codes: Map<Seq<u8>, CodeView>,
    fails: Map<Seq<u8>, FailView>,
    seed: Seq<u8>,
    now: u64,
) -> Option<u64> {
    blocked_of(push_fails(codes, fails, seed, now), seed, now)
}

/// Expiry: a challenge issued at `t0` is gone one instant after its
/// deadline, and a correct guess one instant before the deadline succeeds.
pub proof fn lemma_code_expiry(
    codes: Map<Seq<u8>, CodeView>,
    fails: Map<Seq<u8>, FailView>,
    seed: Seq<u8>,
    attempt: Seq<u8>,
    t0: u64,
)
    requires
        codes.contains_key(seed),
        codes[seed].created == t0,
        t0 + VERIFICATION_CODE_TTL < u64::MAX,
    ensures
        check_outcome(codes, fails, seed, attempt, (t0 + VERIFICATION_CODE_TTL + 1) as u64)
            is NotFound,
        attempt == codes[seed].code ==> check_outcome(
            codes,
            fails,
            seed,
            attempt,
            (t0 + VERIFICATION_CODE_TTL - 1) as u64,
        ) == CheckOutcome::Matched(codes[seed].delegation),
{
}

/// A key whose challenge was just destroyed by its last wrong guess is
/// blocked, and asking for a fresh challenge right away is refused for
/// exactly the block window that the wrong guess reported.
pub proof fn lemma_block_then_generate(
    codes: Map<Seq<u8>, CodeView>,
    fails: Map<Seq<u8>, FailView>,
    seed: Seq<u8>,
    attempt: Seq<u8>,
    now: u64,
)
    requires
        check_outcome(codes, fails, seed, attempt, now) matches CheckOutcome::Wrong(ic)
            && ic.attempts_remaining == 0,
        now + ONE_MINUTE <= u64::MAX,
    ensures
        check_outcome(codes, fails, seed, attempt, now) matches CheckOutcome::Wrong(ic)
            && (ic.blocked_duration matches Some(d) && d >= ONE_MINUTE && push_result(
            check_codes(codes, seed, attempt, now),
            check_fails(codes, fails, seed, attempt, now),
            seed,
            now,
        ) == Err::<(), u64>(d)),
{
    let c1 = clear_codes(codes, now);
    let f1 = clear_fails(codes, fails, now);
    let f = escalate(fail_or_default(f1, seed), now);
    lemma_escalate_blocks(fail_or_default(f1, seed), now);
    let codes2 = check_codes(codes, seed, attempt, now);
    let fails2 = check_fails(codes, fails, seed, attempt, now);
    assert(!codes2.contains_key(seed));
    assert(fails2[seed] == f);
    assert(clear_codes(codes2, now) =~= codes2);
    assert(clear_fails(codes2, fails2, now) =~= fails2);
}

/// What issuing for `seed` returns.
pub open spec fn push_result(
    codes: Map<Seq<u8>, CodeView>,
    fails: Map<Seq<u8>, FailView>,
    seed: Seq<u8>,
    now: u64,
) -> Result<(), u64> {
    match push_blocked(codes, fails, seed, now) {
        Some(d) => Err(d),
        None => Ok(()),
    }
}

} // verus!
