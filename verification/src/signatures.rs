//! The committed-signature store of the delegation signer.
//!
//! "Signing" a delegation means committing the pair `(seed, message-hash)`
//! here; the host-facing certified hash tree is derived from this record by
//! the runtime shell, and its root hash must be republished after every
//! mutation. Entries lapse after a short window, mirroring the certified
//! tree's pruning.

use vstd::prelude::*;

verus! {

use crate::{Hash32, Milliseconds, TimestampMillis};
use crate::assoc::{
    entries_map, find_entry, keys_distinct, lemma_entries_map_absent, lemma_entries_map_index,
    lemma_entries_map_push, lemma_entries_map_remove,
};
use crate::magic_links::{pair_key, make_pair_key, prune_map};

/// How long a committed signature stays retrievable, in milliseconds.
pub const SIGNATURE_EXPIRATION: Milliseconds = 60 * 1000;

/// The committed signatures by `(seed, message-hash)`, each with the time
/// until which it is kept.
pub struct SignatureStore {
    sigs: Vec<(Vec<u8>, TimestampMillis)>,
}

impl View for SignatureStore {
    type V = Map<Seq<u8>, u64>;

    closed spec fn view(&self) -> Map<Seq<u8>, u64> {
        entries_map(self.sigs@)
    }
}

/// The retention deadline of a signature committed at `now`.
pub open spec fn signature_expiry(now: u64) -> u64 {
    if now + SIGNATURE_EXPIRATION > u64::MAX {
        u64::MAX
    } else {
        (now + SIGNATURE_EXPIRATION) as u64
    }
}

impl SignatureStore {
    /// Distinct keys.
    pub closed spec fn wf(&self) -> bool {
        keys_distinct(self.sigs@)
    }

    /// An empty store.
    pub fn new() -> (r: SignatureStore)
        ensures
            r.wf(),
            r@ == Map::<Seq<u8>, u64>::empty(),
    {
        SignatureStore { sigs: Vec::new() }
    }

    /// Commit a signature for `(seed, msg_hash)` at `now`, pruning lapsed
    /// entries first.
    pub fn add(&mut self, seed: Hash32, msg_hash: Hash32, now: TimestampMillis)
        requires
            old(self).wf(),
        ensures
            final(self).wf(),
            final(self)@ == prune_map(old(self)@, now).insert(
                pair_key(seed@, msg_hash@),
                signature_expiry(now),
            ),
            final(self)@.contains_key(pair_key(seed@, msg_hash@)),
    {
        self.prune(now);
        let key = make_pair_key(&seed, &msg_hash);
        let expires_at = if now > u64::MAX - SIGNATURE_EXPIRATION {
            u64::MAX
        } else {
            now + SIGNATURE_EXPIRATION
        };
        let ghost pruned = self@;
        match find_entry(&self.sigs, key.as_slice()) {
            Some(i) => {
                proof {
                    lemma_entries_map_remove(self.sigs@, i as int);
                }
                self.sigs.remove(i);
                proof {
                    lemma_entries_map_absent(self.sigs@, key@);
                    lemma_entries_map_push(self.sigs@, (key, expires_at));
                    assert(pruned.remove(key@).insert(key@, expires_at) =~= pruned.insert(
                        key@,
                        expires_at,
                    ));
                }
            },
            None => {
                proof {
                    lemma_entries_map_push(self.sigs@, (key, expires_at));
                }
            },
        }
        self.sigs.push((key, expires_at));
    }

    /// Whether a signature for `(seed, msg_hash)` is committed.
    pub fn contains(&self, seed: Hash32, msg_hash: Hash32) -> (r: bool)
        requires
            self.wf(),
        ensures
            r == self@.contains_key(pair_key(seed@, msg_hash@)),
    {
        let key = make_pair_key(&seed, &msg_hash);
        match find_entry(&self.sigs, key.as_slice()) {
            Some(i) => {
                proof {
                    lemma_entries_map_index(self.sigs@, i as int);
                }
                true
            },
            None => {
                proof {
                    lemma_entries_map_absent(self.sigs@, key@);
                }
                false
            },
        }
    }

    /// Drop every entry whose retention deadline is at or before `now`.
    fn prune(&mut self, now: TimestampMillis)
        requires
            old(self).wf(),
        ensures
            final(self).wf(),
            final(self)@ == prune_map(old(self)@, now),
    {
        let ghost orig_map = self@;
        let mut kept: Vec<(Vec<u8>, TimestampMillis)> = Vec::new();
        loop
            invariant
                keys_distinct(self.sigs@),
                keys_distinct(kept@),
                forall|i: int, j: int|
                    0 <= i < self.sigs@.len() && 0 <= j < kept@.len() ==> self.sigs@[i].0@
                        != kept@[j].0@,
                prune_map(orig_map, now) == entries_map(kept@).union_prefer_right(
                    prune_map(entries_map(self.sigs@), now),
                ),
            ensures
                self.sigs@.len() == 0,
            decreases self.sigs@.len(),
        {
            let ghost rem_pre = self.sigs@;
            match self.sigs.pop() {
                None => {
                    break;
                },
                Some(entry) => {
                    proof {
                        assert(entries_map(rem_pre) == entries_map(self.sigs@).insert(
                            entry.0@,
                            entry.1,
                        ));
                        lemma_entries_map_absent(self.sigs@, entry.0@);
                    }
                    if entry.1 > now {
                        proof {
                            lemma_entries_map_push(kept@, entry);
                            assert(prune_map(orig_map, now) =~= entries_map(
                                kept@.push(entry),
                            ).union_prefer_right(prune_map(entries_map(self.sigs@), now)));
                        }
                        kept.push(entry);
                    } else {
                        proof {
                            assert(prune_map(orig_map, now) =~= entries_map(
                                kept@,
                            ).union_prefer_right(prune_map(entries_map(self.sigs@), now)));
                        }
                    }
                },
            }
        }
        proof {
            assert(entries_map(self.sigs@) =~= Map::<Seq<u8>, u64>::empty());
            assert(prune_map(orig_map, now) =~= entries_map(kept@));
        }
        self.sigs = kept;
    }
}

} // verus!
