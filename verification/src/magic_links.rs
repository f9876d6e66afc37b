//! The in-flight magic-link index: which `(seed, message-hash)` delegations
//! are pending, and until when. Pruned of everything past its expiration on
//! every mutating access.

use vstd::prelude::*;

verus! {

use crate::{Hash32, TimestampMillis};
use crate::assoc::{
    entries_map, find_entry, keys_distinct, lemma_entries_map_absent, lemma_entries_map_index,
    lemma_entries_map_push, lemma_entries_map_remove,
};

/// The index key of a pending delegation: seed and message hash, each 32
/// bytes, concatenated.
pub open spec fn pair_key(seed: Seq<u8>, msg_hash: Seq<u8>) -> Seq<u8> {
    seed + msg_hash
}

/// Build the index key of a pending delegation.
pub fn make_pair_key(seed: &Hash32, msg_hash: &Hash32) -> (r: Vec<u8>)
    ensures
        r@ == pair_key(seed@, msg_hash@),
{
    let mut key: Vec<u8> = Vec::new();
    crate::hashing::extend_bytes(&mut key, seed.as_slice());
    crate::hashing::extend_bytes(&mut key, msg_hash.as_slice());
    key
}

/// An in-flight entry as plain data, for persistence across upgrades.
pub struct LinkRecord {
    pub key: Vec<u8>,
    pub expiration: u64,
}

/// The index denoted by a record sequence.
pub open spec fn link_records_map(s: Seq<LinkRecord>) -> Map<Seq<u8>, u64>
    decreases s.len(),
{
    if s.len() == 0 {
        Map::empty()
    } else {
        link_records_map(s.drop_last()).insert(s.last().key@, s.last().expiration)
    }
}

/// Pairwise distinct record keys.
pub open spec fn link_records_distinct(s: Seq<LinkRecord>) -> bool {
    forall|i: int, j: int| 0 <= i < j < s.len() ==> s[i].key@ != s[j].key@
}

/// The domain of the record table is exactly the record keys.
proof fn lemma_link_records_map_domain(s: Seq<LinkRecord>, k: Seq<u8>)
    requires
        link_records_map(s).contains_key(k),
    ensures
        exists|i: int| 0 <= i < s.len() && s[i].key@ == k,
    decreases s.len(),
{
    if s.len() > 0 {
        if s.last().key@ == k {
            assert(s[s.len() - 1].key@ == k);
        } else {
            lemma_link_records_map_domain(s.drop_last(), k);
            let i = choose|i: int| 0 <= i < s.drop_last().len() && s.drop_last()[i].key@ == k;
            assert(s[i].key@ == k);
        }
    }
}

/// An expiration table pruned of everything at or before `now`.
pub open spec fn prune_map(m: Map<Seq<u8>, u64>, now: u64) -> Map<Seq<u8>, u64> {
    Map::new(|k: Seq<u8>| m.contains_key(k) && m[k] > now, |k: Seq<u8>| m[k])
}

/// The in-flight magic links by `(seed, message-hash)`, each with the
/// delegation's expiration.
pub struct MagicLinks {
    in_flight: Vec<(Vec<u8>, TimestampMillis)>,
}

impl View for MagicLinks {
    type V = Map<Seq<u8>, u64>;

    closed spec fn view(&self) -> Map<Seq<u8>, u64> {
        entries_map(self.in_flight@)
    }
}

impl MagicLinks {
    /// Distinct keys.
    pub closed spec fn wf(&self) -> bool {
        keys_distinct(self.in_flight@)
    }

    /// An empty index.
    pub fn new() -> (r: MagicLinks)
        ensures
            r.wf(),
            r@ == Map::<Seq<u8>, u64>::empty(),
    {
        MagicLinks { in_flight: Vec::new() }
    }

    /// Record a pending delegation, pruning lapsed entries first.
    pub fn push(
        &mut self,
        seed: Hash32,
        msg_hash: Hash32,
        expiration: TimestampMillis,
        now: TimestampMillis,
    )
        requires
            old(self).wf(),
        ensures
            final(self).wf(),
            final(self)@ == prune_map(old(self)@, now).insert(pair_key(seed@, msg_hash@), expiration),
    {
        self.prune(now);
        let key = make_pair_key(&seed, &msg_hash);
        let ghost pruned = self@;
        match find_entry(&self.in_flight, key.as_slice()) {
            Some(i) => {
                proof {
                    lemma_entries_map_remove(self.in_flight@, i as int);
                }
                self.in_flight.remove(i);
                proof {
                    lemma_entries_map_absent(self.in_flight@, key@);
                    lemma_entries_map_push(self.in_flight@, (key, expiration));
                    assert(pruned.remove(key@).insert(key@, expiration) =~= pruned.insert(
                        key@,
                        expiration,
                    ));
                }
            },
            None => {
                proof {
                    lemma_entries_map_push(self.in_flight@, (key, expiration));
                }
            },
        }
        self.in_flight.push((key, expiration));
    }

    /// The expiration of a still-pending delegation, if it is in flight at
    /// `now`.
    pub fn get(&self, seed: Hash32, msg_hash: Hash32, now: TimestampMillis) -> (r: Option<
        TimestampMillis,
    >)
        requires
            self.wf(),
        ensures
            r == (if self@.contains_key(pair_key(seed@, msg_hash@)) && self@[pair_key(
                seed@,
                msg_hash@,
            )] > now {
                Some(self@[pair_key(seed@, msg_hash@)])
            } else {
                None::<u64>
            }),
    {
        let key = make_pair_key(&seed, &msg_hash);
        match find_entry(&self.in_flight, key.as_slice()) {
            Some(i) => {
                proof {
                    lemma_entries_map_index(self.in_flight@, i as int);
                }
                let expiration = self.in_flight[i].1;
                if expiration > now {
                    Some(expiration)
                } else {
                    None
                }
            },
            None => {
                proof {
                    lemma_entries_map_absent(self.in_flight@, key@);
                }
                None
            },
        }
    }

    /// The index as plain records.
    pub fn export(&self) -> (r: Vec<LinkRecord>)
        requires
            self.wf(),
        ensures
            link_records_map(r@) == self@,
            link_records_distinct(r@),
    {
        let mut out: Vec<LinkRecord> = Vec::new();
        let mut i: usize = 0;
        while i < self.in_flight.len()
            invariant
                self.wf(),
                i <= self.in_flight@.len(),
                out@.len() == i,
                forall|j: int| 0 <= j < i ==> #[trigger] out@[j].key@ == self.in_flight@[j].0@,
                forall|j: int|
                    0 <= j < i ==> #[trigger] out@[j].expiration == self.in_flight@[j].1,
                link_records_map(out@) == entries_map(self.in_flight@.take(i as int)),
            decreases self.in_flight@.len() - i,
        {
            let ghost prev = out@;
            let entry = &self.in_flight[i];
            out.push(LinkRecord {
                key: crate::text::bytes_to_vec(entry.0.as_slice()),
                expiration: entry.1,
            });
            proof {
                assert(out@.drop_last() =~= prev);
                assert(link_records_map(out@) == link_records_map(prev).insert(
                    out@.last().key@,
                    out@.last().expiration,
                ));
                assert(self.in_flight@.take(i as int + 1).drop_last() =~= self.in_flight@.take(
                    i as int,
                ));
                assert(entries_map(self.in_flight@.take(i as int + 1)) == entries_map(
                    self.in_flight@.take(i as int),
                ).insert(self.in_flight@[i as int].0@, self.in_flight@[i as int].1));
                assert(link_records_map(out@) =~= entries_map(self.in_flight@.take(i as int + 1)));
            }
            i = i + 1;
        }
        proof {
            assert(self.in_flight@.take(self.in_flight@.len() as int) =~= self.in_flight@);
        }
        out
    }

    /// Rebuild an index from records, skipping any record whose key
    /// appeared before; distinct records restore the index exactly.
    pub fn import(records: &Vec<LinkRecord>) -> (r: MagicLinks)
        ensures
            r.wf(),
            link_records_distinct(records@) ==> r@ == link_records_map(records@),
    {
        let mut in_flight: Vec<(Vec<u8>, TimestampMillis)> = Vec::new();
        let mut i: usize = 0;
        while i < records.len()
            invariant
                keys_distinct(in_flight@),
                i <= records@.len(),
                link_records_distinct(records@) ==> entries_map(in_flight@) == link_records_map(
                    records@.take(i as int),
                ),
            decreases records@.len() - i,
        {
            let record = &records[i];
            match find_entry(&in_flight, record.key.as_slice()) {
                None => {
                    let entry = (
                        crate::text::bytes_to_vec(record.key.as_slice()),
                        record.expiration,
                    );
                    proof {
                        lemma_entries_map_push(in_flight@, entry);
                    }
                    in_flight.push(entry);
                },
                Some(at) => {
                    proof {
                        if link_records_distinct(records@) {
                            lemma_entries_map_index(in_flight@, at as int);
                            lemma_link_records_map_domain(
                                records@.take(i as int),
                                records@[i as int].key@,
                            );
                        }
                    }
                },
            }
            proof {
                if link_records_distinct(records@) {
                    let t = records@.take(i as int + 1);
                    assert(t.drop_last() =~= records@.take(i as int));
                    assert(t.last() == records@[i as int]);
                    assert(link_records_map(t) == link_records_map(records@.take(i as int)).insert(
                        records@[i as int].key@,
                        records@[i as int].expiration,
                    ));
                    assert(entries_map(in_flight@) =~= link_records_map(t));
                }
            }
            i = i + 1;
        }
        proof {
            assert(records@.take(records@.len() as int) =~= records@);
        }
        MagicLinks { in_flight }
    }

    /// Drop every entry whose expiration is at or before `now`.
    fn prune(&mut self, now: TimestampMillis)
        requires
            old(self).wf(),
        ensures
            final(self).wf(),
            final(self)@ == prune_map(old(self)@, now),
    {
        let ghost orig = self.in_flight@;
        let ghost orig_map = self@;
        let mut kept: Vec<(Vec<u8>, TimestampMillis)> = Vec::new();
        loop
            invariant
                keys_distinct(self.in_flight@),
                keys_distinct(kept@),
                forall|i: int, j: int|
                    0 <= i < self.in_flight@.len() && 0 <= j < kept@.len()
                        ==> self.in_flight@[i].0@ != kept@[j].0@,
                prune_map(orig_map, now) == entries_map(kept@).union_prefer_right(
                    prune_map(entries_map(self.in_flight@), now),
                ),
            ensures
                self.in_flight@.len() == 0,
            decreases self.in_flight@.len(),
        {
            let ghost rem_pre = self.in_flight@;
            match self.in_flight.pop() {
                None => {
                    break;
                },
                Some(entry) => {
                    proof {
                        assert(entries_map(rem_pre) == entries_map(self.in_flight@).insert(
                            entry.0@,
                            entry.1,
                        ));
                        lemma_entries_map_absent(self.in_flight@, entry.0@);
                    }
                    if entry.1 > now {
                        proof {
                            lemma_entries_map_push(kept@, entry);
                            assert(prune_map(orig_map, now) =~= entries_map(
                                kept@.push(entry),
                            ).union_prefer_right(prune_map(entries_map(self.in_flight@), now)));
                        }
                        kept.push(entry);
                    } else {
                        proof {
                            assert(prune_map(orig_map, now) =~= entries_map(
                                kept@,
                            ).union_prefer_right(prune_map(entries_map(self.in_flight@), now)));
                        }
                    }
                },
            }
        }
        proof {
            assert(entries_map(self.in_flight@) =~= Map::<Seq<u8>, u64>::empty());
            assert(prune_map(orig_map, now) =~= entries_map(kept@));
        }
        self.in_flight = kept;
    }
}

} // verus!
