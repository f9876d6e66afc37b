//! Per-seed email statistics. Observability only: nothing gates on them.

use vstd::prelude::*;

verus! {

use crate::{Hash32, TimestampMillis};
use crate::assoc::{
    entries_map, find_entry, keys_distinct, lemma_entries_map_absent, lemma_entries_map_index,
    lemma_entries_map_push, lemma_entries_map_remove,
};

/// The counters kept for one seed.
#[derive(Clone, Copy, PartialEq, Eq, Structural, Debug)]
pub struct EmailStats {
    pub first_seen: TimestampMillis,
    pub emails_sent: u32,
    pub latest_email_sent: TimestampMillis,
    pub successful_links: u32,
    pub latest_successful_link: Option<TimestampMillis>,
}

impl View for EmailStats {
    type V = EmailStats;

    open spec fn view(&self) -> EmailStats {
        *self
    }
}

/// A statistics entry as plain data, for persistence across upgrades.
pub struct StatsRecord {
    pub seed: Vec<u8>,
    pub stats: EmailStats,
}

/// The table denoted by a record sequence.
pub open spec fn stats_records_map(s: Seq<StatsRecord>) -> Map<Seq<u8>, EmailStats>
    decreases s.len(),
{
    if s.len() == 0 {
        Map::empty()
    } else {
        stats_records_map(s.drop_last()).insert(s.last().seed@, s.last().stats)
    }
}

/// Pairwise distinct record keys.
pub open spec fn stats_records_distinct(s: Seq<StatsRecord>) -> bool {
    forall|i: int, j: int| 0 <= i < j < s.len() ==> s[i].seed@ != s[j].seed@
}

/// The domain of the record table is exactly the record keys.
proof fn lemma_stats_records_map_domain(s: Seq<StatsRecord>, k: Seq<u8>)
    requires
        stats_records_map(s).contains_key(k),
    ensures
        exists|i: int| 0 <= i < s.len() && s[i].seed@ == k,
    decreases s.len(),
{
    if s.len() > 0 {
        if s.last().seed@ == k {
            assert(s[s.len() - 1].seed@ == k);
        } else {
            lemma_stats_records_map_domain(s.drop_last(), k);
            let i = choose|i: int| 0 <= i < s.drop_last().len() && s.drop_last()[i].seed@ == k;
            assert(s[i].seed@ == k);
        }
    }
}

/// The statistics of a seed after one more email at `now`.
pub open spec fn record_sent(stats: Map<Seq<u8>, EmailStats>, k: Seq<u8>, now: u64) -> Map<
    Seq<u8>,
    EmailStats,
> {
    if stats.contains_key(k) {
        let s = stats[k];
        stats.insert(
            k,
            EmailStats {
                emails_sent: if s.emails_sent == u32::MAX {
                    u32::MAX
                } else {
                    (s.emails_sent + 1) as u32
                },
                latest_email_sent: now,
                ..s
            },
        )
    } else {
        stats.insert(
            k,
            EmailStats {
                first_seen: now,
                emails_sent: 1,
                latest_email_sent: now,
                successful_links: 0,
                latest_successful_link: None,
            },
        )
    }
}

/// The statistics table, keyed by seed.
pub struct EmailStatsMap {
    map: Vec<(Vec<u8>, EmailStats)>,
}

impl View for EmailStatsMap {
    type V = Map<Seq<u8>, EmailStats>;

    closed spec fn view(&self) -> Map<Seq<u8>, EmailStats> {
        entries_map(self.map@)
    }
}

impl EmailStatsMap {
    /// Distinct keys.
    pub closed spec fn wf(&self) -> bool {
        keys_distinct(self.map@)
    }

    /// An empty table.
    pub fn new() -> (r: EmailStatsMap)
        ensures
            r.wf(),
            r@ == Map::<Seq<u8>, EmailStats>::empty(),
    {
        EmailStatsMap { map: Vec::new() }
    }

    /// Count one more email sent for `seed` at `now`.
    pub fn record_email_sent(&mut self, seed: Hash32, now: TimestampMillis)
        requires
            old(self).wf(),
        ensures
            final(self).wf(),
            final(self)@ == record_sent(old(self)@, seed@, now),
    {
        match find_entry(&self.map, seed.as_slice()) {
            Some(i) => {
                proof {
                    lemma_entries_map_index(self.map@, i as int);
                    lemma_entries_map_remove(self.map@, i as int);
                }
                let mut entry = self.map.remove(i);
                if entry.1.emails_sent < u32::MAX {
                    entry.1.emails_sent = entry.1.emails_sent + 1;
                }
                entry.1.latest_email_sent = now;
                proof {
                    lemma_entries_map_absent(self.map@, seed@);
                    lemma_entries_map_push(self.map@, entry);
                    assert(old(self)@.remove(seed@).insert(seed@, entry.1) =~= record_sent(
                        old(self)@,
                        seed@,
                        now,
                    ));
                }
                self.map.push(entry);
            },
            None => {
                proof {
                    lemma_entries_map_absent(self.map@, seed@);
                }
                let entry = (
                    crate::text::bytes_to_vec(seed.as_slice()),
                    EmailStats {
                        first_seen: now,
                        emails_sent: 1,
                        latest_email_sent: now,
                        successful_links: 0,
                        latest_successful_link: None,
                    },
                );
                proof {
                    lemma_entries_map_push(self.map@, entry);
                }
                self.map.push(entry);
            },
        }
    }

    /// The table as plain records.
    pub fn export(&self) -> (r: Vec<StatsRecord>)
        requires
            self.wf(),
        ensures
            stats_records_map(r@) == self@,
            stats_records_distinct(r@),
    {
        let mut out: Vec<StatsRecord> = Vec::new();
        let mut i: usize = 0;
        while i < self.map.len()
            invariant
                self.wf(),
                i <= self.map@.len(),
                out@.len() == i,
                forall|j: int| 0 <= j < i ==> #[trigger] out@[j].seed@ == self.map@[j].0@,
                forall|j: int| 0 <= j < i ==> #[trigger] out@[j].stats == self.map@[j].1,
                stats_records_map(out@) == entries_map(self.map@.take(i as int)),
            decreases self.map@.len() - i,
        {
            let ghost prev = out@;
            let entry = &self.map[i];
            out.push(StatsRecord {
                seed: crate::text::bytes_to_vec(entry.0.as_slice()),
                stats: entry.1,
            });
            proof {
                assert(out@.drop_last() =~= prev);
                assert(stats_records_map(out@) == stats_records_map(prev).insert(
                    out@.last().seed@,
                    out@.last().stats,
                ));
                assert(self.map@.take(i as int + 1).drop_last() =~= self.map@.take(i as int));
                assert(entries_map(self.map@.take(i as int + 1)) == entries_map(
                    self.map@.take(i as int),
                ).insert(self.map@[i as int].0@, self.map@[i as int].1@));
                assert(stats_records_map(out@) =~= entries_map(self.map@.take(i as int + 1)));
            }
            i = i + 1;
        }
        proof {
            assert(self.map@.take(self.map@.len() as int) =~= self.map@);
        }
        out
    }

    /// Rebuild a table from records, skipping any record whose key appeared
    /// before; distinct records restore the table exactly.
    pub fn import(records: &Vec<StatsRecord>) -> (r: EmailStatsMap)
        ensures
            r.wf(),
            stats_records_distinct(records@) ==> r@ == stats_records_map(records@),
    {
        let mut map: Vec<(Vec<u8>, EmailStats)> = Vec::new();
        let mut i: usize = 0;
        while i < records.len()
            invariant
                keys_distinct(map@),
                i <= records@.len(),
                stats_records_distinct(records@) ==> entries_map(map@) == stats_records_map(
                    records@.take(i as int),
                ),
            decreases records@.len() - i,
        {
            let record = &records[i];
            match find_entry(&map, record.seed.as_slice()) {
                None => {
                    let entry = (crate::text::bytes_to_vec(record.seed.as_slice()), record.stats);
                    proof {
                        lemma_entries_map_push(map@, entry);
                    }
                    map.push(entry);
                },
                Some(at) => {
                    proof {
                        if stats_records_distinct(records@) {
                            lemma_entries_map_index(map@, at as int);
                            lemma_stats_records_map_domain(
                                records@.take(i as int),
                                records@[i as int].seed@,
                            );
                        }
                    }
                },
            }
            proof {
                if stats_records_distinct(records@) {
                    let t = records@.take(i as int + 1);
                    assert(t.drop_last() =~= records@.take(i as int));
                    assert(t.last() == records@[i as int]);
                    assert(stats_records_map(t) == stats_records_map(
                        records@.take(i as int),
                    ).insert(records@[i as int].seed@, records@[i as int].stats));
                    assert(entries_map(map@) =~= stats_records_map(t));
                }
            }
            i = i + 1;
        }
        proof {
            assert(records@.take(records@.len() as int) =~= records@);
        }
        EmailStatsMap { map }
    }

    /// The statistics of a seed, if any were recorded.
    pub fn get(&self, seed: Hash32) -> (r: Option<EmailStats>)
        requires
            self.wf(),
        ensures
            r == (if self@.contains_key(seed@) {
                Some(self@[seed@])
            } else {
                None::<EmailStats>
            }),
    {
        match find_entry(&self.map, seed.as_slice()) {
            Some(i) => {
                proof {
                    lemma_entries_map_index(self.map@, i as int);
                }
                Some(self.map[i].1)
            },
            None => {
                proof {
                    lemma_entries_map_absent(self.map@, seed@);
                }
                None
            },
        }
    }
}

} // verus!
