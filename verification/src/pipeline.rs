//! The hashing pipeline's aggregation state and write plan.
//!
//! While a run walks the file set, every successfully hashed file is
//! recorded here: its `(digest, path)` record is buffered, its size and the
//! per-shard occurrence counts are aggregated. After the walk, the buffered
//! records become a write plan — one shard-routed output line per record —
//! and a report of the run's totals.

use crate::records::format_record_line;
use crate::records::record_line_spec;
use crate::records::recs_view;
use crate::records::SpecRecord;
use crate::shard::hex_val;
use crate::shard::hex_val_spec;
use crate::shard::is_digest;
use crate::shard::shard_file_name_spec;
use crate::shard::shard_key;
use crate::shard::shard_key_of;
use crate::shard::lemma_shard_file_name_injective;
use crate::shard::ShardRouter;
use vstd::prelude::*;

verus! {

/// The shard a run's `i`-th record is routed to: derived from its digest
/// alone, never from the run suffix.
pub open spec fn planned_shard(recs: Seq<SpecRecord>, i: int) -> char {
    shard_key_of(recs[i].0)
}

/// The output line written for a run's `i`-th record: `digest,path\n`,
/// derived from the record alone, never from the run suffix.
pub open spec fn planned_line(recs: Seq<SpecRecord>, i: int) -> Seq<char> {
    record_line_spec(recs[i].0, recs[i].1) + seq!['\n']
}

/// Whether the `i`-th record is the first one routed to its shard, the
/// moment at which the shard's file is opened.
pub open spec fn first_use_of_shard(recs: Seq<SpecRecord>, i: int) -> bool {
    forall|j: int| 0 <= j < i ==> shard_key_of(recs[j].0) != shard_key_of(recs[i].0)
}

/// How many of a run's records are routed to the shard with hexadecimal
/// value `k`.
pub open spec fn shard_count_of(recs: Seq<SpecRecord>, k: int) -> nat
    decreases recs.len(),
{
    if recs.len() == 0 {
        0
    } else {
        shard_count_of(recs.drop_last(), k) + if hex_val_spec(shard_key_of(recs.last().0)) == k {
            1nat
        } else {
            0nat
        }
    }
}

/// A shard never counts more records than the run holds.
pub proof fn lemma_shard_count_le_len(recs: Seq<SpecRecord>, k: int)
    ensures
        shard_count_of(recs, k) <= recs.len(),
    decreases recs.len(),
{
    if recs.len() > 0 {
        lemma_shard_count_le_len(recs.drop_last(), k);
    }
}

/// One entry of a run's write plan: the line to append for one record, the
/// shard it goes to, and — on the shard's first use only — the name of the
/// shard file to open.
pub struct ShardWrite {
    /// The shard key the line is routed to.
    pub shard: char,
    /// `Some(file_name)` exactly when this write is the first to its shard,
    /// so the store must open (creating if absent) that file first.
    pub open_file: Option<String>,
    /// The fully formatted output line, trailing terminator included.
    pub line: String,
}

/// A run's aggregate totals, for the throughput report. Elapsed time and
/// derived rates are the caller's concern; the run exposes the counters.
pub struct RunReport {
    /// How many files were hashed and recorded.
    pub total_files: u64,
    /// How many bytes the recorded files held in all.
    pub total_bytes: u64,
    /// How many records each of the sixteen shards received, indexed by the
    /// shard key's hexadecimal value.
    pub shard_counts: Vec<u64>,
}

/// One hashing run's aggregation state: the buffered records and the
/// running totals.
pub struct HashRun {
    suffix: String,
    records: Vec<(String, String)>,
    shard_counts: Vec<u64>,
    total_bytes: u64,
    total_files: u64,
}

impl HashRun {
    /// The records buffered so far, in recording order.
    pub closed spec fn records_view(&self) -> Seq<SpecRecord> {
        recs_view(self.records@)
    }

    /// The run suffix that tags this run's shard files.
    pub closed spec fn suffix_spec(&self) -> Seq<char> {
        self.suffix@
    }

    /// The byte sizes recorded so far, in sum.
    pub closed spec fn total_bytes_spec(&self) -> u64 {
        self.total_bytes
    }

    /// The run's bookkeeping is consistent: every buffered digest is a
    /// digest, the file counter equals the number of buffered records, and
    /// each of the sixteen shard counters equals the number of records
    /// routed to its shard.
    pub closed spec fn wf(&self) -> bool {
        &&& self.shard_counts@.len() == 16
        &&& self.total_files == self.records@.len()
        &&& (forall|i: int|
            0 <= i < self.records_view().len() ==> is_digest(#[trigger] self.records_view()[i].0))
        &&& (forall|k: int|
            0 <= k < 16 ==> self.shard_counts@[k] == shard_count_of(self.records_view(), k))
    }

    /// A fresh run with the given suffix: nothing recorded, all totals
    /// zero.
    pub fn new(suffix: String) -> (r: HashRun)
        ensures
            r.wf(),
            r.suffix_spec() == suffix@,
            r.records_view() == Seq::<SpecRecord>::empty(),
            r.total_bytes_spec() == 0,
    {
        let mut shard_counts: Vec<u64> = Vec::new();
        let mut k: usize = 0;
        while k < 16
            invariant
                k <= 16,
                shard_counts@.len() == k,
                forall|j: int| 0 <= j < k ==> shard_counts@[j] == 0,
            decreases 16 - k,
        {
            shard_counts.push(0);
            k = k + 1;
        }
        let r = HashRun {
            suffix,
            records: Vec::new(),
            shard_counts,
            total_bytes: 0,
            total_files: 0,
        };
        proof {
            assert(r.records_view() =~= Seq::<SpecRecord>::empty());
        }
        r
    }

    /// Records one hashed file: buffers its `(digest, path)` record, adds
    /// its size to the byte total, and counts it against the digest's
    /// shard.
    pub fn record_file(&mut self, digest: String, path: String, size: u64)
        requires
            old(self).wf(),
            is_digest(digest@),
            old(self).total_bytes_spec() + size <= u64::MAX,
            old(self).records_view().len() < u64::MAX,
        ensures
            final(self).wf(),
            final(self).suffix_spec() == old(self).suffix_spec(),
            final(self).records_view() == old(self).records_view().push((digest@, path@)),
            final(self).total_bytes_spec() == old(self).total_bytes_spec() + size,
    {
        let ghost dv = digest@;
        let ghost pv = path@;
        let ghost prev = self.records_view();
        let key = shard_key(digest.as_str());
        let k = hex_val(key);
        proof {
            lemma_shard_count_le_len(prev, k as int);
            assert(recs_view(self.records@).len() == self.records@.len());
        }
        self.records.push((digest, path));
        proof {
            assert(self.records@[self.records@.len() - 1].0@ == dv);
            assert(self.records@[self.records@.len() - 1].1@ == pv);
            assert(self.records_view() =~= prev.push((dv, pv)));
            assert(self.records_view().drop_last() =~= prev);
            assert(self.records_view().last() == (dv, pv));
        }
        let c = self.shard_counts[k];
        self.shard_counts[k] = c + 1;
        self.total_bytes = self.total_bytes + size;
        self.total_files = self.total_files + 1;
        proof {
            assert forall|j: int| 0 <= j < 16 implies self.shard_counts@[j] == shard_count_of(
                self.records_view(),
                j,
            ) by {
                assert(shard_count_of(self.records_view(), j) == shard_count_of(prev, j)
                    + if hex_val_spec(shard_key_of(dv)) == j {
                    1nat
                } else {
                    0nat
                });
            }
        }
    }

    /// The run's write plan: one entry per buffered record, in recording
    /// order. Each entry carries the record's shard key and output line —
    /// both functions of the records alone — and, exactly on a shard's
    /// first use, the name of the shard file to open, which alone carries
    /// the run suffix.
    pub fn plan_writes(&self) -> (plan: Vec<ShardWrite>)
        requires
            self.wf(),
        ensures
            plan@.len() == self.records_view().len(),
            forall|i: int|
                0 <= i < plan@.len() ==> (#[trigger] plan@[i]).shard == planned_shard(
                    self.records_view(),
                    i,
                ),
            forall|i: int|
                0 <= i < plan@.len() ==> (#[trigger] plan@[i]).line@ == planned_line(
                    self.records_view(),
                    i,
                ),
            forall|i: int|
                0 <= i < plan@.len() ==> ((#[trigger] plan@[i]).open_file is Some
                    <==> first_use_of_shard(self.records_view(), i)),
            forall|i: int|
                0 <= i < plan@.len() ==> ((#[trigger] plan@[i]).open_file matches Some(name)
                    ==> name@ == shard_file_name_spec(
                    planned_shard(self.records_view(), i),
                    self.suffix_spec(),
                )),
    {
        let ghost recs = self.records_view();
        let mut router = ShardRouter::new(self.suffix.clone());
        let mut plan: Vec<ShardWrite> = Vec::new();
        let mut i: usize = 0;
        while i < self.records.len()
            invariant
                self.wf(),
                recs == self.records_view(),
                i <= self.records@.len(),
                plan@.len() == i,
                router.wf(),
                router.suffix_spec() == self.suffix@,
                forall|c: char|
                    #[trigger] router.opened_keys().contains(c) <==> exists|j: int|
                        0 <= j < i && shard_key_of(recs[j].0) == c,
                forall|j: int|
                    0 <= j < i ==> (#[trigger] plan@[j]).shard == planned_shard(recs, j),
                forall|j: int| 0 <= j < i ==> (#[trigger] plan@[j]).line@ == planned_line(recs, j),
                forall|j: int|
                    0 <= j < i ==> ((#[trigger] plan@[j]).open_file is Some <==> first_use_of_shard(
                        recs,
                        j,
                    )),
                forall|j: int|
                    0 <= j < i ==> ((#[trigger] plan@[j]).open_file matches Some(name) ==> name@
                        == shard_file_name_spec(planned_shard(recs, j), self.suffix@)),
            decreases self.records@.len() - i,
        {
            proof {
                assert(recs[i as int] == (self.records@[i as int].0@, self.records@[i as int].1@));
                assert(is_digest(recs[i as int].0));
            }
            let digest = &self.records[i].0;
            let path = &self.records[i].1;
            let key = shard_key(digest.as_str());
            let ghost before = router.opened_keys();
            let open_file = router.acquire(key);
            proof {
                if before.contains(key) {
                    assert(!first_use_of_shard(recs, i as int));
                } else {
                    assert forall|j: int| 0 <= j < i implies shard_key_of(recs[j].0)
                        != shard_key_of(recs[i as int].0) by {
                        if shard_key_of(recs[j].0) == key {
                            assert(before.contains(key));
                        }
                    }
                    assert(first_use_of_shard(recs, i as int));
                    assert forall|c: char| #[trigger] router.opened_keys().contains(c) implies (
                    exists|j: int| 0 <= j < i + 1 && shard_key_of(recs[j].0) == c) by {
                        let m = choose|m: int|
                            0 <= m < router.opened_keys().len() && router.opened_keys()[m] == c;
                        if m < before.len() {
                            assert(before[m] == c);
                            assert(before.contains(c));
                        } else {
                            assert(c == key);
                            assert(shard_key_of(recs[i as int].0) == c);
                        }
                    }
                    assert forall|c: char|
                        (exists|j: int| 0 <= j < i + 1 && shard_key_of(recs[j].0) == c) implies
                    #[trigger] router.opened_keys().contains(c) by {
                        let j = choose|j: int| 0 <= j < i + 1 && shard_key_of(recs[j].0) == c;
                        if j < i {
                            assert(before.contains(c));
                            let m = choose|m: int| 0 <= m < before.len() && before[m] == c;
                            assert(router.opened_keys()[m] == c);
                        } else {
                            assert(router.opened_keys()[before.len() as int] == key);
                        }
                    }
                }
            }
            let line = format_record_line(digest.as_str(), path.as_str());
            plan.push(ShardWrite { shard: key, open_file, line });
            i = i + 1;
        }
        plan
    }

    /// The run's totals so far: file count, byte count, and the sixteen
    /// per-shard record counts.
    pub fn report(&self) -> (r: RunReport)
        requires
            self.wf(),
        ensures
            r.total_files == self.records_view().len(),
            r.total_bytes == self.total_bytes_spec(),
            r.shard_counts@.len() == 16,
            forall|k: int|
                0 <= k < 16 ==> r.shard_counts@[k] == shard_count_of(self.records_view(), k),
    {
        let mut shard_counts: Vec<u64> = Vec::new();
        let mut k: usize = 0;
        while k < 16
            invariant
                self.wf(),
                k <= 16,
                shard_counts@.len() == k,
                forall|j: int| 0 <= j < k ==> shard_counts@[j] == self.shard_counts@[j],
            decreases 16 - k,
        {
            shard_counts.push(self.shard_counts[k]);
            k = k + 1;
        }
        RunReport { total_files: self.total_files, total_bytes: self.total_bytes, shard_counts }
    }
}

/// Two runs over the same records with different suffixes write the same
/// shard-routed lines — shard and line are functions of the records alone,
/// as `plan_writes` states — into entirely disjoint sets of files: no file
/// name of one run is a file name of the other, whatever the shards.
pub proof fn lemma_distinct_suffix_runs_disjoint(s1: Seq<char>, s2: Seq<char>)
    requires
        s1 != s2,
    ensures
        forall|k1: char, k2: char|
            #![trigger shard_file_name_spec(k1, s1), shard_file_name_spec(k2, s2)]
            shard_file_name_spec(k1, s1) != shard_file_name_spec(k2, s2),
{
    assert forall|k1: char, k2: char|
        #![trigger shard_file_name_spec(k1, s1), shard_file_name_spec(k2, s2)]
        shard_file_name_spec(k1, s1) != shard_file_name_spec(k2, s2) by {
        lemma_shard_file_name_injective(k1, k2, s1, s2);
    }
}

} // verus!
