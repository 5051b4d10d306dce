//! Deduplication of hash records.
//!
//! One or more `digest,path` record files are collapsed to exactly one
//! record per distinct digest; among several paths observed for a digest,
//! the first one seen wins, in the order the lines were supplied.

use crate::records::format_record;
use crate::records::lemma_parse_record_roundtrip;
use crate::records::lemma_parsed_fields_comma_free;
use crate::records::parse_line_spec;
use crate::records::parse_record_line;
use crate::records::record_line_spec;
use crate::records::recs_view;
use crate::records::SpecRecord;
use vstd::prelude::*;

verus! {

/// The lines of a vector of strings.
pub open spec fn lines_view(ls: Seq<String>) -> Seq<Seq<char>> {
    ls.map_values(|l: String| l@)
}

/// Whether some record in `s` carries the digest `h`.
pub open spec fn hash_seen(s: Seq<SpecRecord>, h: Seq<char>) -> bool {
    exists|j: int| 0 <= j < s.len() && s[j].0 == h
}

/// First-seen-wins deduplication: a record survives exactly when no earlier
/// record carries the same digest, and survivors keep their order.
pub open spec fn dedup_spec(s: Seq<SpecRecord>) -> Seq<SpecRecord>
    decreases s.len(),
{
    if s.len() == 0 {
        Seq::empty()
    } else {
        let prefix = dedup_spec(s.drop_last());
        if hash_seen(s.drop_last(), s.last().0) {
            prefix
        } else {
            prefix.push(s.last())
        }
    }
}

/// Deduplication keeps exactly the digests of its input: no digest is lost
/// and none is invented.
pub proof fn lemma_dedup_same_hashes(s: Seq<SpecRecord>)
    ensures
        forall|h: Seq<char>| hash_seen(dedup_spec(s), h) <==> hash_seen(s, h),
    decreases s.len(),
{
    if s.len() > 0 {
        let prefix = s.drop_last();
        lemma_dedup_same_hashes(prefix);
        assert forall|h: Seq<char>| hash_seen(s, h) implies hash_seen(dedup_spec(s), h) by {
            let j = choose|j: int| 0 <= j < s.len() && s[j].0 == h;
            if j < s.len() - 1 {
                assert(prefix[j].0 == h);
                assert(hash_seen(prefix, h));
                let k = choose|k: int| 0 <= k < dedup_spec(prefix).len() && dedup_spec(prefix)[k].0
                    == h;
                assert(dedup_spec(s)[k].0 == h);
            } else {
                if hash_seen(prefix, s.last().0) {
                    let k = choose|k: int|
                        0 <= k < dedup_spec(prefix).len() && dedup_spec(prefix)[k].0 == h;
                    assert(dedup_spec(s)[k].0 == h);
                } else {
                    assert(dedup_spec(s).last().0 == h);
                }
            }
        }
        assert forall|h: Seq<char>| hash_seen(dedup_spec(s), h) implies hash_seen(s, h) by {
            let k = choose|k: int|
                0 <= k < dedup_spec(s).len() && dedup_spec(s)[k].0 == h;
            if k < dedup_spec(prefix).len() {
                assert(dedup_spec(s)[k] == dedup_spec(prefix)[k]);
                assert(hash_seen(dedup_spec(prefix), h));
                assert(hash_seen(prefix, h));
                let j = choose|j: int| 0 <= j < prefix.len() && prefix[j].0 == h;
                assert(prefix[j] == s[j]);
                assert(s[j].0 == h);
            } else {
                assert(s.last().0 == h);
            }
        }
    }
}

/// Every record that survives deduplication was a record of the input.
pub proof fn lemma_dedup_subset(s: Seq<SpecRecord>)
    ensures
        forall|k: int|
            0 <= k < dedup_spec(s).len() ==> s.contains(#[trigger] dedup_spec(s)[k]),
    decreases s.len(),
{
    if s.len() > 0 {
        let prefix = s.drop_last();
        lemma_dedup_subset(prefix);
        assert forall|k: int|
            0 <= k < dedup_spec(s).len() implies s.contains(#[trigger] dedup_spec(s)[k]) by {
            if k < dedup_spec(prefix).len() {
                assert(prefix.contains(dedup_spec(prefix)[k]));
                let j = choose|j: int| 0 <= j < prefix.len() && prefix[j] == dedup_spec(prefix)[k];
                assert(s[j] == dedup_spec(s)[k]);
            } else {
                assert(dedup_spec(s)[k] == s.last());
                assert(s[s.len() - 1] == s.last());
            }
        }
    }
}

/// After deduplication every digest appears exactly once: distinct surviving
/// records carry distinct digests.
pub proof fn lemma_dedup_distinct(s: Seq<SpecRecord>)
    ensures
        forall|i: int, j: int|
            #![trigger dedup_spec(s)[i], dedup_spec(s)[j]]
            0 <= i < j < dedup_spec(s).len() ==> dedup_spec(s)[i].0 != dedup_spec(s)[j].0,
    decreases s.len(),
{
    if s.len() > 0 {
        let prefix = s.drop_last();
        lemma_dedup_distinct(prefix);
        lemma_dedup_same_hashes(prefix);
        let d = dedup_spec(s);
        assert forall|i: int, j: int|
            #![trigger d[i], d[j]]
            0 <= i < j < d.len() implies d[i].0 != d[j].0 by {
            if j < dedup_spec(prefix).len() {
                assert(dedup_spec(prefix)[i].0 != dedup_spec(prefix)[j].0);
            } else if !hash_seen(prefix, s.last().0) {
                assert(d[j] == s.last());
                assert(d[i] == dedup_spec(prefix)[i]);
                if d[i].0 == s.last().0 {
                    assert(hash_seen(dedup_spec(prefix), s.last().0));
                }
            }
        }
    }
}

/// Deduplicating records whose digests are already pairwise distinct changes
/// nothing.
pub proof fn lemma_dedup_of_distinct_identity(s: Seq<SpecRecord>)
    requires
        forall|i: int, j: int| #![trigger s[i], s[j]] 0 <= i < j < s.len() ==> s[i].0 != s[j].0,
    ensures
        dedup_spec(s) == s,
    decreases s.len(),
{
    if s.len() > 0 {
        let prefix = s.drop_last();
        assert(forall|i: int, j: int|
            #![trigger prefix[i], prefix[j]]
            0 <= i < j < prefix.len() ==> prefix[i].0 != prefix[j].0);
        lemma_dedup_of_distinct_identity(prefix);
        if hash_seen(prefix, s.last().0) {
            let j = choose|j: int| 0 <= j < prefix.len() && prefix[j].0 == s.last().0;
            assert(s[j].0 == s[s.len() - 1].0);
        }
        assert(dedup_spec(s) =~= s);
    }
}

/// Deduplication is idempotent: deduplicating an already-deduplicated record
/// sequence gives it back unchanged.
pub proof fn lemma_dedup_idempotent(s: Seq<SpecRecord>)
    ensures
        dedup_spec(dedup_spec(s)) == dedup_spec(s),
{
    lemma_dedup_distinct(s);
    lemma_dedup_of_distinct_identity(dedup_spec(s));
}

/// The first path wins: a record whose digest no earlier record carries
/// survives deduplication as it stands, its path untouched.
pub proof fn lemma_dedup_first_seen(s: Seq<SpecRecord>, i: int)
    requires
        0 <= i < s.len(),
        !hash_seen(s.take(i), s[i].0),
    ensures
        dedup_spec(s).contains(s[i]),
    decreases s.len(),
{
    let prefix = s.drop_last();
    if i == s.len() - 1 {
        assert(s.take(i) =~= prefix);
        assert(dedup_spec(s).last() == s[i]);
        assert(dedup_spec(s)[dedup_spec(s).len() - 1] == s[i]);
    } else {
        assert(prefix.take(i) =~= s.take(i));
        assert(prefix[i] == s[i]);
        lemma_dedup_first_seen(prefix, i);
        let k = choose|k: int| 0 <= k < dedup_spec(prefix).len() && dedup_spec(prefix)[k] == s[i];
        assert(dedup_spec(s)[k] == s[i]);
    }
}

/// Deduplication never adds records: the output is at most as long as the
/// input.
pub proof fn lemma_dedup_len(s: Seq<SpecRecord>)
    ensures
        dedup_spec(s).len() <= s.len(),
    decreases s.len(),
{
    if s.len() > 0 {
        lemma_dedup_len(s.drop_last());
    }
}

/// Collapses a record sequence to one record per distinct digest, keeping
/// for each digest the first path seen, in first-seen order.
pub fn dedup_records(records: &Vec<(String, String)>) -> (out: Vec<(String, String)>)
    ensures
        recs_view(out@) == dedup_spec(recs_view(records@)),
{
    let ghost all = recs_view(records@);
    let mut out: Vec<(String, String)> = Vec::new();
    let mut idx: usize = 0;
    while idx < records.len()
        invariant
            idx <= records.len(),
            all == recs_view(records@),
            recs_view(out@) == dedup_spec(all.take(idx as int)),
        decreases records.len() - idx,
    {
        proof {
            lemma_dedup_same_hashes(all.take(idx as int));
            assert(all.take(idx as int + 1).drop_last() =~= all.take(idx as int));
            assert(all.take(idx as int + 1).last() == all[idx as int]);
        }
        let hash = &records[idx].0;
        let mut seen = false;
        let mut k: usize = 0;
        while k < out.len()
            invariant
                k <= out.len(),
                seen <==> exists|j: int| 0 <= j < k && recs_view(out@)[j].0 == hash@,
            decreases out.len() - k,
        {
            if out[k].0.eq(hash) {
                proof {
                    assert(recs_view(out@)[k as int].0 == hash@);
                }
                seen = true;
            }
            k = k + 1;
        }
        proof {
            assert(seen <==> hash_seen(recs_view(out@), hash@));
            assert(hash@ == all[idx as int].0);
        }
        if !seen {
            let h = records[idx].0.clone();
            let p = records[idx].1.clone();
            out.push((h, p));
            proof {
                assert(recs_view(out@) =~= dedup_spec(all.take(idx as int)).push(
                    all[idx as int],
                ));
            }
        }
        idx = idx + 1;
    }
    proof {
        assert(all.take(records@.len() as int) =~= all);
    }
    out
}

/// Why a deduplication run failed.
#[derive(Debug, PartialEq, Eq, Structural, Clone, Copy)]
pub enum DedupError {
    /// An input line did not split into exactly two comma-separated fields;
    /// carries the index of the first such line.
    MalformedLine { line_index: usize },
}

/// What a deduplication run produced: the output lines (one per distinct
/// digest, no line terminator) and the record counts for the report.
#[derive(Debug)]
pub struct DedupOutcome {
    /// One `digest,path` line per distinct digest, first-seen path and
    /// first-seen order.
    pub lines: Vec<String>,
    /// How many distinct digests were found.
    pub unique_count: u32,
    /// How many records were read in all.
    pub total_count: u32,
}

/// The records of a fully well-formed line sequence.
pub open spec fn parsed_records(ls: Seq<Seq<char>>) -> Seq<SpecRecord> {
    ls.map_values(|l: Seq<char>| parse_line_spec(l).unwrap())
}

/// Whether every line splits into exactly two comma-separated fields.
pub open spec fn all_lines_well_formed(ls: Seq<Seq<char>>) -> bool {
    forall|i: int| 0 <= i < ls.len() ==> parse_line_spec(#[trigger] ls[i]) is Some
}

/// What deduplicating well-formed lines yields: one line per distinct
/// digest, first-seen path, first-seen order.
pub open spec fn dedup_lines_spec(ls: Seq<Seq<char>>) -> Seq<Seq<char>> {
    dedup_spec(parsed_records(ls)).map_values(|r: SpecRecord| record_line_spec(r.0, r.1))
}

/// Deduplicates the given record lines (each a `digest,path` line without
/// its terminator, all input files' lines in supplied order). Fails exactly
/// when some line is malformed, naming the first such line; succeeds on an
/// empty input with an empty output and zero counts.
pub fn dedup_lines(lines: &Vec<String>) -> (r: Result<DedupOutcome, DedupError>)
    requires
        lines@.len() <= u32::MAX,
    ensures
        r is Ok <==> all_lines_well_formed(lines_view(lines@)),
        r matches Ok(out) ==> lines_view(out.lines@) == dedup_lines_spec(lines_view(lines@))
            && out.unique_count == dedup_lines_spec(lines_view(lines@)).len() && out.total_count
            == lines@.len(),
        r matches Err(e) ==> e matches DedupError::MalformedLine { line_index } && line_index
            < lines@.len() && parse_line_spec(lines_view(lines@)[line_index as int]) is None && (
        forall|j: int|
            0 <= j < line_index ==> parse_line_spec(
                #[trigger] lines_view(lines@)[j],
            ) is Some),
{
    let ghost lv = lines_view(lines@);
    let mut records: Vec<(String, String)> = Vec::new();
    let mut idx: usize = 0;
    while idx < lines.len()
        invariant
            idx <= lines.len(),
            lv == lines_view(lines@),
            forall|j: int| 0 <= j < idx ==> parse_line_spec(#[trigger] lv[j]) is Some,
            recs_view(records@) == parsed_records(lv.take(idx as int)),
        decreases lines.len() - idx,
    {
        match parse_record_line(lines[idx].as_str()) {
            None => {
                return Err(DedupError::MalformedLine { line_index: idx });
            },
            Some((h, p)) => {
                let ghost hv = h@;
                let ghost pv = p@;
                proof {
                    assert(lv[idx as int] == lines@[idx as int]@);
                    assert(parse_line_spec(lv[idx as int]) == Some((hv, pv)));
                }
                let ghost prev = records@;
                proof {
                    assert(recs_view(prev).len() == prev.len());
                    assert(lv.take(idx as int).len() == idx as int);
                    assert(prev.len() == idx as int);
                }
                records.push((h, p));
                proof {
                    let taken = lv.take(idx as int + 1);
                    assert(records@.len() == idx as int + 1);
                    assert(records@[idx as int].0@ == hv);
                    assert(records@[idx as int].1@ == pv);
                    assert forall|m: int| 0 <= m < taken.len() implies recs_view(records@)[m]
                        == parsed_records(taken)[m] by {
                        assert(taken[m] == lv[m]);
                        if m < idx as int {
                            assert(records@[m] == prev[m]);
                            assert(recs_view(prev)[m] == parsed_records(
                                lv.take(idx as int),
                            )[m]);
                            assert(lv.take(idx as int)[m] == lv[m]);
                        } else {
                            assert(recs_view(records@)[m] == (hv, pv));
                        }
                    }
                    assert(recs_view(records@) =~= parsed_records(taken));
                }
            },
        }
        idx = idx + 1;
    }
    proof {
        assert(lv.take(lines@.len() as int) =~= lv);
    }
    let deduped = dedup_records(&records);
    let mut out_lines: Vec<String> = Vec::new();
    let mut k: usize = 0;
    while k < deduped.len()
        invariant
            k <= deduped.len(),
            recs_view(deduped@) == dedup_spec(parsed_records(lv)),
            lines_view(out_lines@) == dedup_lines_spec(lv).take(k as int),
            out_lines@.len() == k,
        decreases deduped.len() - k,
    {
        let line = format_record(deduped[k].0.as_str(), deduped[k].1.as_str());
        out_lines.push(line);
        proof {
            assert(dedup_lines_spec(lv)[k as int] == record_line_spec(
                recs_view(deduped@)[k as int].0,
                recs_view(deduped@)[k as int].1,
            ));
            assert(lines_view(out_lines@) =~= dedup_lines_spec(lv).take(k as int + 1));
        }
        k = k + 1;
    }
    proof {
        assert(dedup_lines_spec(lv).take(deduped@.len() as int) =~= dedup_lines_spec(lv));
    }
    proof {
        lemma_dedup_len(parsed_records(lv));
    }
    let unique_count = deduped.len() as u32;
    let total_count = lines.len() as u32;
    Ok(DedupOutcome { lines: out_lines, unique_count, total_count })
}

/// Deduplicating an already-deduplicated file changes nothing: the output
/// lines of a run are all well formed, and running them through
/// deduplication again gives the byte-identical line sequence back.
pub proof fn lemma_dedup_lines_idempotent(ls: Seq<Seq<char>>)
    requires
        all_lines_well_formed(ls),
    ensures
        all_lines_well_formed(dedup_lines_spec(ls)),
        dedup_lines_spec(dedup_lines_spec(ls)) == dedup_lines_spec(ls),
{
    let recs = parsed_records(ls);
    let d = dedup_spec(recs);
    let out = dedup_lines_spec(ls);
    lemma_dedup_subset(recs);
    assert forall|k: int| 0 <= k < out.len() implies parse_line_spec(#[trigger] out[k]) == Some(
        d[k],
    ) by {
        assert(recs.contains(d[k]));
        let j = choose|j: int| 0 <= j < recs.len() && recs[j] == d[k];
        assert(recs[j] == parse_line_spec(ls[j]).unwrap());
        lemma_parsed_fields_comma_free(ls[j], d[k].0, d[k].1);
        lemma_parse_record_roundtrip(d[k].0, d[k].1);
    }
    assert(parsed_records(out) =~= d);
    lemma_dedup_idempotent(recs);
    assert(dedup_lines_spec(out) =~= out);
}

} // verus!
