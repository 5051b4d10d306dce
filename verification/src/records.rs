//! Hash record lines.
//!
//! A hash record is a `(digest, path)` pair, persisted as one text line
//! `digest,path`. A well-formed line holds exactly one comma; paths that
//! contain a comma are not supported by the format and make a line
//! malformed.

use vstd::prelude::*;
use vstd::string::StrSliceExecFns;
use vstd::string::StringExecFns;

verus! {

/// The index of the first comma in a character sequence, or -1 when it has
/// none.
pub open spec fn find_comma(l: Seq<char>) -> int
    decreases l.len(),
{
    if l.len() == 0 {
        -1
    } else if l[0] == ',' {
        0
    } else {
        let r = find_comma(l.drop_first());
        if r < 0 {
            -1
        } else {
            r + 1
        }
    }
}

/// What `find_comma` returns: the first comma's index when the sequence has
/// a comma, -1 when it has none.
pub proof fn lemma_find_comma_characterization(l: Seq<char>)
    ensures
        find_comma(l) >= 0 ==> 0 <= find_comma(l) < l.len() && l[find_comma(l)] == ',' && (forall|
            j: int,
        |
            0 <= j < find_comma(l) ==> l[j] != ','),
        find_comma(l) < 0 ==> (forall|j: int| 0 <= j < l.len() ==> l[j] != ','),
    decreases l.len(),
{
    if l.len() > 0 && l[0] != ',' {
        let tail = l.drop_first();
        lemma_find_comma_characterization(tail);
        assert(forall|j: int| 0 <= j < tail.len() ==> tail[j] == l[j + 1]);
        let r = find_comma(tail);
        if r < 0 {
            assert(find_comma(l) == -1);
            assert forall|j: int| 0 <= j < l.len() implies l[j] != ',' by {
                if j > 0 {
                    assert(tail[j - 1] != ',');
                }
            }
        } else {
            assert(find_comma(l) == r + 1);
            assert(l[r + 1] == tail[r]);
            assert forall|j: int| 0 <= j < r + 1 implies l[j] != ',' by {
                if j > 0 {
                    assert(tail[j - 1] != ',');
                }
            }
        }
    }
}

/// `find_comma` finds exactly the first comma: if position `i` holds a comma
/// and no earlier position does, `find_comma` returns `i`.
pub proof fn lemma_find_comma_at(l: Seq<char>, i: int)
    requires
        0 <= i < l.len(),
        l[i] == ',',
        forall|j: int| 0 <= j < i ==> l[j] != ',',
    ensures
        find_comma(l) == i,
{
    lemma_find_comma_characterization(l);
    let r = find_comma(l);
    if r < 0 {
        assert(l[i] != ',');
    } else if r < i {
        assert(l[r] != ',');
    } else if r > i {
        assert(l[i] != ',');
    }
}

/// A record as the specifications see it: the digest and the path as
/// character sequences.
pub type SpecRecord = (Seq<char>, Seq<char>);

/// The records of a vector of `(digest, path)` string pairs.
pub open spec fn recs_view(rs: Seq<(String, String)>) -> Seq<SpecRecord> {
    rs.map_values(|r: (String, String)| (r.0@, r.1@))
}

/// The record line for a digest and a path: `digest,path`.
pub open spec fn record_line_spec(hash: Seq<char>, path: Seq<char>) -> Seq<char> {
    hash + seq![','] + path
}

/// A line parses into a record exactly when it holds exactly one comma: the
/// digest is everything before it, the path everything after it.
pub open spec fn parse_line_spec(l: Seq<char>) -> Option<(Seq<char>, Seq<char>)> {
    let i = find_comma(l);
    if i < 0 {
        None
    } else {
        let hash = l.take(i);
        let path = l.skip(i + 1);
        if find_comma(path) >= 0 {
            None
        } else {
            Some((hash, path))
        }
    }
}

/// Formats a record as the line `hash,path` (no line terminator).
pub fn format_record(hash: &str, path: &str) -> (r: String)
    ensures
        r@ == record_line_spec(hash@, path@),
{
    let mut r = String::new();
    r.append(hash);
    r.append(",");
    r.append(path);
    proof {
        reveal_strlit(",");
        assert(","@ =~= seq![',']);
        assert(r@ =~= record_line_spec(hash@, path@));
    }
    r
}

/// Formats a record as the full output line `hash,path\n`, trailing
/// terminator included.
pub fn format_record_line(hash: &str, path: &str) -> (r: String)
    ensures
        r@ == record_line_spec(hash@, path@) + seq!['\n'],
{
    let mut r = format_record(hash, path);
    r.append("\n");
    proof {
        reveal_strlit("\n");
        assert("\n"@ =~= seq!['\n']);
        assert(r@ =~= record_line_spec(hash@, path@) + seq!['\n']);
    }
    r
}

/// The index of the first comma of a line, or `None` when the line has no
/// comma.
fn find_first_comma(line: &str) -> (r: Option<usize>)
    ensures
        match r {
            Some(i) => i == find_comma(line@) && i < line@.len(),
            None => find_comma(line@) == -1,
        },
{
    let n = line.unicode_len();
    let mut idx: usize = 0;
    while idx < n
        invariant
            idx <= n,
            n == line@.len(),
            forall|j: int| 0 <= j < idx ==> line@[j] != ',',
        decreases n - idx,
    {
        let c = line.get_char(idx);
        if c == ',' {
            proof {
                lemma_find_comma_at(line@, idx as int);
            }
            return Some(idx);
        }
        idx = idx + 1;
    }
    proof {
        lemma_find_comma_characterization(line@);
        if find_comma(line@) >= 0 {
            assert(line@[find_comma(line@)] != ',');
        }
    }
    None
}

/// Splits a record line into its digest and path fields. Returns `Some`
/// exactly when the line holds exactly one comma; a line with no comma or
/// with a comma inside the path field is malformed.
pub fn parse_record_line(line: &str) -> (r: Option<(String, String)>)
    ensures
        match parse_line_spec(line@) {
            Some(hp) => r matches Some(s) && s.0@ == hp.0 && s.1@ == hp.1,
            None => r is None,
        },
{
    let n = line.unicode_len();
    match find_first_comma(line) {
        None => None,
        Some(i) => {
            let hash = line.substring_char(0, i).to_owned();
            let rest = line.substring_char(i + 1, n);
            proof {
                assert(hash@ =~= line@.take(i as int));
                assert(rest@ =~= line@.skip(i + 1));
            }
            match find_first_comma(rest) {
                Some(_) => None,
                None => {
                    let path = rest.to_owned();
                    Some((hash, path))
                },
            }
        },
    }
}

/// Parsing a formatted record line gives the record back, whenever neither
/// field holds a comma.
pub proof fn lemma_parse_record_roundtrip(hash: Seq<char>, path: Seq<char>)
    requires
        find_comma(hash) < 0,
        find_comma(path) < 0,
    ensures
        parse_line_spec(record_line_spec(hash, path)) == Some((hash, path)),
{
    let l = record_line_spec(hash, path);
    lemma_find_comma_characterization(hash);
    assert(l[hash.len() as int] == ',');
    assert(forall|j: int| 0 <= j < hash.len() ==> l[j] == hash[j]);
    lemma_find_comma_at(l, hash.len() as int);
    assert(l.take(hash.len() as int) =~= hash);
    assert(l.skip(hash.len() as int + 1) =~= path);
}

/// A record handed back by the parser is comma-free in both fields: feeding
/// it to the formatter and parsing again gives the same record.
pub proof fn lemma_parsed_fields_comma_free(l: Seq<char>, hash: Seq<char>, path: Seq<char>)
    requires
        parse_line_spec(l) == Some((hash, path)),
    ensures
        find_comma(hash) < 0,
        find_comma(path) < 0,
        record_line_spec(hash, path) == l,
{
    let i = find_comma(l);
    lemma_find_comma_characterization(l);
    assert(hash =~= l.take(i));
    assert(forall|j: int| 0 <= j < hash.len() ==> hash[j] != ',');
    lemma_find_comma_characterization(hash);
    if find_comma(hash) >= 0 {
        assert(hash[find_comma(hash)] != ',');
    }
    assert(record_line_spec(hash, path) =~= l);
}

} // verus!
