//! Shard keys and shard file naming.
//!
//! A digest is routed to one of sixteen shards by its leading hexadecimal
//! character; each shard's records go to an append-only file whose name is
//! derived from the shard key and a per-run suffix.

use vstd::prelude::*;
use vstd::string::StrSliceExecFns;
use vstd::string::StringExecFns;

verus! {

/// A lowercase hexadecimal digit, the alphabet of digest characters.
pub open spec fn is_hex_char(c: char) -> bool {
    ('0' <= c && c <= '9') || ('a' <= c && c <= 'f')
}

/// A digest as this library understands it: a non-empty string of lowercase
/// hexadecimal digits.
pub open spec fn is_digest(s: Seq<char>) -> bool {
    s.len() > 0 && forall|i: int| 0 <= i < s.len() ==> is_hex_char(#[trigger] s[i])
}

/// The numeric value of a lowercase hexadecimal digit, the index of its
/// shard in the per-shard counts.
pub open spec fn hex_val_spec(c: char) -> int {
    if '0' <= c && c <= '9' {
        c as int - '0' as int
    } else {
        c as int - 'a' as int + 10
    }
}

/// Computes the numeric value of a lowercase hexadecimal digit.
pub fn hex_val(c: char) -> (v: usize)
    requires
        is_hex_char(c),
    ensures
        v == hex_val_spec(c),
        v < 16,
{
    let u = c as u32;
    if u <= 57 {
        (u - 48) as usize
    } else {
        (u - 87) as usize
    }
}

/// The shard key of a digest is its leading character.
pub open spec fn shard_key_of(digest: Seq<char>) -> char
    recommends
        digest.len() > 0,
{
    digest[0]
}

/// Derives the shard key from a digest: its first character.
pub fn shard_key(digest: &str) -> (key: char)
    requires
        digest@.len() > 0,
    ensures
        key == shard_key_of(digest@),
{
    digest.get_char(0)
}

/// The name of the shard file for a key and a run suffix:
/// `<key>_<suffix>.csv`.
pub open spec fn shard_file_name_spec(key: char, suffix: Seq<char>) -> Seq<char> {
    seq![key, '_'] + suffix + seq!['.', 'c', 's', 'v']
}

/// A one-character string for a hexadecimal shard key.
fn hex_char_str(c: char) -> (r: &'static str)
    requires
        is_hex_char(c),
    ensures
        r@ =~= seq![c],
{
    let r: &'static str = match c {
        '0' => "0",
        '1' => "1",
        '2' => "2",
        '3' => "3",
        '4' => "4",
        '5' => "5",
        '6' => "6",
        '7' => "7",
        '8' => "8",
        '9' => "9",
        'a' => "a",
        'b' => "b",
        'c' => "c",
        'd' => "d",
        'e' => "e",
        _ => "f",
    };
    proof {
        reveal_strlit("0");
        reveal_strlit("1");
        reveal_strlit("2");
        reveal_strlit("3");
        reveal_strlit("4");
        reveal_strlit("5");
        reveal_strlit("6");
        reveal_strlit("7");
        reveal_strlit("8");
        reveal_strlit("9");
        reveal_strlit("a");
        reveal_strlit("b");
        reveal_strlit("c");
        reveal_strlit("d");
        reveal_strlit("e");
        reveal_strlit("f");
    }
    r
}

/// Builds the shard file name `<key>_<suffix>.csv` for a hexadecimal key.
pub fn shard_file_name(key: char, suffix: &str) -> (name: String)
    requires
        is_hex_char(key),
    ensures
        name@ == shard_file_name_spec(key, suffix@),
{
    let mut name = String::new();
    name.append(hex_char_str(key));
    name.append("_");
    name.append(suffix);
    name.append(".csv");
    proof {
        reveal_strlit("_");
        reveal_strlit(".csv");
        assert(name@ =~= shard_file_name_spec(key, suffix@));
    }
    name
}

/// The bookkeeping of one run's shard files: which shard keys already have
/// an open append handle, and the run suffix that names the files.
///
/// The store behind it opens a shard's file on the first write to that
/// shard and reuses the handle afterwards; `acquire` decides, for each
/// write, whether a file must be opened and under which name.
pub struct ShardRouter {
    suffix: String,
    opened: Vec<char>,
}

impl ShardRouter {
    /// The shard keys whose files the run has opened so far, in opening
    /// order.
    pub closed spec fn opened_keys(&self) -> Seq<char> {
        self.opened@
    }

    /// The run suffix the shard file names carry.
    pub closed spec fn suffix_spec(&self) -> Seq<char> {
        self.suffix@
    }

    /// At most one handle exists per shard key: no key is recorded as
    /// opened twice.
    pub closed spec fn wf(&self) -> bool {
        forall|i: int, j: int|
            #![trigger self.opened@[i], self.opened@[j]]
            0 <= i < j < self.opened@.len() ==> self.opened@[i] != self.opened@[j]
    }

    /// A router for a fresh run: nothing is open yet.
    pub fn new(suffix: String) -> (r: ShardRouter)
        ensures
            r.wf(),
            r.suffix_spec() == suffix@,
            r.opened_keys() == Seq::<char>::empty(),
    {
        ShardRouter { suffix, opened: Vec::new() }
    }

    /// Routes one write to the shard `key`: on the key's first use, returns
    /// the name of the shard file the store must open and records the key
    /// as opened; afterwards, returns `None` so the store reuses the
    /// handle it already holds.
    pub fn acquire(&mut self, key: char) -> (open: Option<String>)
        requires
            old(self).wf(),
            is_hex_char(key),
        ensures
            final(self).wf(),
            final(self).suffix_spec() == old(self).suffix_spec(),
            old(self).opened_keys().contains(key) ==> open is None && final(self).opened_keys()
                == old(self).opened_keys(),
            !old(self).opened_keys().contains(key) ==> final(self).opened_keys() == old(
                self,
            ).opened_keys().push(key) && (open matches Some(name) && name@
                == shard_file_name_spec(key, old(self).suffix_spec())),
    {
        let mut k: usize = 0;
        while k < self.opened.len()
            invariant
                *self == *old(self),
                self.wf(),
                k <= self.opened@.len(),
                forall|j: int| 0 <= j < k ==> self.opened@[j] != key,
            decreases self.opened@.len() - k,
        {
            if self.opened[k] == key {
                proof {
                    assert(self.opened@.contains(key));
                    assert(self.wf());
                }
                return None;
            }
            k = k + 1;
        }
        proof {
            if self.opened@.contains(key) {
                let j = choose|j: int| 0 <= j < self.opened@.len() && self.opened@[j] == key;
                assert(self.opened@[j] != key);
            }
        }
        let name = shard_file_name(key, self.suffix.as_str());
        self.opened.push(key);
        proof {
            assert(forall|j: int|
                0 <= j < old(self).opened@.len() ==> self.opened@[j] == old(self).opened@[j]);
        }
        Some(name)
    }
}

/// Shard routing is a pure function of the digest's leading character: two
/// digests that share it get the same shard key, and their records land in
/// the same shard file within one run.
pub proof fn lemma_shard_key_deterministic(d1: Seq<char>, d2: Seq<char>, suffix: Seq<char>)
    requires
        d1.len() > 0,
        d2.len() > 0,
        d1[0] == d2[0],
    ensures
        shard_key_of(d1) == shard_key_of(d2),
        shard_file_name_spec(shard_key_of(d1), suffix) == shard_file_name_spec(
            shard_key_of(d2),
            suffix,
        ),
{
}

/// Shard file names are injective in the (key, suffix) pair: two runs with
/// different suffixes can never write to the same file, whatever the keys.
pub proof fn lemma_shard_file_name_injective(k1: char, k2: char, s1: Seq<char>, s2: Seq<char>)
    requires
        k1 != k2 || s1 != s2,
    ensures
        shard_file_name_spec(k1, s1) != shard_file_name_spec(k2, s2),
{
    let n1 = shard_file_name_spec(k1, s1);
    let n2 = shard_file_name_spec(k2, s2);
    if n1 == n2 {
        assert(n1.len() == 2 + s1.len() + 4);
        assert(n2.len() == 2 + s2.len() + 4);
        assert(n1[0] == k1);
        assert(n2[0] == k2);
        assert(k1 == k2);
        assert(s1.len() == s2.len());
        assert forall|i: int| 0 <= i < s1.len() implies s1[i] == s2[i] by {
            assert(n1[2 + i] == s1[i]);
            assert(n2[2 + i] == s2[i]);
        }
        assert(s1 =~= s2);
    }
}

} // verus!
