//! Digest records and the deterministic ordering of a run's results.
//!
//! Workers finish in no fixed order, so the engine sorts the collected
//! records by path (byte-lexicographically, as paths compare as strings)
//! once at the end; with pairwise distinct paths the sorted arrangement
//! is unique, which makes the final list independent of traversal and
//! completion order.

use vstd::prelude::*;
use vstd::multiset::Multiset;
use vstd::utf8::encode_utf8;

verus! {

/// One hashed file: its path and the lowercase hex digest of its bytes.
#[derive(Debug)]
pub struct DigestRecord {
    pub path: String,
    pub hash: String,
}

/// Byte-lexicographic order on byte strings: a prefix comes first, and
/// otherwise the first differing byte decides.
pub open spec fn bytes_le(a: Seq<u8>, b: Seq<u8>) -> bool
    decreases a.len(),
{
    if a.len() == 0 {
        true
    } else if b.len() == 0 {
        false
    } else if a[0] < b[0] {
        true
    } else if b[0] < a[0] {
        false
    } else {
        bytes_le(a.drop_first(), b.drop_first())
    }
}

pub proof fn lemma_bytes_le_total(a: Seq<u8>, b: Seq<u8>)
    ensures
        bytes_le(a, b) || bytes_le(b, a),
    decreases a.len(),
{
    if a.len() > 0 && b.len() > 0 && a[0] == b[0] {
        lemma_bytes_le_total(a.drop_first(), b.drop_first());
    }
}

pub proof fn lemma_bytes_le_trans(a: Seq<u8>, b: Seq<u8>, c: Seq<u8>)
    requires
        bytes_le(a, b),
        bytes_le(b, c),
    ensures
        bytes_le(a, c),
    decreases a.len(),
{
    if a.len() > 0 && b.len() > 0 && c.len() > 0 {
        if a[0] == c[0] {
            if a[0] < b[0] || b[0] < c[0] {
            } else {
                lemma_bytes_le_trans(a.drop_first(), b.drop_first(), c.drop_first());
            }
        }
    }
}

pub proof fn lemma_bytes_le_antisym(a: Seq<u8>, b: Seq<u8>)
    requires
        bytes_le(a, b),
        bytes_le(b, a),
    ensures
        a == b,
    decreases a.len(),
{
    if a.len() == 0 {
        assert(b.len() == 0);
        assert(a =~= b);
    } else {
        assert(b.len() > 0);
        assert(a[0] == b[0]);
        lemma_bytes_le_antisym(a.drop_first(), b.drop_first());
        assert(a =~= b) by {
            assert(a.len() == b.len());
            assert(forall|i: int|
                1 <= i < a.len() ==> a[i] == a.drop_first()[i - 1] && b[i] == b.drop_first()[i
                    - 1]);
        }
    }
}

/// The UTF-8 bytes of a record's path: the sort key.
pub open spec fn spec_path_bytes(r: DigestRecord) -> Seq<u8> {
    encode_utf8(r.path@)
}

/// Order on records: by path bytes.
pub open spec fn record_le(a: DigestRecord, b: DigestRecord) -> bool {
    bytes_le(spec_path_bytes(a), spec_path_bytes(b))
}

/// Whether the byte string of `a`'s path precedes `b`'s.
pub fn path_le(a: &String, b: &String) -> (r: bool)
    ensures
        r == bytes_le(encode_utf8(a@), encode_utf8(b@)),
{
    let ab = a.as_str().as_bytes();
    let bb = b.as_str().as_bytes();
    let ghost sa = ab@;
    let ghost sb = bb@;
    proof {
        assert(sa == encode_utf8(a@));
        assert(sb == encode_utf8(b@));
        assert(sa.skip(0) =~= sa);
        assert(sb.skip(0) =~= sb);
    }
    let al = ab.len();
    let bl = bb.len();
    let mut i: usize = 0;
    while i < al && i < bl
        invariant
            i <= al,
            i <= bl,
            al == sa.len(),
            bl == sb.len(),
            ab@ == sa,
            bb@ == sb,
            sa == encode_utf8(a@),
            sb == encode_utf8(b@),
            bytes_le(sa, sb) == bytes_le(sa.skip(i as int), sb.skip(i as int)),
        decreases al - i,
    {
        let x = ab[i];
        let y = bb[i];
        proof {
            assert(sa.skip(i as int)[0] == sa[i as int]);
            assert(sb.skip(i as int)[0] == sb[i as int]);
        }
        if x < y {
            return true;
        }
        if y < x {
            return false;
        }
        proof {
            assert(sa.skip(i as int).drop_first() =~= sa.skip(i + 1));
            assert(sb.skip(i as int).drop_first() =~= sb.skip(i + 1));
        }
        i = i + 1;
    }
    if al <= bl {
        proof {
            assert(sa.skip(i as int).len() == 0);
        }
        true
    } else {
        proof {
            assert(sb.skip(i as int).len() == 0);
            assert(sa.skip(i as int).len() > 0);
        }
        false
    }
}

/// The records stand in nondecreasing path order.
pub open spec fn sorted_by_path(s: Seq<DigestRecord>) -> bool {
    forall|i: int, j: int| 0 <= i < j < s.len() ==> #[trigger] record_le(s[i], s[j])
}

/// No two records share a path.
pub open spec fn distinct_paths(s: Seq<DigestRecord>) -> bool {
    forall|i: int, j: int|
        #![trigger spec_path_bytes(s[i]), spec_path_bytes(s[j])]
        0 <= i < j < s.len() ==> spec_path_bytes(s[i]) != spec_path_bytes(s[j])
}

proof fn lemma_insert_multiset<A>(s: Seq<A>, j: int, x: A)
    requires
        0 <= j <= s.len(),
    ensures
        s.insert(j, x).to_multiset() =~= s.to_multiset().insert(x),
{
    broadcast use vstd::seq_lib::group_to_multiset_ensures;
    broadcast use vstd::multiset::group_multiset_axioms;

    let front = s.subrange(0, j);
    let back = s.subrange(j, s.len() as int);
    assert(s =~= front + back);
    vstd::seq_lib::lemma_multiset_commutative(front, back);
    assert(s.insert(j, x) =~= front + (seq![x] + back));
    vstd::seq_lib::lemma_multiset_commutative(front, seq![x] + back);
    vstd::seq_lib::lemma_multiset_commutative(seq![x], back);
    assert(seq![x] =~= Seq::<A>::empty().push(x));
    assert(seq![x].to_multiset() =~= Multiset::<A>::empty().insert(x));
}

/// Sort a run's records by path.  The output is ordered and holds
/// exactly the input records: nothing is dropped, nothing is invented.
pub fn sort_records(records: Vec<DigestRecord>) -> (r: Vec<DigestRecord>)
    ensures
        sorted_by_path(r@),
        r@.to_multiset() == records@.to_multiset(),
        r@.len() == records@.len(),
{
    broadcast use vstd::seq_lib::group_to_multiset_ensures;

    let mut arr = records;
    if arr.len() < 2 {
        return arr;
    }
    let mut i: usize = 1;
    while i < arr.len()
        invariant
            1 <= i <= arr@.len(),
            arr@.len() == records@.len(),
            arr@.to_multiset() == records@.to_multiset(),
            sorted_by_path(arr@.subrange(0, i as int)),
        decreases arr@.len() - i,
    {
        let ghost s = arr@;
        let mut j: usize = i;
        while j > 0 && !path_le(&arr[j - 1].path, &arr[i].path)
            invariant
                j <= i < arr@.len(),
                arr@ == s,
                forall|k: int| j <= k < i ==> !record_le(s[k], s[i as int]),
            decreases j,
        {
            j = j - 1;
        }
        proof {
            assert forall|k: int| j <= k < i implies record_le(s[i as int], s[k]) by {
                lemma_bytes_le_total(spec_path_bytes(s[i as int]), spec_path_bytes(s[k]));
            }
        }
        let x = arr.remove(i);
        arr.insert(j, x);
        proof {
            let n = arr@;
            // The new prefix is the old one with the moved record placed
            // at its insertion point.
            assert(n =~= s.remove(i as int).insert(j as int, s[i as int]));
            assert(forall|k: int| 0 <= k < j ==> n[k] == s[k]);
            assert(n[j as int] == s[i as int]);
            assert(forall|k: int| j < k <= i ==> n[k] == s[k - 1]);
            assert(forall|k: int| i < k < n.len() ==> n[k] == s[k]);
            broadcast use vstd::multiset::group_multiset_axioms;

            s.to_multiset_ensures();
            assert(s.contains(s[i as int]));
            assert(s.to_multiset().count(s[i as int]) > 0);
            assert(s.remove(i as int).to_multiset() =~= s.to_multiset().remove(s[i as int]));
            lemma_insert_multiset(s.remove(i as int), j as int, s[i as int]);
            assert(s.to_multiset().remove(s[i as int]).insert(s[i as int]) =~= s.to_multiset());
            assert(n.to_multiset() =~= s.to_multiset());
            let pre = s.subrange(0, i as int);
            assert(forall|k: int| 0 <= k < i ==> pre[k] == s[k]);
            assert forall|a: int, b: int| 0 <= a < b < i + 1 implies #[trigger] record_le(
                n[a],
                n[b],
            ) by {
                if b < j {
                    assert(record_le(pre[a], pre[b]));
                } else if b == j {
                    // n[b] is the moved record; its predecessor in the
                    // old prefix precedes it, and order is transitive.
                    assert(j > 0);
                    assert(record_le(s[j - 1], s[i as int]));
                    if a < j - 1 {
                        assert(record_le(pre[a], pre[j - 1]));
                        lemma_bytes_le_trans(
                            spec_path_bytes(s[a]),
                            spec_path_bytes(s[j - 1]),
                            spec_path_bytes(s[i as int]),
                        );
                    }
                } else if a < j {
                    assert(n[a] == s[a]);
                    assert(a < b - 1 < i);
                    assert(record_le(pre[a], pre[b - 1]));
                } else if a == j {
                    assert(record_le(s[i as int], s[b - 1]));
                } else {
                    assert(j < a <= i && j < b <= i);
                    assert(a - 1 < b - 1 < i);
                    assert(record_le(pre[a - 1], pre[b - 1]));
                }
            }
            assert(sorted_by_path(n.subrange(0, i + 1))) by {
                assert(forall|a: int, b: int|
                    0 <= a < b < i + 1 ==> #[trigger] record_le(
                        n.subrange(0, i + 1)[a],
                        n.subrange(0, i + 1)[b],
                    ));
            }
        }
        i = i + 1;
    }
    proof {
        assert(arr@.subrange(0, arr@.len() as int) =~= arr@);
    }
    arr
}

/// Law: a sorted arrangement of records with pairwise distinct paths is
/// unique, so the final list for a fixed set of results is the same
/// whatever order traversal and workers produced them in.
pub proof fn lemma_sorted_records_unique(s1: Seq<DigestRecord>, s2: Seq<DigestRecord>)
    requires
        sorted_by_path(s1),
        sorted_by_path(s2),
        distinct_paths(s1),
        s1.to_multiset() == s2.to_multiset(),
    ensures
        s1 =~= s2,
    decreases s1.len(),
{
    broadcast use vstd::multiset::group_multiset_axioms;

    s1.to_multiset_ensures();
    s2.to_multiset_ensures();
    if s1.len() == 0 {
        assert(s2.to_multiset().len() == 0);
        assert(s2.len() == 0);
    } else {
        assert(s1.to_multiset().len() == s2.to_multiset().len());
        assert(s1.to_multiset().len() == s1.len());
        assert(s2.to_multiset().len() == s2.len());
        assert(s2.len() > 0);
        // The head of each sequence is a least record of the shared
        // multiset, so the heads carry the same path; distinctness then
        // makes them the same record.
        assert(s1.to_multiset().contains(s1[0]));
        assert(s2.to_multiset().contains(s2[0]));
        assert(s1.contains(s2[0]));
        assert(s2.contains(s1[0]));
        let i = choose|i: int| 0 <= i < s1.len() && s1[i] == s2[0];
        let j = choose|j: int| 0 <= j < s2.len() && s2[j] == s1[0];
        if i > 0 {
            assert(record_le(s1[0], s1[i]));
        } else {
            lemma_bytes_le_total(spec_path_bytes(s1[0]), spec_path_bytes(s1[0]));
        }
        if j > 0 {
            assert(record_le(s2[0], s2[j]));
        } else {
            lemma_bytes_le_total(spec_path_bytes(s2[0]), spec_path_bytes(s2[0]));
        }
        lemma_bytes_le_antisym(spec_path_bytes(s1[0]), spec_path_bytes(s2[0]));
        assert(spec_path_bytes(s1[0]) == spec_path_bytes(s1[i]));
        assert(i == 0);
        assert(s1[0] == s2[0]);
        assert(s1.drop_first() =~= s1.remove(0));
        assert(s2.drop_first() =~= s2.remove(0));
        assert(s1.remove(0).to_multiset() =~= s1.to_multiset().remove(s1[0]));
        assert(s2.remove(0).to_multiset() =~= s2.to_multiset().remove(s2[0]));
        assert(s1.drop_first().to_multiset() =~= s1.to_multiset().remove(s1[0]));
        assert(s2.drop_first().to_multiset() =~= s2.to_multiset().remove(s2[0]));
        assert(sorted_by_path(s1.drop_first())) by {
            assert(forall|a: int, b: int|
                0 <= a < b < s1.len() - 1 ==> s1.drop_first()[a] == s1[a + 1]
                    && s1.drop_first()[b] == s1[b + 1]);
        }
        assert(sorted_by_path(s2.drop_first())) by {
            assert(forall|a: int, b: int|
                0 <= a < b < s2.len() - 1 ==> s2.drop_first()[a] == s2[a + 1]
                    && s2.drop_first()[b] == s2[b + 1]);
        }
        assert(distinct_paths(s1.drop_first())) by {
            assert(forall|a: int, b: int|
                0 <= a < b < s1.len() - 1 ==> s1.drop_first()[a] == s1[a + 1]
                    && s1.drop_first()[b] == s1[b + 1]);
        }
        lemma_sorted_records_unique(s1.drop_first(), s2.drop_first());
        assert(forall|k: int| 1 <= k < s1.len() ==> s1[k] == s1.drop_first()[k - 1]);
        assert(forall|k: int| 1 <= k < s2.len() ==> s2[k] == s2.drop_first()[k - 1]);
    }
}

/// What one unit of work came to: a record, or a path whose read or
/// hash failed.  Failures are kept and reported, never silently lost.
#[derive(Debug)]
pub enum WorkOutcome {
    Hashed { path: String, hash: String },
    Failed { path: String },
}

/// The successfully hashed records among the outcomes, in order.
pub open spec fn spec_success_records(s: Seq<WorkOutcome>) -> Seq<DigestRecord>
    decreases s.len(),
{
    if s.len() == 0 {
        Seq::empty()
    } else {
        spec_success_records(s.drop_last()) + (match s.last() {
            WorkOutcome::Hashed { path, hash } => seq![DigestRecord { path, hash }],
            WorkOutcome::Failed { .. } => Seq::empty(),
        })
    }
}

/// The paths that failed, in order.
pub open spec fn spec_failed_paths(s: Seq<WorkOutcome>) -> Seq<String>
    decreases s.len(),
{
    if s.len() == 0 {
        Seq::empty()
    } else {
        spec_failed_paths(s.drop_last()) + (match s.last() {
            WorkOutcome::Hashed { .. } => Seq::empty(),
            WorkOutcome::Failed { path } => seq![path],
        })
    }
}

/// A run's aggregated results: the sorted records, and the paths whose
/// hashing failed.
#[derive(Debug)]
pub struct RunResults {
    pub records: Vec<DigestRecord>,
    pub failed_paths: Vec<String>,
}

/// Fold the per-file outcomes of a run into its final shape: every
/// success becomes a record, sorted by path; every failure keeps its
/// path in the failure list.
pub fn collect_results(items: &Vec<WorkOutcome>) -> (r: RunResults)
    ensures
        sorted_by_path(r.records@),
        r.records@.to_multiset() == spec_success_records(items@).to_multiset(),
        r.failed_paths@ == spec_failed_paths(items@),
{
    let mut successes: Vec<DigestRecord> = Vec::new();
    let mut failed_paths: Vec<String> = Vec::new();
    let mut i: usize = 0;
    proof {
        assert(items@.subrange(0, 0) =~= Seq::<WorkOutcome>::empty());
    }
    while i < items.len()
        invariant
            i <= items@.len(),
            successes@ == spec_success_records(items@.subrange(0, i as int)),
            failed_paths@ == spec_failed_paths(items@.subrange(0, i as int)),
        decreases items@.len() - i,
    {
        proof {
            let pre = items@.subrange(0, i as int);
            let post = items@.subrange(0, i + 1);
            assert(post.drop_last() =~= pre);
            assert(post.last() == items@[i as int]);
        }
        match &items[i] {
            WorkOutcome::Hashed { path, hash } => {
                successes.push(DigestRecord { path: path.clone(), hash: hash.clone() });
            },
            WorkOutcome::Failed { path } => {
                failed_paths.push(path.clone());
            },
        }
        proof {
            assert(successes@ =~= spec_success_records(items@.subrange(0, i + 1)));
            assert(failed_paths@ =~= spec_failed_paths(items@.subrange(0, i + 1)));
        }
        i = i + 1;
    }
    proof {
        assert(items@.subrange(0, items@.len() as int) =~= items@);
    }
    let records = sort_records(successes);
    RunResults { records, failed_paths }
}

} // verus!
