//! Manifest verification: parsing sumfile lines, the per-record policy
//! steps, judging a hashed file against its expected digest, and the
//! outcome tally that decides the run's completion signal.
//!
//! Each manifest record runs through a fixed pipeline.  The caller does
//! the I/O between stages (reading the manifest, canonicalizing paths,
//! probing and hashing files) and hands every observation back as plain
//! values; each stage's decision is specified exactly.

use vstd::prelude::*;
use crate::compare::{constant_time_eq, lemma_utf8_eq_iff_chars_eq};
use crate::pathpol::{spec_is_absolute, spec_resolve, spec_within, base_view, is_absolute_path,
    resolve_path, within_base};

verus! {

/// The whitespace characters recognized as field separators and
/// trimmable padding in a manifest line.
pub open spec fn is_space(c: char) -> bool {
    c == ' ' || c == '\t' || c == '\n' || c == '\r' || c == '\u{b}' || c == '\u{c}'
}

fn is_space_char(c: char) -> (r: bool)
    ensures
        r == is_space(c),
{
    c == ' ' || c == '\t' || c == '\n' || c == '\r' || c == '\u{b}' || c == '\u{c}'
}

/// Length of `s` once trailing whitespace is dropped.
pub open spec fn trim_end_len(s: Seq<char>) -> int
    decreases s.len(),
{
    if s.len() == 0 {
        0
    } else if is_space(s.last()) {
        trim_end_len(s.drop_last())
    } else {
        s.len() as int
    }
}

pub proof fn lemma_trim_end_len(s: Seq<char>)
    ensures
        0 <= trim_end_len(s) <= s.len(),
        forall|j: int| trim_end_len(s) <= j < s.len() ==> is_space(s[j]),
        trim_end_len(s) > 0 ==> !is_space(s[trim_end_len(s) - 1]),
    decreases s.len(),
{
    if s.len() > 0 && is_space(s.last()) {
        lemma_trim_end_len(s.drop_last());
        assert forall|j: int| trim_end_len(s) <= j < s.len() implies is_space(s[j]) by {
            if j < s.len() - 1 {
                assert(s.drop_last()[j] == s[j]);
            }
        }
        if trim_end_len(s) > 0 {
            assert(s.drop_last()[trim_end_len(s) - 1] == s[trim_end_len(s) - 1]);
        }
    }
}

/// `s` with trailing whitespace dropped.
pub open spec fn spec_trim_end(s: Seq<char>) -> Seq<char> {
    s.subrange(0, trim_end_len(s))
}

/// Number of leading whitespace characters of `s`.
pub open spec fn trim_start_idx(s: Seq<char>) -> int
    decreases s.len(),
{
    if s.len() == 0 {
        0
    } else if is_space(s[0]) {
        1 + trim_start_idx(s.drop_first())
    } else {
        0
    }
}

pub proof fn lemma_trim_start_idx(s: Seq<char>)
    ensures
        0 <= trim_start_idx(s) <= s.len(),
        forall|j: int| 0 <= j < trim_start_idx(s) ==> is_space(s[j]),
        trim_start_idx(s) < s.len() ==> !is_space(s[trim_start_idx(s)]),
    decreases s.len(),
{
    if s.len() > 0 && is_space(s[0]) {
        lemma_trim_start_idx(s.drop_first());
        assert forall|j: int| 0 <= j < trim_start_idx(s) implies is_space(s[j]) by {
            if j > 0 {
                assert(s.drop_first()[j - 1] == s[j]);
            }
        }
        if trim_start_idx(s) < s.len() {
            assert(s.drop_first()[trim_start_idx(s) - 1] == s[trim_start_idx(s)]);
        }
    }
}

/// `s` with leading whitespace dropped.
pub open spec fn spec_trim_start(s: Seq<char>) -> Seq<char> {
    s.subrange(trim_start_idx(s), s.len() as int)
}

/// Index of the first whitespace character of `s`, or its length if
/// there is none.
pub open spec fn first_space_idx(s: Seq<char>) -> int
    decreases s.len(),
{
    if s.len() == 0 {
        0
    } else if is_space(s[0]) {
        0
    } else {
        1 + first_space_idx(s.drop_first())
    }
}

pub proof fn lemma_first_space_idx(s: Seq<char>)
    ensures
        0 <= first_space_idx(s) <= s.len(),
        forall|j: int| 0 <= j < first_space_idx(s) ==> !is_space(s[j]),
        first_space_idx(s) < s.len() ==> is_space(s[first_space_idx(s)]),
    decreases s.len(),
{
    if s.len() > 0 && !is_space(s[0]) {
        lemma_first_space_idx(s.drop_first());
        assert forall|j: int| 0 <= j < first_space_idx(s) implies !is_space(s[j]) by {
            if j > 0 {
                assert(s.drop_first()[j - 1] == s[j]);
            }
        }
        if first_space_idx(s) < s.len() {
            assert(s.drop_first()[first_space_idx(s) - 1] == s[first_space_idx(s)]);
        }
    }
}

/// A line with nothing but whitespace; it carries no record.
pub open spec fn spec_line_blank(line: Seq<char>) -> bool {
    trim_end_len(line) == 0
}

/// What remains of the trimmed line after the first whitespace.
pub open spec fn spec_line_rest(line: Seq<char>) -> Seq<char> {
    let t = spec_trim_end(line);
    if first_space_idx(t) < t.len() {
        t.subrange(first_space_idx(t) + 1, t.len() as int)
    } else {
        Seq::empty()
    }
}

/// A nonblank line that does not split into a hash field and a nonempty
/// path: it starts with whitespace, or has no path after the hash.
pub open spec fn spec_line_malformed(line: Seq<char>) -> bool {
    let t = spec_trim_end(line);
    !spec_line_blank(line) && (first_space_idx(t) == 0 || spec_trim_start(
        spec_line_rest(line),
    ).len() == 0)
}

/// The hash field: the trimmed line up to the first whitespace.
pub open spec fn spec_line_hash(line: Seq<char>) -> Seq<char> {
    let t = spec_trim_end(line);
    t.subrange(0, first_space_idx(t))
}

/// The path field: the rest of the trimmed line, leading whitespace
/// dropped, so a path keeps any inner whitespace verbatim.
pub open spec fn spec_line_path(line: Seq<char>) -> Seq<char> {
    spec_trim_start(spec_line_rest(line))
}

/// The parse of one manifest line.
#[derive(Debug)]
pub enum ParsedLine {
    /// Nothing on the line: skipped, counted nowhere.
    Blank,
    /// No well-formed `<hash> <path>` split: a record error.
    Malformed,
    /// A record to verify.
    Record { hash: String, path: String },
}

impl ParsedLine {
    /// Parse one line of a sumfile manifest: trailing whitespace is
    /// trimmed, the first whitespace run separates the hash from the
    /// path, and a missing hash or path makes the line malformed.
    pub fn parse(line: &str) -> (r: ParsedLine)
        ensures
            r is Blank <==> spec_line_blank(line@),
            r is Malformed <==> spec_line_malformed(line@),
            r matches ParsedLine::Record { hash, path } ==> hash@ == spec_line_hash(line@)
                && path@ == spec_line_path(line@),
    {
        let n = line.unicode_len();
        proof {
            assert(line@.subrange(0, n as int) =~= line@);
        }
        // Find the end of the line once trailing whitespace is dropped.
        let mut e: usize = n;
        while e > 0 && is_space_char(line.get_char(e - 1))
            invariant
                e <= n,
                n == line@.len(),
                trim_end_len(line@) == trim_end_len(line@.subrange(0, e as int)),
            decreases e,
        {
            proof {
                let cur = line@.subrange(0, e as int);
                assert(cur.last() == line@[e - 1]);
                assert(cur.drop_last() =~= line@.subrange(0, e - 1));
            }
            e = e - 1;
        }
        let ghost t = spec_trim_end(line@);
        proof {
            lemma_trim_end_len(line@);
            if e == 0 {
                assert(line@.subrange(0, 0) =~= Seq::<char>::empty());
            } else {
                // The last kept character is no whitespace, so the trim
                // stops exactly here.
                assert(trim_end_len(line@.subrange(0, e as int)) == e);
            }
            assert(trim_end_len(line@) == e);
            assert(t.len() == e);
            assert(forall|j: int| 0 <= j < e ==> t[j] == line@[j]);
        }
        if e == 0 {
            return ParsedLine::Blank;
        }
        // Find the first whitespace inside the trimmed line.
        let mut fs: usize = 0;
        while fs < e && !is_space_char(line.get_char(fs))
            invariant
                fs <= e,
                e <= n,
                n == line@.len(),
                t == spec_trim_end(line@),
                t.len() == e,
                forall|j: int| 0 <= j < e ==> t[j] == line@[j],
                forall|j: int| 0 <= j < fs ==> !is_space(t[j]),
            decreases e - fs,
        {
            fs = fs + 1;
        }
        proof {
            lemma_first_space_idx(t);
            let k = first_space_idx(t);
            if fs < k {
                assert(!is_space(t[fs as int]));
                assert(fs < e);
                assert(is_space(line@[fs as int]));
            }
            if k < fs {
                assert(!is_space(t[k]));
                assert(k < e);
                assert(is_space(t[k]));
            }
            assert(fs == first_space_idx(t));
        }
        if fs == 0 {
            return ParsedLine::Malformed;
        }
        if fs == e {
            proof {
                assert(spec_line_rest(line@) =~= Seq::<char>::empty());
                lemma_trim_start_idx(spec_line_rest(line@));
            }
            return ParsedLine::Malformed;
        }
        let ghost rest = spec_line_rest(line@);
        proof {
            assert(rest =~= t.subrange(fs + 1, e as int));
        }
        // Skip the rest of the whitespace run before the path.
        let mut ps: usize = fs + 1;
        while ps < e && is_space_char(line.get_char(ps))
            invariant
                fs + 1 <= ps <= e,
                e <= n,
                n == line@.len(),
                t == spec_trim_end(line@),
                t.len() == e,
                forall|j: int| 0 <= j < e ==> t[j] == line@[j],
                rest == spec_line_rest(line@),
                rest.len() == e - fs - 1,
                forall|j: int| 0 <= j < rest.len() ==> rest[j] == line@[fs + 1 + j],
                forall|j: int| 0 <= j < ps - fs - 1 ==> is_space(rest[j]),
            decreases e - ps,
        {
            ps = ps + 1;
        }
        proof {
            lemma_trim_start_idx(rest);
            let k = trim_start_idx(rest);
            let k0 = ps - fs - 1;
            if k < k0 {
                assert(!is_space(rest[k]));
                assert(is_space(rest[k]));
            }
            if k0 < k {
                assert(is_space(rest[k0]));
                assert(ps < e);
                assert(!is_space(line@[ps as int]));
            }
            assert(trim_start_idx(rest) == ps - fs - 1);
        }
        if ps == e {
            proof {
                assert(spec_trim_start(rest).len() == 0);
            }
            return ParsedLine::Malformed;
        }
        let hash_str = line.substring_char(0, fs);
        let path_str = line.substring_char(ps, e);
        proof {
            assert(hash_str@ =~= spec_line_hash(line@));
            assert(path_str@ =~= spec_trim_start(rest));
            assert(spec_trim_start(rest).len() > 0);
        }
        ParsedLine::Record {
            hash: String::from_str(hash_str),
            path: String::from_str(path_str),
        }
    }
}

/// How one parsed line advances the run, before any filesystem work.
#[derive(Debug)]
pub enum LineDisposition {
    /// A blank line: skipped, counted nowhere.
    Skip,
    /// The line's outcome is already decided.
    Decided(VerificationOutcome),
    /// The record still needs its file resolved and probed.
    Verify { hash: String, path: String },
}

/// The per-line rule of the manifest state machine: a blank line is
/// skipped, a malformed one is a record error but never fatal, and a
/// well-formed record goes on to verification.
pub fn dispose_line(p: ParsedLine) -> (r: LineDisposition)
    ensures
        p is Blank <==> r is Skip,
        p is Malformed <==> r is Decided,
        r matches LineDisposition::Decided(o) ==> o == VerificationOutcome::ReadOrParseError,
        p matches ParsedLine::Record { hash, path } ==> (r matches LineDisposition::Verify {
            hash: h,
            path: q,
        } && h == hash && q == path),
{
    match p {
        ParsedLine::Blank => LineDisposition::Skip,
        ParsedLine::Malformed => LineDisposition::Decided(
            VerificationOutcome::ReadOrParseError,
        ),
        ParsedLine::Record { hash, path } => LineDisposition::Verify { hash, path },
    }
}

/// The first policy decision on a record: an absolute path is rejected
/// unless allowed; otherwise the path is resolved against the base.
#[derive(Debug)]
pub enum RecordStep {
    /// The raw path is absolute and absolute paths are not allowed: the
    /// record's outcome is decided without the file being touched.
    Rejected(VerificationOutcome),
    /// The path to look at, and whether a containment check against the
    /// base directory is still owed.
    Resolved { resolved: String, needs_containment: bool },
}

pub fn prepare_record(raw_path: &String, allow_absolute: bool, base: Option<&String>) -> (r:
    RecordStep)
    ensures
        r is Rejected <==> (!allow_absolute && spec_is_absolute(raw_path@)),
        r matches RecordStep::Rejected(o) ==> o == VerificationOutcome::InvalidPath,
        r matches RecordStep::Resolved { resolved, needs_containment } ==> resolved@
            == spec_resolve(raw_path@, base_view(base)) && needs_containment == (base is Some),
{
    if !allow_absolute && is_absolute_path(raw_path.as_str()) {
        RecordStep::Rejected(VerificationOutcome::InvalidPath)
    } else {
        let resolved = resolve_path(raw_path, base);
        let needs_containment = match base {
            Some(_) => true,
            None => false,
        };
        RecordStep::Resolved { resolved, needs_containment }
    }
}

/// The verdict of the escape check against the canonical base directory.
#[derive(Clone, Copy, Debug, PartialEq, Eq, Structural)]
pub enum ContainmentVerdict {
    /// The base directory itself could not be canonicalized: a hard
    /// record error, not a silent pass.
    BaseUnresolvable,
    /// The canonical resolved path lies outside the canonical base.
    Escapes,
    /// No escape shown: the path is within the base, or it has no
    /// canonical form yet (a missing file is reported as missing, not
    /// as an escape).
    Contained,
}

/// Decide the escape check from the canonicalization results: `None`
/// stands for a path that could not be canonicalized.
pub fn check_containment(base_canon: Option<&String>, resolved_canon: Option<&String>) -> (r:
    ContainmentVerdict)
    ensures
        r is BaseUnresolvable <==> base_canon is None,
        base_canon is Some && resolved_canon is Some ==> (r is Escapes <==> !spec_within(
            base_canon->0@,
            resolved_canon->0@,
        )),
        base_canon is Some && resolved_canon is None ==> r is Contained,
{
    match base_canon {
        None => ContainmentVerdict::BaseUnresolvable,
        Some(b) => match resolved_canon {
            None => ContainmentVerdict::Contained,
            Some(p) => if within_base(b, p) {
                ContainmentVerdict::Contained
            } else {
                ContainmentVerdict::Escapes
            },
        },
    }
}

/// What the escape check decides for the record: `None` lets the record
/// proceed to the file probe; a broken base is a hard record error, and
/// an escaping path is an invalid one.  Either way the file itself is
/// never read.
pub fn outcome_of_containment(v: &ContainmentVerdict) -> (r: Option<VerificationOutcome>)
    ensures
        v is BaseUnresolvable ==> r == Some(VerificationOutcome::ReadOrParseError),
        v is Escapes ==> r == Some(VerificationOutcome::InvalidPath),
        v is Contained ==> r is None,
{
    match v {
        ContainmentVerdict::BaseUnresolvable => Some(VerificationOutcome::ReadOrParseError),
        ContainmentVerdict::Escapes => Some(VerificationOutcome::InvalidPath),
        ContainmentVerdict::Contained => None,
    }
}

/// What the caller observed when it went to hash the resolved path.
#[derive(Debug)]
pub enum HashProbe {
    /// The path does not exist.
    Absent,
    /// The file exists but reading or hashing it failed.
    Unreadable,
    /// The computed lowercase hex digest of the file's bytes.
    Computed(String),
}

/// The outcome of one manifest record.
#[derive(Clone, Copy, Debug, PartialEq, Eq, Structural)]
pub enum VerificationOutcome {
    Matched,
    Mismatched,
    Missing,
    InvalidPath,
    ReadOrParseError,
}

/// Judge a record from what the probe of its file showed.  A computed
/// digest is compared to the expected hash in constant time; the match
/// is exact (same length, same characters).
pub fn judge_probe(expected: &String, probe: &HashProbe) -> (r: VerificationOutcome)
    ensures
        probe is Absent ==> r == VerificationOutcome::Missing,
        probe is Unreadable ==> r == VerificationOutcome::ReadOrParseError,
        probe matches HashProbe::Computed(h) ==> ((r == VerificationOutcome::Matched <==> h@
            == expected@) && (r == VerificationOutcome::Matched || r
            == VerificationOutcome::Mismatched)),
{
    match probe {
        HashProbe::Absent => VerificationOutcome::Missing,
        HashProbe::Unreadable => VerificationOutcome::ReadOrParseError,
        HashProbe::Computed(h) => {
            let same = constant_time_eq(h.as_str().as_bytes(), expected.as_str().as_bytes());
            proof {
                lemma_utf8_eq_iff_chars_eq(h@, expected@);
            }
            if same {
                VerificationOutcome::Matched
            } else {
                VerificationOutcome::Mismatched
            }
        },
    }
}

/// How many entries of `s` are the outcome `o`.
pub open spec fn count_in(s: Seq<VerificationOutcome>, o: VerificationOutcome) -> nat
    decreases s.len(),
{
    if s.len() == 0 {
        0
    } else {
        count_in(s.drop_last(), o) + if s.last() == o {
            1nat
        } else {
            0nat
        }
    }
}

pub proof fn lemma_count_in_le_len(s: Seq<VerificationOutcome>, o: VerificationOutcome)
    ensures
        count_in(s, o) <= s.len(),
    decreases s.len(),
{
    if s.len() > 0 {
        lemma_count_in_le_len(s.drop_last(), o);
    }
}

/// The per-run outcome counters.
#[derive(Clone, Copy, Debug, PartialEq, Eq, Structural)]
pub struct Counts {
    pub ok: usize,
    pub failed: usize,
    pub missing: usize,
    pub invalid_path: usize,
    pub errors: usize,
}

impl Counts {
    /// The counts fit a sequence of outcomes: each field counts its
    /// outcome in the sequence.
    pub open spec fn tallies(self, s: Seq<VerificationOutcome>) -> bool {
        &&& self.ok == count_in(s, VerificationOutcome::Matched)
        &&& self.failed == count_in(s, VerificationOutcome::Mismatched)
        &&& self.missing == count_in(s, VerificationOutcome::Missing)
        &&& self.invalid_path == count_in(s, VerificationOutcome::InvalidPath)
        &&& self.errors == count_in(s, VerificationOutcome::ReadOrParseError)
    }

    /// A clean run: nothing but matches.
    pub open spec fn spec_clean(self) -> bool {
        self.failed == 0 && self.missing == 0 && self.invalid_path == 0 && self.errors == 0
    }

    pub fn is_clean(&self) -> (r: bool)
        ensures
            r == self.spec_clean(),
    {
        self.failed == 0 && self.missing == 0 && self.invalid_path == 0 && self.errors == 0
    }

    /// The process completion signal: zero only for a clean run.
    pub fn exit_code(&self) -> (r: i32)
        ensures
            r == if self.spec_clean() {
                0int
            } else {
                1int
            },
    {
        if self.is_clean() {
            0
        } else {
            1
        }
    }
}

/// Count the outcomes of a run.  Every outcome lands in exactly one
/// counter; none is lost.
pub fn tally(outcomes: &Vec<VerificationOutcome>) -> (c: Counts)
    ensures
        c.tallies(outcomes@),
{
    let mut c = Counts { ok: 0, failed: 0, missing: 0, invalid_path: 0, errors: 0 };
    let mut i: usize = 0;
    proof {
        assert(outcomes@.subrange(0, 0) =~= Seq::<VerificationOutcome>::empty());
    }
    while i < outcomes.len()
        invariant
            i <= outcomes@.len(),
            c.tallies(outcomes@.subrange(0, i as int)),
        decreases outcomes@.len() - i,
    {
        proof {
            let pre = outcomes@.subrange(0, i as int);
            let post = outcomes@.subrange(0, i + 1);
            assert(post.drop_last() =~= pre);
            assert(post.last() == outcomes@[i as int]);
            lemma_count_in_le_len(pre, VerificationOutcome::Matched);
            lemma_count_in_le_len(pre, VerificationOutcome::Mismatched);
            lemma_count_in_le_len(pre, VerificationOutcome::Missing);
            lemma_count_in_le_len(pre, VerificationOutcome::InvalidPath);
            lemma_count_in_le_len(pre, VerificationOutcome::ReadOrParseError);
        }
        match outcomes[i] {
            VerificationOutcome::Matched => {
                c.ok = c.ok + 1;
            },
            VerificationOutcome::Mismatched => {
                c.failed = c.failed + 1;
            },
            VerificationOutcome::Missing => {
                c.missing = c.missing + 1;
            },
            VerificationOutcome::InvalidPath => {
                c.invalid_path = c.invalid_path + 1;
            },
            VerificationOutcome::ReadOrParseError => {
                c.errors = c.errors + 1;
            },
        }
        i = i + 1;
    }
    proof {
        assert(outcomes@.subrange(0, outcomes@.len() as int) =~= outcomes@);
    }
    c
}

} // verus!
