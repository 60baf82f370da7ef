//! Glob-based exclusion of files from a hashing run.
//!
//! The patterns compile into a globset matcher.  Which paths a pattern
//! matches is the matcher's own business; the engine names that
//! relation and proves that everything it keeps is a path the compiled
//! set does not match, and that nothing else is dropped.

use vstd::prelude::*;

verus! {

#[verifier::external_type_specification]
#[verifier::external_body]
pub struct ExGlobSet(globset::GlobSet);

#[verifier::external_type_specification]
#[verifier::external_body]
pub struct ExGlobSetBuilder(globset::GlobSetBuilder);

#[verifier::external_type_specification]
#[verifier::external_body]
pub struct ExGlobError(globset::Error);

/// The patterns a builder has accumulated, in the order they were added.
pub uninterp spec fn builder_pats(b: globset::GlobSetBuilder) -> Seq<Seq<char>>;

/// The patterns a compiled set was built from.
pub uninterp spec fn globset_pats(g: globset::GlobSet) -> Seq<Seq<char>>;

/// Whether the compiled form of `pats` matches `path`.
pub uninterp spec fn glob_match(pats: Seq<Seq<char>>, path: Seq<char>) -> bool;

/// Whether `pat` is valid glob syntax.
pub uninterp spec fn glob_pattern_ok(pat: Seq<char>) -> bool;

/// Whether a list of individually valid patterns compiles into one set.
pub uninterp spec fn globs_compile(pats: Seq<Seq<char>>) -> bool;

/// Relies on globset::GlobSetBuilder::new: a fresh builder holds no
/// patterns.
#[verifier::external_body]
fn globset_builder_new() -> (b: globset::GlobSetBuilder)
    ensures
        builder_pats(b) == Seq::<Seq<char>>::empty(),
{
    globset::GlobSetBuilder::new()
}

/// Relies on globset::Glob::new and globset::GlobSetBuilder::add: a
/// syntactically valid pattern compiles and is appended to the builder;
/// an invalid one reports its error and leaves the builder as it was.
#[verifier::external_body]
fn globset_builder_add(b: &mut globset::GlobSetBuilder, pat: &String) -> (r: Result<
    (),
    globset::Error,
>)
    ensures
        r is Ok <==> glob_pattern_ok(pat@),
        r is Ok ==> builder_pats(*final(b)) == builder_pats(*old(b)).push(pat@),
        r is Err ==> builder_pats(*final(b)) == builder_pats(*old(b)),
{
    match globset::Glob::new(pat.as_str()) {
        Ok(g) => {
            b.add(g);
            Ok(())
        },
        Err(e) => Err(e),
    }
}

/// Relies on globset::GlobSetBuilder::build: whether the accumulated
/// patterns compile is a function of them alone, and on success the
/// compiled set holds exactly the builder's patterns.
#[verifier::external_body]
fn globset_build(b: &globset::GlobSetBuilder) -> (r: Result<globset::GlobSet, globset::Error>)
    ensures
        r is Ok <==> globs_compile(builder_pats(*b)),
        r matches Ok(g) ==> globset_pats(g) == builder_pats(*b),
{
    b.build()
}

/// Relies on globset::GlobSet::is_match: whether any pattern of the set
/// matches the path; a set built from no patterns matches nothing.
#[verifier::external_body]
fn globset_is_match(g: &globset::GlobSet, path: &String) -> (r: bool)
    ensures
        r == glob_match(globset_pats(*g), path@),
        globset_pats(*g).len() == 0 ==> r == false,
{
    g.is_match(path.as_str())
}

/// A compiled set of exclusion patterns.
pub struct ExclusionSet {
    set: globset::GlobSet,
}

impl ExclusionSet {
    /// The patterns this set was built from.
    pub closed spec fn pats(self) -> Seq<Seq<char>> {
        globset_pats(self.set)
    }

    /// Compile a list of glob patterns.  The build succeeds exactly when
    /// every pattern is valid syntax and the set compiles; any invalid
    /// pattern fails the whole run, before any file is looked at.
    pub fn build(patterns: &Vec<String>) -> (r: Result<ExclusionSet, crate::config::HashError>)
        ensures
            r is Ok <==> ((forall|k: int|
                0 <= k < patterns@.len() ==> glob_pattern_ok(patterns.deep_view()[k]))
                && globs_compile(patterns.deep_view())),
            r matches Ok(e) ==> e.pats() == patterns.deep_view(),
            r matches Err(e) ==> e == crate::config::HashError::InvalidGlobPattern,
    {
        let ghost pats = patterns.deep_view();
        let mut b = globset_builder_new();
        let mut idx: usize = 0;
        proof {
            assert(pats.subrange(0, 0) =~= Seq::<Seq<char>>::empty());
        }
        while idx < patterns.len()
            invariant
                idx <= patterns@.len(),
                pats == patterns.deep_view(),
                pats.len() == patterns@.len(),
                builder_pats(b) == pats.subrange(0, idx as int),
                forall|k: int| 0 <= k < idx ==> glob_pattern_ok(pats[k]),
            decreases patterns@.len() - idx,
        {
            match globset_builder_add(&mut b, &patterns[idx]) {
                Ok(_) => {
                    proof {
                        assert(pats.subrange(0, idx + 1) =~= pats.subrange(0, idx as int).push(
                            pats[idx as int],
                        ));
                    }
                },
                Err(_) => {
                    proof {
                        assert(!glob_pattern_ok(pats[idx as int]));
                    }
                    return Err(crate::config::HashError::InvalidGlobPattern);
                },
            }
            idx = idx + 1;
        }
        proof {
            assert(pats.subrange(0, pats.len() as int) =~= pats);
        }
        match globset_build(&b) {
            Ok(set) => Ok(ExclusionSet { set }),
            Err(_) => Err(crate::config::HashError::InvalidGlobPattern),
        }
    }

    /// Whether this set excludes the path.
    pub fn is_excluded(&self, path: &String) -> (r: bool)
        ensures
            r == glob_match(self.pats(), path@),
            self.pats().len() == 0 ==> r == false,
    {
        globset_is_match(&self.set, path)
    }
}

/// The paths of `paths` that the exclusion set does not match, in their
/// original order.
pub open spec fn spec_kept_paths(paths: Seq<Seq<char>>, pats: Seq<Seq<char>>) -> Seq<Seq<char>>
    decreases paths.len(),
{
    if paths.len() == 0 {
        Seq::empty()
    } else {
        spec_kept_paths(paths.drop_last(), pats) + (if glob_match(pats, paths.last()) {
            Seq::empty()
        } else {
            seq![paths.last()]
        })
    }
}

/// Drop every excluded path before any file is opened; keep the rest,
/// in order.
pub fn filter_excluded(paths: &Vec<String>, excl: &ExclusionSet) -> (kept: Vec<String>)
    ensures
        kept.deep_view() == spec_kept_paths(paths.deep_view(), excl.pats()),
{
    let ghost pview = paths.deep_view();
    let mut kept: Vec<String> = Vec::new();
    let mut i: usize = 0;
    proof {
        assert(pview.subrange(0, 0) =~= Seq::<Seq<char>>::empty());
        assert(kept.deep_view() =~= spec_kept_paths(pview.subrange(0, 0), excl.pats()));
    }
    while i < paths.len()
        invariant
            i <= paths@.len(),
            pview == paths.deep_view(),
            pview.len() == paths@.len(),
            kept.deep_view() == spec_kept_paths(pview.subrange(0, i as int), excl.pats()),
        decreases paths@.len() - i,
    {
        proof {
            let pre = pview.subrange(0, i as int);
            let post = pview.subrange(0, i + 1);
            assert(post.drop_last() =~= pre);
            assert(post.last() == pview[i as int]);
        }
        if !excl.is_excluded(&paths[i]) {
            kept.push(paths[i].clone());
        }
        proof {
            assert(kept.deep_view() =~= spec_kept_paths(
                pview.subrange(0, i + 1),
                excl.pats(),
            ));
        }
        i = i + 1;
    }
    proof {
        assert(pview.subrange(0, pview.len() as int) =~= pview);
    }
    kept
}

/// Law: a path the exclusion set matches is never among the kept paths,
/// whatever list traversal produced.
pub proof fn lemma_excluded_never_kept(paths: Seq<Seq<char>>, pats: Seq<Seq<char>>, p: Seq<char>)
    requires
        glob_match(pats, p),
    ensures
        !spec_kept_paths(paths, pats).contains(p),
    decreases paths.len(),
{
    if paths.len() > 0 {
        lemma_excluded_never_kept(paths.drop_last(), pats, p);
        let kept = spec_kept_paths(paths, pats);
        let prev = spec_kept_paths(paths.drop_last(), pats);
        if kept.contains(p) {
            let k = choose|k: int| 0 <= k < kept.len() && kept[k] == p;
            if k < prev.len() {
                assert(prev[k] == p);
            } else {
                assert(!glob_match(pats, paths.last()));
            }
        }
    }
}

/// Law: a path the exclusion set does not match is always kept.
pub proof fn lemma_included_always_kept(paths: Seq<Seq<char>>, pats: Seq<Seq<char>>, i: int)
    requires
        0 <= i < paths.len(),
        !glob_match(pats, paths[i]),
    ensures
        spec_kept_paths(paths, pats).contains(paths[i]),
    decreases paths.len(),
{
    if i == paths.len() - 1 {
        let kept = spec_kept_paths(paths, pats);
        assert(kept[kept.len() - 1] == paths.last());
    } else {
        lemma_included_always_kept(paths.drop_last(), pats, i);
        let prev = spec_kept_paths(paths.drop_last(), pats);
        let k = choose|k: int| 0 <= k < prev.len() && prev[k] == paths.drop_last()[i];
        assert(spec_kept_paths(paths, pats)[k] == prev[k]);
        assert(paths.drop_last()[i] == paths[i]);
    }
}

} // verus!
