//! The run configuration and the gates it must pass before any hashing.

use vstd::prelude::*;
use crate::algo::Algorithm;
use crate::exclude::{ExclusionSet, glob_pattern_ok, globs_compile};

verus! {

/// A fatal configuration error: it stops the run before any per-file
/// work starts.
#[derive(Clone, Copy, Debug, PartialEq, Eq, Structural)]
pub enum HashError {
    /// MD5 or SHA-1 selected without the explicit opt-in.
    WeakAlgorithmRejected,
    /// An exclusion pattern is not valid glob syntax.
    InvalidGlobPattern,
}

/// The options a caller hands the engine for one run.  Configuration is
/// always passed explicitly; the engine keeps no ambient state.
pub struct Config {
    pub algorithm: Algorithm,
    pub exclusions: Vec<String>,
    pub base_dir: Option<String>,
    pub allow_absolute_paths: bool,
    pub allow_weak_algorithm: bool,
}

/// The weak-algorithm gate: MD5 and SHA-1 are refused unless the caller
/// explicitly allows weak algorithms.
pub fn check_algorithm_policy(algorithm: &Algorithm, allow_weak: bool) -> (r: Result<
    (),
    HashError,
>)
    ensures
        r is Err <==> (algorithm.spec_is_weak() && !allow_weak),
        r is Err ==> r == Err::<(), HashError>(HashError::WeakAlgorithmRejected),
{
    if algorithm.is_weak() && !allow_weak {
        Err(HashError::WeakAlgorithmRejected)
    } else {
        Ok(())
    }
}

/// Validate a configuration before any hashing: the weak-algorithm
/// policy is applied first, then the exclusion patterns are compiled.
/// Validation succeeds exactly when the algorithm is acceptable and the
/// patterns compile, and per-file work needs the returned matcher, so
/// none can start until validation is done.
pub fn validate_config(cfg: &Config) -> (r: Result<ExclusionSet, HashError>)
    ensures
        r is Ok <==> (!(cfg.algorithm.spec_is_weak() && !cfg.allow_weak_algorithm) && (forall|
            k: int,
        |
            0 <= k < cfg.exclusions@.len() ==> glob_pattern_ok(cfg.exclusions.deep_view()[k]))
            && globs_compile(cfg.exclusions.deep_view())),
        cfg.algorithm.spec_is_weak() && !cfg.allow_weak_algorithm ==> r == Err::<
            ExclusionSet,
            HashError,
        >(HashError::WeakAlgorithmRejected),
        r == Err::<ExclusionSet, HashError>(HashError::WeakAlgorithmRejected) ==> (
        cfg.algorithm.spec_is_weak() && !cfg.allow_weak_algorithm),
        r matches Ok(e) ==> e.pats() == cfg.exclusions.deep_view(),
        (!(cfg.algorithm.spec_is_weak() && !cfg.allow_weak_algorithm) && !((forall|k: int|
            0 <= k < cfg.exclusions@.len() ==> glob_pattern_ok(cfg.exclusions.deep_view()[k]))
            && globs_compile(cfg.exclusions.deep_view()))) ==> r == Err::<
            ExclusionSet,
            HashError,
        >(HashError::InvalidGlobPattern),
{
    match check_algorithm_policy(&cfg.algorithm, cfg.allow_weak_algorithm) {
        Err(e) => Err(e),
        Ok(_) => ExclusionSet::build(&cfg.exclusions),
    }
}

} // verus!
