use hashcc::config::{check_algorithm_policy, validate_config, Config, HashError};
use hashcc::algo::Algorithm;
use hashcc::exclude::{filter_excluded, ExclusionSet};

fn strings(xs: &[&str]) -> Vec<String> {
    xs.iter().map(|s| s.to_string()).collect()
}

#[test]
fn matching_files_are_excluded() {
    let excl = ExclusionSet::build(&strings(&["*.tmp"])).unwrap();
    assert!(excl.is_excluded(&"a.tmp".to_string()));
    assert!(!excl.is_excluded(&"b.txt".to_string()));
}

#[test]
fn excluded_path_never_in_kept_list() {
    let excl = ExclusionSet::build(&strings(&["**/*.tmp", "skip/**"])).unwrap();
    let paths = strings(&[
        "dir/a.tmp",
        "dir/b.txt",
        "skip/c.txt",
        "keep/d.log",
        "e.tmp",
    ]);
    let kept = filter_excluded(&paths, &excl);
    assert_eq!(kept, strings(&["dir/b.txt", "keep/d.log"]));
}

#[test]
fn empty_exclusion_set_matches_nothing() {
    let excl = ExclusionSet::build(&Vec::new()).unwrap();
    assert!(!excl.is_excluded(&"anything/at.all".to_string()));
    let paths = strings(&["x", "y"]);
    assert_eq!(filter_excluded(&paths, &excl), paths);
}

#[test]
fn invalid_glob_pattern_fails_fast() {
    let r = ExclusionSet::build(&strings(&["a["]));
    assert!(matches!(r, Err(HashError::InvalidGlobPattern)));
}

#[test]
fn weak_algorithm_gate_rejects_md5_and_sha1() {
    assert_eq!(
        check_algorithm_policy(&Algorithm::Md5, false),
        Err(HashError::WeakAlgorithmRejected)
    );
    assert_eq!(
        check_algorithm_policy(&Algorithm::Sha1, false),
        Err(HashError::WeakAlgorithmRejected)
    );
    assert_eq!(check_algorithm_policy(&Algorithm::Md5, true), Ok(()));
    assert_eq!(check_algorithm_policy(&Algorithm::Sha1, true), Ok(()));
    assert_eq!(check_algorithm_policy(&Algorithm::Sha256, false), Ok(()));
    assert_eq!(check_algorithm_policy(&Algorithm::Sha512, false), Ok(()));
    assert_eq!(check_algorithm_policy(&Algorithm::Blake3, false), Ok(()));
}

#[test]
fn weak_gate_fires_before_any_other_work() {
    // Even with an invalid exclusion pattern, the weak-algorithm gate
    // decides first: no pattern is compiled, no file is touched.
    let cfg = Config {
        algorithm: Algorithm::Md5,
        exclusions: strings(&["a["]),
        base_dir: None,
        allow_absolute_paths: false,
        allow_weak_algorithm: false,
    };
    let r = validate_config(&cfg);
    assert!(matches!(r, Err(HashError::WeakAlgorithmRejected)));
}

#[test]
fn valid_config_yields_a_matcher() {
    let cfg = Config {
        algorithm: Algorithm::Sha256,
        exclusions: strings(&["*.bak"]),
        base_dir: None,
        allow_absolute_paths: false,
        allow_weak_algorithm: false,
    };
    let excl = validate_config(&cfg).unwrap();
    assert!(excl.is_excluded(&"old.bak".to_string()));
    assert!(!excl.is_excluded(&"new.rs".to_string()));
}

#[test]
fn weak_algorithm_allowed_with_opt_in() {
    let cfg = Config {
        algorithm: Algorithm::Sha1,
        exclusions: Vec::new(),
        base_dir: None,
        allow_absolute_paths: false,
        allow_weak_algorithm: true,
    };
    assert!(validate_config(&cfg).is_ok());
}
