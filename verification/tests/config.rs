use dende_rs::args::{
    default_false, default_true, job_from_cli, job_is_vt, validate_job, validate_jobs, Args,
    JobSpec,
};
use dende_rs::ConfigError;

fn base_job() -> JobSpec {
    JobSpec {
        path: None,
        search: None,
        regex: None,
        to: vec![String::from("console:x")],
        recursive: false,
        read_existing: true,
        telegram_token: None,
        hash: None,
        virustotal_token: None,
    }
}

#[test]
fn defaults_match_the_loader() {
    assert!(default_true());
    assert!(!default_false());
}

#[test]
fn a_blank_hash_list_is_not_a_poll_job() {
    let mut j = base_job();
    j.hash = Some(vec![String::from("  "), String::new()]);
    assert!(!job_is_vt(&j));
    j.hash = Some(vec![String::from("  "), String::from(" abc ")]);
    assert!(job_is_vt(&j));
}

#[test]
fn job_needs_exactly_one_target() {
    let j = base_job();
    assert_eq!(validate_job(&j, false), Err(ConfigError::NoTarget));

    let mut both = base_job();
    both.path = Some(String::from("/tmp/x"));
    both.hash = Some(vec![String::from("aa")]);
    assert_eq!(validate_job(&both, true), Err(ConfigError::BothTargets));
}

#[test]
fn job_needs_a_recipient() {
    let mut j = base_job();
    j.hash = Some(vec![String::from("aa")]);
    j.to = Vec::new();
    assert_eq!(validate_job(&j, false), Err(ConfigError::NoRecipients));
}

#[test]
fn path_job_needs_existing_path_and_matcher() {
    let mut j = base_job();
    j.path = Some(String::from("/nonexistent"));
    assert_eq!(validate_job(&j, false), Err(ConfigError::PathNotFound));
    assert_eq!(validate_job(&j, true), Err(ConfigError::NoMatcher));
    j.search = Some(String::from("ERROR"));
    assert_eq!(validate_job(&j, true), Ok(()));
}

#[test]
fn poll_job_needs_no_matcher() {
    let mut j = base_job();
    j.hash = Some(vec![String::from("aa")]);
    assert_eq!(validate_job(&j, false), Ok(()));
}

#[test]
fn empty_job_list_is_fatal() {
    assert_eq!(
        validate_jobs(&Vec::new(), &Vec::new()),
        Err((0, ConfigError::NoJobs))
    );
}

#[test]
fn first_invalid_job_is_reported_with_its_position() {
    let mut good = base_job();
    good.hash = Some(vec![String::from("aa")]);
    let bad = base_job();
    let jobs = vec![good.clone(), bad, good];
    let flags = vec![false, false, false];
    assert_eq!(validate_jobs(&jobs, &flags), Err((1, ConfigError::NoTarget)));
}

fn base_args() -> Args {
    Args {
        path: None,
        search: None,
        regex: None,
        to: vec![String::from("console:x")],
        recursive: true,
        read_existing: false,
        telegram_token: Some(String::from("tok")),
        hash: None,
        virustotal_token: None,
        config: None,
        verbose: 0,
    }
}

#[test]
fn cli_hash_mode_builds_a_poll_job() {
    let mut a = base_args();
    a.hash = Some(vec![String::from("aabb")]);
    let j = job_from_cli(&a, false).unwrap();
    assert!(j.path.is_none());
    assert_eq!(j.hash, Some(vec![String::from("aabb")]));
    assert!(!j.recursive);
    assert!(!j.read_existing);
    assert_eq!(j.to, a.to);
    assert_eq!(j.telegram_token, a.telegram_token);
}

#[test]
fn cli_path_mode_checks_in_order() {
    let a = base_args();
    assert_eq!(job_from_cli(&a, false), Err(ConfigError::NoTarget));

    let mut with_path = base_args();
    with_path.path = Some(String::from("/tmp"));
    assert_eq!(job_from_cli(&with_path, false), Err(ConfigError::PathNotFound));
    assert_eq!(job_from_cli(&with_path, true), Err(ConfigError::NoMatcher));

    with_path.regex = Some(String::from("E+"));
    with_path.to = Vec::new();
    assert_eq!(job_from_cli(&with_path, true), Err(ConfigError::NoRecipients));

    with_path.to = vec![String::from("console:y")];
    let j = job_from_cli(&with_path, true).unwrap();
    assert_eq!(j.path, Some(String::from("/tmp")));
    assert_eq!(j.regex, Some(String::from("E+")));
    assert!(j.recursive);
    assert!(!j.read_existing);
}
