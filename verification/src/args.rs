//! Job descriptors and their validation: the invariants enforced before any
//! job starts.
use vstd::prelude::*;

verus! {

use crate::ConfigError;
use crate::text::{spec_trim, trim_str};
use vstd::string::StrSliceExecFns;

/// The command-line arguments, as plain values: single-job mode or a path
/// to a multi-job configuration file.
#[derive(Clone, Debug)]
pub struct Args {
    pub path: Option<String>,
    pub search: Option<String>,
    pub regex: Option<String>,
    pub to: Vec<String>,
    pub recursive: bool,
    pub read_existing: bool,
    pub telegram_token: Option<String>,
    pub hash: Option<Vec<String>>,
    pub virustotal_token: Option<String>,
    pub config: Option<String>,
    pub verbose: u8,
}

/// One job: either a path target with a matcher, or a hash list to poll;
/// recipients; flags; optional per-job credentials overriding globals.
#[derive(Clone, Debug, PartialEq)]
pub struct JobSpec {
    pub path: Option<String>,
    pub search: Option<String>,
    pub regex: Option<String>,
    pub to: Vec<String>,
    pub recursive: bool,
    pub read_existing: bool,
    pub telegram_token: Option<String>,
    pub hash: Option<Vec<String>>,
    pub virustotal_token: Option<String>,
}

/// A loaded configuration file: global credentials and the job list.
#[derive(Debug)]
pub struct ConfigFile {
    pub telegram_token: Option<String>,
    pub virustotal_token: Option<String>,
    pub jobs: Vec<JobSpec>,
}

/// The default of `read_existing` when a job leaves it out.
pub fn default_true() -> (r: bool)
    ensures
        r,
{
    true
}

/// The default of `recursive` when a job leaves it out.
pub fn default_false() -> (r: bool)
    ensures
        !r,
{
    false
}

/// A job is a poll job when its hash list holds at least one entry that is
/// not blank after trimming.
pub open spec fn spec_is_vt(j: JobSpec) -> bool {
    match j.hash {
        Some(hs) => exists|i: int| 0 <= i < hs@.len() && spec_trim(hs@[i]@).len() != 0,
        None => false,
    }
}

fn has_nonblank(hs: &Vec<String>) -> (r: bool)
    ensures
        r == exists|i: int| 0 <= i < hs@.len() && spec_trim(hs@[i]@).len() != 0,
{
    let mut i: usize = 0;
    while i < hs.len()
        invariant
            i <= hs@.len(),
            forall|t: int| 0 <= t < i ==> spec_trim(hs@[t]@).len() == 0,
        decreases hs@.len() - i,
    {
        let t = trim_str(hs.get(i).unwrap().as_str());
        if !t.is_empty() {
            proof {
                assert(spec_trim(hs@[i as int]@).len() != 0);
            }
            return true;
        }
        i += 1;
    }
    false
}

/// Whether the job polls hashes rather than watching a path.
pub fn job_is_vt(j: &JobSpec) -> (r: bool)
    ensures
        r == spec_is_vt(*j),
{
    match &j.hash {
        Some(hs) => has_nonblank(hs),
        None => false,
    }
}

/// The checks on one job, in order: it must name exactly one of a path or a
/// hash list, have a recipient, and a path job must point at an existing
/// path and carry a matcher spec.
pub open spec fn spec_validate_job(j: JobSpec, path_exists: bool) -> Result<(), ConfigError> {
    let is_vt = spec_is_vt(j);
    let has_path = j.path is Some;
    if !is_vt && !has_path {
        Err(ConfigError::NoTarget)
    } else if is_vt && has_path {
        Err(ConfigError::BothTargets)
    } else if j.to@.len() == 0 {
        Err(ConfigError::NoRecipients)
    } else if is_vt {
        Ok(())
    } else if !path_exists {
        Err(ConfigError::PathNotFound)
    } else if j.search is None && j.regex is None {
        Err(ConfigError::NoMatcher)
    } else {
        Ok(())
    }
}

/// Validate one job descriptor; `path_exists` reports whether the job's
/// path names an existing file or directory.
pub fn validate_job(j: &JobSpec, path_exists: bool) -> (r: Result<(), ConfigError>)
    ensures
        r == spec_validate_job(*j, path_exists),
{
    let is_vt = job_is_vt(j);
    let has_path = j.path.is_some();
    if !is_vt && !has_path {
        Err(ConfigError::NoTarget)
    } else if is_vt && has_path {
        Err(ConfigError::BothTargets)
    } else if j.to.len() == 0 {
        Err(ConfigError::NoRecipients)
    } else if is_vt {
        Ok(())
    } else if !path_exists {
        Err(ConfigError::PathNotFound)
    } else if j.search.is_none() && j.regex.is_none() {
        Err(ConfigError::NoMatcher)
    } else {
        Ok(())
    }
}

/// The first failing job from position `i` on, with its error, if any.
pub open spec fn spec_first_invalid(jobs: Seq<JobSpec>, flags: Seq<bool>, i: int) -> Option<
    (int, ConfigError),
>
    decreases jobs.len() - i,
{
    if i < 0 || i >= jobs.len() {
        None
    } else {
        match spec_validate_job(jobs[i], flags[i]) {
            Err(e) => Some((i, e)),
            Ok(_) => spec_first_invalid(jobs, flags, i + 1),
        }
    }
}

/// Validate a loaded job list before any job starts: an empty list is
/// refused, and the first invalid job is reported with its position. Any
/// error here is fatal to the whole process.
pub fn validate_jobs(jobs: &Vec<JobSpec>, path_exists: &Vec<bool>) -> (r: Result<
    (),
    (usize, ConfigError),
>)
    requires
        path_exists@.len() == jobs@.len(),
    ensures
        jobs@.len() == 0 ==> r == Err::<(), (usize, ConfigError)>((0usize, ConfigError::NoJobs)),
        jobs@.len() > 0 ==> match r {
            Ok(_) => spec_first_invalid(jobs@, path_exists@, 0) is None,
            Err((i, e)) => spec_first_invalid(jobs@, path_exists@, 0) == Some((i as int, e)),
        },
{
    if jobs.len() == 0 {
        return Err((0, ConfigError::NoJobs));
    }
    let mut i: usize = 0;
    while i < jobs.len()
        invariant
            i <= jobs@.len(),
            path_exists@.len() == jobs@.len(),
            spec_first_invalid(jobs@, path_exists@, 0) == spec_first_invalid(
                jobs@,
                path_exists@,
                i as int,
            ),
        decreases jobs@.len() - i,
    {
        match validate_job(jobs.get(i).unwrap(), *path_exists.get(i).unwrap()) {
            Err(e) => {
                return Err((i, e));
            },
            Ok(_) => {},
        }
        i += 1;
    }
    Ok(())
}

fn clone_string_vec(v: &Vec<String>) -> (r: Vec<String>)
    ensures
        r@ == v@,
{
    let mut r: Vec<String> = Vec::new();
    let mut i: usize = 0;
    while i < v.len()
        invariant
            i <= v@.len(),
            r@ =~= v@.subrange(0, i as int),
        decreases v@.len() - i,
    {
        r.push(v.get(i).unwrap().clone());
        proof {
            assert(v@.subrange(0, i + 1) =~= v@.subrange(0, i as int).push(v@[i as int]));
        }
        i += 1;
    }
    proof {
        assert(v@.subrange(0, v@.len() as int) =~= v@);
    }
    r
}

fn clone_opt_string(o: &Option<String>) -> (r: Option<String>)
    ensures
        r == *o,
{
    match o {
        Some(s) => Some(s.clone()),
        None => None,
    }
}

/// Two optional hash lists hold the same entries.
pub open spec fn opt_vec_eq(a: Option<Vec<String>>, b: Option<Vec<String>>) -> bool {
    match a {
        Some(x) => b matches Some(y) && x@ == y@,
        None => b is None,
    }
}

fn clone_opt_vec(o: &Option<Vec<String>>) -> (r: Option<Vec<String>>)
    ensures
        opt_vec_eq(r, *o),
{
    match o {
        Some(v) => Some(clone_string_vec(v)),
        None => None,
    }
}

/// Build the single job of command-line mode: a hash makes a poll job, a
/// path with a matcher makes a watch job; the checks mirror the loader's,
/// in the order the command line reports them.
pub fn job_from_cli(args: &Args, path_exists: bool) -> (r: Result<JobSpec, ConfigError>)
    ensures
        args.hash is Some ==> match r {
            Err(e) => args.to@.len() == 0 && e == ConfigError::NoRecipients,
            Ok(j) => args.to@.len() > 0 && j.path is None && j.search is None && j.regex is None
                && j.to@ == args.to@ && !j.recursive && !j.read_existing && j.telegram_token
                == args.telegram_token && opt_vec_eq(j.hash, args.hash) && j.virustotal_token
                == args.virustotal_token,
        },
        args.hash is None ==> match r {
            Err(e) => if args.path is None {
                e == ConfigError::NoTarget
            } else if !path_exists {
                e == ConfigError::PathNotFound
            } else if args.search is None && args.regex is None {
                e == ConfigError::NoMatcher
            } else {
                args.to@.len() == 0 && e == ConfigError::NoRecipients
            },
            Ok(j) => args.path is Some && path_exists && (args.search is Some || args.regex
                is Some) && args.to@.len() > 0 && j.path == args.path && j.search == args.search
                && j.regex == args.regex && j.to@ == args.to@ && j.recursive == args.recursive
                && j.read_existing == args.read_existing && j.telegram_token
                == args.telegram_token && j.hash is None && j.virustotal_token
                == args.virustotal_token,
        },
{
    match &args.hash {
        Some(h) => {
            if args.to.len() == 0 {
                return Err(ConfigError::NoRecipients);
            }
            Ok(
                JobSpec {
                    path: None,
                    search: None,
                    regex: None,
                    to: clone_string_vec(&args.to),
                    recursive: false,
                    read_existing: false,
                    telegram_token: clone_opt_string(&args.telegram_token),
                    hash: Some(clone_string_vec(h)),
                    virustotal_token: clone_opt_string(&args.virustotal_token),
                },
            )
        },
        None => {
            if args.path.is_none() {
                return Err(ConfigError::NoTarget);
            }
            if !path_exists {
                return Err(ConfigError::PathNotFound);
            }
            if args.search.is_none() && args.regex.is_none() {
                return Err(ConfigError::NoMatcher);
            }
            if args.to.len() == 0 {
                return Err(ConfigError::NoRecipients);
            }
            Ok(
                JobSpec {
                    path: clone_opt_string(&args.path),
                    search: clone_opt_string(&args.search),
                    regex: clone_opt_string(&args.regex),
                    to: clone_string_vec(&args.to),
                    recursive: args.recursive,
                    read_existing: args.read_existing,
                    telegram_token: clone_opt_string(&args.telegram_token),
                    hash: None,
                    virustotal_token: clone_opt_string(&args.virustotal_token),
                },
            )
        },
    }
}

} // verus!
