//! Setting up a run: checking the shapes of the input and output paths,
//! turning candidates into jobs, and sizing the worker pool.
use vstd::prelude::*;
use crate::job::JobSpec;
use crate::paths::{is_under, lemma_distinct_outputs, map_output_path, mapped_path, PathRelationError};
use crate::text::string_views;

verus! {

/// What is found on disk at a path.
#[derive(Clone, Copy, Debug, PartialEq, Eq, Structural)]
pub enum PathKind {
    Missing,
    File,
    Directory,
    /// Something that is neither a file nor a directory.
    Other,
}

/// A run that cannot start, because of its input or output path.
#[derive(Clone, Copy, Debug, PartialEq, Eq, Structural)]
pub enum ConfigError {
    /// The input path does not exist.
    InputMissing,
    /// The input path is neither a file nor a directory.
    InputNotFileOrDirectory,
    /// The input is a directory and the output exists as something else.
    OutputNotDirectory,
    /// The input is a file and the output is a directory.
    OutputIsDirectory,
    /// The input is a file and the output exists as neither a file nor a
    /// directory.
    OutputNotFile,
}

/// What has to be done before the jobs run.
#[derive(Clone, Copy, Debug, PartialEq, Eq, Structural)]
pub enum Setup {
    /// Nothing.
    Ready,
    /// Create the output directory.
    CreateOutputDir,
}

/// The startup rule: the input must be a file or a directory; a directory
/// input takes a directory output, created when missing; a file input
/// takes a file output, or one that does not exist yet.
pub open spec fn startup_of(input: PathKind, output: Option<PathKind>) -> Result<Setup, ConfigError> {
    match input {
        PathKind::Missing => Err(ConfigError::InputMissing),
        PathKind::Other => Err(ConfigError::InputNotFileOrDirectory),
        PathKind::Directory => match output {
            None => Ok(Setup::Ready),
            Some(PathKind::Directory) => Ok(Setup::Ready),
            Some(PathKind::Missing) => Ok(Setup::CreateOutputDir),
            Some(_) => Err(ConfigError::OutputNotDirectory),
        },
        PathKind::File => match output {
            Some(PathKind::Directory) => Err(ConfigError::OutputIsDirectory),
            Some(PathKind::Other) => Err(ConfigError::OutputNotFile),
            _ => Ok(Setup::Ready),
        },
    }
}

/// Checks the input and output paths once, before any job runs.
pub fn check_paths(input: PathKind, output: Option<PathKind>) -> (r: Result<Setup, ConfigError>)
    ensures
        r == startup_of(input, output),
{
    match input {
        PathKind::Missing => Err(ConfigError::InputMissing),
        PathKind::Other => Err(ConfigError::InputNotFileOrDirectory),
        PathKind::Directory => match output {
            None => Ok(Setup::Ready),
            Some(PathKind::Directory) => Ok(Setup::Ready),
            Some(PathKind::Missing) => Ok(Setup::CreateOutputDir),
            Some(_) => Err(ConfigError::OutputNotDirectory),
        },
        PathKind::File => match output {
            Some(PathKind::Directory) => Err(ConfigError::OutputIsDirectory),
            Some(PathKind::Other) => Err(ConfigError::OutputNotFile),
            _ => Ok(Setup::Ready),
        },
    }
}

/// The view of an optional string.
pub open spec fn opt_view(o: Option<&str>) -> Option<Seq<char>> {
    match o {
        Some(s) => Some(s@),
        None => None,
    }
}

/// The view of an optional string.
pub open spec fn opt_string_view(o: Option<String>) -> Option<Seq<char>> {
    match o {
        Some(s) => Some(s@),
        None => None,
    }
}

/// The jobs of a directory run are the candidates in order; each writes to
/// its mapped path when there is an output root, else in place.
pub open spec fn jobs_match(jobs: Seq<JobSpec>, candidates: Seq<Seq<char>>, input_root: Seq<char>, output_root: Option<Seq<char>>) -> bool {
    &&& jobs.len() == candidates.len()
    &&& forall|i: int|
        0 <= i < jobs.len() ==> {
            &&& (#[trigger] jobs[i]).input_path@ == candidates[i]
            &&& opt_string_view(jobs[i].output_path) == match output_root {
                Some(o) => Some(mapped_path(candidates[i], input_root, Some(o))),
                None => None,
            }
        }
}

/// Turns the candidates found below `input_root` into jobs. Fails when an
/// output root is given and some candidate does not lie below the input
/// root.
pub fn plan_jobs(candidates: &Vec<String>, input_root: &str, output_root: Option<&str>) -> (r: Result<Vec<JobSpec>, PathRelationError>)
    ensures
        r is Ok <==> (output_root is None || forall|i: int|
            0 <= i < candidates.len() ==> is_under(#[trigger] candidates@[i]@, input_root@)),
        r matches Ok(jobs) ==> jobs_match(jobs@, string_views(candidates@), input_root@, opt_view(output_root)),
{
    let mut jobs: Vec<JobSpec> = Vec::new();
    let mut i: usize = 0;
    while i < candidates.len()
        invariant
            i <= candidates.len(),
            output_root is Some ==> forall|k: int| 0 <= k < i ==> is_under(#[trigger] candidates@[k]@, input_root@),
            jobs_match(jobs@, string_views(candidates@).take(i as int), input_root@, opt_view(output_root)),
        decreases candidates.len() - i,
    {
        let c = &candidates[i];
        let output = match output_root {
            None => None,
            Some(o) => match map_output_path(c.as_str(), input_root, Some(o)) {
                Ok(p) => Some(p),
                Err(e) => {
                    return Err(e);
                },
            },
        };
        jobs.push(JobSpec { input_path: c.clone(), output_path: output });
        i += 1;
        assert(string_views(candidates@).take(i as int)[i - 1] == candidates@[i - 1]@);
    }
    assert(string_views(candidates@).take(i as int) =~= string_views(candidates@));
    Ok(jobs)
}

/// Distinct candidates below the input root give jobs with distinct output
/// paths, so the jobs of a directory run write disjoint files and may run
/// in any order, or at once, with the same result.
pub proof fn lemma_jobs_write_disjoint_files(
    jobs: Seq<JobSpec>,
    candidates: Seq<Seq<char>>,
    input_root: Seq<char>,
    output_root: Seq<char>,
    i: int,
    j: int,
)
    requires
        jobs_match(jobs, candidates, input_root, Some(output_root)),
        forall|k: int| 0 <= k < candidates.len() ==> is_under(#[trigger] candidates[k], input_root),
        0 <= i < jobs.len(),
        0 <= j < jobs.len(),
        candidates[i] != candidates[j],
    ensures
        opt_string_view(jobs[i].output_path) != opt_string_view(jobs[j].output_path),
{
    assert(is_under(candidates[i], input_root));
    assert(is_under(candidates[j], input_root));
    assert(jobs[i].input_path@ == candidates[i]);
    assert(jobs[j].input_path@ == candidates[j]);
    lemma_distinct_outputs(candidates[i], candidates[j], input_root, output_root);
}

/// The job of a single-file run: the file itself, written to the output
/// path when one is given, else in place.
pub fn single_job(input_path: &str, output_path: Option<&str>) -> (r: JobSpec)
    ensures
        r.input_path@ == input_path@,
        opt_string_view(r.output_path) == opt_view(output_path),
{
    JobSpec {
        input_path: String::from_str(input_path),
        output_path: match output_path {
            Some(o) => Some(String::from_str(o)),
            None => None,
        },
    }
}

/// The number of workers for `cpus` processing units: twice as many,
/// capped at the largest `usize`, and at least one.
pub open spec fn pool_size_of(cpus: int) -> int {
    if cpus == 0 {
        1
    } else if 2 * cpus > usize::MAX {
        usize::MAX as int
    } else {
        2 * cpus
    }
}

/// The number of workers for `cpus` processing units.
pub fn pool_size(cpus: usize) -> (r: usize)
    ensures
        r == pool_size_of(cpus as int),
{
    if cpus == 0 {
        1
    } else if cpus > usize::MAX / 2 {
        usize::MAX
    } else {
        2 * cpus
    }
}

/// Relies on num_cpus::get: the number of processing units that this
/// process may use, which its documentation promises is at least 1.
#[verifier::external_body]
fn available_cpus() -> (r: usize)
    ensures
        r >= 1,
{
    num_cpus::get()
}

/// The number of workers for this machine.
pub fn worker_count() -> (r: usize)
    ensures
        r >= 2,
        exists|cpus: usize| cpus >= 1 && r == pool_size_of(cpus as int),
{
    let cpus = available_cpus();
    pool_size(cpus)
}

} // verus!
