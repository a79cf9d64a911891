//! What is reported after the files were written back: every file that
//! could not be written, with the reason.

use vstd::prelude::*;
use vstd::string::StringExecFns;

verus! {

/// How writing one file back ended.
#[derive(Debug, PartialEq, Eq)]
pub struct Attempt {
    /// The file.
    pub path: String,
    /// Why it could not be written; nothing where it was.
    pub error: Option<String>,
}

/// A file that could not be written back.
#[derive(Debug, PartialEq, Eq)]
pub struct FailedJob {
    pub path: String,
    pub cause: String,
}

/// The files of a run that could not be written back, in the order in
/// which they were tried.
#[derive(Debug, PartialEq, Eq)]
pub struct FailedJobs(pub Vec<FailedJob>);

/// A failed job as contracts see it: the path and the cause.
pub open spec fn job_view(job: FailedJob) -> (Seq<char>, Seq<char>) {
    (job.path@, job.cause@)
}

/// The failed jobs as contracts see them.
pub open spec fn job_views(jobs: Seq<FailedJob>) -> Seq<(Seq<char>, Seq<char>)> {
    jobs.map_values(|job: FailedJob| job_view(job))
}

/// The attempts that failed, each with its cause, in the order of the
/// attempts.
pub open spec fn failures(attempts: Seq<Attempt>) -> Seq<(Seq<char>, Seq<char>)>
    decreases attempts.len(),
{
    if attempts.len() == 0 {
        Seq::empty()
    } else {
        let before = failures(attempts.drop_last());
        match attempts.last().error {
            Some(cause) => before.push((attempts.last().path@, cause@)),
            None => before,
        }
    }
}

/// The line that reports one failed job: the path, a colon and a space,
/// the cause, and a newline.
pub open spec fn report_line(job: (Seq<char>, Seq<char>)) -> Seq<char> {
    job.0 + seq![':', ' '] + job.1 + seq!['\n']
}

/// The lines that report failed jobs, one after the other.
pub open spec fn report_lines(jobs: Seq<(Seq<char>, Seq<char>)>) -> Seq<char>
    decreases jobs.len(),
{
    if jobs.len() == 0 {
        Seq::empty()
    } else {
        report_lines(jobs.drop_last()) + report_line(jobs.last())
    }
}

/// Every attempt is looked at, whatever became of the ones before it: the
/// run is fine if none failed, else all that failed are handed back
/// together.
pub fn collect_failures(attempts: Vec<Attempt>) -> (r: Result<(), FailedJobs>)
    ensures
        r is Ok <==> failures(attempts@).len() == 0,
        r matches Err(failed) ==> job_views(failed.0@) == failures(attempts@),
{
    let mut failed: Vec<FailedJob> = Vec::new();
    let mut i: usize = 0;
    while i < attempts.len()
        invariant
            i <= attempts@.len(),
            job_views(failed@) == failures(attempts@.take(i as int)),
        decreases attempts@.len() - i,
    {
        assert(attempts@.take(i + 1).drop_last() == attempts@.take(i as int));
        match &attempts[i].error {
            Some(cause) => {
                let ghost before = failed@;
                failed.push(FailedJob { path: attempts[i].path.clone(), cause: cause.clone() });
                assert(job_views(failed@) == job_views(before).push(
                    (attempts@[i as int].path@, cause@),
                ));
            },
            None => {},
        }
        i += 1;
    }
    assert(attempts@.take(i as int) == attempts@);
    if failed.len() == 0 {
        Ok(())
    } else {
        Err(FailedJobs(failed))
    }
}

impl FailedJobs {
    /// The report of a run's failures: one line for each file that could
    /// not be written back, with its cause.
    pub fn report(&self) -> (text: String)
        ensures
            text@ == report_lines(job_views(self.0@)),
    {
        proof {
            reveal_strlit(": ");
            reveal_strlit("\n");
        }
        let ghost jobs = job_views(self.0@);
        let mut text = String::new();
        let mut i: usize = 0;
        while i < self.0.len()
            invariant
                i <= self.0@.len(),
                jobs == job_views(self.0@),
                text@ == report_lines(jobs.take(i as int)),
                ": "@ == seq![':', ' '],
                "\n"@ == seq!['\n'],
            decreases self.0@.len() - i,
        {
            assert(jobs.take(i + 1).drop_last() == jobs.take(i as int));
            assert(jobs.take(i + 1).last() == job_view(self.0@[i as int]));
            text.append(self.0[i].path.as_str());
            text.append(": ");
            text.append(self.0[i].cause.as_str());
            text.append("\n");
            i += 1;
        }
        assert(jobs.take(i as int) == jobs);
        text
    }
}

} // verus!
