//! Waiting for jobs: asking for a job until it is done, and for all jobs of a submission in turn.

use vstd::prelude::*;
use crate::error::CliError;
use crate::json::{Json, JValue, Member, member, object_wf, pairs, text_less, values};
use crate::text::same_text;

verus! {

/// A job has run to its end.
pub open spec fn is_done(job: JValue) -> bool {
    job.text_at("status"@) == Some("done"@)
}

/// How many milliseconds to wait between two looks at a job: what was asked for, at least a
/// hundred.
pub fn watch_interval_ms(poll_interval_ms: u64) -> (r: u64)
    ensures
        r == (if poll_interval_ms < 100 {
            100
        } else {
            poll_interval_ms
        }),
{
    if poll_interval_ms < 100 {
        100
    } else {
        poll_interval_ms
    }
}

/// What to do about a job that was looked at.
#[derive(Debug)]
pub enum WatchStep {
    /// It is done.
    Done(Json),
    /// Look again after so many milliseconds.
    Wait { interval_ms: u64 },
}

/// What to do about a job that was looked at.
pub fn watch_job(job: Json, poll_interval_ms: u64) -> (r: WatchStep)
    ensures
        if is_done(job@) {
            r == WatchStep::Done(job)
        } else {
            r matches WatchStep::Wait { interval_ms } && interval_ms == (if poll_interval_ms < 100 {
                100
            } else {
                poll_interval_ms
            })
        },
{
    let done = match job.str_at("status") {
        Some(status) => same_text(status, "done"),
        None => false,
    };
    if done {
        WatchStep::Done(job)
    } else {
        WatchStep::Wait { interval_ms: watch_interval_ms(poll_interval_ms) }
    }
}

/// A submission whose jobs are waited for, in the order in which it lists them.
#[derive(Debug)]
pub struct SubmissionWait {
    pub submission: Json,
    pub finished: Vec<Json>,
}

/// What to do about a submission.
#[derive(Debug)]
pub enum SubmissionStep {
    /// Wait for this job.
    Watch { job_id: String },
    /// All jobs have finished.
    Finished,
}

/// What is told of a submission whose jobs have finished.
pub open spec fn wait_value(submission: JValue, finished: Seq<JValue>) -> JValue {
    JValue::Object(seq![("jobs"@, JValue::Array(finished)), ("submission"@, submission)])
}

/// What to do once a solution was submitted.
#[derive(Debug)]
pub enum Submitted {
    /// Tell the answer.
    Tell(Json),
    /// Wait for the jobs.
    Wait(SubmissionWait),
}

/// What to do once a solution was submitted: tell the answer, or wait for its jobs first.
pub fn submitted(wait: bool, submission: Json) -> (r: Result<Submitted, CliError>)
    requires
        submission@.wf(),
    ensures
        if !wait {
            r == Ok::<Submitted, CliError>(Submitted::Tell(submission))
        } else {
            match submission@.items_at("jobs"@) {
                Some(_) => r matches Ok(Submitted::Wait(w)) && w.submission == submission
                    && w.finished@.len() == 0 && w.wf(),
                None => r == Err::<Submitted, CliError>(CliError::NoSubmittedJobs),
            }
        },
{
    if !wait {
        return Ok(Submitted::Tell(submission));
    }
    match SubmissionWait::start(submission) {
        Ok(w) => Ok(Submitted::Wait(w)),
        Err(e) => Err(e),
    }
}

impl SubmissionWait {
    /// The submission lists its jobs, and no more have finished than it lists.
    pub open spec fn wf(self) -> bool {
        &&& self.submission@.wf()
        &&& self.submission@.items_at("jobs"@) matches Some(jobs) && self.finished@.len()
            <= jobs.len()
        &&& forall|i: int| 0 <= i < self.finished@.len() ==> (#[trigger] self.finished@[i])@.wf()
    }

    /// Starts to wait for the jobs of a submission.
    pub fn start(submission: Json) -> (r: Result<SubmissionWait, CliError>)
        requires
            submission@.wf(),
        ensures
            match submission@.items_at("jobs"@) {
                Some(_) => r matches Ok(wait) && wait.submission == submission
                    && wait.finished@.len() == 0 && wait.wf(),
                None => r == Err::<SubmissionWait, CliError>(CliError::NoSubmittedJobs),
            },
    {
        if submission.array_at("jobs").is_none() {
            return Err(CliError::NoSubmittedJobs);
        }
        Ok(SubmissionWait { submission, finished: Vec::new() })
    }

    /// Which job to wait for next.
    pub fn next(&self) -> (r: Result<SubmissionStep, CliError>)
        requires
            self.wf(),
        ensures
            ({
                let jobs = self.submission@.items_at("jobs"@)->0;
                let n = self.finished@.len() as int;
                if n == jobs.len() {
                    r matches Ok(SubmissionStep::Finished)
                } else {
                    match jobs[n].text_at("job_id"@) {
                        Some(id) => r matches Ok(SubmissionStep::Watch { job_id }) && job_id@ == id,
                        None => r == Err::<SubmissionStep, CliError>(CliError::NoJobId),
                    }
                }
            }),
    {
        let n = self.finished.len();
        match self.submission.array_at("jobs") {
            Some(jobs) => {
                if n >= jobs.len() {
                    Ok(SubmissionStep::Finished)
                } else {
                    match jobs[n].str_at("job_id") {
                        Some(id) => Ok(SubmissionStep::Watch { job_id: id.to_string() }),
                        None => Err(CliError::NoJobId),
                    }
                }
            },
            None => Err(CliError::NoSubmittedJobs),
        }
    }

    /// Notes that the job that was waited for has finished.
    pub fn finish(&mut self, job: Json)
        requires
            old(self).wf(),
            old(self).finished@.len() < old(self).submission@.items_at("jobs"@)->0.len(),
            job@.wf(),
        ensures
            final(self).wf(),
            final(self).submission == old(self).submission,
            final(self).finished@ == old(self).finished@.push(job),
    {
        self.finished.push(job);
    }

    /// What is told once all jobs have finished.
    pub fn report(self) -> (r: Json)
        requires
            self.wf(),
        ensures
            r@ == wait_value(self.submission@, values(self.finished@)),
            r@.wf(),
    {
        let mut members: Vec<Member> = Vec::new();
        members.push(member("jobs", Json::array(self.finished)));
        members.push(member("submission", self.submission));
        proof {
            let v = wait_value(self.submission@, values(self.finished@));
            assert(pairs(members@) =~= v->Object_0);
            reveal_strlit("jobs");
            reveal_strlit("submission");
            assert(text_less("jobs"@, "submission"@));
            let jobs = JValue::Array(values(self.finished@));
            assert(jobs.wf()) by {
                assert forall|i: int| 0 <= i < jobs->Array_0.len() implies (
                #[trigger] jobs->Array_0[i]).wf() by {
                    assert(jobs->Array_0[i] == self.finished@[i]@);
                }
            }
            assert(v->Object_0[0].1 == jobs);
            object_wf(v);
        }
        Json::object(members)
    }
}

} // verus!
