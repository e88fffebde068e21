//! How an answer reaches the user: as it came, or told in words.

use vstd::prelude::*;
use crate::account::{
    agent_token_text, auth_login_text, auth_status_text, print_agent_token, print_auth_login,
    print_auth_status, print_logout,
};
use crate::challenges::{
    challenge_detail_text, challenge_list_text, entries_text, leaderboard_heading,
    print_challenge_detail, print_challenge_list, print_leaderboard, print_systems, systems_text,
};
use crate::client::read_answer;
use crate::error::CliError;
use crate::jobs::{
    job_rows_text, job_text, jobs_page_text, page_jobs, print_job, print_jobs_page,
    print_submission, print_submission_with_jobs, submission_text,
};
use crate::json::{Json, JValue};
use crate::solutions::{
    print_solution, print_solution_visibility, solution_text, solution_visibility_text,
};
use crate::text::is_blank_text;
use crate::wire::{fractions_read_back, is_shallow, parsed, pretty, print_json, reads_back};

verus! {

/// What an answer is about.
#[derive(Clone, Copy, Debug, PartialEq, Eq, Structural)]
pub enum Report {
    AuthStatus,
    AuthLogin,
    Logout,
    AgentToken,
    ChallengeList,
    ChallengeDetail,
    Systems,
    Leaderboard,
    Submission,
    SubmissionWithJobs,
    Job,
    JobsPage,
    Solution,
    SolutionVisibility,
}

/// How the user wants to see answers: as JSON, or told in words.
#[derive(Clone, Copy, Debug)]
pub struct OutputMode {
    pub raw: bool,
}

/// What is told of an answer in words.
pub open spec fn words(report: Report, v: JValue) -> Seq<char> {
    match report {
        Report::AuthStatus => auth_status_text(v),
        Report::AuthLogin => auth_login_text(v),
        Report::Logout => "Local token removed\n"@,
        Report::AgentToken => agent_token_text(v),
        Report::ChallengeList => match v.items_at("challenges"@) {
            Some(challenges) => challenge_list_text(challenges),
            None => Seq::empty(),
        },
        Report::ChallengeDetail => challenge_detail_text(v),
        Report::Systems => match v.items() {
            Some(systems) => systems_text(systems),
            None => Seq::empty(),
        },
        Report::Leaderboard => match v.items_at("entries"@) {
            Some(entries) => leaderboard_heading(v) + entries_text(entries),
            None => leaderboard_heading(v),
        },
        Report::Submission => submission_text(v),
        Report::SubmissionWithJobs => match v.get("submission"@) {
            Some(submission) => match v.items_at("jobs"@) {
                Some(jobs) => submission_text(submission) + "\nFinished jobs:\n"@ + job_rows_text(
                    jobs,
                ),
                None => submission_text(submission) + "\nFinished jobs:\n"@,
            },
            None => Seq::empty(),
        },
        Report::Job => job_text(v),
        Report::JobsPage => match page_jobs(v) {
            Some(jobs) => jobs_page_text(v, jobs),
            None => Seq::empty(),
        },
        Report::Solution => solution_text(v),
        Report::SolutionVisibility => solution_visibility_text(v),
    }
}

/// What is wrong with an answer, for the words that were to be told of it.
pub open spec fn flaw(report: Report, v: JValue) -> Option<CliError> {
    match report {
        Report::ChallengeList => if v.items_at("challenges"@) is None {
            Some(CliError::NoChallenges)
        } else {
            None
        },
        Report::Systems => if v.items() is None {
            Some(CliError::NoSystems)
        } else {
            None
        },
        Report::Leaderboard => if v.items_at("entries"@) is None {
            Some(CliError::NoEntries)
        } else {
            None
        },
        Report::SubmissionWithJobs => if v.get("submission"@) is None {
            Some(CliError::NoSubmission)
        } else if v.items_at("jobs"@) is None {
            Some(CliError::NoFinishedJobs)
        } else {
            None
        },
        Report::JobsPage => if page_jobs(v) is None {
            Some(CliError::NoItems)
        } else {
            None
        },
        _ => None,
    }
}

/// Appends what is told of an answer in words.
pub fn print_words(report: Report, value: &Json, out: &mut String) -> (r: Result<(), CliError>)
    ensures
        final(out)@ == old(out)@ + words(report, value@),
        match flaw(report, value@) {
            Some(e) => r == Err::<(), CliError>(e),
            None => r is Ok,
        },
{
    let ghost before = out@;
    assert(before + Seq::<char>::empty() =~= before);
    match report {
        Report::AuthStatus => {
            print_auth_status(value, out);
            Ok(())
        },
        Report::AuthLogin => {
            print_auth_login(value, out);
            Ok(())
        },
        Report::Logout => {
            print_logout(out);
            Ok(())
        },
        Report::AgentToken => {
            print_agent_token(value, out);
            Ok(())
        },
        Report::ChallengeList => print_challenge_list(value, out),
        Report::ChallengeDetail => {
            print_challenge_detail(value, out);
            Ok(())
        },
        Report::Systems => print_systems(value, out),
        Report::Leaderboard => {
            let r = print_leaderboard(value, out);
            assert(out@ =~= before + words(report, value@));
            r
        },
        Report::Submission => {
            print_submission(value, out);
            Ok(())
        },
        Report::SubmissionWithJobs => {
            let r = print_submission_with_jobs(value, out);
            assert(out@ =~= before + words(report, value@));
            r
        },
        Report::Job => {
            print_job(value, out);
            Ok(())
        },
        Report::JobsPage => print_jobs_page(value, out),
        Report::Solution => {
            print_solution(value, out);
            Ok(())
        },
        Report::SolutionVisibility => {
            print_solution_visibility(value, out);
            Ok(())
        },
    }
}

impl OutputMode {
    /// Appends an answer: as JSON where the user wants it raw, otherwise in words.
    pub fn print(self, value: &Json, report: Report, out: &mut String) -> (r: Result<(), CliError>)
        requires
            value@.wf(),
        ensures
            self.raw ==> r is Ok && final(out)@ == old(out)@ + pretty(value@) + "\n"@,
            self.raw && is_shallow(value@) && fractions_read_back(value@) ==> reads_back(value@),
            !self.raw ==> final(out)@ == old(out)@ + words(report, value@),
            !self.raw ==> match flaw(report, value@) {
                Some(e) => r == Err::<(), CliError>(e),
                None => r is Ok,
            },
    {
        if self.raw {
            print_json(value, out)
        } else {
            print_words(report, value, out)
        }
    }
}

/// What is shown of an answer that was read.
pub open spec fn shown(mode: OutputMode, report: Report, v: JValue) -> Seq<char> {
    if mode.raw {
        pretty(v) + "\n"@
    } else {
        words(report, v)
    }
}

/// What the body of an answer holds: nothing at all is null.
pub open spec fn answer_value(text: Seq<char>) -> Option<JValue> {
    if is_blank_text(text) {
        Some(JValue::Null)
    } else {
        parsed(text)
    }
}

/// Takes the answer to a request and appends what is shown of it. Nothing is shown of an answer
/// whose status is not one of success, or whose body is not JSON. What is shown raw is read as
/// what the answer was read as, unless a fraction in it is not read as it was.
pub fn show_answer(
    mode: OutputMode,
    report: Report,
    code: u16,
    status: String,
    text: String,
    out: &mut String,
) -> (r: Result<(), CliError>)
    ensures
        if !(200 <= code < 300) {
            &&& r == Err::<(), CliError>(CliError::Http { status, body: text })
            &&& final(out)@ == old(out)@
        } else {
            match answer_value(text@) {
                None => {
                    &&& r matches Err(CliError::ParseJson { body, .. })
                    &&& body@ == text@
                    &&& final(out)@ == old(out)@
                },
                Some(v) => {
                    &&& final(out)@ == old(out)@ + shown(mode, report, v)
                    &&& if !mode.raw && flaw(report, v) is Some {
                        r == Err::<(), CliError>(flaw(report, v)->0)
                    } else {
                        r is Ok
                    }
                    &&& mode.raw && fractions_read_back(v) ==> parsed(shown(mode, report, v))
                        == Some(v)
                },
            }
        },
{
    let value = match read_answer(code, status, text) {
        Ok(value) => value,
        Err(e) => {
            return Err(e);
        },
    };
    let r = mode.print(&value, report, out);
    assert(old(out)@ + pretty(value@) + "\n"@ =~= old(out)@ + (pretty(value@) + "\n"@));
    r
}

} // verus!
