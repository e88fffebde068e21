//! What is shown of submissions and of the jobs that run them.

use vstd::prelude::*;
use crate::error::CliError;
use crate::format::{format_count, format_ns, grouped, ns_field, time_field, time_text};
use crate::json::{
    Json, JValue, Member, field_string, field_u64, key_texts, pairs, values,
};
use crate::table::{print_table, rows_view, table_text};
use crate::text::{line, line_if, line_of, line_of_some, push_line, texts};

verus! {

/// The row for a job of a fresh submission.
pub open spec fn submitted_row(job: JValue) -> Seq<Seq<char>> {
    seq![job.field("system_id"@), job.field("job_id"@)]
}

/// What is shown of the jobs of a fresh submission.
pub open spec fn submitted_jobs_text(v: JValue) -> Seq<char> {
    match v.items_at("jobs"@) {
        Some(jobs) => if jobs.len() == 0 {
            "Jobs: none\n"@
        } else {
            "Jobs:\n"@ + table_text(
                seq!["SYSTEM"@, "JOB"@],
                Seq::new(jobs.len(), |i: int| submitted_row(jobs[i])),
            )
        },
        None => Seq::empty(),
    }
}

/// What is shown of a fresh submission.
pub open spec fn submission_text(v: JValue) -> Seq<char> {
    line("Solution: "@, v.field("solution_id"@)) + line("User: "@, v.field("user_id"@))
        + submitted_jobs_text(v)
}

/// The row for a job in a list.
pub open spec fn job_row(job: JValue) -> Seq<Seq<char>> {
    seq![
        job.field("id"@),
        job.field("challenge_id"@),
        job.field("system_id"@),
        job.field("language"@),
        job.field("status"@),
        time_field(job, "result_time_ns"@),
    ]
}

/// The table of a list of jobs.
pub open spec fn job_rows_text(jobs: Seq<JValue>) -> Seq<char> {
    table_text(
        seq!["JOB"@, "CHALLENGE"@, "SYSTEM"@, "LANG"@, "STATUS"@, "TIME"@],
        Seq::new(jobs.len(), |i: int| job_row(jobs[i])),
    )
}

/// The line for a time, nothing where there is none.
pub open spec fn time_line(v: JValue, label: Seq<char>, key: Seq<char>) -> Seq<char> {
    match v.unsigned_at(key) {
        Some(ns) => line(label, time_text(ns as nat)),
        None => Seq::empty(),
    }
}

/// The line for a count, nothing where there is none.
pub open spec fn count_line(v: JValue, label: Seq<char>, key: Seq<char>) -> Seq<char> {
    match v.unsigned_at(key) {
        Some(n) => line(label, grouped(n as nat)),
        None => Seq::empty(),
    }
}

/// The line for a counter, nothing where it holds no count.
pub open spec fn counter_line(counter: (Seq<char>, JValue)) -> Seq<char> {
    match counter.1.unsigned() {
        Some(n) => line("  "@ + counter.0 + ": "@, grouped(n as nat)),
        None => Seq::empty(),
    }
}

/// A line for every counter, in the order of their names.
pub open spec fn counter_lines(counters: Seq<(Seq<char>, JValue)>) -> Seq<char>
    decreases counters.len(),
{
    if counters.len() == 0 {
        Seq::empty()
    } else {
        counter_lines(counters.drop_last()) + counter_line(counters.last())
    }
}

/// What is shown of the counters of a job.
pub open spec fn counters_part(v: JValue) -> Seq<char> {
    match v.members_at("result_counters"@) {
        Some(counters) => if counters.len() == 0 {
            Seq::empty()
        } else {
            "Counters:\n"@ + counter_lines(counters)
        },
        None => Seq::empty(),
    }
}

/// What is shown of a job.
pub open spec fn job_text(v: JValue) -> Seq<char> {
    line("Job: "@, v.field("id"@)) + line("Challenge: "@, v.field("challenge_id"@)) + line(
        "Solution: "@,
        v.field("solution_id"@),
    ) + line("System: "@, v.field("system_id"@)) + line("Language: "@, v.field("language"@))
        + line("Status: "@, v.field("status"@)) + time_line(v, "Time: "@, "result_time_ns"@)
        + time_line(v, "Max time: "@, "result_time_max_ns"@) + count_line(
        v,
        "Cycles: "@,
        "result_cycles"@,
    ) + line_if("Error: "@, v.text_at("result_error"@)) + counters_part(v)
}

/// The jobs of a page: its items, or the whole answer where that is an array.
pub open spec fn page_jobs(v: JValue) -> Option<Seq<JValue>> {
    match v.items_at("items"@) {
        Some(jobs) => Some(jobs),
        None => v.items(),
    }
}

/// What is shown of where the next page starts.
pub open spec fn cursor_part(v: JValue) -> Seq<char> {
    line_if("\nNext cursor: "@, v.text_at("next_cursor"@))
}

/// What is shown of a page of jobs.
pub open spec fn jobs_page_text(v: JValue, jobs: Seq<JValue>) -> Seq<char> {
    (if jobs.len() == 0 {
        "No jobs.\n"@
    } else {
        job_rows_text(jobs)
    }) + cursor_part(v)
}

/// Appends what is shown of a fresh submission.
pub fn print_submission(value: &Json, out: &mut String)
    ensures
        final(out)@ == old(out)@ + submission_text(value@),
{
    let mut text = line_of("Solution: ", field_string(value, "solution_id").as_str());
    push_line(&mut text, "User: ", field_string(value, "user_id").as_str());
    print_submission_jobs(value, &mut text);
    out.append(text.as_str());
}

/// Appends what is shown of a submission whose jobs have finished.
pub fn print_submission_with_jobs(value: &Json, out: &mut String) -> (r: Result<(), CliError>)
    ensures
        match value@.get("submission"@) {
            Some(submission) => match value@.items_at("jobs"@) {
                Some(jobs) => r is Ok && final(out)@ == old(out)@ + submission_text(submission)
                    + "\nFinished jobs:\n"@ + job_rows_text(jobs),
                None => r == Err::<(), CliError>(CliError::NoFinishedJobs) && final(out)@ == old(
                    out,
                )@ + submission_text(submission) + "\nFinished jobs:\n"@,
            },
            None => r == Err::<(), CliError>(CliError::NoSubmission) && final(out)@ == old(out)@,
        },
{
    match value.get("submission") {
        Some(submission) => {
            print_submission(submission, out);
        },
        None => {
            return Err(CliError::NoSubmission);
        },
    }
    out.append("\nFinished jobs:\n");
    match value.array_at("jobs") {
        Some(jobs) => {
            print_job_rows(jobs, out);
            Ok(())
        },
        None => Err(CliError::NoFinishedJobs),
    }
}

/// Appends what is shown of the jobs of a fresh submission.
pub fn print_submission_jobs(value: &Json, out: &mut String)
    ensures
        final(out)@ == old(out)@ + submitted_jobs_text(value@),
{
    let jobs = match value.array_at("jobs") {
        Some(jobs) => jobs,
        None => {
            assert(out@ + Seq::<char>::empty() =~= out@);
            return;
        },
    };
    let ghost all = values(jobs@);
    if jobs.len() == 0 {
        out.append("Jobs: none\n");
        return;
    }
    let ghost wanted = Seq::new(all.len(), |i: int| submitted_row(all[i]));
    let mut rows: Vec<Vec<String>> = Vec::new();
    let mut i: usize = 0;
    while i < jobs.len()
        invariant
            i <= jobs@.len(),
            all == values(jobs@),
            rows@.len() == i,
            forall|k: int| 0 <= k < i ==> texts((#[trigger] rows@[k])@) == submitted_row(all[k]),
        decreases jobs.len() - i,
    {
        let mut row: Vec<String> = Vec::new();
        row.push(field_string(&jobs[i], "system_id"));
        row.push(field_string(&jobs[i], "job_id"));
        assert(texts(row@) =~= submitted_row(all[i as int]));
        rows.push(row);
        i += 1;
    }
    assert(rows_view(rows@) =~= wanted);
    let headers: [&str; 2] = ["SYSTEM", "JOB"];
    assert(key_texts(headers@) =~= seq!["SYSTEM"@, "JOB"@]);
    let mut text = "Jobs:\n".to_string();
    print_table(&headers, &rows, &mut text);
    out.append(text.as_str());
}

fn time_line_of(value: &Json, label: &str, key: &str) -> (r: String)
    ensures
        r@ == time_line(value@, label@, key@),
{
    match field_u64(value, key) {
        Some(ns) => line_of(label, format_ns(ns).as_str()),
        None => String::new(),
    }
}

fn count_line_of(value: &Json, label: &str, key: &str) -> (r: String)
    ensures
        r@ == count_line(value@, label@, key@),
{
    match field_u64(value, key) {
        Some(n) => line_of(label, format_count(n).as_str()),
        None => String::new(),
    }
}

fn counters_of(value: &Json) -> (r: String)
    ensures
        r@ == counters_part(value@),
{
    let counters: &Vec<Member> = match value.get("result_counters") {
        Some(v) => match v.as_object() {
            Some(counters) => counters,
            None => {
                return String::new();
            },
        },
        None => {
            return String::new();
        },
    };
    if counters.len() == 0 {
        return String::new();
    }
    let ghost all = pairs(counters@);
    let mut text = "Counters:\n".to_string();
    let ghost head = text@;
    let mut i: usize = 0;
    assert(text@ =~= head + counter_lines(all.take(0)));
    while i < counters.len()
        invariant
            i <= counters@.len(),
            all == pairs(counters@),
            text@ == head + counter_lines(all.take(i as int)),
        decreases counters.len() - i,
    {
        let counter = &counters[i];
        let ghost done = all.take(i + 1);
        assert(done.drop_last() =~= all.take(i as int));
        assert(done.last() == (counter.key@, counter.value@));
        match counter.value.as_u64() {
            Some(n) => {
                let label = "  ".to_string().concat(counter.key.as_str()).concat(": ");
                push_line(&mut text, label.as_str(), format_count(n).as_str());
            },
            None => {},
        }
        assert(text@ =~= head + counter_lines(done));
        i += 1;
    }
    assert(all.take(counters@.len() as int) =~= all);
    text
}

/// Appends what is shown of a job.
pub fn print_job(value: &Json, out: &mut String)
    ensures
        final(out)@ == old(out)@ + job_text(value@),
{
    let mut text = line_of("Job: ", field_string(value, "id").as_str());
    push_line(&mut text, "Challenge: ", field_string(value, "challenge_id").as_str());
    push_line(&mut text, "Solution: ", field_string(value, "solution_id").as_str());
    push_line(&mut text, "System: ", field_string(value, "system_id").as_str());
    push_line(&mut text, "Language: ", field_string(value, "language").as_str());
    push_line(&mut text, "Status: ", field_string(value, "status").as_str());
    text.append(time_line_of(value, "Time: ", "result_time_ns").as_str());
    text.append(time_line_of(value, "Max time: ", "result_time_max_ns").as_str());
    text.append(count_line_of(value, "Cycles: ", "result_cycles").as_str());
    text.append(line_of_some("Error: ", value.str_at("result_error")).as_str());
    text.append(counters_of(value).as_str());
    out.append(text.as_str());
}

/// Appends what is shown of a page of jobs.
pub fn print_jobs_page(value: &Json, out: &mut String) -> (r: Result<(), CliError>)
    ensures
        match page_jobs(value@) {
            Some(jobs) => r is Ok && final(out)@ == old(out)@ + jobs_page_text(value@, jobs),
            None => r == Err::<(), CliError>(CliError::NoItems) && final(out)@ == old(out)@,
        },
{
    let jobs = match value.array_at("items") {
        Some(jobs) => jobs,
        None => match value.as_array() {
            Some(jobs) => jobs,
            None => {
                return Err(CliError::NoItems);
            },
        },
    };
    let mut text = String::new();
    if jobs.len() == 0 {
        text.append("No jobs.\n");
        assert(text@ =~= "No jobs.\n"@);
    } else {
        print_job_rows(jobs, &mut text);
        assert(text@ =~= job_rows_text(values(jobs@)));
    }
    text.append(line_of_some("\nNext cursor: ", value.str_at("next_cursor")).as_str());
    out.append(text.as_str());
    Ok(())
}

/// Appends the table of a list of jobs.
pub fn print_job_rows(jobs: &Vec<Json>, out: &mut String)
    ensures
        final(out)@ == old(out)@ + job_rows_text(values(jobs@)),
{
    let ghost all = values(jobs@);
    let ghost wanted = Seq::new(all.len(), |i: int| job_row(all[i]));
    let mut rows: Vec<Vec<String>> = Vec::new();
    let mut i: usize = 0;
    while i < jobs.len()
        invariant
            i <= jobs@.len(),
            all == values(jobs@),
            rows@.len() == i,
            forall|k: int| 0 <= k < i ==> texts((#[trigger] rows@[k])@) == job_row(all[k]),
        decreases jobs.len() - i,
    {
        let job = &jobs[i];
        let mut row: Vec<String> = Vec::new();
        row.push(field_string(job, "id"));
        row.push(field_string(job, "challenge_id"));
        row.push(field_string(job, "system_id"));
        row.push(field_string(job, "language"));
        row.push(field_string(job, "status"));
        row.push(ns_field(job, "result_time_ns"));
        assert(texts(row@) =~= job_row(all[i as int]));
        rows.push(row);
        i += 1;
    }
    assert(rows_view(rows@) =~= wanted);
    let headers: [&str; 6] = ["JOB", "CHALLENGE", "SYSTEM", "LANG", "STATUS", "TIME"];
    assert(key_texts(headers@) =~= seq![
        "JOB"@,
        "CHALLENGE"@,
        "SYSTEM"@,
        "LANG"@,
        "STATUS"@,
        "TIME"@,
    ]);
    print_table(&headers, &rows, out);
}

} // verus!
