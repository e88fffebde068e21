//! What holds of what is shown: which members of a document it tells, and where.

use vstd::prelude::*;
use crate::account::{agent_token_text, auth_login_text, auth_status_text, user_line};
use crate::challenges::{
    challenge_detail_text, challenge_lines, challenge_list_text, description_part, entries_text,
    field_width, leaderboard_heading, rank_text, systems_text, text_lines,
};
use crate::error::{CliError, told};
use crate::format::{grouped, size_text, time_field, time_text};
use crate::jobs::{
    counter_lines, job_rows_text, job_text, jobs_page_text, page_jobs, submission_text,
    submitted_jobs_text,
};
use crate::json::{JValue, JsonNumber, texts_among};
use crate::output::{OutputMode, Report, answer_value, flaw, shown, words};
use crate::profile::{profile_name, profile_text};
use crate::properties::tables::{complete_rows_stand_under_headings, is_headed, stands_under};
use crate::properties::values::is_text;
use crate::solutions::{solution_text, solution_visibility_text};
use crate::table::table_text;
use crate::text::{byte_len, decimal, is_space, padded, repeated};
use crate::wire::{parsed, pretty};

verus! {

/// What a document says under a key: the text that stands there, a dash where none does.
pub open spec fn said(v: JValue, key: Seq<char>) -> Seq<char> {
    match v.get(key) {
        Some(JValue::Text(t)) => t,
        _ => "-"@,
    }
}

/// A line for a text that was found, nothing for anything else.
pub open spec fn line_for_text(label: Seq<char>, found: Option<JValue>) -> Seq<char> {
    match found {
        Some(JValue::Text(t)) => label + t + "\n"@,
        _ => Seq::empty(),
    }
}

/// A line for a time that was found, nothing for anything else.
pub open spec fn line_for_time(label: Seq<char>, found: Option<JValue>) -> Seq<char> {
    match found {
        Some(JValue::Number(JsonNumber::Unsigned(n))) => label + time_text(n as nat) + "\n"@,
        _ => Seq::empty(),
    }
}

/// A line for a count that was found, nothing for anything else.
pub open spec fn line_for_count(label: Seq<char>, found: Option<JValue>) -> Seq<char> {
    match found {
        Some(JValue::Number(JsonNumber::Unsigned(n))) => label + grouped(n as nat) + "\n"@,
        _ => Seq::empty(),
    }
}

/// A line for a size that was found, nothing for anything else.
pub open spec fn line_for_size(label: Seq<char>, found: Option<JValue>) -> Seq<char> {
    match found {
        Some(JValue::Number(JsonNumber::Unsigned(n))) => label + size_text(n as nat) + "\n"@,
        _ => Seq::empty(),
    }
}

/// What was found is true, and not merely there.
pub open spec fn is_true(found: Option<JValue>) -> bool {
    found == Some(JValue::Bool(true))
}

/// A user goes by the display name, or else the name, or else the login, and by the id, or else
/// the user id; a dash stands where no text does.
pub proof fn users_are_named(user: JValue)
    ensures
        ({
            let name = if is_text(user.get("display_name"@)) {
                said(user, "display_name"@)
            } else if is_text(user.get("name"@)) {
                said(user, "name"@)
            } else {
                said(user, "login"@)
            };
            let id = if is_text(user.get("id"@)) {
                said(user, "id"@)
            } else {
                said(user, "user_id"@)
            };
            user_line(user) == "User: "@ + (name + " ("@ + id + ")"@) + "\n"@
        }),
{
    reveal_with_fuel(crate::json::first_text, 4);
    let names = seq!["display_name"@, "name"@, "login"@];
    assert(names.drop_first() =~= seq!["name"@, "login"@]);
    assert(names.drop_first().drop_first() =~= seq!["login"@]);
    assert(names.drop_first().drop_first().drop_first() =~= Seq::empty());
    let ids = seq!["id"@, "user_id"@];
    assert(ids.drop_first() =~= seq!["user_id"@]);
    assert(ids.drop_first().drop_first() =~= Seq::empty());
}

/// A session is authenticated where the server says that this is true, and in no other case; the
/// user is named where one is given.
pub proof fn sessions_are_told(v: JValue)
    ensures
        is_true(v.get("authenticated"@)) ==> auth_status_text(v) == "Authenticated\n"@ + (
        match v.get("user"@) {
            Some(user) => user_line(user),
            None => Seq::empty(),
        }),
        !is_true(v.get("authenticated"@)) ==> auth_status_text(v) == "Not authenticated\n"@,
{
}

/// After a login the user is named where one is given, and a token is told only where it was not
/// stored.
pub proof fn logins_are_told(v: JValue)
    ensures
        auth_login_text(v) == "Authenticated\n"@ + (match v.get("user"@) {
            Some(user) => user_line(user),
            None => Seq::empty(),
        }) + (if is_true(v.get("stored"@)) {
            "Token stored locally\n"@
        } else {
            line_for_text("Token: "@, v.get("token"@))
        }),
        agent_token_text(v) == "Token: "@ + said(v, "token"@) + "\n"@,
{
}

/// A solution is told to be public where the server says that this is true, and private in every
/// other case, whether the server says that it is not or says nothing; whichever way it is told.
pub proof fn solutions_are_public_where_it_is_true(v: JValue)
    ensures
        ({
            let visibility = if is_true(v.get("is_public"@)) {
                "Visibility: public\n"@
            } else {
                "Visibility: private\n"@
            };
            &&& solution_visibility_text(v) == "Solution: "@ + said(v, "solution_id"@) + "\n"@
                + visibility
            &&& solution_text(v) == solution_front(v) + visibility + solution_back(v)
        }),
{
    visibility_lines();
    let visibility = if is_true(v.get("is_public"@)) {
        "Visibility: public\n"@
    } else {
        "Visibility: private\n"@
    };
    let jobs = line_for_text("Jobs: "@, v.get("jobs_url"@));
    let source = if is_true(v.get("source_visible"@)) {
        line_for_text("\nCompiler options:\n"@, v.get("compiler_options"@)) + line_for_text(
            "\nSource:\n"@,
            v.get("source"@),
        )
    } else {
        "Source: hidden\n"@
    };
    assert(solution_text(v) == solution_front(v) + visibility + jobs + source);
    groups_move(solution_front(v) + visibility, jobs, source);
}

proof fn groups_move(a: Seq<char>, b: Seq<char>, c: Seq<char>)
    ensures
        a + b + c == a + (b + c),
{
    assert(a + b + c =~= a + (b + c));
}

proof fn visibility_lines()
    ensures
        "Visibility: "@ + "public"@ + "\n"@ == "Visibility: public\n"@,
        "Visibility: "@ + "private"@ + "\n"@ == "Visibility: private\n"@,
{
    reveal_strlit("Visibility: ");
    reveal_strlit("public");
    reveal_strlit("private");
    reveal_strlit("\n");
    reveal_strlit("Visibility: public\n");
    reveal_strlit("Visibility: private\n");
    assert("Visibility: "@ + "public"@ + "\n"@ =~= "Visibility: public\n"@);
    assert("Visibility: "@ + "private"@ + "\n"@ =~= "Visibility: private\n"@);
}

/// What stands before the visibility of a solution: who made it, for what, in which language, and
/// which agent, where it was one.
pub open spec fn solution_front(v: JValue) -> Seq<char> {
    ("Solution: "@ + said(v, "id"@) + "\n"@) + ("Challenge: "@ + said(v, "challenge_id"@) + "\n"@)
        + ("User: "@ + (said(v, "user_display_name"@) + " ("@ + said(v, "user_id"@) + ")"@)
        + "\n"@) + line_for_text("Agent: "@, v.get("agent"@)) + ("Language: "@ + said(
        v,
        "language"@,
    ) + "\n"@)
}

/// What stands behind the visibility of a solution: where its jobs are, and its source where that
/// may be seen.
pub open spec fn solution_back(v: JValue) -> Seq<char> {
    line_for_text("Jobs: "@, v.get("jobs_url"@)) + (if is_true(v.get("source_visible"@)) {
        line_for_text("\nCompiler options:\n"@, v.get("compiler_options"@)) + line_for_text(
            "\nSource:\n"@,
            v.get("source"@),
        )
    } else {
        "Source: hidden\n"@
    })
}

/// Everything but what a job came to: six lines, whatever the document lacks.
pub proof fn jobs_start_with_six_lines(v: JValue)
    requires
        !(v.get("result_time_ns"@) matches Some(JValue::Number(JsonNumber::Unsigned(_)))),
        !(v.get("result_time_max_ns"@) matches Some(JValue::Number(JsonNumber::Unsigned(_)))),
        !(v.get("result_cycles"@) matches Some(JValue::Number(JsonNumber::Unsigned(_)))),
        !is_text(v.get("result_error"@)),
        !(v.get("result_counters"@) matches Some(JValue::Object(_))),
    ensures
        job_text(v) == ("Job: "@ + said(v, "id"@) + "\n"@) + ("Challenge: "@ + said(v, "challenge_id"@)
            + "\n"@) + ("Solution: "@ + said(v, "solution_id"@) + "\n"@) + ("System: "@ + said(
            v,
            "system_id"@,
        ) + "\n"@) + ("Language: "@ + said(v, "language"@) + "\n"@) + ("Status: "@ + said(
            v,
            "status"@,
        ) + "\n"@),
{
    let lines = ("Job: "@ + said(v, "id"@) + "\n"@) + ("Challenge: "@ + said(v, "challenge_id"@)
            + "\n"@) + ("Solution: "@ + said(v, "solution_id"@) + "\n"@) + ("System: "@ + said(
            v,
            "system_id"@,
        ) + "\n"@) + ("Language: "@ + said(v, "language"@) + "\n"@) + ("Status: "@ + said(
            v,
            "status"@,
        ) + "\n"@);
    nothing_is_added(lines);
}

proof fn nothing_is_added(text: Seq<char>)
    ensures
        text + Seq::empty() == text,
{
    assert(text + Seq::empty() =~= text);
}

/// Of two jobs that are the same but for what they came to, `bare` having come to nothing, the
/// other is shown as `bare` is, and behind that its time, its longest time, its cycles, its error
/// and its counters, each where it is there, whatever else is.
pub proof fn jobs_show_what_they_came_to(v: JValue, bare: JValue)
    requires
        v.get("id"@) == bare.get("id"@),
        v.get("challenge_id"@) == bare.get("challenge_id"@),
        v.get("solution_id"@) == bare.get("solution_id"@),
        v.get("system_id"@) == bare.get("system_id"@),
        v.get("language"@) == bare.get("language"@),
        v.get("status"@) == bare.get("status"@),
        bare.get("result_time_ns"@) is None,
        bare.get("result_time_max_ns"@) is None,
        bare.get("result_cycles"@) is None,
        bare.get("result_error"@) is None,
        bare.get("result_counters"@) is None,
    ensures
        job_text(v) == job_text(bare) + line_for_time("Time: "@, v.get("result_time_ns"@))
            + line_for_time("Max time: "@, v.get("result_time_max_ns"@)) + line_for_count(
            "Cycles: "@,
            v.get("result_cycles"@),
        ) + line_for_text("Error: "@, v.get("result_error"@)) + (match v.get("result_counters"@) {
            Some(JValue::Object(counters)) => if counters.len() > 0 {
                "Counters:\n"@ + counter_lines(counters)
            } else {
                Seq::empty()
            },
            _ => Seq::empty(),
        }),
{
    assert(job_text(v) =~= job_text(bare) + line_for_time("Time: "@, v.get("result_time_ns"@))
        + line_for_time("Max time: "@, v.get("result_time_max_ns"@)) + line_for_count(
        "Cycles: "@,
        v.get("result_cycles"@),
    ) + line_for_text("Error: "@, v.get("result_error"@)) + (match v.get("result_counters"@) {
        Some(JValue::Object(counters)) => if counters.len() > 0 {
            "Counters:\n"@ + counter_lines(counters)
        } else {
            Seq::empty()
        },
        _ => Seq::empty(),
    }));
}

/// An error is added to what is shown of a job, and nothing is taken away: of two jobs that are
/// the same but for their errors, the one with an error has a line more, and the line tells it.
pub proof fn errors_of_jobs_are_shown(v: JValue, other: JValue, error: Seq<char>)
    requires
        v.get("result_error"@) == Some(JValue::Text(error)),
        !is_text(other.get("result_error"@)),
        forall|key: Seq<char>| key != "result_error"@ ==> #[trigger] v.get(key) == other.get(key),
    ensures
        exists|n: int|
            0 <= n <= job_text(other).len() && job_text(v) == #[trigger] job_text(other).take(n)
                + "Error: "@ + error + "\n"@ + job_text(other).skip(n) && (job_text(other).skip(
                n,
            ).len() == 0 || "Counters:\n"@.is_prefix_of(job_text(other).skip(n))),
{
    job_keys_differ();
    let counters = crate::jobs::counters_part(v);
    let front = job_front(v);
    assert(job_front(other) == front);
    assert(crate::jobs::counters_part(other) == counters);
    assert(job_text(v) == front + ("Error: "@ + error + "\n"@) + counters);
    assert(job_text(other) == front + Seq::empty() + counters);
    parts_are_inserted(front, "Error: "@, error, "\n"@, counters);
    assert(counters.len() == 0 || "Counters:\n"@.is_prefix_of(counters)) by {
        match v.get("result_counters"@) {
            Some(JValue::Object(members)) => {
                let lines = counter_lines(members);
                assert("Counters:\n"@ =~= ("Counters:\n"@ + lines).take(
                    "Counters:\n"@.len() as int,
                ));
            },
            _ => {},
        }
    }
    let n = front.len() as int;
    assert(job_text(other).take(n) == front);
}

spec fn job_front(v: JValue) -> Seq<char> {
    ("Job: "@ + said(v, "id"@) + "\n"@) + ("Challenge: "@ + said(v, "challenge_id"@) + "\n"@) + (
    "Solution: "@ + said(v, "solution_id"@) + "\n"@) + ("System: "@ + said(v, "system_id"@)
        + "\n"@) + ("Language: "@ + said(v, "language"@) + "\n"@) + ("Status: "@ + said(
        v,
        "status"@,
    ) + "\n"@) + line_for_time("Time: "@, v.get("result_time_ns"@)) + line_for_time(
        "Max time: "@,
        v.get("result_time_max_ns"@),
    ) + line_for_count("Cycles: "@, v.get("result_cycles"@))
}

proof fn parts_are_inserted(
    front: Seq<char>,
    label: Seq<char>,
    text: Seq<char>,
    end: Seq<char>,
    back: Seq<char>,
)
    ensures
        (front + Seq::empty() + back).take(front.len() as int) == front,
        (front + Seq::empty() + back).skip(front.len() as int) == back,
        front + (label + text + end) + back == front + label + text + end + back,
{
    assert((front + Seq::empty() + back).take(front.len() as int) =~= front);
    assert((front + Seq::empty() + back).skip(front.len() as int) =~= back);
    assert(front + (label + text + end) + back =~= front + label + text + end + back);
}

proof fn job_keys_differ()
    ensures
        "id"@ != "result_error"@,
        "challenge_id"@ != "result_error"@,
        "solution_id"@ != "result_error"@,
        "system_id"@ != "result_error"@,
        "language"@ != "result_error"@,
        "status"@ != "result_error"@,
        "result_time_ns"@ != "result_error"@,
        "result_time_max_ns"@ != "result_error"@,
        "result_cycles"@ != "result_error"@,
        "result_counters"@ != "result_error"@,
{
    reveal_strlit("id");
    reveal_strlit("challenge_id");
    reveal_strlit("solution_id");
    reveal_strlit("system_id");
    reveal_strlit("language");
    reveal_strlit("status");
    reveal_strlit("result_time_ns");
    reveal_strlit("result_time_max_ns");
    reveal_strlit("result_cycles");
    reveal_strlit("result_counters");
    reveal_strlit("result_error");
    assert("result_error"@.len() == 12);
    assert("id"@.len() == 2);
    assert("challenge_id"@[0] != "result_error"@[0]);
    assert("solution_id"@.len() == 11);
    assert("system_id"@.len() == 9);
    assert("language"@.len() == 8);
    assert("status"@.len() == 6);
    assert("result_time_ns"@.len() == 14);
    assert("result_time_max_ns"@.len() == 18);
    assert("result_cycles"@.len() == 13);
    assert("result_counters"@.len() == 15);
}

/// Counters are shown one by one in their order: each that holds a count has a line with its name
/// and the count, and each other has none.
pub proof fn counters_are_shown_one_by_one(
    a: Seq<(Seq<char>, JValue)>,
    b: Seq<(Seq<char>, JValue)>,
    counter: (Seq<char>, JValue),
)
    ensures
        counter_lines(Seq::empty()) == Seq::<char>::empty(),
        counter_lines(a + b) == counter_lines(a) + counter_lines(b),
        counter_lines(seq![counter]) == (match counter.1 {
            JValue::Number(JsonNumber::Unsigned(n)) => "  "@ + counter.0 + ": "@ + grouped(n as nat)
                + "\n"@,
            _ => Seq::empty(),
        }),
    decreases b.len(),
{
    assert(seq![counter].drop_last() =~= Seq::empty());
    assert(counter_lines(seq![counter].drop_last()) =~= Seq::empty());
    assert(counter_lines(seq![counter]) =~= (match counter.1 {
        JValue::Number(JsonNumber::Unsigned(n)) => "  "@ + counter.0 + ": "@ + grouped(n as nat)
            + "\n"@,
        _ => Seq::empty(),
    }));
    if b.len() == 0 {
        assert(a + b =~= a);
        assert(counter_lines(a + b) =~= counter_lines(a) + counter_lines(b));
    } else {
        counters_are_shown_one_by_one(a, b.drop_last(), counter);
        assert((a + b).drop_last() =~= a + b.drop_last());
        assert((a + b).last() == b.last());
        assert(counter_lines(a + b) =~= counter_lines(a) + counter_lines(b));
    }
}

/// In a list of jobs, every job has a row, and under each heading stands the member that the
/// heading names: the id, the challenge, the system, the language, the status and the time.
pub proof fn jobs_stand_under_their_headings(jobs: Seq<JValue>, i: int)
    requires
        0 <= i < jobs.len(),
    ensures
        ({
            let text = job_rows_text(jobs);
            let n = jobs.len();
            &&& is_headed(
                text,
                n,
                seq!["JOB"@, "CHALLENGE"@, "SYSTEM"@, "LANG"@, "STATUS"@, "TIME"@],
            )
            &&& stands_under(text, n, "JOB"@, i, said(jobs[i], "id"@))
            &&& stands_under(text, n, "CHALLENGE"@, i, said(jobs[i], "challenge_id"@))
            &&& stands_under(text, n, "SYSTEM"@, i, said(jobs[i], "system_id"@))
            &&& stands_under(text, n, "LANG"@, i, said(jobs[i], "language"@))
            &&& stands_under(text, n, "STATUS"@, i, said(jobs[i], "status"@))
            &&& stands_under(text, n, "TIME"@, i, time_field(jobs[i], "result_time_ns"@))
        }),
{
    let headings = seq!["JOB"@, "CHALLENGE"@, "SYSTEM"@, "LANG"@, "STATUS"@, "TIME"@];
    let rows = Seq::new(jobs.len(), |i: int| crate::jobs::job_row(jobs[i]));
    assert(job_rows_text(jobs) == table_text(headings, rows));
    complete_rows_stand_under_headings(headings, rows);
    assert(rows[i][0] == said(jobs[i], "id"@));
    assert(rows[i][1] == said(jobs[i], "challenge_id"@));
    assert(rows[i][2] == said(jobs[i], "system_id"@));
    assert(rows[i][3] == said(jobs[i], "language"@));
    assert(rows[i][4] == said(jobs[i], "status"@));
    assert(rows[i][5] == time_field(jobs[i], "result_time_ns"@));
}

/// A page shows the jobs under `items`, or else the answer itself where that is an array, and
/// where the next page starts; a page without jobs says so.
pub proof fn pages_show_their_jobs(v: JValue, jobs: Seq<JValue>)
    ensures
        page_jobs(v) == (match v.get("items"@) {
            Some(JValue::Array(items)) => Some(items),
            _ => match v {
                JValue::Array(items) => Some(items),
                _ => None,
            },
        }),
        jobs_page_text(v, jobs) == (if jobs.len() == 0 {
            "No jobs.\n"@
        } else {
            job_rows_text(jobs)
        }) + line_for_text("\nNext cursor: "@, v.get("next_cursor"@)),
{
}

/// A submission shows the solution, the user, and its jobs: the system and the job under their
/// headings, or that there are none, or nothing where the answer holds no list of them.
pub proof fn submissions_show_their_jobs(v: JValue, i: int)
    ensures
        submission_text(v) == ("Solution: "@ + said(v, "solution_id"@) + "\n"@) + ("User: "@ + said(
            v,
            "user_id"@,
        ) + "\n"@) + submitted_jobs_text(v),
        match v.get("jobs"@) {
            Some(JValue::Array(jobs)) => {
                &&& jobs.len() == 0 ==> submitted_jobs_text(v) == "Jobs: none\n"@
                &&& 0 <= i < jobs.len() ==> exists|table: Seq<char>|
                    {
                        &&& submitted_jobs_text(v) == #[trigger] ("Jobs:\n"@ + table)
                        &&& is_headed(table, jobs.len(), seq!["SYSTEM"@, "JOB"@])
                        &&& stands_under(
                            table,
                            jobs.len(),
                            "SYSTEM"@,
                            i,
                            said(jobs[i], "system_id"@),
                        )
                        &&& stands_under(table, jobs.len(), "JOB"@, i, said(jobs[i], "job_id"@))
                    }
            },
            _ => submitted_jobs_text(v) == Seq::<char>::empty(),
        },
{
    match v.get("jobs"@) {
        Some(JValue::Array(jobs)) => {
            if 0 <= i < jobs.len() {
                let headings = seq!["SYSTEM"@, "JOB"@];
                let rows = Seq::new(jobs.len(), |i: int| crate::jobs::submitted_row(jobs[i]));
                let table = table_text(headings, rows);
                complete_rows_stand_under_headings(headings, rows);
                assert(rows[i][0] == said(jobs[i], "system_id"@));
                assert(rows[i][1] == said(jobs[i], "job_id"@));
                assert(submitted_jobs_text(v) == "Jobs:\n"@ + table);
            }
        },
        _ => {},
    }
}

/// In a list of systems, every system has a row, and under each heading stands the member that
/// the heading names.
pub proof fn systems_stand_under_their_headings(systems: Seq<JValue>, i: int)
    requires
        0 <= i < systems.len(),
    ensures
        ({
            let text = systems_text(systems);
            let n = systems.len();
            &&& is_headed(text, n, seq!["ID"@, "LABEL"@, "UARCH"@, "CPU"@])
            &&& stands_under(text, n, "ID"@, i, said(systems[i], "id"@))
            &&& stands_under(text, n, "LABEL"@, i, said(systems[i], "label"@))
            &&& stands_under(text, n, "UARCH"@, i, said(systems[i], "uarch"@))
            &&& stands_under(
                text,
                n,
                "CPU"@,
                i,
                match systems[i].get("cpu"@) {
                    Some(JValue::Number(JsonNumber::Unsigned(cpu))) => decimal(cpu as nat),
                    _ => "-"@,
                },
            )
        }),
{
    let headings = seq!["ID"@, "LABEL"@, "UARCH"@, "CPU"@];
    let rows = Seq::new(systems.len(), |i: int| crate::challenges::system_row(systems[i]));
    assert(systems_text(systems) == table_text(headings, rows));
    complete_rows_stand_under_headings(headings, rows);
    assert(rows[i][0] == said(systems[i], "id"@));
    assert(rows[i][1] == said(systems[i], "label"@));
    assert(rows[i][2] == said(systems[i], "uarch"@));
    assert(rows[i][3] == (match systems[i].get("cpu"@) {
        Some(JValue::Number(JsonNumber::Unsigned(cpu))) => decimal(cpu as nat),
        _ => "-"@,
    }));
}

/// A rank is told in decimal; an entry without one is left blank, and what is no rank is a dash.
pub proof fn ranks_are_told(entry: JValue)
    ensures
        match entry.get("rank"@) {
            Some(JValue::Number(JsonNumber::Unsigned(n))) => rank_text(entry) == decimal(n as nat),
            Some(JValue::Null) => rank_text(entry) == Seq::<char>::empty(),
            Some(_) => rank_text(entry) == "-"@,
            None => rank_text(entry) == Seq::<char>::empty(),
        },
{
}

/// A leaderboard names its challenge and its system; every entry has a row, and under each heading
/// stands what the heading names. One without entries says so.
pub proof fn entries_stand_under_their_headings(v: JValue, entries: Seq<JValue>, i: int)
    ensures
        leaderboard_heading(v) == said(v, "challenge_id"@) + " / "@ + said(v, "system_id"@)
            + "\n"@,
        entries.len() == 0 ==> entries_text(entries) == "No leaderboard entries.\n"@,
        0 <= i < entries.len() ==> ({
            let text = entries_text(entries);
            let n = entries.len();
            let entry = entries[i];
            &&& is_headed(
                text,
                n,
                seq!["RANK"@, "USER"@, "PUBLIC"@, "LANG"@, "TIME"@, "CYCLES"@, "JOB"@],
            )
            &&& stands_under(text, n, "RANK"@, i, rank_text(entry))
            &&& stands_under(text, n, "USER"@, i, said(entry, "user_display_name"@))
            &&& stands_under(
                text,
                n,
                "PUBLIC"@,
                i,
                if is_true(entry.get("solution_is_public"@)) {
                    "public"@
                } else {
                    "-"@
                },
            )
            &&& stands_under(text, n, "LANG"@, i, said(entry, "language"@))
            &&& stands_under(text, n, "TIME"@, i, time_field(entry, "time_ns"@))
            &&& stands_under(
                text,
                n,
                "CYCLES"@,
                i,
                match entry.get("cycles"@) {
                    Some(JValue::Number(JsonNumber::Unsigned(c))) => grouped(c as nat),
                    _ => "-"@,
                },
            )
            &&& stands_under(text, n, "JOB"@, i, said(entry, "job_id"@))
        }),
{
    if 0 <= i < entries.len() {
        let headings = seq!["RANK"@, "USER"@, "PUBLIC"@, "LANG"@, "TIME"@, "CYCLES"@, "JOB"@];
        let rows = Seq::new(entries.len(), |i: int| crate::challenges::entry_row(entries[i]));
        assert(entries_text(entries) == table_text(headings, rows));
        complete_rows_stand_under_headings(headings, rows);
        let entry = entries[i];
        assert(rows[i][0] == rank_text(entry));
        assert(rows[i][1] == said(entry, "user_display_name"@));
        assert(rows[i][2] == (if is_true(entry.get("solution_is_public"@)) {
            "public"@
        } else {
            "-"@
        }));
        assert(rows[i][3] == said(entry, "language"@));
        assert(rows[i][4] == time_field(entry, "time_ns"@));
        assert(rows[i][5] == (match entry.get("cycles"@) {
            Some(JValue::Number(JsonNumber::Unsigned(c))) => grouped(c as nat),
            _ => "-"@,
        }));
        assert(rows[i][6] == said(entry, "job_id"@));
    }
}

/// Lines are written one by one in their order.
pub proof fn texts_are_written_line_by_line(
    a: Seq<Seq<char>>,
    b: Seq<Seq<char>>,
    text: Seq<char>,
)
    ensures
        text_lines(Seq::empty()) == Seq::<char>::empty(),
        text_lines(a + b) == text_lines(a) + text_lines(b),
        text_lines(seq![text]) == text + "\n"@,
    decreases b.len(),
{
    assert(seq![text].drop_last() =~= Seq::empty());
    assert(text_lines(seq![text].drop_last()) =~= Seq::empty());
    assert(text_lines(seq![text]) =~= text + "\n"@);
    if b.len() == 0 {
        assert(a + b =~= a);
        assert(text_lines(a + b) =~= text_lines(a) + text_lines(b));
    } else {
        texts_are_written_line_by_line(a, b.drop_last(), text);
        assert((a + b).drop_last() =~= a + b.drop_last());
        assert((a + b).last() == b.last());
        assert(text_lines(a + b) =~= text_lines(a) + text_lines(b));
    }
}

/// A challenge without anything else is its title, its id and its languages.
pub proof fn challenges_are_titled(v: JValue)
    requires
        v.get("description"@) is None,
        v.get("limits"@) is None,
        v.get("compiler_options"@) is None,
        v.get("urls"@) is None,
    ensures
        challenge_detail_text(v) == said(v, "title"@) + " ("@ + said(v, "id"@)
            + ")\n\nLanguages: "@ + v.list_field("languages"@) + "\n"@,
{
    reveal_strlit(")\n\nLanguages: ");
    reveal_strlit(")\n");
    reveal_strlit("\n");
    reveal_strlit("Languages: ");
    assert(")\n\nLanguages: "@ =~= ")\n"@ + "\n"@ + "Languages: "@);
    assert(challenge_detail_text(v) =~= said(v, "title"@) + " ("@ + said(v, "id"@)
        + ")\n\nLanguages: "@ + v.list_field("languages"@) + "\n"@);
}

/// A description is added between the title of a challenge and its languages, an empty line above
/// it: every text of it on a line.
pub proof fn descriptions_stand_below_the_title(v: JValue, other: JValue)
    requires
        v.get("title"@) == other.get("title"@),
        v.get("id"@) == other.get("id"@),
        v.get("languages"@) == other.get("languages"@),
        v.get("limits"@) == other.get("limits"@),
        v.get("compiler_options"@) == other.get("compiler_options"@),
        v.get("urls"@) == other.get("urls"@),
        !(other.get("description"@) matches Some(JValue::Array(_))),
    ensures
        ({
            let title = said(v, "title"@) + " ("@ + said(v, "id"@) + ")\n"@;
            let whole = challenge_detail_text(other);
            &&& title.is_prefix_of(whole)
            &&& challenge_detail_text(v) == title + (match v.get("description"@) {
                Some(JValue::Array(items)) => "\n"@ + text_lines(texts_among(items)),
                _ => Seq::empty(),
            }) + whole.skip(title.len() as int)
        }),
{
    let title = said(v, "title"@) + " ("@ + said(v, "id"@) + ")\n"@;
    let whole = challenge_detail_text(other);
    let languages = "Languages: "@ + v.list_field("languages"@) + "\n"@;
    let sources = crate::challenges::limit_line(v, "Source limit: "@, "source_bytes"@);
    let options = crate::challenges::limit_line(
        v,
        "Compiler options limit: "@,
        "compiler_options_bytes"@,
    );
    let compiler = crate::challenges::compiler_part(v);
    let paths = crate::challenges::paths_part(v);
    let rest = "\n"@ + languages + sources + options + compiler + paths;
    assert(description_part(other) == Seq::<char>::empty());
    assert(whole == title + Seq::empty() + "\n"@ + languages + sources + options + compiler + paths);
    six_parts_move(title + Seq::empty(), "\n"@, languages, sources, options, compiler, paths);
    six_parts_move(
        title + description_part(v),
        "\n"@,
        languages,
        sources,
        options,
        compiler,
        paths,
    );
    parts_are_inserted(title, Seq::empty(), Seq::empty(), Seq::empty(), rest);
    assert(title =~= whole.take(title.len() as int));
}

proof fn six_parts_move(
    front: Seq<char>,
    a: Seq<char>,
    b: Seq<char>,
    c: Seq<char>,
    d: Seq<char>,
    e: Seq<char>,
    f: Seq<char>,
)
    ensures
        front + a + b + c + d + e + f == front + (a + b + c + d + e + f),
{
    groups_move(front, a, b);
    groups_move(front, a + b, c);
    groups_move(front, a + b + c, d);
    groups_move(front, a + b + c + d, e);
    groups_move(front, a + b + c + d + e, f);
}

/// What a challenge says about limits, compiler options and paths is added behind its languages,
/// in that order, each where it is an object, and of it what is there.
pub proof fn details_stand_behind_the_languages(v: JValue, bare: JValue)
    requires
        v.get("title"@) == bare.get("title"@),
        v.get("id"@) == bare.get("id"@),
        v.get("languages"@) == bare.get("languages"@),
        v.get("description"@) == bare.get("description"@),
        bare.get("limits"@) is None,
        bare.get("compiler_options"@) is None,
        bare.get("urls"@) is None,
    ensures
        challenge_detail_text(v) == challenge_detail_text(bare) + (match v.get("limits"@) {
            Some(limits) => line_for_size("Source limit: "@, limits.get("source_bytes"@))
                + line_for_size(
                "Compiler options limit: "@,
                limits.get("compiler_options_bytes"@),
            ),
            None => Seq::empty(),
        }) + (match v.get("compiler_options"@) {
            Some(JValue::Object(m)) => "\nCompiler defaults:\n"@ + line_for_text(
                "  rust: "@,
                JValue::Object(m).get("rust_default"@),
            ) + line_for_text("  cpp:  "@, JValue::Object(m).get("cpp_default"@)),
            _ => Seq::empty(),
        }) + (match v.get("urls"@) {
            Some(JValue::Object(m)) => "\nAPI paths:\n"@ + line_for_text(
                "  leaderboard: "@,
                JValue::Object(m).get("leaderboard"@),
            ) + line_for_text("  record_history: "@, JValue::Object(m).get("record_history"@))
                + line_for_text("  submissions: "@, JValue::Object(m).get("submissions"@)),
            _ => Seq::empty(),
        }),
{
    let limits = match v.get("limits"@) {
        Some(limits) => line_for_size("Source limit: "@, limits.get("source_bytes"@))
            + line_for_size("Compiler options limit: "@, limits.get("compiler_options_bytes"@)),
        None => Seq::empty(),
    };
    assert(challenge_detail_text(v) =~= challenge_detail_text(bare) + limits
        + crate::challenges::compiler_part(v) + crate::challenges::paths_part(v));
}

/// A list of challenges has a line of headings, a line of dashes, and a line for every challenge
/// with its id, its title and its languages, in their order.
pub proof fn challenges_are_listed_one_by_one(
    a: Seq<JValue>,
    b: Seq<JValue>,
    challenge: JValue,
    ids: nat,
    titles: nat,
)
    ensures
        ({
            let i = field_width(a, "id"@, 2);
            let t = field_width(a, "title"@, 5);
            challenge_list_text(a) == padded("ID"@, i) + "  "@ + padded("TITLE"@, t)
                + "  LANGUAGES\n"@ + repeated('-', i) + "  "@ + repeated('-', t)
                + "  ---------\n"@ + challenge_lines(a, i, t)
        }),
        challenge_lines(Seq::empty(), ids, titles) == Seq::<char>::empty(),
        challenge_lines(a + b, ids, titles) == challenge_lines(a, ids, titles) + challenge_lines(
            b,
            ids,
            titles,
        ),
        challenge_lines(seq![challenge], ids, titles) == padded(said(challenge, "id"@), ids) + "  "@
            + padded(said(challenge, "title"@), titles) + "  "@ + challenge.list_field(
            "languages"@,
        ) + "\n"@,
    decreases b.len(),
{
    reveal_strlit("ID");
    reveal_strlit("TITLE");
    vstd::utf8::is_ascii_chars_encode_utf8("ID"@);
    vstd::utf8::is_ascii_chars_encode_utf8("TITLE"@);
    assert(seq![challenge].drop_last() =~= Seq::empty());
    assert(challenge_lines(seq![challenge].drop_last(), ids, titles) =~= Seq::empty());
    assert(challenge_lines(seq![challenge], ids, titles) =~= padded(said(challenge, "id"@), ids)
        + "  "@ + padded(said(challenge, "title"@), titles) + "  "@ + challenge.list_field(
        "languages"@,
    ) + "\n"@);
    if b.len() == 0 {
        assert(a + b =~= a);
        assert(challenge_lines(a + b, ids, titles) =~= challenge_lines(a, ids, titles)
            + challenge_lines(b, ids, titles));
    } else {
        challenges_are_listed_one_by_one(a, b.drop_last(), challenge, ids, titles);
        assert((a + b).drop_last() =~= a + b.drop_last());
        assert((a + b).last() == b.last());
        assert(challenge_lines(a + b, ids, titles) =~= challenge_lines(a, ids, titles)
            + challenge_lines(b, ids, titles));
    }
}

/// A column of the list of challenges is as wide as the longest text in it, and no wider than
/// that or its heading.
pub proof fn challenge_columns_are_tight(items: Seq<JValue>, key: Seq<char>, least: nat)
    ensures
        ({
            let width = field_width(items, key, least);
            &&& width >= least
            &&& forall|i: int|
                0 <= i < items.len() ==> ((#[trigger] items[i]).get(key) matches Some(
                    JValue::Text(t),
                ) ==> byte_len(t) <= width)
            &&& width == least || exists|i: int|
                0 <= i < items.len() && ((#[trigger] items[i]).get(key) matches Some(
                    JValue::Text(t),
                ) && byte_len(t) == width)
        }),
    decreases items.len(),
{
    if items.len() > 0 {
        let front = items.drop_last();
        let width = field_width(items, key, least);
        let before = field_width(front, key, least);
        challenge_columns_are_tight(front, key, least);
        assert forall|i: int| 0 <= i < items.len() implies ((#[trigger] items[i]).get(
            key,
        ) matches Some(JValue::Text(t)) ==> byte_len(t) <= width) by {
            if i < front.len() {
                assert(front[i] == items[i]);
            }
        }
        if width != least {
            if width == before {
                let i = choose|i: int|
                    0 <= i < front.len() && ((#[trigger] front[i]).get(key) matches Some(
                        JValue::Text(t),
                    ) && byte_len(t) == before);
                assert(items[i] == front[i]);
            } else {
                assert(items[items.len() - 1] == items.last());
            }
        }
    }
}

/// Every answer is told in the words that are meant for it.
pub proof fn answers_are_told_in_their_words(v: JValue, items: Seq<JValue>)
    ensures
        words(Report::AuthStatus, v) == auth_status_text(v),
        words(Report::AuthLogin, v) == auth_login_text(v),
        words(Report::Logout, v) == "Local token removed\n"@,
        words(Report::AgentToken, v) == agent_token_text(v),
        words(Report::ChallengeDetail, v) == challenge_detail_text(v),
        words(Report::Submission, v) == submission_text(v),
        words(Report::Job, v) == job_text(v),
        words(Report::Solution, v) == solution_text(v),
        words(Report::SolutionVisibility, v) == solution_visibility_text(v),
        v.get("challenges"@) == Some(JValue::Array(items)) ==> words(Report::ChallengeList, v)
            == challenge_list_text(items),
        v == JValue::Array(items) ==> words(Report::Systems, v) == systems_text(items),
        v.get("entries"@) == Some(JValue::Array(items)) ==> words(Report::Leaderboard, v)
            == leaderboard_heading(v) + entries_text(items),
        page_jobs(v) == Some(items) ==> words(Report::JobsPage, v) == jobs_page_text(v, items),
{
}

/// An answer that holds no array where one has to be is told as such, and nothing else is found
/// wanting in any answer.
pub proof fn answers_are_found_wanting(v: JValue)
    ensures
        flaw(Report::ChallengeList, v) == (match v.get("challenges"@) {
            Some(JValue::Array(_)) => None,
            _ => Some(CliError::NoChallenges),
        }),
        flaw(Report::Systems, v) == (match v {
            JValue::Array(_) => None,
            _ => Some(CliError::NoSystems),
        }),
        flaw(Report::Leaderboard, v) == (match v.get("entries"@) {
            Some(JValue::Array(_)) => None,
            _ => Some(CliError::NoEntries),
        }),
        flaw(Report::SubmissionWithJobs, v) == (match (v.get("submission"@), v.get("jobs"@)) {
            (Some(_), Some(JValue::Array(_))) => None,
            (Some(_), _) => Some(CliError::NoFinishedJobs),
            (None, _) => Some(CliError::NoSubmission),
        }),
        flaw(Report::JobsPage, v) == (match v.get("items"@) {
            Some(JValue::Array(_)) => None,
            _ => match v {
                JValue::Array(_) => None,
                _ => Some(CliError::NoItems),
            },
        }),
        flaw(Report::AuthStatus, v) is None,
        flaw(Report::AuthLogin, v) is None,
        flaw(Report::Logout, v) is None,
        flaw(Report::AgentToken, v) is None,
        flaw(Report::ChallengeDetail, v) is None,
        flaw(Report::Submission, v) is None,
        flaw(Report::Job, v) is None,
        flaw(Report::Solution, v) is None,
        flaw(Report::SolutionVisibility, v) is None,
{
}

/// A finished submission is shown as a fresh one is, and below that its finished jobs; what is
/// there is shown where something is missing.
pub proof fn finished_jobs_stand_below_the_submission(v: JValue, submission: JValue)
    requires
        v.get("submission"@) == Some(submission),
    ensures
        words(Report::SubmissionWithJobs, v) == submission_text(submission)
            + "\nFinished jobs:\n"@ + (match v.get("jobs"@) {
            Some(JValue::Array(jobs)) => job_rows_text(jobs),
            _ => Seq::empty(),
        }),
{
    assert(words(Report::SubmissionWithJobs, v) =~= submission_text(submission)
        + "\nFinished jobs:\n"@ + (match v.get("jobs"@) {
        Some(JValue::Array(jobs)) => job_rows_text(jobs),
        _ => Seq::empty(),
    }));
}

/// A raw answer is the JSON of the document whatever it is about, and words are told otherwise; a
/// body of nothing but white space is null, and every other one is what the reader makes of it.
pub proof fn raw_answers_are_json(report: Report, v: JValue, body: Seq<char>)
    ensures
        shown((OutputMode { raw: true }), report, v) == pretty(v) + "\n"@,
        shown((OutputMode { raw: false }), report, v) == words(report, v),
        (forall|i: int| 0 <= i < body.len() ==> is_space(#[trigger] body[i])) ==> answer_value(body)
            == Some(JValue::Null),
        (exists|i: int| 0 <= i < body.len() && !is_space(#[trigger] body[i])) ==> answer_value(body)
            == parsed(body),
{
}

/// A profile goes to a file called after its job, and the notice names the file and how many bytes
/// went there.
pub proof fn profiles_are_called_after_their_job(
    job_id: Seq<char>,
    path: Seq<char>,
    profile: Seq<char>,
)
    ensures
        profile_name(job_id) == crate::format::safe_name(job_id) + ".perf-annotate.txt"@,
        profile_text(path, profile) == "Downloaded profile to "@ + path + " ("@ + decimal(
            vstd::utf8::encode_utf8(profile).len(),
        ) + " bytes)\n"@,
{
}

/// A failure that carries a text tells it, behind what went wrong.
pub proof fn failures_tell_what_they_carry(a: String, b: String, cause: serde_json::Error)
    ensures
        told((CliError::ParseJson { body: a, cause })) == Some("parse JSON response: "@ + a@),
        told(CliError::Login(a)) == Some(a@),
        told(CliError::UnknownAuthStatus(a)) == Some("unknown auth status "@ + a@),
        told(CliError::AgentName(a)) == Some(
            "agent names are limited to 64 bytes of [A-Za-z0-9._-]: "@ + a@,
        ),
        told((CliError::Http { status: a, body: b })) == Some("HTTP "@ + a@ + ": "@ + b@),
        told((CliError::Url { path: a, reason: b })) == Some("build URL for path "@ + a@),
        told((CliError::UrlTooLong { path: a })) == Some("URL is too long for path "@ + a@),
{
}

} // verus!
