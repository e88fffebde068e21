//! What holds of what is sent, and of what the client decides between two requests.

use vstd::prelude::*;
use crate::commands::{
    LeaderboardScope, agent_body, call_is, challenge_path, is_agent_name, job_path,
    leaderboard_query, logout_value, page_query, solution_path, submission_body, user_jobs_path,
    user_jobs_query, visibility_body,
};
use crate::config::{ConfigFile, ConfigStore, loads};
use crate::json::JValue;
use crate::login::{
    AuthPollResponse, AuthStartResponse, first_interval, login_value, next_interval, poll_body,
    prompt_text, reason,
};
use crate::output::Report;
use crate::properties::values::lookups_find_members;
use crate::properties::{decimals_stand_for_their_number, digits_value};
use crate::request::{
    Call, Method, Request, RequestView, get_view, patch_view, path_part, post_view, query_view,
};
use crate::text::decimal;
use crate::watch::{is_done, wait_value};

verus! {

/// A member is found under its key where no member before it has the key.
proof fn first_members_are_found(members: Seq<(Seq<char>, JValue)>, i: int)
    requires
        0 <= i < members.len(),
        forall|j: int| 0 <= j < i ==> (#[trigger] members[j]).0 != members[i].0,
    ensures
        JValue::Object(members).get(members[i].0) == Some(members[i].1),
{
    let v = JValue::Object(members);
    let key = members[i].0;
    lookups_find_members(v, key);
    match v.get(key) {
        Some(found) => {
            let k = choose|k: int|
                0 <= k < members.len() && #[trigger] members[k] == (key, found) && forall|j: int|
                    0 <= j < k ==> (#[trigger] members[j]).0 != key;
            if k < i {
                assert(members[k].0 != members[i].0);
            } else if i < k {
                assert(members[i].0 != key);
            }
        },
        None => {
            assert(members[i].0 != key);
        },
    }
}

proof fn submission_keys_differ()
    ensures
        "compiler"@ != "compiler_options"@,
        "compiler"@ != "language"@,
        "compiler"@ != "source"@,
        "compiler_options"@ != "language"@,
        "compiler_options"@ != "source"@,
        "language"@ != "source"@,
{
    reveal_strlit("compiler");
    reveal_strlit("compiler_options");
    reveal_strlit("language");
    reveal_strlit("source");
    assert("compiler"@.len() == 8);
    assert("compiler_options"@.len() == 16);
    assert("language"@.len() == 8);
    assert("source"@.len() == 6);
    assert("compiler"@[0] != "language"@[0]);
}

/// What is sent to submit a solution holds the language and the source, the compiler exactly
/// where one was named, and the compiler options exactly where some were given, whatever else was
/// given; and it holds nothing more.
pub proof fn submissions_hold_what_was_given(
    lang: Seq<char>,
    source: Seq<char>,
    compiler: Option<Seq<char>>,
    options: Option<Seq<char>>,
    key: Seq<char>,
)
    ensures
        ({
            let body = submission_body(lang, source, compiler, options);
            &&& body.get("language"@) == Some(JValue::Text(lang))
            &&& body.get("source"@) == Some(JValue::Text(source))
            &&& match compiler {
                Some(c) => body.get("compiler"@) == Some(JValue::Text(c)),
                None => body.get("compiler"@) is None,
            }
            &&& match options {
                Some(o) => body.get("compiler_options"@) == Some(JValue::Text(o)),
                None => body.get("compiler_options"@) is None,
            }
            &&& body.get(key) is Some ==> key == "language"@ || key == "source"@ || key
                == "compiler"@ || key == "compiler_options"@
        }),
{
    submission_keys_differ();
    let body = submission_body(lang, source, compiler, options);
    let members = body->Object_0;
    let n = members.len() as int;
    let language = ("language"@, JValue::Text(lang));
    let text = ("source"@, JValue::Text(source));
    match (compiler, options) {
        (Some(c), Some(o)) => {
            assert(members =~= seq![
                ("compiler"@, JValue::Text(c)),
                ("compiler_options"@, JValue::Text(o)),
                language,
                text,
            ]);
            first_members_are_found(members, 0);
            first_members_are_found(members, 1);
        },
        (Some(c), None) => {
            assert(members =~= seq![("compiler"@, JValue::Text(c)), language, text]);
            first_members_are_found(members, 0);
        },
        (None, Some(o)) => {
            assert(members =~= seq![("compiler_options"@, JValue::Text(o)), language, text]);
            first_members_are_found(members, 0);
        },
        (None, None) => {
            assert(members =~= seq![language, text]);
        },
    }
    first_members_are_found(members, n - 2);
    first_members_are_found(members, n - 1);
    lookups_find_members(body, key);
    lookups_find_members(body, "compiler"@);
    lookups_find_members(body, "compiler_options"@);
}

/// What is sent to publish a solution says that it is public, and to unpublish it that it is not;
/// what is sent for an agent token and to ask for a login names the agent and the login. None of
/// them holds anything more.
pub proof fn bodies_hold_one_member(public: bool, name: Seq<char>, key: Seq<char>)
    ensures
        visibility_body(public).get("is_public"@) == Some(JValue::Bool(public)),
        visibility_body(public).get(key) is Some ==> key == "is_public"@,
        agent_body(name).get("agent"@) == Some(JValue::Text(name)),
        agent_body(name).get(key) is Some ==> key == "agent"@,
        poll_body(name).get("login_id"@) == Some(JValue::Text(name)),
        poll_body(name).get(key) is Some ==> key == "login_id"@,
{
    first_members_are_found(visibility_body(public)->Object_0, 0);
    first_members_are_found(agent_body(name)->Object_0, 0);
    first_members_are_found(poll_body(name)->Object_0, 0);
    lookups_find_members(visibility_body(public), key);
    lookups_find_members(agent_body(name), key);
    lookups_find_members(poll_body(name), key);
}

/// After the local token was removed, that is what is told, and that all went well.
pub proof fn logouts_are_told(key: Seq<char>)
    ensures
        logout_value().get("ok"@) == Some(JValue::Bool(true)),
        logout_value().get("message"@) == Some(JValue::Text("local token removed"@)),
        logout_value().get(key) is Some ==> key == "ok"@ || key == "message"@,
{
    reveal_strlit("ok");
    reveal_strlit("message");
    assert("ok"@.len() == 2);
    assert("message"@.len() == 7);
    let members = logout_value()->Object_0;
    first_members_are_found(members, 0);
    first_members_are_found(members, 1);
    lookups_find_members(logout_value(), key);
}

/// What is told of a settled login says that it is settled, whether the token was stored, who the
/// user is, and the token itself exactly where it was not stored.
pub proof fn settled_logins_hold_what_came_of_them(
    no_store: bool,
    token: Seq<char>,
    user: Option<JValue>,
    key: Seq<char>,
)
    ensures
        ({
            let v = login_value(no_store, token, user);
            &&& v.get("authenticated"@) == Some(JValue::Bool(true))
            &&& v.get("stored"@) == Some(JValue::Bool(!no_store))
            &&& no_store ==> v.get("token"@) == Some(JValue::Text(token))
            &&& !no_store ==> v.get("token"@) == Some(JValue::Null)
            &&& match user {
                Some(u) => v.get("user"@) == Some(u),
                None => v.get("user"@) == Some(JValue::Null),
            }
            &&& v.get(key) is Some ==> key == "authenticated"@ || key == "stored"@ || key
                == "token"@ || key == "user"@
        }),
{
    reveal_strlit("authenticated");
    reveal_strlit("stored");
    reveal_strlit("token");
    reveal_strlit("user");
    assert("authenticated"@.len() == 13);
    assert("stored"@.len() == 6);
    assert("token"@.len() == 5);
    assert("user"@.len() == 4);
    let v = login_value(no_store, token, user);
    let members = v->Object_0;
    first_members_are_found(members, 0);
    first_members_are_found(members, 1);
    first_members_are_found(members, 2);
    first_members_are_found(members, 3);
    lookups_find_members(v, key);
}

/// What is told of a finished submission holds the submission and its finished jobs, all of them
/// and in the order in which they finished.
pub proof fn finished_submissions_hold_their_jobs(
    submission: JValue,
    finished: Seq<JValue>,
    key: Seq<char>,
)
    ensures
        wait_value(submission, finished).get("submission"@) == Some(submission),
        wait_value(submission, finished).get("jobs"@) == Some(JValue::Array(finished)),
        wait_value(submission, finished).get(key) is Some ==> key == "submission"@ || key
            == "jobs"@,
{
    reveal_strlit("submission");
    reveal_strlit("jobs");
    assert("submission"@.len() == 10);
    assert("jobs"@.len() == 4);
    let v = wait_value(submission, finished);
    first_members_are_found(v->Object_0, 0);
    first_members_are_found(v->Object_0, 1);
    lookups_find_members(v, key);
}

/// A job is done where its status is the text `done`, and in no other case: not with another
/// status, not with one that is no text, and not without one.
pub proof fn jobs_are_done_when_they_say_so(job: JValue)
    ensures
        is_done(job) <==> job.get("status"@) == Some(JValue::Text("done"@)),
{
}

/// Two jobs with the same status are both done or both not, whatever else they hold, and one that
/// has another text for its status than a done one is not done.
pub proof fn only_the_status_ends_a_watch(job: JValue, other: JValue)
    ensures
        job.get("status"@) == other.get("status"@) ==> is_done(job) == is_done(other),
        is_done(job) && other.get("status"@) != job.get("status"@) ==> !is_done(other),
{
    jobs_are_done_when_they_say_so(job);
    jobs_are_done_when_they_say_so(other);
}

/// The first question about a login waits as long as the server asks, at least a second, and five
/// seconds where it asks for nothing.
pub proof fn logins_start_after_the_asked_time(start: AuthStartResponse)
    ensures
        match start.interval {
            Some(n) => first_interval(start) == (if n == 0 {
                1
            } else {
                n
            }),
            None => first_interval(start) == 5,
        },
{
}

/// The next question about a login waits as long as the server asks, at least a second; where it
/// asks for nothing, as long as the last one did, and five seconds more where it asks to slow
/// down.
pub proof fn logins_go_on_after_the_asked_time(interval: u64, poll: AuthPollResponse)
    ensures
        match poll.interval {
            Some(n) => next_interval(interval, poll) == (if n == 0 {
                1
            } else {
                n as int
            }),
            None => next_interval(interval, poll) - interval == (if poll.status@ == "slow_down"@ {
                5int
            } else {
                0int
            }),
        },
{
}

/// A login that came to nothing is explained in the words of the server where it has some.
pub proof fn failed_logins_are_explained(message: String, other: Seq<char>)
    ensures
        reason(Some(message), other) == message@,
        reason(None, other) == other,
{
}

/// A login starts by telling where to go and which code to enter there, and how long the code is
/// good for where that is limited.
pub proof fn logins_tell_where_to_go(start: AuthStartResponse)
    ensures
        prompt_text(start) == ("Open "@ + (start.verification_uri@ + " and enter code "@
            + start.user_code@) + "\n"@) + (match start.expires_in {
            Some(n) => "This code expires in "@ + (decimal(n as nat) + " seconds."@) + "\n"@,
            None => Seq::empty(),
        }),
{
}

/// Every item has its own path below the path of its kind.
pub proof fn items_have_their_paths(id: Seq<char>)
    ensures
        challenge_path(id) == "/api/challenges/"@ + path_part(id),
        job_path(id) == "/api/jobs/"@ + path_part(id),
        solution_path(id) == "/api/solutions/"@ + path_part(id),
        user_jobs_path(id) == "/api/users/"@ + path_part(id) + "/jobs"@,
{
}

/// A page is asked for with how many items it may hold, and where it starts exactly where that was
/// given.
pub proof fn pages_are_asked_for_as_given(limit: nat, cursor: Option<Seq<char>>)
    ensures
        ({
            let query = page_query(limit, cursor);
            &&& query[0].0 == "limit"@
            &&& digits_value(query[0].1) == limit && query[0].1 == decimal(limit)
            &&& match cursor {
                Some(c) => query.len() == 2 && query[1] == ("cursor"@, c),
                None => query.len() == 1,
            }
        }),
{
    decimals_stand_for_their_number(limit);
}

/// A page of the jobs of a user is asked for as any page is, and for one challenge exactly where
/// one was given, whether or not it is said where the page starts.
pub proof fn pages_of_users_are_asked_for_as_given(
    limit: nat,
    challenge: Option<Seq<char>>,
    cursor: Option<Seq<char>>,
)
    ensures
        ({
            let query = user_jobs_query(limit, challenge, cursor);
            let page = page_query(limit, cursor);
            &&& query[0] == page[0]
            &&& match challenge {
                Some(c) => query.len() == page.len() + 1 && query[1] == ("challenge_id"@, c)
                    && query.remove(1) == page,
                None => query == page,
            }
        }),
{
    let query = user_jobs_query(limit, challenge, cursor);
    let page = page_query(limit, cursor);
    match challenge {
        Some(c) => {
            assert(query.remove(1) =~= page);
        },
        None => {
            assert(query =~= page);
        },
    }
}

/// A leaderboard is asked for with one system, with all of them, or without a word about them.
pub proof fn leaderboards_are_asked_for_as_given(id: String)
    ensures
        leaderboard_query(LeaderboardScope::System(id)) == seq![("system_id"@, id@)],
        leaderboard_query(LeaderboardScope::AllSystems) == seq![("all_systems"@, "true"@)],
        leaderboard_query(LeaderboardScope::Unsaid).len() == 0,
{
}

/// An agent can have every name of at most 64 bytes of letters, digits, `.`, `_` and `-`, and no
/// other.
pub proof fn agent_names_are_limited(name: Seq<char>)
    ensures
        is_agent_name(name) <==> vstd::utf8::encode_utf8(name).len() <= 64 && forall|i: int|
            0 <= i < name.len() ==> {
                let c = #[trigger] name[i];
                ('A' <= c <= 'Z') || ('a' <= c <= 'z') || ('0' <= c <= '9') || c == '.' || c == '_'
                    || c == '-'
            },
{
    if is_agent_name(name) {
        assert forall|i: int| 0 <= i < name.len() implies {
            let c = #[trigger] name[i];
            ('A' <= c <= 'Z') || ('a' <= c <= 'z') || ('0' <= c <= '9') || c == '.' || c == '_' || c
                == '-'
        } by {
            assert(crate::format::is_safe(name[i]));
        }
    }
}

/// Reading asks with a query and sends nothing; sending and changing send a document and ask
/// nothing.
pub proof fn requests_are_what_they_do(
    path: Seq<char>,
    query: Seq<(Seq<char>, Seq<char>)>,
    body: JValue,
)
    ensures
        get_view(path, query) == (RequestView { method: Method::Get, path, query, body: None }),
        post_view(path, body) == (RequestView {
            method: Method::Post,
            path,
            query: Seq::empty(),
            body: Some(body),
        }),
        patch_view(path, body) == (RequestView {
            method: Method::Patch,
            path,
            query: Seq::empty(),
            body: Some(body),
        }),
{
}

/// A request holds its method, its path, every pair of its query in order, and its body.
pub proof fn requests_hold_their_parts(request: Request)
    ensures
        request@.method == request.method,
        request@.path == request.path@,
        request@.query.len() == request.query@.len(),
        forall|i: int|
            0 <= i < request.query@.len() ==> #[trigger] request@.query[i] == (
                request.query@[i].0@,
                request.query@[i].1@,
            ),
        request@.query == query_view(request.query@),
        match request.body {
            Some(body) => request@.body == Some(body@),
            None => request@.body is None,
        },
{
}

/// A call that is said to be for a request and a report is for that request and that report, and
/// the request can be sent: its path marks neither a query nor a fragment, and its body is well
/// formed.
pub proof fn calls_are_what_they_are_for(call: Call, request: RequestView, report: Report)
    ensures
        call_is(call, request, report) ==> call.request@ == request && call.report == report && (
        forall|i: int|
            0 <= i < request.path.len() ==> (#[trigger] request.path[i]) != '?' && request.path[i]
                != '#') && (request.body matches Some(body) ==> body.wf()),
{
}

/// A configuration is empty where its file does not exist, and fails to load where its file
/// could not be read, for the same reason.
pub proof fn missing_configurations_are_empty<P, E>(
    path: P,
    why: E,
    r: Result<ConfigStore<P>, E>,
)
    ensures
        loads(path, ConfigFile::Missing, r) ==> (r matches Ok(store) && store.path == path
            && store.config.token is None),
        loads(path, ConfigFile::Failed(why), r) ==> r == Err::<ConfigStore<P>, E>(why),
{
}

} // verus!
