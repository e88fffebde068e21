//! The commands of the client, and the requests they stand for.

use vstd::prelude::*;
use crate::error::CliError;
use crate::format::is_safe;
use crate::json::{Json, JValue, Member, member, object_wf, pairs, text_less};
use crate::output::Report;
use crate::request::{
    Call, Request, RequestView, enc, get_view, is_plain, patch_view, path_part, path_part_chars,
    post_view, query_view,
};
use crate::text::{byte_len, chars_of, decimal, decimal_text, string_view, utf8_len};

verus! {

/// What can be done about an account.
#[derive(Debug)]
pub enum AuthCommand {
    Login { no_store: bool },
    Status,
    Logout,
    CreateAgentToken { agent: String },
}

/// What can be asked of challenges.
#[derive(Debug)]
pub enum ChallengesCommand {
    List,
    Show { challenge_id: String },
}

/// What can be asked of systems.
#[derive(Debug)]
pub enum SystemsCommand {
    List,
}

/// Which systems a leaderboard is for.
#[derive(Debug)]
pub enum LeaderboardScope {
    /// The one that the server picks.
    Unsaid,
    /// The given one.
    System(String),
    /// All of them together.
    AllSystems,
}

/// A leaderboard to be read.
#[derive(Debug)]
pub struct LeaderboardArgs {
    pub challenge_id: String,
    pub scope: LeaderboardScope,
}

/// A solution to be submitted, apart from its source.
#[derive(Debug)]
pub struct SubmitArgs {
    pub challenge_id: String,
    pub lang: String,
    pub compiler: Option<String>,
    pub compiler_options: Option<String>,
}

/// What can be asked of jobs. A file is named by a `P`.
#[derive(Debug)]
pub enum JobsCommand<P> {
    Show { job_id: String },
    Watch { job_id: String, poll_interval_ms: u64 },
    Queue { limit: usize, cursor: Option<String> },
    Profile { job_id: String, output: Option<P> },
    TopDown { job_id: String },
}

/// What can be asked of users.
#[derive(Debug)]
pub enum UsersCommand {
    Jobs { user_id: String, challenge: Option<String>, limit: usize, cursor: Option<String> },
}

/// What can be asked of solutions.
#[derive(Debug)]
pub enum SolutionsCommand {
    Show { solution_id: String },
    Publish { solution_id: String },
    Unpublish { solution_id: String },
    Jobs { solution_id: String, limit: usize, cursor: Option<String> },
}

/// How a command about an account is carried out.
#[derive(Debug)]
pub enum AuthPlan {
    /// Go through a login.
    Login { no_store: bool },
    /// Ask, and tell the answer.
    Call(Call),
    /// Forget the stored token, and tell this.
    Logout(Json),
}

/// How a command about jobs is carried out.
#[derive(Debug)]
pub enum JobsPlan<P> {
    /// Ask, and tell the answer.
    Call(Call),
    /// Ask for the job until it is done.
    Watch { job_id: String, poll_interval_ms: u64 },
    /// Ask for a text, and deliver it as a profile.
    Profile { request: Request, job_id: String, output: Option<P> },
    /// Ask for a text, and show it.
    Show(Request),
}

/// The path of a challenge.
pub open spec fn challenge_path(id: Seq<char>) -> Seq<char> {
    "/api/challenges/"@ + path_part(id)
}

/// The path of a job.
pub open spec fn job_path(id: Seq<char>) -> Seq<char> {
    "/api/jobs/"@ + path_part(id)
}

/// The path of a solution.
pub open spec fn solution_path(id: Seq<char>) -> Seq<char> {
    "/api/solutions/"@ + path_part(id)
}

/// The path of the jobs of a user.
pub open spec fn user_jobs_path(id: Seq<char>) -> Seq<char> {
    "/api/users/"@ + path_part(id) + "/jobs"@
}

/// No pair, or the one for a text that is given.
pub open spec fn pair_if(key: Seq<char>, text: Option<Seq<char>>) -> Seq<(Seq<char>, Seq<char>)> {
    match text {
        Some(t) => seq![(key, t)],
        None => Seq::empty(),
    }
}

/// The query for a page: how many items at most, and where to start.
pub open spec fn page_query(limit: nat, cursor: Option<Seq<char>>) -> Seq<(Seq<char>, Seq<char>)> {
    seq![("limit"@, decimal(limit))] + pair_if("cursor"@, cursor)
}

/// The query for a page of the jobs of a user.
pub open spec fn user_jobs_query(
    limit: nat,
    challenge: Option<Seq<char>>,
    cursor: Option<Seq<char>>,
) -> Seq<(Seq<char>, Seq<char>)> {
    seq![("limit"@, decimal(limit))] + pair_if("challenge_id"@, challenge) + pair_if(
        "cursor"@,
        cursor,
    )
}

/// The query for a leaderboard.
pub open spec fn leaderboard_query(scope: LeaderboardScope) -> Seq<(Seq<char>, Seq<char>)> {
    match scope {
        LeaderboardScope::Unsaid => Seq::empty(),
        LeaderboardScope::System(id) => seq![("system_id"@, id@)],
        LeaderboardScope::AllSystems => seq![("all_systems"@, "true"@)],
    }
}

/// The member for a text that is given.
pub open spec fn member_if(key: Seq<char>, text: Option<Seq<char>>) -> Seq<(Seq<char>, JValue)> {
    match text {
        Some(t) => seq![(key, JValue::Text(t))],
        None => Seq::empty(),
    }
}

/// What is sent to submit a solution.
pub open spec fn submission_body(
    lang: Seq<char>,
    source: Seq<char>,
    compiler: Option<Seq<char>>,
    compiler_options: Option<Seq<char>>,
) -> JValue {
    JValue::Object(
        member_if("compiler"@, compiler) + member_if("compiler_options"@, compiler_options) + seq![
            ("language"@, JValue::Text(lang)),
            ("source"@, JValue::Text(source)),
        ],
    )
}

/// What is sent to set who can see a solution.
pub open spec fn visibility_body(public: bool) -> JValue {
    JValue::Object(seq![("is_public"@, JValue::Bool(public))])
}

/// What is sent to make a token for an agent.
pub open spec fn agent_body(agent: Seq<char>) -> JValue {
    JValue::Object(seq![("agent"@, JValue::Text(agent))])
}

/// What is told after the stored token was forgotten.
pub open spec fn logout_value() -> JValue {
    JValue::Object(
        seq![
            ("message"@, JValue::Text("local token removed"@)),
            ("ok"@, JValue::Bool(true)),
        ],
    )
}

/// The names that an agent can have: at most 64 bytes of letters, digits, `.`, `_` and `-`.
pub open spec fn is_agent_name(name: Seq<char>) -> bool {
    &&& byte_len(name) <= 64
    &&& forall|i: int| 0 <= i < name.len() ==> is_safe(#[trigger] name[i])
}

/// What a call asks for, and what its answer is about.
pub open spec fn call_is(call: Call, request: RequestView, report: Report) -> bool {
    call.request@ == request && call.report == report && request.wf()
}

fn push_pair(query: &mut Vec<(String, String)>, key: &str, value: String)
    ensures
        query_view(final(query)@) == query_view(old(query)@).push((key@, value@)),
{
    query.push((key.to_string(), value));
    assert(query_view(query@) =~= query_view(old(query)@).push((key@, value@)));
}

fn push_pair_if(query: &mut Vec<(String, String)>, key: &str, value: Option<String>)
    ensures
        query_view(final(query)@) == query_view(old(query)@) + pair_if(key@, string_view(value)),
{
    match value {
        Some(v) => {
            push_pair(query, key, v);
        },
        None => {},
    }
    assert(query_view(query@) =~= query_view(old(query)@) + pair_if(key@, string_view(value)));
}

fn no_query() -> (query: Vec<(String, String)>)
    ensures
        query_view(query@) == Seq::<(Seq<char>, Seq<char>)>::empty(),
{
    let query: Vec<(String, String)> = Vec::new();
    assert(query_view(query@) =~= Seq::empty());
    query
}

fn limit_query(limit: usize) -> (query: Vec<(String, String)>)
    ensures
        query_view(query@) == seq![("limit"@, decimal(limit as nat))],
{
    let mut query = no_query();
    push_pair(&mut query, "limit", decimal_text(limit as u64));
    assert(query_view(query@) =~= seq![("limit"@, decimal(limit as nat))]);
    query
}

fn page_query_of(limit: usize, cursor: Option<String>) -> (query: Vec<(String, String)>)
    ensures
        query_view(query@) == page_query(limit as nat, string_view(cursor)),
{
    let mut query = limit_query(limit);
    push_pair_if(&mut query, "cursor", cursor);
    query
}

fn path_of(before: &str, id: &str, after: &str) -> (r: String)
    ensures
        r@ == before@ + path_part(id@) + after@,
        is_plain(before@) && is_plain(after@) ==> is_plain(r@),
{
    proof {
        path_part_chars(id@);
    }
    before.to_string().concat(enc(id).as_str()).concat(after)
}

fn item_path(before: &str, id: &str) -> (r: String)
    ensures
        r@ == before@ + path_part(id@),
        is_plain(before@) ==> is_plain(r@),
{
    proof {
        path_part_chars(id@);
    }
    before.to_string().concat(enc(id).as_str())
}

/// Tells whether an agent can have the name.
pub fn valid_agent_name(name: &str) -> (r: bool)
    ensures
        r == is_agent_name(name@),
{
    if utf8_len(name) > 64 {
        return false;
    }
    let chars = chars_of(name);
    let mut i: usize = 0;
    while i < chars.len()
        invariant
            chars@ == name@,
            i <= chars@.len(),
            forall|k: int| 0 <= k < i ==> is_safe(#[trigger] name@[k]),
        decreases chars.len() - i,
    {
        let c = chars[i];
        if !(('A' <= c && c <= 'Z') || ('a' <= c && c <= 'z') || ('0' <= c && c <= '9') || c == '-'
            || c == '_' || c == '.') {
            assert(!is_safe(name@[i as int]));
            return false;
        }
        i += 1;
    }
    true
}

/// What is told after the stored token was forgotten.
fn logout_report() -> (r: Json)
    ensures
        r@ == logout_value(),
        r@.wf(),
{
    let mut members: Vec<Member> = Vec::new();
    members.push(member("message", Json::String("local token removed".to_string())));
    members.push(member("ok", Json::Bool(true)));
    proof {
        reveal_strlit("message");
        reveal_strlit("ok");
        assert(pairs(members@) =~= logout_value()->Object_0);
        assert(text_less("message"@, "ok"@));
        object_wf(logout_value());
    }
    Json::object(members)
}

/// How a command about an account is carried out.
pub fn handle_auth(command: AuthCommand) -> (r: Result<AuthPlan, CliError>)
    ensures
        match command {
            AuthCommand::Login { no_store } => r == Ok::<AuthPlan, CliError>(
                AuthPlan::Login { no_store },
            ),
            AuthCommand::Status => r matches Ok(AuthPlan::Call(call)) && call_is(
                call,
                get_view("/auth/session"@, Seq::empty()),
                Report::AuthStatus,
            ),
            AuthCommand::Logout => r matches Ok(AuthPlan::Logout(told)) && told@ == logout_value()
                && told@.wf(),
            AuthCommand::CreateAgentToken { agent } => if is_agent_name(agent@) {
                r matches Ok(AuthPlan::Call(call)) && call_is(
                    call,
                    post_view("/api/auth/agent-tokens"@, agent_body(agent@)),
                    Report::AgentToken,
                )
            } else {
                r == Err::<AuthPlan, CliError>(CliError::AgentName(agent))
            },
        },
{
    proof {
        reveal_strlit("/auth/session");
        reveal_strlit("/api/auth/agent-tokens");
    }
    match command {
        AuthCommand::Login { no_store } => Ok(AuthPlan::Login { no_store }),
        AuthCommand::Status => {
            let request = Request::get("/auth/session".to_string(), no_query());
            Ok(AuthPlan::Call(Call { request, report: Report::AuthStatus }))
        },
        AuthCommand::Logout => Ok(AuthPlan::Logout(logout_report())),
        AuthCommand::CreateAgentToken { agent } => {
            if !valid_agent_name(agent.as_str()) {
                return Err(CliError::AgentName(agent));
            }
            let mut members: Vec<Member> = Vec::new();
            members.push(member("agent", Json::String(agent)));
            proof {
                assert(pairs(members@) =~= agent_body(agent@)->Object_0);
                object_wf(agent_body(agent@));
            }
            let body = Json::object(members);
            let request = Request::post("/api/auth/agent-tokens".to_string(), body);
            Ok(AuthPlan::Call(Call { request, report: Report::AgentToken }))
        },
    }
}

/// The request for a command about challenges.
pub fn handle_challenges(command: ChallengesCommand) -> (call: Call)
    ensures
        match command {
            ChallengesCommand::List => call_is(
                call,
                get_view("/api/challenges"@, Seq::empty()),
                Report::ChallengeList,
            ),
            ChallengesCommand::Show { challenge_id } => call_is(
                call,
                get_view(challenge_path(challenge_id@), Seq::empty()),
                Report::ChallengeDetail,
            ),
        },
{
    proof {
        reveal_strlit("/api/challenges");
        reveal_strlit("/api/challenges/");
    }
    match command {
        ChallengesCommand::List => Call {
            request: Request::get("/api/challenges".to_string(), no_query()),
            report: Report::ChallengeList,
        },
        ChallengesCommand::Show { challenge_id } => Call {
            request: Request::get(
                item_path("/api/challenges/", challenge_id.as_str()),
                no_query(),
            ),
            report: Report::ChallengeDetail,
        },
    }
}

/// The request for a command about systems.
pub fn handle_systems(command: SystemsCommand) -> (call: Call)
    ensures
        call_is(call, get_view("/api/systems"@, Seq::empty()), Report::Systems),
{
    proof {
        reveal_strlit("/api/systems");
    }
    match command {
        SystemsCommand::List => Call {
            request: Request::get("/api/systems".to_string(), no_query()),
            report: Report::Systems,
        },
    }
}

/// The request for a leaderboard.
pub fn handle_leaderboard(args: LeaderboardArgs) -> (call: Call)
    ensures
        call_is(
            call,
            get_view(
                challenge_path(args.challenge_id@) + "/leaderboard"@,
                leaderboard_query(args.scope),
            ),
            Report::Leaderboard,
        ),
{
    proof {
        reveal_strlit("/api/challenges/");
        reveal_strlit("/leaderboard");
    }
    let path = path_of("/api/challenges/", args.challenge_id.as_str(), "/leaderboard");
    let mut query = no_query();
    match args.scope {
        LeaderboardScope::Unsaid => {},
        LeaderboardScope::System(id) => {
            push_pair(&mut query, "system_id", id);
        },
        LeaderboardScope::AllSystems => {
            push_pair(&mut query, "all_systems", "true".to_string());
        },
    }
    assert(query_view(query@) =~= leaderboard_query(args.scope));
    Call { request: Request::get(path, query), report: Report::Leaderboard }
}

proof fn submission_body_wf(
    lang: Seq<char>,
    source: Seq<char>,
    compiler: Option<Seq<char>>,
    compiler_options: Option<Seq<char>>,
)
    ensures
        submission_body(lang, source, compiler, compiler_options).wf(),
{
    reveal_strlit("compiler");
    reveal_strlit("compiler_options");
    reveal_strlit("language");
    reveal_strlit("source");
    reveal_with_fuel(text_less, 10);
    assert(text_less("compiler"@, "compiler_options"@));
    assert(text_less("compiler"@, "language"@));
    assert(text_less("compiler"@, "source"@));
    assert(text_less("compiler_options"@, "language"@));
    assert(text_less("compiler_options"@, "source"@));
    assert(text_less("language"@, "source"@));
    let body = submission_body(lang, source, compiler, compiler_options);
    object_wf(body);
}

/// The request that submits a solution.
pub fn handle_submit(args: SubmitArgs, source: String) -> (request: Request)
    ensures
        request@ == post_view(
            challenge_path(args.challenge_id@) + "/submissions"@,
            submission_body(
                args.lang@,
                source@,
                string_view(args.compiler),
                string_view(args.compiler_options),
            ),
        ),
        request@.wf(),
{
    proof {
        reveal_strlit("/api/challenges/");
        reveal_strlit("/submissions");
    }
    let path = path_of("/api/challenges/", args.challenge_id.as_str(), "/submissions");
    let mut members: Vec<Member> = Vec::new();
    match args.compiler {
        Some(compiler) => {
            members.push(member("compiler", Json::String(compiler)));
        },
        None => {},
    }
    assert(pairs(members@) =~= member_if("compiler"@, string_view(args.compiler)));
    match args.compiler_options {
        Some(options) => {
            members.push(member("compiler_options", Json::String(options)));
        },
        None => {},
    }
    assert(pairs(members@) =~= member_if("compiler"@, string_view(args.compiler)) + member_if(
        "compiler_options"@,
        string_view(args.compiler_options),
    ));
    members.push(member("language", Json::String(args.lang)));
    members.push(member("source", Json::String(source)));
    proof {
        let body = submission_body(
            args.lang@,
            source@,
            string_view(args.compiler),
            string_view(args.compiler_options),
        );
        assert(pairs(members@) =~= body->Object_0);
        submission_body_wf(
            args.lang@,
            source@,
            string_view(args.compiler),
            string_view(args.compiler_options),
        );
    }
    Request::post(path, Json::object(members))
}

/// The request for a job.
pub fn get_job(job_id: &str) -> (request: Request)
    ensures
        request@ == get_view(job_path(job_id@), Seq::empty()),
        request@.wf(),
{
    proof {
        reveal_strlit("/api/jobs/");
    }
    Request::get(item_path("/api/jobs/", job_id), no_query())
}

/// How a command about jobs is carried out.
pub fn handle_jobs<P>(command: JobsCommand<P>) -> (plan: JobsPlan<P>)
    ensures
        match command {
            JobsCommand::Show { job_id } => plan matches JobsPlan::Call(call) && call_is(
                call,
                get_view(job_path(job_id@), Seq::empty()),
                Report::Job,
            ),
            JobsCommand::Watch { job_id, poll_interval_ms } => plan == JobsPlan::<P>::Watch {
                job_id,
                poll_interval_ms,
            },
            JobsCommand::Queue { limit, cursor } => plan matches JobsPlan::Call(call) && call_is(
                call,
                get_view("/api/jobs/non-done"@, page_query(limit as nat, string_view(cursor))),
                Report::JobsPage,
            ),
            JobsCommand::Profile { job_id, output } => {
                &&& plan matches JobsPlan::Profile { request, job_id: id, output: path }
                &&& request@ == get_view(job_path(job_id@) + "/profile"@, Seq::empty())
                &&& request@.wf()
                &&& id == job_id
                &&& path == output
            },
            JobsCommand::TopDown { job_id } => plan matches JobsPlan::Show(request) && request@
                == get_view(job_path(job_id@) + "/top-down"@, Seq::empty()) && request@.wf(),
        },
{
    proof {
        reveal_strlit("/api/jobs/");
        reveal_strlit("/api/jobs/non-done");
        reveal_strlit("/profile");
        reveal_strlit("/top-down");
    }
    match command {
        JobsCommand::Show { job_id } => JobsPlan::Call(
            Call { request: get_job(job_id.as_str()), report: Report::Job },
        ),
        JobsCommand::Watch { job_id, poll_interval_ms } => JobsPlan::Watch {
            job_id,
            poll_interval_ms,
        },
        JobsCommand::Queue { limit, cursor } => JobsPlan::Call(
            Call {
                request: Request::get(
                    "/api/jobs/non-done".to_string(),
                    page_query_of(limit, cursor),
                ),
                report: Report::JobsPage,
            },
        ),
        JobsCommand::Profile { job_id, output } => {
            let path = path_of("/api/jobs/", job_id.as_str(), "/profile");
            JobsPlan::Profile { request: Request::get(path, no_query()), job_id, output }
        },
        JobsCommand::TopDown { job_id } => {
            let path = path_of("/api/jobs/", job_id.as_str(), "/top-down");
            JobsPlan::Show(Request::get(path, no_query()))
        },
    }
}

/// The request for a command about users.
pub fn handle_users(command: UsersCommand) -> (call: Call)
    ensures
        match command {
            UsersCommand::Jobs { user_id, challenge, limit, cursor } => call_is(
                call,
                get_view(
                    user_jobs_path(user_id@),
                    user_jobs_query(limit as nat, string_view(challenge), string_view(cursor)),
                ),
                Report::JobsPage,
            ),
        },
{
    proof {
        reveal_strlit("/api/users/");
        reveal_strlit("/jobs");
    }
    match command {
        UsersCommand::Jobs { user_id, challenge, limit, cursor } => {
            let path = path_of("/api/users/", user_id.as_str(), "/jobs");
            let mut query = limit_query(limit);
            push_pair_if(&mut query, "challenge_id", challenge);
            push_pair_if(&mut query, "cursor", cursor);
            Call { request: Request::get(path, query), report: Report::JobsPage }
        },
    }
}

/// The request that sets who can see a solution.
fn visibility_call(solution_id: &str, public: bool) -> (call: Call)
    ensures
        call_is(
            call,
            patch_view(solution_path(solution_id@), visibility_body(public)),
            Report::SolutionVisibility,
        ),
{
    proof {
        reveal_strlit("/api/solutions/");
    }
    let mut members: Vec<Member> = Vec::new();
    members.push(member("is_public", Json::Bool(public)));
    proof {
        assert(pairs(members@) =~= visibility_body(public)->Object_0);
        object_wf(visibility_body(public));
    }
    let path = item_path("/api/solutions/", solution_id);
    Call {
        request: Request::patch(path, Json::object(members)),
        report: Report::SolutionVisibility,
    }
}

/// The request for a command about solutions.
pub fn handle_solutions(command: SolutionsCommand) -> (call: Call)
    ensures
        match command {
            SolutionsCommand::Show { solution_id } => call_is(
                call,
                get_view(solution_path(solution_id@), Seq::empty()),
                Report::Solution,
            ),
            SolutionsCommand::Publish { solution_id } => call_is(
                call,
                patch_view(solution_path(solution_id@), visibility_body(true)),
                Report::SolutionVisibility,
            ),
            SolutionsCommand::Unpublish { solution_id } => call_is(
                call,
                patch_view(solution_path(solution_id@), visibility_body(false)),
                Report::SolutionVisibility,
            ),
            SolutionsCommand::Jobs { solution_id, limit, cursor } => call_is(
                call,
                get_view(
                    solution_path(solution_id@) + "/jobs"@,
                    page_query(limit as nat, string_view(cursor)),
                ),
                Report::JobsPage,
            ),
        },
{
    proof {
        reveal_strlit("/api/solutions/");
        reveal_strlit("/jobs");
    }
    match command {
        SolutionsCommand::Show { solution_id } => Call {
            request: Request::get(
                item_path("/api/solutions/", solution_id.as_str()),
                no_query(),
            ),
            report: Report::Solution,
        },
        SolutionsCommand::Publish { solution_id } => visibility_call(solution_id.as_str(), true),
        SolutionsCommand::Unpublish { solution_id } => visibility_call(
            solution_id.as_str(),
            false,
        ),
        SolutionsCommand::Jobs { solution_id, limit, cursor } => {
            let path = path_of("/api/solutions/", solution_id.as_str(), "/jobs");
            Call {
                request: Request::get(path, page_query_of(limit, cursor)),
                report: Report::JobsPage,
            }
        },
    }
}

} // verus!
