use cpu_mode::client::{accept_response, read_answer, ApiClient, DEFAULT_BASE_URL};
use cpu_mode::commands::{
    get_job, handle_auth, handle_challenges, handle_jobs, handle_leaderboard, handle_solutions,
    handle_submit, handle_systems, handle_users, valid_agent_name, AuthCommand, AuthPlan,
    ChallengesCommand, JobsCommand, JobsPlan, LeaderboardArgs, LeaderboardScope, SolutionsCommand,
    SubmitArgs, SystemsCommand, UsersCommand,
};
use cpu_mode::error::CliError;
use cpu_mode::output::Report;
use cpu_mode::request::{enc, Call, Method, Request};

fn value(text: &str) -> serde_json::Value {
    serde_json::from_str(text).unwrap()
}

fn client() -> ApiClient {
    ApiClient::new(DEFAULT_BASE_URL.to_string(), None)
}

fn address(request: &Request) -> String {
    client().request_url(request).unwrap().as_str().to_string()
}

fn assert_get(call: &Call, report: Report, url: &str) {
    assert_eq!(call.request.method, Method::Get);
    assert!(call.request.body.is_none());
    assert_eq!(call.report, report);
    assert_eq!(address(&call.request), url);
}

fn body_of(request: &Request) -> serde_json::Value {
    request.body.as_ref().unwrap().to_value()
}

fn none() -> Option<String> {
    None
}

fn some(text: &str) -> Option<String> {
    Some(text.to_string())
}

#[test]
fn texts_become_path_parts() {
    assert_eq!(enc("counting_bytes"), "counting_bytes");
    assert_eq!(enc("github:34958324"), "github%3A34958324");
    assert_eq!(enc("a/b?c#d"), "a%2Fb%3Fc%23d");
    assert_eq!(enc("\u{e9} ~"), "%C3%A9%20~");
    assert_eq!(enc("100%"), "100%25");
    assert_eq!(enc(""), "");
}

#[test]
fn different_texts_are_different_path_parts() {
    let texts = ["", "a", "a/b", "a%2Fb", "a b", "a+b", "%", "%25", "\u{e9}", "%C3%A9", "~"];
    for (i, a) in texts.iter().enumerate() {
        for (j, b) in texts.iter().enumerate() {
            assert_eq!(enc(a) == enc(b), i == j);
        }
    }
}

#[test]
fn every_byte_is_kept_or_escaped() {
    for n in 0u8..128 {
        let c = n as char;
        let text = enc(&c.to_string());
        if c.is_ascii_alphanumeric() || "-._~".contains(c) {
            assert_eq!(text, c.to_string());
        } else {
            assert_eq!(text, format!("%{:02X}", n));
        }
    }
}

#[test]
fn challenges_are_asked_for() {
    let list = handle_challenges(ChallengesCommand::List);
    assert_get(&list, Report::ChallengeList, "https://cpu.mattstuchlik.com/api/challenges?");
    let show =
        handle_challenges(ChallengesCommand::Show { challenge_id: "counting bytes".to_string() });
    assert_get(
        &show,
        Report::ChallengeDetail,
        "https://cpu.mattstuchlik.com/api/challenges/counting%20bytes?",
    );
    let systems = handle_systems(SystemsCommand::List);
    assert_get(&systems, Report::Systems, "https://cpu.mattstuchlik.com/api/systems?");
}

#[test]
fn leaderboards_are_asked_for() {
    let ask = |scope: LeaderboardScope| {
        handle_leaderboard(LeaderboardArgs { challenge_id: "counting_bytes".to_string(), scope })
    };
    assert_get(
        &ask(LeaderboardScope::System("raptor_cove_p".to_string())),
        Report::Leaderboard,
        "https://cpu.mattstuchlik.com/api/challenges/counting_bytes/leaderboard?system_id=raptor_cove_p",
    );
    assert_get(
        &ask(LeaderboardScope::Unsaid),
        Report::Leaderboard,
        "https://cpu.mattstuchlik.com/api/challenges/counting_bytes/leaderboard?",
    );
    assert_get(
        &ask(LeaderboardScope::AllSystems),
        Report::Leaderboard,
        "https://cpu.mattstuchlik.com/api/challenges/counting_bytes/leaderboard?all_systems=true",
    );
}

#[test]
fn solutions_are_submitted() {
    let request = handle_submit(
        SubmitArgs {
            challenge_id: "counting_bytes".to_string(),
            lang: "rust".to_string(),
            compiler: none(),
            compiler_options: none(),
        },
        "fn main() {}".to_string(),
    );
    assert_eq!(request.method, Method::Post);
    assert_eq!(
        address(&request),
        "https://cpu.mattstuchlik.com/api/challenges/counting_bytes/submissions?"
    );
    assert_eq!(body_of(&request), value(r#"{"language":"rust","source":"fn main() {}"}"#));

    let request = handle_submit(
        SubmitArgs {
            challenge_id: "c".to_string(),
            lang: "cpp".to_string(),
            compiler: some("gcc_cpp"),
            compiler_options: some("-O3"),
        },
        "int main(){}".to_string(),
    );
    assert_eq!(
        body_of(&request),
        value(
            r#"{"language":"cpp","source":"int main(){}","compiler":"gcc_cpp","compiler_options":"-O3"}"#
        )
    );
}

#[test]
fn jobs_are_asked_for() {
    assert_eq!(address(&get_job("job_1")), "https://cpu.mattstuchlik.com/api/jobs/job_1?");
    let command: JobsCommand<String> = JobsCommand::Show { job_id: "job_1".to_string() };
    match handle_jobs(command) {
        JobsPlan::Call(call) => {
            assert_get(&call, Report::Job, "https://cpu.mattstuchlik.com/api/jobs/job_1?")
        }
        _ => unreachable!(),
    }
    let command: JobsCommand<String> = JobsCommand::Queue { limit: 50, cursor: some("a b&c") };
    match handle_jobs(command) {
        JobsPlan::Call(call) => assert_get(
            &call,
            Report::JobsPage,
            "https://cpu.mattstuchlik.com/api/jobs/non-done?limit=50&cursor=a+b%26c",
        ),
        _ => unreachable!(),
    }
    let command: JobsCommand<String> =
        JobsCommand::Watch { job_id: "j".to_string(), poll_interval_ms: 7 };
    match handle_jobs(command) {
        JobsPlan::Watch { job_id, poll_interval_ms } => {
            assert_eq!((job_id.as_str(), poll_interval_ms), ("j", 7))
        }
        _ => unreachable!(),
    }
    let command: JobsCommand<String> =
        JobsCommand::Profile { job_id: "j/1".to_string(), output: some("p.txt") };
    match handle_jobs(command) {
        JobsPlan::Profile { request, job_id, output } => {
            assert_eq!(address(&request), "https://cpu.mattstuchlik.com/api/jobs/j%2F1/profile?");
            assert_eq!(job_id, "j/1");
            assert_eq!(output, some("p.txt"));
        }
        _ => unreachable!(),
    }
    let command: JobsCommand<String> = JobsCommand::TopDown { job_id: "j".to_string() };
    match handle_jobs(command) {
        JobsPlan::Show(request) => {
            assert_eq!(address(&request), "https://cpu.mattstuchlik.com/api/jobs/j/top-down?")
        }
        _ => unreachable!(),
    }
}

#[test]
fn the_jobs_of_users_are_asked_for() {
    let call = handle_users(UsersCommand::Jobs {
        user_id: "github:34958324".to_string(),
        challenge: some("counting_bytes"),
        limit: 20,
        cursor: none(),
    });
    assert_get(
        &call,
        Report::JobsPage,
        "https://cpu.mattstuchlik.com/api/users/github%3A34958324/jobs?limit=20&challenge_id=counting_bytes",
    );
    let call = handle_users(UsersCommand::Jobs {
        user_id: "u".to_string(),
        challenge: none(),
        limit: 0,
        cursor: some("x"),
    });
    assert_get(
        &call,
        Report::JobsPage,
        "https://cpu.mattstuchlik.com/api/users/u/jobs?limit=0&cursor=x",
    );
}

#[test]
fn solutions_are_asked_for() {
    let call = handle_solutions(SolutionsCommand::Show { solution_id: "sol_1".to_string() });
    assert_get(&call, Report::Solution, "https://cpu.mattstuchlik.com/api/solutions/sol_1?");
    for (public, body) in [(true, r#"{"is_public":true}"#), (false, r#"{"is_public":false}"#)] {
        let solution_id = "sol_1".to_string();
        let call = handle_solutions(if public {
            SolutionsCommand::Publish { solution_id }
        } else {
            SolutionsCommand::Unpublish { solution_id }
        });
        assert_eq!(call.request.method, Method::Patch);
        assert_eq!(call.report, Report::SolutionVisibility);
        assert_eq!(
            address(&call.request),
            "https://cpu.mattstuchlik.com/api/solutions/sol_1?"
        );
        assert_eq!(body_of(&call.request), value(body));
    }
    let call = handle_solutions(SolutionsCommand::Jobs {
        solution_id: "sol_1".to_string(),
        limit: 20,
        cursor: none(),
    });
    assert_get(
        &call,
        Report::JobsPage,
        "https://cpu.mattstuchlik.com/api/solutions/sol_1/jobs?limit=20",
    );
}

#[test]
fn accounts_are_managed() {
    match handle_auth(AuthCommand::Login { no_store: true }).unwrap() {
        AuthPlan::Login { no_store } => assert!(no_store),
        _ => unreachable!(),
    }
    match handle_auth(AuthCommand::Status).unwrap() {
        AuthPlan::Call(call) => assert_get(
            &call,
            Report::AuthStatus,
            "https://cpu.mattstuchlik.com/auth/session?",
        ),
        _ => unreachable!(),
    }
    match handle_auth(AuthCommand::Logout).unwrap() {
        AuthPlan::Logout(told) => assert_eq!(
            told.to_value(),
            value(r#"{"ok":true,"message":"local token removed"}"#)
        ),
        _ => unreachable!(),
    }
    match handle_auth(AuthCommand::CreateAgentToken { agent: "agent-5".to_string() }).unwrap() {
        AuthPlan::Call(call) => {
            assert_eq!(call.request.method, Method::Post);
            assert_eq!(call.report, Report::AgentToken);
            assert_eq!(
                address(&call.request),
                "https://cpu.mattstuchlik.com/api/auth/agent-tokens?"
            );
            assert_eq!(body_of(&call.request), value(r#"{"agent":"agent-5"}"#));
        }
        _ => unreachable!(),
    }
    let refused = handle_auth(AuthCommand::CreateAgentToken { agent: "a b".to_string() });
    assert!(matches!(refused, Err(CliError::AgentName(name)) if name == "a b"));
}

#[test]
fn agent_names_are_limited() {
    assert!(valid_agent_name("Agent_5.1-x"));
    assert!(valid_agent_name(&"a".repeat(64)));
    assert!(!valid_agent_name(&"a".repeat(65)));
    assert!(!valid_agent_name("a/b"));
    assert!(!valid_agent_name("\u{e9}"));
    assert_eq!(enc(&"Ab0._-".repeat(10)), "Ab0._-".repeat(10));
}

#[test]
fn bases_lose_their_trailing_slashes() {
    let client = ApiClient::new("http://localhost:8080//".to_string(), some("t"));
    assert_eq!(client.base_url, "http://localhost:8080");
    assert_eq!(client.token, some("t"));
    assert_eq!(client.url("/a").unwrap().as_str(), "http://localhost:8080/a");
}

#[test]
fn queries_are_written_as_forms() {
    let request = Request::get(
        "/x".to_string(),
        vec![
            ("k y".to_string(), "\u{e9}&=?#+*-._~/".to_string()),
            (String::new(), String::new()),
        ],
    );
    assert_eq!(
        address(&request),
        "https://cpu.mattstuchlik.com/x?k+y=%C3%A9%26%3D%3F%23%2B*-._%7E%2F&="
    );
}

#[test]
fn queries_are_added_to_queries() {
    let pairs = || vec![("a".to_string(), "1".to_string()), ("b".to_string(), "2".to_string())];
    let ask = |base: &str, path: &str| {
        let client = ApiClient::new(base.to_string(), None);
        let request = Request::get(path.to_string(), pairs());
        client.request_url(&request).unwrap().as_str().to_string()
    };
    assert_eq!(ask("http://h", "/x?c=3"), "http://h/x?c=3&a=1&b=2");
    assert_eq!(ask("http://h", "/x?"), "http://h/x?a=1&b=2");
    assert_eq!(ask("http://h", "/x#f?g"), "http://h/x?a=1&b=2#f?g");
    assert_eq!(ask("http://h", "/x?c#"), "http://h/x?c&a=1&b=2#");
    assert_eq!(ask("http://h?q", "/x"), "http://h/?q/x&a=1&b=2");
}

#[test]
fn different_queries_are_written_differently() {
    let texts = ["", "a", "a=b", "a&b", "a+b", "a b", "%", "%25"];
    let mut seen: Vec<String> = Vec::new();
    for a in texts {
        for b in texts {
            let pairs = vec![(a.to_string(), b.to_string())];
            let url = address(&Request::get("/".to_string(), pairs));
            assert!(!seen.contains(&url));
            seen.push(url);
        }
    }
}

#[test]
fn what_is_no_url_is_told() {
    let client = ApiClient::new("no url".to_string(), None);
    match client.url("/a") {
        Err(CliError::Url { path, reason }) => {
            assert_eq!(path, "/a");
            assert_eq!(reason, "relative URL without a base");
        }
        _ => unreachable!(),
    }
    let e = client.request_url(&get_job("j")).unwrap_err();
    assert_eq!(e.message().unwrap(), "build URL for path /api/jobs/j");
}

#[test]
fn only_success_is_accepted() {
    for code in [200u16, 204, 299] {
        let r = accept_response(code, "x".to_string(), "body".to_string());
        assert_eq!(r.unwrap(), "body");
    }
    for code in [0u16, 101, 199, 300, 404, 500, u16::MAX] {
        let r = accept_response(code, "404 Not Found".to_string(), "gone".to_string());
        assert_eq!(r.unwrap_err().message().unwrap(), "HTTP 404 Not Found: gone");
    }
}

#[test]
fn answers_are_read() {
    let read = |code: u16, text: &str| read_answer(code, "s".to_string(), text.to_string());
    assert_eq!(read(200, "{\"a\":1}").unwrap().to_value(), value("{\"a\":1}"));
    assert_eq!(read(200, " \n\u{3000}").unwrap().to_value(), serde_json::Value::Null);
    assert!(matches!(read(500, "{}"), Err(CliError::Http { .. })));
    let e = read(200, "<html>").unwrap_err();
    assert!(matches!(&e, CliError::ParseJson { body, .. } if body == "<html>"));
    assert_eq!(e.message().unwrap(), "parse JSON response: <html>");
}
