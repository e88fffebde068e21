use cpu_mode::config::{
    config_path, token_from_file, token_source, ConfigFile, ConfigStore, StoredConfig, TokenSource,
};
use cpu_mode::error::CliError;
use cpu_mode::json::{Json, JsonNumber};
use cpu_mode::login::{
    auth_login, complete_login, poll_request, print_prompt, start_interval, start_request,
    AuthPollResponse, AuthStartResponse, LoginStep,
};
use cpu_mode::output::{show_answer, OutputMode, Report};
use cpu_mode::profile::{deliver_profile, print_profile_notice, Delivery};
use cpu_mode::request::Method;
use cpu_mode::watch::{
    submitted, watch_interval_ms, watch_job, SubmissionStep, SubmissionWait, Submitted, WatchStep,
};
use cpu_mode::wire::{parse_json_body, print_json};

fn json(text: &str) -> Json {
    parse_json_body(text).unwrap()
}

fn value(text: &str) -> serde_json::Value {
    serde_json::from_str(text).unwrap()
}

fn some(text: &str) -> Option<String> {
    Some(text.to_string())
}

fn start(interval: Option<u64>, expires_in: Option<u64>) -> AuthStartResponse {
    AuthStartResponse {
        login_id: "l1".to_string(),
        verification_uri: "https://github.com/login/device".to_string(),
        user_code: "AB-CD".to_string(),
        interval,
        expires_in,
    }
}

fn poll(status: &str, interval: Option<u64>, message: Option<String>) -> AuthPollResponse {
    AuthPollResponse { status: status.to_string(), token: None, user: None, interval, message }
}

fn store() -> ConfigStore<String> {
    let file: ConfigFile<String> = ConfigFile::Missing;
    ConfigStore::load("c.toml".to_string(), file).unwrap()
}

#[test]
fn numbers_survive_the_wire() {
    let text = r#"{"b":[1,-2,1.5,18446744073709551615,-9223372036854775808,1e300,true,null],"a":{"y":"é","x":""}}"#;
    let document = json(text);
    assert_eq!(document.to_value(), value(text));
    let mut out = String::from("> ");
    print_json(&document, &mut out).unwrap();
    assert_eq!(
        out,
        "> {\n  \"a\": {\n    \"x\": \"\",\n    \"y\": \"\u{e9}\"\n  },\n  \"b\": [\n    1,\n    -2,\n    1.5,\n    18446744073709551615,\n    -9223372036854775808,\n    1e+300,\n    true,\n    null\n  ]\n}\n"
    );
}

#[test]
fn documents_survive_both_conversions() {
    for text in ["null", "true", "0", "-1", "0.5", "\"x\"", "[]", "{}", "[[1],{\"k\":[{}]}]"] {
        assert_eq!(json(text).to_value(), value(text));
        let back = Json::from_value(json(text).to_value());
        assert_eq!(back.to_value(), value(text));
    }
}

fn printed(document: &Json) -> String {
    let mut out = String::new();
    print_json(document, &mut out).unwrap();
    out
}

#[test]
fn printed_documents_are_read_back() {
    assert_eq!(printed(&json(r#"{"a":1}"#)), "{\n  \"a\": 1\n}\n");
    for text in [
        "null",
        "true",
        "0",
        "18446744073709551615",
        "-1",
        "-9223372036854775808",
        "0.5",
        "-0.25",
        "[]",
        "{}",
        r#""\"\\\/\b\f\n\r\t\u0000\u007f\u2028\ud83d\ude00""#,
        r#"{"":[{"b":[[]],"a":{}}],"\n":-7}"#,
    ] {
        let out = printed(&json(text));
        assert!(out.ends_with('\n'));
        assert_eq!(value(&out), value(text));
        assert_eq!(json(&out).to_value(), value(text));
    }
}

#[test]
fn documents_are_read_to_a_limited_depth() {
    let nested = |levels: usize| "[".repeat(levels) + &"]".repeat(levels);
    let deepest = json(&nested(127));
    assert_eq!(value(&printed(&deepest)), deepest.to_value());
    assert!(matches!(parse_json_body(&nested(128)), Err(CliError::ParseJson { .. })));
    let mixed = "{\"k\":[".repeat(64) + &"]}".repeat(64);
    assert!(parse_json_body(&mixed).is_err());
    let deeper = Json::array(vec![deepest]);
    let out = printed(&deeper);
    assert!(parse_json_body(&out).is_err());
}

#[test]
fn integers_are_told_apart() {
    let kinds = json("[0,18446744073709551615,-1,-9223372036854775808,1.0,-0,1e3]");
    let names: Vec<&str> = kinds
        .as_array()
        .unwrap()
        .iter()
        .map(|item| match item {
            Json::Number(JsonNumber::Unsigned(_)) => "unsigned",
            Json::Number(JsonNumber::Negative(_)) => "negative",
            Json::Number(JsonNumber::Other(_)) => "other",
            _ => unreachable!(),
        })
        .collect();
    assert_eq!(
        names,
        vec!["unsigned", "unsigned", "negative", "negative", "other", "other", "other"]
    );
}

#[test]
fn the_last_of_equal_keys_counts() {
    let document = json(r#"{"k":"1","a":0,"k":"2"}"#);
    assert_eq!(document.str_at("k"), Some("2"));
    assert_eq!(document.as_object().unwrap().len(), 2);
    assert_eq!(document.as_object().unwrap()[0].key, "a");
}

#[test]
fn raw_answers_are_shown_as_json() {
    let raw = OutputMode { raw: true };
    for report in [Report::ChallengeList, Report::Job, Report::Logout] {
        let text = r#"{"z":1,"a":[{"b":-0.5}]}"#;
        let mut out = String::new();
        let r = show_answer(raw, report, 200, "200 OK".to_string(), text.to_string(), &mut out);
        assert!(r.is_ok());
        assert_eq!(out, serde_json::to_string_pretty(&value(text)).unwrap() + "\n");
        assert_eq!(value(&out), value(text));
    }
    let mut out = String::new();
    show_answer(raw, Report::Job, 204, "204".to_string(), String::new(), &mut out).unwrap();
    assert_eq!(out, "null\n");
}

#[test]
fn answers_are_told_in_words() {
    let words = OutputMode { raw: false };
    let show = |report: Report, code: u16, text: &str| {
        let mut out = String::new();
        let r = show_answer(words, report, code, code.to_string(), text.to_string(), &mut out);
        (out, r)
    };
    assert_eq!(show(Report::Logout, 200, "{}").0, "Local token removed\n");
    assert_eq!(show(Report::AuthStatus, 200, "").0, "Not authenticated\n");
    assert_eq!(show(Report::AgentToken, 200, r#"{"token":"t"}"#).0, "Token: t\n");
    assert!(show(Report::Job, 200, "{}").0.starts_with("Job: -\n"));
    let (out, r) = show(Report::Systems, 200, "{}");
    assert_eq!(out, "");
    assert!(matches!(r, Err(CliError::NoSystems)));
    let (out, r) = show(Report::Leaderboard, 200, "{}");
    assert_eq!(out, "- / -\n");
    assert!(matches!(r, Err(CliError::NoEntries)));
    assert!(matches!(show(Report::ChallengeList, 200, "[]").1, Err(CliError::NoChallenges)));
    assert!(matches!(show(Report::JobsPage, 200, "{}").1, Err(CliError::NoItems)));
    assert!(matches!(show(Report::SubmissionWithJobs, 200, "{}").1, Err(CliError::NoSubmission)));
    assert!(matches!(
        show(Report::SubmissionWithJobs, 200, r#"{"submission":1}"#).1,
        Err(CliError::NoFinishedJobs)
    ));
    let (out, r) = show(Report::Job, 404, "gone");
    assert_eq!(out, "");
    assert_eq!(r.unwrap_err().message().unwrap(), "HTTP 404: gone");
    assert!(matches!(show(Report::Job, 200, "{").1, Err(CliError::ParseJson { .. })));
}

#[test]
fn every_failure_is_told() {
    let told = |e: CliError| e.message();
    let cause = || serde_json::from_str::<serde_json::Value>("{").unwrap_err();
    let text = |s: &str| s.to_string();
    assert_eq!(told(CliError::NoChallenges), some("challenge list response did not include challenges array"));
    assert_eq!(told(CliError::NoSystems), some("systems response was not an array"));
    assert_eq!(told(CliError::NoEntries), some("leaderboard response did not include entries array"));
    assert_eq!(told(CliError::NoSubmission), some("wait response did not include submission"));
    assert_eq!(told(CliError::NoFinishedJobs), some("wait response did not include jobs array"));
    assert_eq!(told(CliError::NoItems), some("jobs response did not include items array"));
    assert_eq!(told(CliError::NoSubmittedJobs), some("submission response did not include jobs array"));
    assert_eq!(told(CliError::NoJobId), some("job entry did not include job_id"));
    assert_eq!(told(CliError::NoToken), some("authorized response did not include token"));
    assert_eq!(told(CliError::Login(text("why"))), some("why"));
    assert_eq!(told(CliError::UnknownAuthStatus(text("x"))), some("unknown auth status x"));
    assert_eq!(told(CliError::OutputWithRaw), some("--output cannot be used with --raw"));
    assert_eq!(told(CliError::NoConfigDirectory), some("could not determine config directory"));
    assert_eq!(
        told(CliError::AgentName(text("a b"))),
        some("agent names are limited to 64 bytes of [A-Za-z0-9._-]: a b")
    );
    assert_eq!(
        told(CliError::Http { status: text("500"), body: text("b") }),
        some("HTTP 500: b")
    );
    assert_eq!(
        told(CliError::ParseJson { body: text("{"), cause: cause() }),
        some("parse JSON response: {")
    );
    assert_eq!(told(CliError::WriteJson(cause())), None);
    assert_eq!(
        told(CliError::Url { path: text("/p"), reason: text("r") }),
        some("build URL for path /p")
    );
    assert_eq!(told(CliError::UrlTooLong { path: text("/p") }), some("URL is too long for path /p"));
}

#[test]
fn tokens_are_kept_and_forgotten() {
    let mut store = store();
    assert_eq!(store.token(), None);
    store.set_token("t1".to_string());
    store.set_token("t2".to_string());
    assert_eq!(store.token(), Some("t2"));
    store.clear_token();
    assert_eq!(store.token(), None);
    assert_eq!(store.path, "c.toml");

    let file: ConfigFile<String> = ConfigFile::Read(StoredConfig { token: some("kept") });
    assert_eq!(ConfigStore::load(1u8, file).unwrap().token(), Some("kept"));
    let file: ConfigFile<&str> = ConfigFile::Failed("broken");
    assert_eq!(ConfigStore::load(1u8, file).unwrap_err(), "broken");
    assert!(StoredConfig::default().token.is_none());
}

#[test]
fn the_configuration_has_a_place() {
    assert_eq!(config_path(Some("named"), Some("usual")).unwrap(), "named");
    assert_eq!(config_path(Some("named"), None).unwrap(), "named");
    assert_eq!(config_path(None, Some("usual")).unwrap(), "usual");
    let nowhere: Option<&str> = None;
    assert!(matches!(config_path(nowhere, None), Err(CliError::NoConfigDirectory)));
}

#[test]
fn the_environment_overrides_the_stored_token() {
    assert!(matches!(token_source(some("t"), Some("f")), TokenSource::Given(t) if t == "t"));
    assert!(matches!(token_source(None, Some("f")), TokenSource::File("f")));
    let no_file: Option<&str> = None;
    assert!(matches!(token_source(None, no_file), TokenSource::Stored));
    assert_eq!(token_from_file("tok\n"), "tok");
    assert_eq!(token_from_file(" tok en \r\n"), "tok en");
}

#[test]
fn logins_start() {
    let request = start_request();
    assert_eq!(request.method, Method::Post);
    assert_eq!(request.path, "/auth/cli/start");
    assert!(request.query.is_empty());
    assert_eq!(request.body.unwrap().to_value(), value("{}"));
    let request = poll_request("l1");
    assert_eq!(request.path, "/auth/cli/poll");
    assert_eq!(request.body.unwrap().to_value(), value(r#"{"login_id":"l1"}"#));
    let mut out = String::new();
    print_prompt(&start(None, Some(900)), &mut out);
    assert_eq!(
        out,
        "Open https://github.com/login/device and enter code AB-CD\nThis code expires in 900 seconds.\n"
    );
    let mut out = String::new();
    print_prompt(&start(None, None), &mut out);
    assert_eq!(out, "Open https://github.com/login/device and enter code AB-CD\n");
    assert_eq!(start_interval(&start(None, None)), 5);
    assert_eq!(start_interval(&start(Some(0), None)), 1);
    assert_eq!(start_interval(&start(Some(7), None)), 7);
}

#[test]
fn logins_are_waited_for() {
    let wait = |interval: u64, answer: AuthPollResponse| match auth_login(interval, answer).unwrap() {
        LoginStep::Wait { interval } => interval,
        LoginStep::Authorized { .. } => unreachable!(),
    };
    assert_eq!(wait(5, poll("pending", None, None)), 5);
    assert_eq!(wait(5, poll("pending", Some(9), None)), 9);
    assert_eq!(wait(5, poll("pending", Some(0), None)), 1);
    assert_eq!(wait(5, poll("slow_down", None, None)), 10);
    assert_eq!(wait(5, poll("slow_down", Some(3), None)), 3);
}

#[test]
fn logins_are_settled() {
    let mut answer = poll("authorized", None, None);
    assert!(matches!(auth_login(5, answer), Err(CliError::NoToken)));
    answer = poll("authorized", None, None);
    answer.token = some("t");
    answer.user = Some(json(r#"{"name":"Ann"}"#));
    match auth_login(5, answer).unwrap() {
        LoginStep::Authorized { token, user } => {
            assert_eq!(token, "t");
            assert_eq!(user.unwrap().to_value(), value(r#"{"name":"Ann"}"#));
        }
        LoginStep::Wait { .. } => unreachable!(),
    }
    let told = |answer: AuthPollResponse| auth_login(5, answer).unwrap_err().message();
    assert_eq!(told(poll("expired", None, None)), some("login expired"));
    assert_eq!(told(poll("denied", None, None)), some("login denied"));
    assert_eq!(told(poll("expired", None, some("too late"))), some("too late"));
    assert_eq!(told(poll("denied", None, some("no"))), some("no"));
    assert_eq!(told(poll("", None, None)), some("unknown auth status "));
    assert_eq!(told(poll("Authorized", None, None)), some("unknown auth status Authorized"));
}

#[test]
fn stored_tokens_stay_untold() {
    let words = OutputMode { raw: false };
    let mut kept = store();
    let told = complete_login(&mut kept, false, "secret".to_string(), Some(json(r#"{"id":"1"}"#)));
    assert_eq!(kept.token(), Some("secret"));
    assert_eq!(
        told.to_value(),
        value(r#"{"authenticated":true,"stored":true,"user":{"id":"1"},"token":null}"#)
    );
    let mut out = String::new();
    words.print(&told, Report::AuthLogin, &mut out).unwrap();
    assert_eq!(out, "Authenticated\nUser: - (1)\nToken stored locally\n");

    let mut unkept = store();
    let told = complete_login(&mut unkept, true, "secret".to_string(), None);
    assert_eq!(unkept.token(), None);
    assert_eq!(
        told.to_value(),
        value(r#"{"authenticated":true,"stored":false,"user":null,"token":"secret"}"#)
    );
    let mut out = String::new();
    words.print(&told, Report::AuthLogin, &mut out).unwrap();
    assert_eq!(out, "Authenticated\nUser: - (-)\nToken: secret\n");
}

#[test]
fn jobs_are_watched_until_done() {
    assert_eq!(watch_interval_ms(0), 100);
    assert_eq!(watch_interval_ms(99), 100);
    assert_eq!(watch_interval_ms(1000), 1000);
    assert!(matches!(watch_job(json(r#"{"status":"done"}"#), 5), WatchStep::Done(_)));
    for text in [r#"{"status":"running"}"#, r#"{"status":null}"#, "{}", "null", "\"done\""] {
        assert!(matches!(watch_job(json(text), 5), WatchStep::Wait { interval_ms: 100 }));
        assert!(matches!(watch_job(json(text), 500), WatchStep::Wait { interval_ms: 500 }));
    }
}

#[test]
fn submissions_are_waited_for() {
    let text = r#"{"solution_id":"s","jobs":[{"job_id":"a"},{"job_id":"b"}]}"#;
    let mut wait = match submitted(true, json(text)).unwrap() {
        Submitted::Wait(wait) => wait,
        Submitted::Tell(_) => unreachable!(),
    };
    let mut ids: Vec<String> = Vec::new();
    while let SubmissionStep::Watch { job_id } = wait.next().unwrap() {
        let job = format!("{{\"id\":\"{}\",\"status\":\"done\"}}", job_id);
        ids.push(job_id);
        wait.finish(json(&job));
    }
    assert_eq!(ids, vec!["a".to_string(), "b".to_string()]);
    let report = wait.report();
    let whole = format!(
        "{{\"submission\":{},\"jobs\":[{{\"id\":\"a\",\"status\":\"done\"}},{{\"id\":\"b\",\"status\":\"done\"}}]}}",
        text
    );
    assert_eq!(report.to_value(), value(&whole));
    let mut out = String::new();
    OutputMode { raw: false }.print(&report, Report::SubmissionWithJobs, &mut out).unwrap();
    assert!(out.starts_with("Solution: s\nUser: -\nJobs:\n"));
    assert!(out.contains("\nFinished jobs:\nJOB  "));
}

#[test]
fn submissions_can_be_told_at_once() {
    match submitted(false, json("3")).unwrap() {
        Submitted::Tell(answer) => assert_eq!(answer.to_value(), value("3")),
        Submitted::Wait(_) => unreachable!(),
    }
    assert!(matches!(submitted(true, json("{}")), Err(CliError::NoSubmittedJobs)));
    let wait = SubmissionWait::start(json(r#"{"jobs":[{"id":"x"}]}"#)).unwrap();
    assert!(matches!(wait.next(), Err(CliError::NoJobId)));
    let wait = SubmissionWait::start(json(r#"{"jobs":[]}"#)).unwrap();
    assert!(matches!(wait.next(), Ok(SubmissionStep::Finished)));
    assert_eq!(wait.report().to_value(), value(r#"{"submission":{"jobs":[]},"jobs":[]}"#));
}

#[test]
fn profiles_are_delivered() {
    let raw = OutputMode { raw: true };
    let words = OutputMode { raw: false };
    let no_file: Option<&str> = None;
    assert!(matches!(deliver_profile(raw, no_file, "j"), Ok(Delivery::Terminal)));
    assert!(matches!(deliver_profile(raw, Some("f"), "j"), Err(CliError::OutputWithRaw)));
    assert!(matches!(deliver_profile(words, Some("f"), "j"), Ok(Delivery::File("f"))));
    match deliver_profile(words, no_file, "job/1").unwrap() {
        Delivery::FileCalled(name) => assert_eq!(name, "job_1.perf-annotate.txt"),
        _ => unreachable!(),
    }
    let mut out = String::new();
    print_profile_notice("p.txt", "h\u{e9}", &mut out);
    assert_eq!(out, "Downloaded profile to p.txt (3 bytes)\n");
}
