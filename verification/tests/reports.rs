use cpu_mode::account::{
    print_agent_token, print_auth_login, print_auth_status, print_logout, print_user_line,
};
use cpu_mode::challenges::{
    print_challenge_detail, print_challenge_list, print_leaderboard, print_systems,
};
use cpu_mode::error::CliError;
use cpu_mode::jobs::{
    print_job, print_job_rows, print_jobs_page, print_submission, print_submission_jobs,
    print_submission_with_jobs,
};
use cpu_mode::json::Json;
use cpu_mode::solutions::{print_solution, print_solution_visibility};
use cpu_mode::table::print_table;
use cpu_mode::wire::parse_json_body;

fn json(text: &str) -> Json {
    parse_json_body(text).unwrap()
}

fn told(print: fn(&Json, &mut String), text: &str) -> String {
    let mut out = String::new();
    print(&json(text), &mut out);
    out
}

fn told_or_not(
    print: fn(&Json, &mut String) -> Result<(), CliError>,
    text: &str,
) -> (String, Option<String>) {
    let mut out = String::new();
    let r = print(&json(text), &mut out);
    (out, r.err().and_then(|e| e.message()))
}

#[test]
fn sessions_are_told() {
    assert_eq!(
        told(print_auth_status, r#"{"authenticated":true,"user":{"name":"Ann","id":"u1"}}"#),
        "Authenticated\nUser: Ann (u1)\n"
    );
    assert_eq!(told(print_auth_status, r#"{"authenticated":true}"#), "Authenticated\n");
    assert_eq!(
        told(print_auth_status, r#"{"authenticated":true,"user":null}"#),
        "Authenticated\nUser: - (-)\n"
    );
    assert_eq!(told(print_auth_status, r#"{"authenticated":false}"#), "Not authenticated\n");
    assert_eq!(told(print_auth_status, "{}"), "Not authenticated\n");
}

#[test]
fn logins_are_told() {
    assert_eq!(
        told(print_auth_login, r#"{"stored":true,"token":"t","user":{"login":"l","user_id":"7"}}"#),
        "Authenticated\nUser: l (7)\nToken stored locally\n"
    );
    assert_eq!(
        told(print_auth_login, r#"{"stored":false,"token":"t"}"#),
        "Authenticated\nToken: t\n"
    );
    assert_eq!(told(print_auth_login, r#"{"stored":false}"#), "Authenticated\n");
    let mut out = String::new();
    print_logout(&mut out);
    assert_eq!(out, "Local token removed\n");
    assert_eq!(told(print_agent_token, r#"{"token":"abc"}"#), "Token: abc\n");
}

#[test]
fn users_go_by_their_display_name_first() {
    assert_eq!(
        told(print_user_line, r#"{"login":"l","name":"n","display_name":"d","user_id":"2","id":"1"}"#),
        "User: d (1)\n"
    );
    assert_eq!(told(print_user_line, r#"{"login":"l","name":3}"#), "User: l (-)\n");
}

#[test]
fn challenges_are_listed() {
    let (out, err) = told_or_not(
        print_challenge_list,
        r#"{"challenges":[
            {"id":"counting_bytes","title":"Counting","languages":["rust","cpp"]},
            {"title":"T","languages":[]},
            {"id":"x"}]}"#,
    );
    assert_eq!(err, None);
    assert_eq!(
        out,
        "ID              TITLE     LANGUAGES\n\
         --------------  --------  ---------\n\
         counting_bytes  Counting  rust, cpp\n\
         -               T         -\n\
         x               -         -\n"
    );
    let (out, err) = told_or_not(print_challenge_list, r#"{"challenges":[]}"#);
    assert_eq!((out.as_str(), err), ("ID  TITLE  LANGUAGES\n--  -----  ---------\n", None));
    let (out, err) = told_or_not(print_challenge_list, "{}");
    assert_eq!(out, "");
    assert_eq!(
        err.as_deref(),
        Some("challenge list response did not include challenges array")
    );
}

#[test]
fn widths_count_bytes_and_padding_counts_characters() {
    let (out, _) = told_or_not(
        print_challenge_list,
        "{\"challenges\":[{\"id\":\"\u{e9}\u{e9}\",\"title\":\"T\"}]}",
    );
    assert_eq!(
        out,
        "ID    TITLE  LANGUAGES\n----  -----  ---------\n\u{e9}\u{e9}    T      -\n"
    );
}

#[test]
fn a_challenge_is_shown() {
    assert_eq!(
        told(
            print_challenge_detail,
            r#"{"id":"cb","title":"Counting","description":["one",2,"two"],
                "languages":["rust"],
                "limits":{"source_bytes":65536,"compiler_options_bytes":1000},
                "compiler_options":{"rust_default":"-O","cpp_default":"-O2"},
                "urls":{"submissions":"/s","leaderboard":"/l"}}"#
        ),
        "Counting (cb)\n\none\ntwo\n\nLanguages: rust\nSource limit: 64 KiB\n\
         Compiler options limit: 1000 bytes\n\nCompiler defaults:\n  rust: -O\n  cpp:  -O2\n\
         \nAPI paths:\n  leaderboard: /l\n  submissions: /s\n"
    );
    assert_eq!(told(print_challenge_detail, "{}"), "- (-)\n\nLanguages: -\n");
    assert_eq!(
        told(print_challenge_detail, r#"{"description":[],"limits":3,"compiler_options":{},"urls":[]}"#),
        "- (-)\n\n\nLanguages: -\n\nCompiler defaults:\n"
    );
}

#[test]
fn systems_are_listed() {
    let (out, err) = told_or_not(
        print_systems,
        r#"[{"id":"raptor_cove_p","label":"P","uarch":"RC","cpu":3},{"id":"z"}]"#,
    );
    assert_eq!(err, None);
    assert_eq!(
        out,
        "ID             LABEL  UARCH  CPU\n\
         -------------  -----  -----  ---\n\
         raptor_cove_p  P      RC     3  \n\
         z              -      -      -  \n"
    );
    let (out, err) = told_or_not(print_systems, "{}");
    assert_eq!((out.as_str(), err.as_deref()), ("", Some("systems response was not an array")));
}

#[test]
fn leaderboards_are_shown_with_blank_ranks() {
    let (out, err) = told_or_not(
        print_leaderboard,
        r#"{"challenge_id":"c","system_id":"s","entries":[
            {"rank":1,"user_display_name":"Ann","solution_is_public":true,"language":"rust",
             "time_ns":1500000,"cycles":1234567,"job_id":"j1"},
            {"user_display_name":"Bo"}]}"#,
    );
    assert_eq!(err, None);
    assert_eq!(
        out,
        "c / s\n\
         RANK  USER  PUBLIC  LANG  TIME      CYCLES     JOB\n\
         ----  ----  ------  ----  --------  ---------  ---\n\
         1     Ann   public  rust  1.500 ms  1,234,567  j1 \n\
        \x20     Bo    -       -     -         -          -  \n"
    );
    let (out, _) = told_or_not(
        print_leaderboard,
        r#"{"entries":[{"rank":null},{"rank":"x"},{"rank":-1},{"rank":1.5},{"rank":0}]}"#,
    );
    let ranks: Vec<&str> = out.lines().skip(3).map(|line| line[..4].trim_end()).collect();
    assert_eq!(ranks, vec!["", "-", "-", "-", "0"]);
    let (out, err) = told_or_not(print_leaderboard, r#"{"entries":[]}"#);
    assert_eq!((out.as_str(), err), ("- / -\nNo leaderboard entries.\n", None));
    let (out, err) = told_or_not(print_leaderboard, r#"{"challenge_id":"c"}"#);
    assert_eq!(out, "c / -\n");
    assert_eq!(err.as_deref(), Some("leaderboard response did not include entries array"));
}

#[test]
fn submissions_are_shown() {
    assert_eq!(
        told(
            print_submission,
            r#"{"solution_id":"sol","user_id":"u","jobs":[{"system_id":"a","job_id":"j"}]}"#
        ),
        "Solution: sol\nUser: u\nJobs:\nSYSTEM  JOB\n------  ---\na       j  \n"
    );
    assert_eq!(told(print_submission, r#"{"jobs":[]}"#), "Solution: -\nUser: -\nJobs: none\n");
    assert_eq!(told(print_submission, "{}"), "Solution: -\nUser: -\n");
    assert_eq!(told(print_submission_jobs, "{}"), "");
}

#[test]
fn finished_submissions_are_shown() {
    let (out, err) = told_or_not(
        print_submission_with_jobs,
        r#"{"submission":{"solution_id":"sol"},"jobs":[{"id":"j","status":"done","result_time_ns":1000}]}"#,
    );
    assert_eq!(err, None);
    assert_eq!(
        out,
        "Solution: sol\nUser: -\n\nFinished jobs:\n\
         JOB  CHALLENGE  SYSTEM  LANG  STATUS  TIME    \n\
         ---  ---------  ------  ----  ------  --------\n\
         j    -          -       -     done    0.001 ms\n"
    );
    let (out, err) = told_or_not(print_submission_with_jobs, r#"{"jobs":[]}"#);
    assert_eq!(
        (out.as_str(), err.as_deref()),
        ("", Some("wait response did not include submission"))
    );
    let (out, err) = told_or_not(print_submission_with_jobs, r#"{"submission":{}}"#);
    assert_eq!(out, "Solution: -\nUser: -\n\nFinished jobs:\n");
    assert_eq!(err.as_deref(), Some("wait response did not include jobs array"));
}

#[test]
fn a_job_is_shown() {
    assert_eq!(
        told(
            print_job,
            r#"{"id":"j","challenge_id":"c","solution_id":"s","system_id":"y","language":"rust",
                "status":"done","result_time_ns":2000000,"result_time_max_ns":3000000,
                "result_cycles":1000,"result_error":"boom",
                "result_counters":{"zeta":5,"alpha":1000,"skip":"x"}}"#
        ),
        "Job: j\nChallenge: c\nSolution: s\nSystem: y\nLanguage: rust\nStatus: done\n\
         Time: 2.000 ms\nMax time: 3.000 ms\nCycles: 1,000\nError: boom\n\
         Counters:\n  alpha: 1,000\n  zeta: 5\n"
    );
    assert_eq!(
        told(print_job, r#"{"result_counters":{}}"#),
        "Job: -\nChallenge: -\nSolution: -\nSystem: -\nLanguage: -\nStatus: -\n"
    );
}

#[test]
fn pages_of_jobs_are_shown() {
    let (out, err) =
        told_or_not(print_jobs_page, r#"{"items":[{"id":"j1"}],"next_cursor":"c2"}"#);
    assert_eq!(err, None);
    assert_eq!(
        out,
        "JOB  CHALLENGE  SYSTEM  LANG  STATUS  TIME\n\
         ---  ---------  ------  ----  ------  ----\n\
         j1   -          -       -     -       -   \n\
         \nNext cursor: c2\n"
    );
    assert_eq!(told_or_not(print_jobs_page, "[]").0, "No jobs.\n");
    assert_eq!(told_or_not(print_jobs_page, r#"{"items":[]}"#).0, "No jobs.\n");
    let (out, err) = told_or_not(print_jobs_page, r#"{"items":3}"#);
    assert_eq!(
        (out.as_str(), err.as_deref()),
        ("", Some("jobs response did not include items array"))
    );
    let mut out = String::new();
    print_job_rows(&Vec::new(), &mut out);
    assert_eq!(
        out,
        "JOB  CHALLENGE  SYSTEM  LANG  STATUS  TIME\n---  ---------  ------  ----  ------  ----\n"
    );
}

#[test]
fn solutions_are_shown() {
    assert_eq!(
        told(
            print_solution,
            r#"{"id":"sol","challenge_id":"c","user_display_name":"Ann","user_id":"u",
                "agent":"agent-5","language":"rust","is_public":true,"jobs_url":"/j",
                "source_visible":true,"compiler_options":"-O","source":"fn main() {}"}"#
        ),
        "Solution: sol\nChallenge: c\nUser: Ann (u)\nAgent: agent-5\nLanguage: rust\n\
         Visibility: public\nJobs: /j\n\nCompiler options:\n-O\n\nSource:\nfn main() {}\n"
    );
    assert_eq!(
        told(print_solution, "{}"),
        "Solution: -\nChallenge: -\nUser: - (-)\nLanguage: -\nVisibility: private\nSource: hidden\n"
    );
    assert_eq!(
        told(print_solution_visibility, r#"{"solution_id":"s","is_public":true}"#),
        "Solution: s\nVisibility: public\n"
    );
    assert_eq!(
        told(print_solution_visibility, "{}"),
        "Solution: -\nVisibility: private\n"
    );
}

#[test]
fn hidden_sources_stay_hidden() {
    let with = told(print_solution, r#"{"id":"s","source":"secret","compiler_options":"-O9"}"#);
    let without = told(print_solution, r#"{"id":"s"}"#);
    assert_eq!(with, without);
    assert!(!with.contains("secret"));
}

#[test]
fn short_rows_are_filled_and_long_rows_cut() {
    let mut out = String::from("> ");
    let rows = vec![
        vec!["a".to_string()],
        vec!["b".to_string(), "longer".to_string(), "dropped".to_string()],
    ];
    print_table(&["ONE", "TWO"], &rows, &mut out);
    assert_eq!(out, "> ONE  TWO   \n---  ------\na    -     \nb    longer\n");
}

#[test]
fn ascii_tables_are_aligned() {
    let mut out = String::new();
    let rows = vec![
        vec!["a".to_string(), "bb".to_string(), "".to_string()],
        vec!["cccccc".to_string(), "d".to_string(), "e".to_string()],
    ];
    print_table(&["A", "B", "LONG"], &rows, &mut out);
    let lengths: Vec<usize> = out.lines().map(|l| l.len()).collect();
    assert_eq!(lengths, vec![16, 16, 16, 16]);
}

#[test]
fn tables_of_other_letters_are_aligned_too() {
    let mut out = String::new();
    let rows = vec![
        vec!["\u{e9}\u{e9}".to_string(), "x".to_string()],
        vec!["\u{1f600}".to_string()],
        vec!["abcdef".to_string(), "\u{4e2d}\u{4e2d}".to_string()],
    ];
    print_table(&["\u{c9}", "B"], &rows, &mut out);
    let lengths: Vec<usize> = out.lines().map(|l| l.chars().count()).collect();
    assert_eq!(lengths, vec![14, 14, 14, 14, 14]);
}

#[test]
fn challenge_columns_are_aligned() {
    let (out, _) = told_or_not(
        print_challenge_list,
        "{\"challenges\":[{\"id\":\"\u{e9}\",\"title\":\"A long title\"},{\"id\":\"abc\"},{}]}",
    );
    for line in out.lines().skip(2) {
        let chars: Vec<char> = line.chars().collect();
        assert_eq!(chars.len(), 3 + 2 + 12 + 2 + 1);
        assert_eq!(&chars[3..5], &[' ', ' ']);
    }
}
