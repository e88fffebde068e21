//! What can go wrong, and how it is told.

use vstd::prelude::*;

verus! {

/// `serde_json::Error`, kept as the cause of a failure.
#[verifier::external_type_specification]
#[verifier::external_body]
pub struct ExJsonError(serde_json::Error);

/// A failure of the client.
#[derive(Debug)]
pub enum CliError {
    /// The list of challenges held no array of challenges.
    NoChallenges,
    /// The list of systems was no array.
    NoSystems,
    /// The leaderboard held no array of entries.
    NoEntries,
    /// A finished submission was reported without the submission.
    NoSubmission,
    /// A finished submission was reported without its jobs.
    NoFinishedJobs,
    /// A page of jobs held no array of jobs.
    NoItems,
    /// The answer to a submission held no array of jobs.
    NoSubmittedJobs,
    /// A job of a submission came without its id.
    NoJobId,
    /// A login was authorized without a token.
    NoToken,
    /// The login came to an end without a token: why.
    Login(String),
    /// The status of a login is none that is known.
    UnknownAuthStatus(String),
    /// A profile was to go to a file and raw to the terminal at once.
    OutputWithRaw,
    /// There is no place for the configuration.
    NoConfigDirectory,
    /// The name is none that an agent can have.
    AgentName(String),
    /// The server answered with a status other than success.
    Http { status: String, body: String },
    /// The body of an answer is no JSON.
    ParseJson { body: String, cause: serde_json::Error },
    /// A document could not be written as JSON.
    WriteJson(serde_json::Error),
    /// The path makes no URL: why.
    Url { path: String, reason: String },
    /// The URL for the path takes more bytes than a URL can.
    UrlTooLong { path: String },
}

/// How a failure is told; none where its cause speaks for itself.
pub open spec fn told(e: CliError) -> Option<Seq<char>> {
    match e {
        CliError::NoChallenges => Some(
            "challenge list response did not include challenges array"@,
        ),
        CliError::NoSystems => Some("systems response was not an array"@),
        CliError::NoEntries => Some("leaderboard response did not include entries array"@),
        CliError::NoSubmission => Some("wait response did not include submission"@),
        CliError::NoFinishedJobs => Some("wait response did not include jobs array"@),
        CliError::NoItems => Some("jobs response did not include items array"@),
        CliError::NoSubmittedJobs => Some("submission response did not include jobs array"@),
        CliError::NoJobId => Some("job entry did not include job_id"@),
        CliError::NoToken => Some("authorized response did not include token"@),
        CliError::Login(reason) => Some(reason@),
        CliError::UnknownAuthStatus(status) => Some("unknown auth status "@ + status@),
        CliError::OutputWithRaw => Some("--output cannot be used with --raw"@),
        CliError::NoConfigDirectory => Some("could not determine config directory"@),
        CliError::AgentName(name) => Some(
            "agent names are limited to 64 bytes of [A-Za-z0-9._-]: "@ + name@,
        ),
        CliError::Http { status, body } => Some("HTTP "@ + status@ + ": "@ + body@),
        CliError::ParseJson { body, .. } => Some("parse JSON response: "@ + body@),
        CliError::WriteJson(_) => None,
        CliError::Url { path, .. } => Some("build URL for path "@ + path@),
        CliError::UrlTooLong { path } => Some("URL is too long for path "@ + path@),
    }
}

impl CliError {
    /// How the failure is told; none where its cause speaks for itself.
    pub fn message(&self) -> (r: Option<String>)
        ensures
            match r {
                Some(m) => told(*self) == Some(m@),
                None => told(*self) is None,
            },
    {
        let m: String = match self {
            CliError::NoChallenges => "challenge list response did not include challenges array".to_string(),
            CliError::NoSystems => "systems response was not an array".to_string(),
            CliError::NoEntries => "leaderboard response did not include entries array".to_string(),
            CliError::NoSubmission => "wait response did not include submission".to_string(),
            CliError::NoFinishedJobs => "wait response did not include jobs array".to_string(),
            CliError::NoItems => "jobs response did not include items array".to_string(),
            CliError::NoSubmittedJobs => "submission response did not include jobs array".to_string(),
            CliError::NoJobId => "job entry did not include job_id".to_string(),
            CliError::NoToken => "authorized response did not include token".to_string(),
            CliError::Login(reason) => reason.clone(),
            CliError::UnknownAuthStatus(status) => {
                "unknown auth status ".to_string().concat(status.as_str())
            },
            CliError::OutputWithRaw => "--output cannot be used with --raw".to_string(),
            CliError::NoConfigDirectory => "could not determine config directory".to_string(),
            CliError::AgentName(name) => {
                "agent names are limited to 64 bytes of [A-Za-z0-9._-]: ".to_string().concat(
                    name.as_str(),
                )
            },
            CliError::Http { status, body } => {
                "HTTP ".to_string().concat(status.as_str()).concat(": ").concat(body.as_str())
            },
            CliError::ParseJson { body, .. } => {
                "parse JSON response: ".to_string().concat(body.as_str())
            },
            CliError::WriteJson(_) => {
                return None;
            },
            CliError::Url { path, .. } => {
                "build URL for path ".to_string().concat(path.as_str())
            },
            CliError::UrlTooLong { path } => {
                "URL is too long for path ".to_string().concat(path.as_str())
            },
        };
        Some(m)
    }
}

} // verus!
