//! Logging in: the user approves the login elsewhere, and the client asks until it is settled.

use vstd::prelude::*;
use crate::config::ConfigStore;
use crate::error::CliError;
use crate::json::{Json, JValue, Member, member, object_wf, pairs, text_less};
use crate::request::{Request, post_view};
use crate::text::{decimal, decimal_text, line, line_of, same_text, string_view};

verus! {

/// How a login starts.
#[derive(Debug)]
pub struct AuthStartResponse {
    pub login_id: String,
    pub verification_uri: String,
    pub user_code: String,
    pub interval: Option<u64>,
    pub expires_in: Option<u64>,
}

/// How a login stands.
#[derive(Debug)]
pub struct AuthPollResponse {
    pub status: String,
    pub token: Option<String>,
    pub user: Option<Json>,
    pub interval: Option<u64>,
    pub message: Option<String>,
}

/// What to do about a login.
#[derive(Debug)]
pub enum LoginStep {
    /// It is authorized.
    Authorized { token: String, user: Option<Json> },
    /// Ask again after so many seconds.
    Wait { interval: u64 },
}

/// The larger of two numbers.
pub open spec fn at_least(n: u64, least: u64) -> u64 {
    if n < least {
        least
    } else {
        n
    }
}

/// How many seconds to wait before asking for the first time.
pub open spec fn first_interval(start: AuthStartResponse) -> u64 {
    match start.interval {
        Some(n) => at_least(n, 1),
        None => 5,
    }
}

/// What is told when a login starts.
pub open spec fn prompt_text(start: AuthStartResponse) -> Seq<char> {
    line("Open "@, start.verification_uri@ + " and enter code "@ + start.user_code@) + (
    match start.expires_in {
        Some(n) => line("This code expires in "@, decimal(n as nat) + " seconds."@),
        None => Seq::empty(),
    })
}

/// What is sent to ask how a login stands.
pub open spec fn poll_body(login_id: Seq<char>) -> JValue {
    JValue::Object(seq![("login_id"@, JValue::Text(login_id))])
}

/// How many seconds to wait before asking again, for a login that is not settled.
pub open spec fn next_interval(interval: u64, poll: AuthPollResponse) -> int {
    match poll.interval {
        Some(n) => at_least(n, 1) as int,
        None => if poll.status@ == "slow_down"@ {
            interval + 5
        } else {
            interval as int
        },
    }
}

/// The reason that an answer gives, or else `other`.
pub open spec fn reason(message: Option<String>, other: Seq<char>) -> Seq<char> {
    match message {
        Some(m) => m@,
        None => other,
    }
}

/// What is told of a settled login: a token that was stored is not told.
pub open spec fn login_value(no_store: bool, token: Seq<char>, user: Option<JValue>) -> JValue {
    JValue::Object(
        seq![
            ("authenticated"@, JValue::Bool(true)),
            ("stored"@, JValue::Bool(!no_store)),
            (
                "token"@,
                if no_store {
                    JValue::Text(token)
                } else {
                    JValue::Null
                },
            ),
            (
                "user"@,
                match user {
                    Some(u) => u,
                    None => JValue::Null,
                },
            ),
        ],
    )
}

/// What an optional document holds.
pub open spec fn user_view(user: Option<Json>) -> Option<JValue> {
    match user {
        Some(u) => Some(u@),
        None => None,
    }
}

/// The request that starts a login.
pub fn start_request() -> (r: Request)
    ensures
        r@ == post_view("/auth/cli/start"@, JValue::Object(Seq::empty())),
        r@.wf(),
{
    let members: Vec<Member> = Vec::new();
    proof {
        reveal_strlit("/auth/cli/start");
        assert(pairs(members@) =~= Seq::empty());
        object_wf(JValue::Object(pairs(members@)));
    }
    Request::post("/auth/cli/start".to_string(), Json::object(members))
}

/// The request that asks how a login stands.
pub fn poll_request(login_id: &str) -> (r: Request)
    ensures
        r@ == post_view("/auth/cli/poll"@, poll_body(login_id@)),
        r@.wf(),
{
    let mut members: Vec<Member> = Vec::new();
    members.push(member("login_id", Json::String(login_id.to_string())));
    proof {
        reveal_strlit("/auth/cli/poll");
        assert(pairs(members@) =~= poll_body(login_id@)->Object_0);
        object_wf(poll_body(login_id@));
    }
    Request::post("/auth/cli/poll".to_string(), Json::object(members))
}

/// Appends what is told when a login starts.
pub fn print_prompt(start: &AuthStartResponse, out: &mut String)
    ensures
        final(out)@ == old(out)@ + prompt_text(*start),
{
    let invitation = start.verification_uri.clone().concat(" and enter code ").concat(
        start.user_code.as_str(),
    );
    let expiry = match start.expires_in {
        Some(n) => line_of("This code expires in ", decimal_text(n).concat(" seconds.").as_str()),
        None => String::new(),
    };
    let text = line_of("Open ", invitation.as_str()).concat(expiry.as_str());
    out.append(text.as_str());
}

/// How many seconds to wait before asking for the first time.
pub fn start_interval(start: &AuthStartResponse) -> (r: u64)
    ensures
        r == first_interval(*start),
        r >= 1,
{
    match start.interval {
        Some(n) => if n < 1 {
            1
        } else {
            n
        },
        None => 5,
    }
}

/// What to do about a login, `interval` being how many seconds went by before it was asked for.
pub fn auth_login(interval: u64, poll: AuthPollResponse) -> (r: Result<LoginStep, CliError>)
    requires
        poll.status@ == "slow_down"@ ==> interval + 5 <= u64::MAX,
    ensures
        if poll.status@ == "authorized"@ {
            match poll.token {
                Some(token) => r == Ok::<LoginStep, CliError>(
                    LoginStep::Authorized { token, user: poll.user },
                ),
                None => r == Err::<LoginStep, CliError>(CliError::NoToken),
            }
        } else if poll.status@ == "pending"@ || poll.status@ == "slow_down"@ {
            r matches Ok(LoginStep::Wait { interval: n }) && n == next_interval(interval, poll)
        } else if poll.status@ == "expired"@ {
            r matches Err(CliError::Login(why)) && why@ == reason(poll.message, "login expired"@)
        } else if poll.status@ == "denied"@ {
            r matches Err(CliError::Login(why)) && why@ == reason(poll.message, "login denied"@)
        } else {
            r == Err::<LoginStep, CliError>(CliError::UnknownAuthStatus(poll.status))
        },
{
    proof {
        reveal_strlit("pending");
        reveal_strlit("slow_down");
        assert("pending"@.len() != "slow_down"@.len());
    }
    let status = poll.status.as_str();
    let mut next: u64 = interval;
    if same_text(status, "authorized") {
        return match poll.token {
            Some(token) => Ok(LoginStep::Authorized { token, user: poll.user }),
            None => Err(CliError::NoToken),
        };
    } else if same_text(status, "pending") {
    } else if same_text(status, "slow_down") {
        next = interval + 5;
    } else if same_text(status, "expired") {
        let why = match poll.message {
            Some(m) => m,
            None => "login expired".to_string(),
        };
        return Err(CliError::Login(why));
    } else if same_text(status, "denied") {
        let why = match poll.message {
            Some(m) => m,
            None => "login denied".to_string(),
        };
        return Err(CliError::Login(why));
    } else {
        return Err(CliError::UnknownAuthStatus(poll.status));
    }
    match poll.interval {
        Some(n) => {
            next = if n < 1 {
                1
            } else {
                n
            };
        },
        None => {},
    }
    Ok(LoginStep::Wait { interval: next })
}

/// What is told of a settled login.
fn login_report(no_store: bool, token: String, user: Option<Json>) -> (r: Json)
    requires
        user_view(user) matches Some(u) ==> u.wf(),
    ensures
        r@ == login_value(no_store, token@, user_view(user)),
        r@.wf(),
{
    let mut members: Vec<Member> = Vec::new();
    members.push(member("authenticated", Json::Bool(true)));
    members.push(member("stored", Json::Bool(!no_store)));
    members.push(
        member(
            "token",
            if no_store {
                Json::String(token)
            } else {
                Json::Null
            },
        ),
    );
    members.push(
        member(
            "user",
            match user {
                Some(u) => u,
                None => Json::Null,
            },
        ),
    );
    proof {
        let v = login_value(no_store, token@, user_view(user));
        assert(pairs(members@) =~= v->Object_0);
        reveal_strlit("authenticated");
        reveal_strlit("stored");
        reveal_strlit("token");
        reveal_strlit("user");
        assert(text_less("authenticated"@, "stored"@));
        assert(text_less("authenticated"@, "token"@));
        assert(text_less("authenticated"@, "user"@));
        assert(text_less("stored"@, "token"@));
        assert(text_less("stored"@, "user"@));
        assert(text_less("token"@, "user"@));
        object_wf(v);
    }
    Json::object(members)
}

/// Settles a login: keeps the token unless it is not to be stored, and says what to tell.
pub fn complete_login<P>(
    store: &mut ConfigStore<P>,
    no_store: bool,
    token: String,
    user: Option<Json>,
) -> (r: Json)
    requires
        user_view(user) matches Some(u) ==> u.wf(),
    ensures
        final(store).path == old(store).path,
        string_view(final(store).config.token) == (if no_store {
            string_view(old(store).config.token)
        } else {
            Some(token@)
        }),
        r@ == login_value(no_store, token@, user_view(user)),
        r@.wf(),
{
    if !no_store {
        store.set_token(token.clone());
    }
    login_report(no_store, token, user)
}

} // verus!
