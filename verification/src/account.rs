//! What is shown of an account: its session, a login and its end, and the tokens made for agents.

use vstd::prelude::*;
use crate::json::{Json, JValue, field_string, first_str, first_text, key_texts};
use crate::text::{line, line_if, line_of_some, push_line};

verus! {

/// A text, a dash where there is none.
pub open spec fn or_dash(text: Option<Seq<char>>) -> Seq<char> {
    match text {
        Some(t) => t,
        None => "-"@,
    }
}

/// The name that a user goes by.
pub open spec fn user_name(user: JValue) -> Seq<char> {
    or_dash(first_text(user, seq!["display_name"@, "name"@, "login"@]))
}

/// The id of a user.
pub open spec fn user_id(user: JValue) -> Seq<char> {
    or_dash(first_text(user, seq!["id"@, "user_id"@]))
}

/// The line for a user.
pub open spec fn user_line(user: JValue) -> Seq<char> {
    line("User: "@, user_name(user) + " ("@ + user_id(user) + ")"@)
}

/// The line for the user under `user`, where there is one.
pub open spec fn user_part(v: JValue) -> Seq<char> {
    match v.get("user"@) {
        Some(user) => user_line(user),
        None => Seq::empty(),
    }
}

/// What is shown of a session.
pub open spec fn auth_status_text(v: JValue) -> Seq<char> {
    if v.truth_at("authenticated"@) == Some(true) {
        "Authenticated\n"@ + user_part(v)
    } else {
        "Not authenticated\n"@
    }
}

/// What is shown of the token after a login: where it is, or what it is.
pub open spec fn token_part(v: JValue) -> Seq<char> {
    if v.truth_at("stored"@) == Some(true) {
        "Token stored locally\n"@
    } else {
        line_if("Token: "@, v.text_at("token"@))
    }
}

/// What is shown after a login.
pub open spec fn auth_login_text(v: JValue) -> Seq<char> {
    "Authenticated\n"@ + user_part(v) + token_part(v)
}

/// What is shown of a token made for an agent.
pub open spec fn agent_token_text(v: JValue) -> Seq<char> {
    line("Token: "@, v.field("token"@))
}

fn user_part_of(value: &Json) -> (r: String)
    ensures
        r@ == user_part(value@),
{
    match value.get("user") {
        Some(user) => {
            let mut line = String::new();
            print_user_line(user, &mut line);
            assert(Seq::<char>::empty() + user_line(user@) =~= user_line(user@));
            line
        },
        None => String::new(),
    }
}

/// Appends what is shown of a session.
pub fn print_auth_status(value: &Json, out: &mut String)
    ensures
        final(out)@ == old(out)@ + auth_status_text(value@),
{
    let text = if value.bool_at("authenticated") == Some(true) {
        "Authenticated\n".to_string().concat(user_part_of(value).as_str())
    } else {
        "Not authenticated\n".to_string()
    };
    out.append(text.as_str());
}

/// Appends what is shown after a login.
pub fn print_auth_login(value: &Json, out: &mut String)
    ensures
        final(out)@ == old(out)@ + auth_login_text(value@),
{
    let token = if value.bool_at("stored") == Some(true) {
        "Token stored locally\n".to_string()
    } else {
        line_of_some("Token: ", value.str_at("token"))
    };
    let text = "Authenticated\n".to_string().concat(user_part_of(value).as_str()).concat(
        token.as_str(),
    );
    out.append(text.as_str());
}

/// Appends what is shown after the local token was removed.
pub fn print_logout(out: &mut String)
    ensures
        final(out)@ == old(out)@ + "Local token removed\n"@,
{
    out.append("Local token removed\n");
}

/// Appends the line for a user.
pub fn print_user_line(user: &Json, out: &mut String)
    ensures
        final(out)@ == old(out)@ + user_line(user@),
{
    let names: [&str; 3] = ["display_name", "name", "login"];
    let ids: [&str; 2] = ["id", "user_id"];
    assert(key_texts(names@) =~= seq!["display_name"@, "name"@, "login"@]);
    assert(key_texts(ids@) =~= seq!["id"@, "user_id"@]);
    let name = match first_str(user, &names) {
        Some(t) => t,
        None => "-",
    };
    let id = match first_str(user, &ids) {
        Some(t) => t,
        None => "-",
    };
    push_line(
        out,
        "User: ",
        name.to_string().concat(" (").concat(id).concat(")").as_str(),
    );
}

/// Appends what is shown of a token made for an agent.
pub fn print_agent_token(value: &Json, out: &mut String)
    ensures
        final(out)@ == old(out)@ + agent_token_text(value@),
{
    push_line(out, "Token: ", field_string(value, "token").as_str());
}

} // verus!
