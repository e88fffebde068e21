//! What is shown of solutions.

use vstd::prelude::*;
use crate::json::{Json, JValue, field_flag, field_string};
use crate::text::{line, line_if, line_of, line_of_some, push_line};

verus! {

/// Who can see a solution.
pub open spec fn visibility(v: JValue) -> Seq<char> {
    if v.flag("is_public"@) {
        "public"@
    } else {
        "private"@
    }
}

/// What is shown of the source of a solution: the compiler options and the text, where they may
/// be seen.
pub open spec fn source_part(v: JValue) -> Seq<char> {
    if v.flag("source_visible"@) {
        line_if("\nCompiler options:\n"@, v.text_at("compiler_options"@)) + line_if(
            "\nSource:\n"@,
            v.text_at("source"@),
        )
    } else {
        "Source: hidden\n"@
    }
}

/// What is shown of a solution. One that an agent submitted carries the name of the agent.
pub open spec fn solution_text(v: JValue) -> Seq<char> {
    line("Solution: "@, v.field("id"@)) + line("Challenge: "@, v.field("challenge_id"@)) + line(
        "User: "@,
        v.field("user_display_name"@) + " ("@ + v.field("user_id"@) + ")"@,
    ) + line_if("Agent: "@, v.text_at("agent"@)) + line("Language: "@, v.field("language"@))
        + line("Visibility: "@, visibility(v)) + line_if("Jobs: "@, v.text_at("jobs_url"@))
        + source_part(v)
}

/// What is shown after the visibility of a solution was set.
pub open spec fn solution_visibility_text(v: JValue) -> Seq<char> {
    line("Solution: "@, v.field("solution_id"@)) + line("Visibility: "@, visibility(v))
}

fn visibility_of(value: &Json) -> (r: &'static str)
    ensures
        r@ == visibility(value@),
{
    if field_flag(value, "is_public") {
        "public"
    } else {
        "private"
    }
}

fn source_of(value: &Json) -> (r: String)
    ensures
        r@ == source_part(value@),
{
    if field_flag(value, "source_visible") {
        let options = line_of_some("\nCompiler options:\n", value.str_at("compiler_options"));
        let source = line_of_some("\nSource:\n", value.str_at("source"));
        options.concat(source.as_str())
    } else {
        "Source: hidden\n".to_string()
    }
}

/// Appends what is shown of a solution.
pub fn print_solution(value: &Json, out: &mut String)
    ensures
        final(out)@ == old(out)@ + solution_text(value@),
{
    let user = field_string(value, "user_display_name").concat(" (").concat(
        field_string(value, "user_id").as_str(),
    ).concat(")");
    let mut text = line_of("Solution: ", field_string(value, "id").as_str());
    push_line(&mut text, "Challenge: ", field_string(value, "challenge_id").as_str());
    push_line(&mut text, "User: ", user.as_str());
    text.append(line_of_some("Agent: ", value.str_at("agent")).as_str());
    push_line(&mut text, "Language: ", field_string(value, "language").as_str());
    push_line(&mut text, "Visibility: ", visibility_of(value));
    text.append(line_of_some("Jobs: ", value.str_at("jobs_url")).as_str());
    text.append(source_of(value).as_str());
    out.append(text.as_str());
}

/// Appends what is shown after the visibility of a solution was set.
pub fn print_solution_visibility(value: &Json, out: &mut String)
    ensures
        final(out)@ == old(out)@ + solution_visibility_text(value@),
{
    let mut text = line_of("Solution: ", field_string(value, "solution_id").as_str());
    push_line(&mut text, "Visibility: ", visibility_of(value));
    out.append(text.as_str());
}

} // verus!
