//! What is shown of challenges, of the systems they run on, and of their leaderboards.

use vstd::prelude::*;
use crate::error::CliError;
use crate::format::{count_field, count_or_dash, format_bytes, ns_field, size_text, time_field};
use crate::json::{
    Json, JValue, field_flag, field_string, field_u64, key_texts, string_list, texts_among, values,
};
use crate::table::{print_table, rows_view, table_text};
use crate::text::{
    byte_len, decimal, decimal_text, line, line_if, line_of, line_of_some, padded, push_line,
    push_padded, push_repeated, repeated, texts, utf8_len,
};

verus! {

/// The longest text under `key` in bytes, at least `least`.
pub open spec fn field_width(items: Seq<JValue>, key: Seq<char>, least: nat) -> nat
    decreases items.len(),
{
    if items.len() == 0 {
        least
    } else {
        let before = field_width(items.drop_last(), key, least);
        match items.last().text_at(key) {
            Some(t) => if byte_len(t) > before {
                byte_len(t)
            } else {
                before
            },
            None => before,
        }
    }
}

/// The line for a challenge in the list.
pub open spec fn challenge_line(challenge: JValue, id_width: nat, title_width: nat) -> Seq<char> {
    padded(challenge.field("id"@), id_width) + "  "@ + padded(
        challenge.field("title"@),
        title_width,
    ) + "  "@ + challenge.list_field("languages"@) + "\n"@
}

/// A line for every challenge.
pub open spec fn challenge_lines(
    challenges: Seq<JValue>,
    id_width: nat,
    title_width: nat,
) -> Seq<char>
    decreases challenges.len(),
{
    if challenges.len() == 0 {
        Seq::empty()
    } else {
        challenge_lines(challenges.drop_last(), id_width, title_width) + challenge_line(
            challenges.last(),
            id_width,
            title_width,
        )
    }
}

/// What is shown of a list of challenges.
pub open spec fn challenge_list_text(challenges: Seq<JValue>) -> Seq<char> {
    let id_width = field_width(challenges, "id"@, byte_len("ID"@));
    let title_width = field_width(challenges, "title"@, byte_len("TITLE"@));
    padded("ID"@, id_width) + "  "@ + padded("TITLE"@, title_width) + "  LANGUAGES\n"@ + repeated(
        '-',
        id_width,
    ) + "  "@ + repeated('-', title_width) + "  ---------\n"@ + challenge_lines(
        challenges,
        id_width,
        title_width,
    )
}

/// A line for every text.
pub open spec fn text_lines(lines: Seq<Seq<char>>) -> Seq<char>
    decreases lines.len(),
{
    if lines.len() == 0 {
        Seq::empty()
    } else {
        text_lines(lines.drop_last()) + lines.last() + "\n"@
    }
}

/// What is shown of the description of a challenge.
pub open spec fn description_part(v: JValue) -> Seq<char> {
    match v.items_at("description"@) {
        Some(items) => "\n"@ + text_lines(texts_among(items)),
        None => Seq::empty(),
    }
}

/// The line for a limit in bytes.
pub open spec fn limit_line(v: JValue, label: Seq<char>, key: Seq<char>) -> Seq<char> {
    match v.get("limits"@) {
        Some(limits) => match limits.unsigned_at(key) {
            Some(bytes) => line(label, size_text(bytes as nat)),
            None => Seq::empty(),
        },
        None => Seq::empty(),
    }
}

/// What is shown of the compiler options that a challenge starts from.
pub open spec fn compiler_part(v: JValue) -> Seq<char> {
    match v.get("compiler_options"@) {
        Some(options) => if options.members() is Some {
            "\nCompiler defaults:\n"@ + line_if("  rust: "@, options.text_at("rust_default"@))
                + line_if("  cpp:  "@, options.text_at("cpp_default"@))
        } else {
            Seq::empty()
        },
        None => Seq::empty(),
    }
}

/// What is shown of the paths of a challenge.
pub open spec fn paths_part(v: JValue) -> Seq<char> {
    match v.get("urls"@) {
        Some(urls) => if urls.members() is Some {
            "\nAPI paths:\n"@ + line_if("  leaderboard: "@, urls.text_at("leaderboard"@))
                + line_if("  record_history: "@, urls.text_at("record_history"@)) + line_if(
                "  submissions: "@,
                urls.text_at("submissions"@),
            )
        } else {
            Seq::empty()
        },
        None => Seq::empty(),
    }
}

/// What is shown of a challenge.
pub open spec fn challenge_detail_text(v: JValue) -> Seq<char> {
    v.field("title"@) + " ("@ + v.field("id"@) + ")\n"@ + description_part(v) + "\n"@ + line(
        "Languages: "@,
        v.list_field("languages"@),
    ) + limit_line(v, "Source limit: "@, "source_bytes"@) + limit_line(
        v,
        "Compiler options limit: "@,
        "compiler_options_bytes"@,
    ) + compiler_part(v) + paths_part(v)
}

/// A number in decimal, `other` where there is none.
pub open spec fn number_or(n: Option<u64>, other: Seq<char>) -> Seq<char> {
    match n {
        Some(n) => decimal(n as nat),
        None => other,
    }
}

/// The row for a system.
pub open spec fn system_row(system: JValue) -> Seq<Seq<char>> {
    seq![
        system.field("id"@),
        system.field("label"@),
        system.field("uarch"@),
        number_or(system.unsigned_at("cpu"@), "-"@),
    ]
}

/// What is shown of a list of systems.
pub open spec fn systems_text(systems: Seq<JValue>) -> Seq<char> {
    table_text(
        seq!["ID"@, "LABEL"@, "UARCH"@, "CPU"@],
        Seq::new(systems.len(), |i: int| system_row(systems[i])),
    )
}

/// The rank of an entry of a leaderboard: blank where the entry is not ranked, a dash where the
/// rank is no number that can be shown.
pub open spec fn rank_text(entry: JValue) -> Seq<char> {
    match entry.get("rank"@) {
        Some(JValue::Null) => Seq::empty(),
        Some(rank) => number_or(rank.unsigned(), "-"@),
        None => Seq::empty(),
    }
}

/// The row for an entry of a leaderboard.
pub open spec fn entry_row(entry: JValue) -> Seq<Seq<char>> {
    seq![
        rank_text(entry),
        entry.field("user_display_name"@),
        if entry.flag("solution_is_public"@) {
            "public"@
        } else {
            "-"@
        },
        entry.field("language"@),
        time_field(entry, "time_ns"@),
        count_field(entry, "cycles"@),
        entry.field("job_id"@),
    ]
}

/// The heading of a leaderboard.
pub open spec fn leaderboard_heading(v: JValue) -> Seq<char> {
    v.field("challenge_id"@) + " / "@ + v.field("system_id"@) + "\n"@
}

/// What is shown of the entries of a leaderboard.
pub open spec fn entries_text(entries: Seq<JValue>) -> Seq<char> {
    if entries.len() == 0 {
        "No leaderboard entries.\n"@
    } else {
        table_text(
            seq!["RANK"@, "USER"@, "PUBLIC"@, "LANG"@, "TIME"@, "CYCLES"@, "JOB"@],
            Seq::new(entries.len(), |i: int| entry_row(entries[i])),
        )
    }
}

/// The longest text under `key` in bytes, at least `least`.
fn measure_field(items: &Vec<Json>, key: &str, least: usize) -> (width: usize)
    ensures
        width == field_width(values(items@), key@, least as nat),
{
    let ghost all = values(items@);
    let mut width: usize = least;
    let mut i: usize = 0;
    while i < items.len()
        invariant
            i <= items@.len(),
            all == values(items@),
            width == field_width(all.take(i as int), key@, least as nat),
        decreases items.len() - i,
    {
        assert(all.take(i + 1).drop_last() =~= all.take(i as int));
        assert(all.take(i + 1).last() == items@[i as int]@);
        match items[i].str_at(key) {
            Some(t) => {
                let n = utf8_len(t);
                if n > width {
                    width = n;
                }
            },
            None => {},
        }
        i += 1;
    }
    assert(all.take(items@.len() as int) =~= all);
    width
}

/// The text list under `key`, a dash where there is none.
fn list_or_dash(value: &Json, key: &str) -> (r: String)
    ensures
        r@ == value@.list_field(key@),
{
    match string_list(value.get(key)) {
        Some(list) => list,
        None => "-".to_string(),
    }
}

/// A number in decimal, `other` where there is none.
fn number_text(n: Option<u64>, other: &str) -> (r: String)
    ensures
        r@ == number_or(n, other@),
{
    match n {
        Some(n) => decimal_text(n),
        None => other.to_string(),
    }
}

/// The rank of an entry of a leaderboard.
fn rank_of(entry: &Json) -> (r: String)
    ensures
        r@ == rank_text(entry@),
{
    match entry.get("rank") {
        Some(Json::Null) => String::new(),
        Some(rank) => number_text(rank.as_u64(), "-"),
        None => String::new(),
    }
}

/// The line for a challenge in the list.
fn challenge_line_of(challenge: &Json, id_width: usize, title_width: usize) -> (r: String)
    ensures
        r@ == challenge_line(challenge@, id_width as nat, title_width as nat),
{
    let mut text = String::new();
    push_padded(&mut text, field_string(challenge, "id").as_str(), id_width);
    assert(text@ =~= padded(challenge@.field("id"@), id_width as nat));
    text.append("  ");
    push_padded(&mut text, field_string(challenge, "title").as_str(), title_width);
    text.append("  ");
    text.append(list_or_dash(challenge, "languages").as_str());
    text.append("\n");
    text
}

/// Appends what is shown of a list of challenges.
pub fn print_challenge_list(value: &Json, out: &mut String) -> (r: Result<(), CliError>)
    ensures
        match value@.items_at("challenges"@) {
            Some(challenges) => r is Ok && final(out)@ == old(out)@ + challenge_list_text(
                challenges,
            ),
            None => r == Err::<(), CliError>(CliError::NoChallenges) && final(out)@ == old(out)@,
        },
{
    let challenges = match value.array_at("challenges") {
        Some(challenges) => challenges,
        None => {
            return Err(CliError::NoChallenges);
        },
    };
    let ghost all = values(challenges@);
    let id_width = measure_field(challenges, "id", utf8_len("ID"));
    let title_width = measure_field(challenges, "title", utf8_len("TITLE"));
    let mut text = String::new();
    push_padded(&mut text, "ID", id_width);
    assert(text@ =~= padded("ID"@, id_width as nat));
    text.append("  ");
    push_padded(&mut text, "TITLE", title_width);
    text.append("  LANGUAGES\n");
    push_repeated(&mut text, '-', id_width);
    text.append("  ");
    push_repeated(&mut text, '-', title_width);
    text.append("  ---------\n");
    let ghost head = text@;
    let mut i: usize = 0;
    assert(text@ =~= head + challenge_lines(all.take(0), id_width as nat, title_width as nat));
    while i < challenges.len()
        invariant
            i <= challenges@.len(),
            all == values(challenges@),
            text@ == head + challenge_lines(
                all.take(i as int),
                id_width as nat,
                title_width as nat,
            ),
        decreases challenges.len() - i,
    {
        text.append(challenge_line_of(&challenges[i], id_width, title_width).as_str());
        proof {
            let done = all.take(i + 1);
            assert(done.drop_last() =~= all.take(i as int));
            assert(done.last() == challenges@[i as int]@);
            assert(text@ =~= head + challenge_lines(done, id_width as nat, title_width as nat));
        }
        i += 1;
    }
    assert(all.take(challenges@.len() as int) =~= all);
    out.append(text.as_str());
    Ok(())
}

fn description_of(value: &Json) -> (r: String)
    ensures
        r@ == description_part(value@),
{
    let items = match value.array_at("description") {
        Some(items) => items,
        None => {
            return String::new();
        },
    };
    let ghost all = values(items@);
    let mut text = "\n".to_string();
    let mut i: usize = 0;
    assert(text@ =~= "\n"@ + text_lines(texts_among(all.take(0))));
    while i < items.len()
        invariant
            i <= items@.len(),
            all == values(items@),
            text@ == "\n"@ + text_lines(texts_among(all.take(i as int))),
        decreases items.len() - i,
    {
        let ghost before = texts_among(all.take(i as int));
        assert(all.take(i + 1).drop_last() =~= all.take(i as int));
        assert(all.take(i + 1).last() == items@[i as int]@);
        match items[i].as_str() {
            Some(t) => {
                text.append(t);
                text.append("\n");
                assert(before.push(t@).drop_last() =~= before);
                assert(text@ =~= "\n"@ + text_lines(before.push(t@)));
            },
            None => {},
        }
        i += 1;
    }
    assert(all.take(items@.len() as int) =~= all);
    text
}

fn limit_of(value: &Json, label: &str, key: &str) -> (r: String)
    ensures
        r@ == limit_line(value@, label@, key@),
{
    match value.get("limits") {
        Some(limits) => match field_u64(limits, key) {
            Some(bytes) => line_of(label, format_bytes(bytes).as_str()),
            None => String::new(),
        },
        None => String::new(),
    }
}

fn compiler_of(value: &Json) -> (r: String)
    ensures
        r@ == compiler_part(value@),
{
    match value.get("compiler_options") {
        Some(options) => if options.as_object().is_some() {
            let rust = line_of_some("  rust: ", options.str_at("rust_default"));
            let cpp = line_of_some("  cpp:  ", options.str_at("cpp_default"));
            "\nCompiler defaults:\n".to_string().concat(rust.as_str()).concat(cpp.as_str())
        } else {
            String::new()
        },
        None => String::new(),
    }
}

fn paths_of(value: &Json) -> (r: String)
    ensures
        r@ == paths_part(value@),
{
    match value.get("urls") {
        Some(urls) => if urls.as_object().is_some() {
            let leaderboard = line_of_some("  leaderboard: ", urls.str_at("leaderboard"));
            let history = line_of_some("  record_history: ", urls.str_at("record_history"));
            let submissions = line_of_some("  submissions: ", urls.str_at("submissions"));
            "\nAPI paths:\n".to_string().concat(leaderboard.as_str()).concat(
                history.as_str(),
            ).concat(submissions.as_str())
        } else {
            String::new()
        },
        None => String::new(),
    }
}

/// Appends what is shown of a challenge.
pub fn print_challenge_detail(value: &Json, out: &mut String)
    ensures
        final(out)@ == old(out)@ + challenge_detail_text(value@),
{
    let mut text = field_string(value, "title");
    text.append(" (");
    text.append(field_string(value, "id").as_str());
    text.append(")\n");
    text.append(description_of(value).as_str());
    text.append("\n");
    push_line(&mut text, "Languages: ", list_or_dash(value, "languages").as_str());
    text.append(limit_of(value, "Source limit: ", "source_bytes").as_str());
    text.append(limit_of(value, "Compiler options limit: ", "compiler_options_bytes").as_str());
    text.append(compiler_of(value).as_str());
    text.append(paths_of(value).as_str());
    out.append(text.as_str());
}

/// Appends what is shown of a list of systems.
pub fn print_systems(value: &Json, out: &mut String) -> (r: Result<(), CliError>)
    ensures
        match value@.items() {
            Some(systems) => r is Ok && final(out)@ == old(out)@ + systems_text(systems),
            None => r == Err::<(), CliError>(CliError::NoSystems) && final(out)@ == old(out)@,
        },
{
    let systems = match value.as_array() {
        Some(systems) => systems,
        None => {
            return Err(CliError::NoSystems);
        },
    };
    let ghost all = values(systems@);
    let ghost wanted = Seq::new(all.len(), |i: int| system_row(all[i]));
    let mut rows: Vec<Vec<String>> = Vec::new();
    let mut i: usize = 0;
    while i < systems.len()
        invariant
            i <= systems@.len(),
            all == values(systems@),
            rows@.len() == i,
            forall|k: int| 0 <= k < i ==> texts((#[trigger] rows@[k])@) == system_row(all[k]),
        decreases systems.len() - i,
    {
        let system = &systems[i];
        let mut row: Vec<String> = Vec::new();
        row.push(field_string(system, "id"));
        row.push(field_string(system, "label"));
        row.push(field_string(system, "uarch"));
        row.push(number_text(field_u64(system, "cpu"), "-"));
        assert(texts(row@) =~= system_row(all[i as int]));
        rows.push(row);
        i += 1;
    }
    assert(rows_view(rows@) =~= wanted);
    let headers: [&str; 4] = ["ID", "LABEL", "UARCH", "CPU"];
    assert(key_texts(headers@) =~= seq!["ID"@, "LABEL"@, "UARCH"@, "CPU"@]);
    print_table(&headers, &rows, out);
    Ok(())
}

/// Appends what is shown of a leaderboard.
pub fn print_leaderboard(value: &Json, out: &mut String) -> (r: Result<(), CliError>)
    ensures
        match value@.items_at("entries"@) {
            Some(entries) => r is Ok && final(out)@ == old(out)@ + leaderboard_heading(value@)
                + entries_text(entries),
            None => r == Err::<(), CliError>(CliError::NoEntries) && final(out)@ == old(out)@
                + leaderboard_heading(value@),
        },
{
    let mut heading = field_string(value, "challenge_id");
    heading.append(" / ");
    heading.append(field_string(value, "system_id").as_str());
    heading.append("\n");
    out.append(heading.as_str());
    let entries = match value.array_at("entries") {
        Some(entries) => entries,
        None => {
            return Err(CliError::NoEntries);
        },
    };
    let ghost all = values(entries@);
    if entries.len() == 0 {
        out.append("No leaderboard entries.\n");
        return Ok(());
    }
    let ghost wanted = Seq::new(all.len(), |i: int| entry_row(all[i]));
    let mut rows: Vec<Vec<String>> = Vec::new();
    let mut i: usize = 0;
    while i < entries.len()
        invariant
            i <= entries@.len(),
            all == values(entries@),
            rows@.len() == i,
            forall|k: int| 0 <= k < i ==> texts((#[trigger] rows@[k])@) == entry_row(all[k]),
        decreases entries.len() - i,
    {
        let entry = &entries[i];
        let mut row: Vec<String> = Vec::new();
        row.push(rank_of(entry));
        row.push(field_string(entry, "user_display_name"));
        row.push(
            if field_flag(entry, "solution_is_public") {
                "public".to_string()
            } else {
                "-".to_string()
            },
        );
        row.push(field_string(entry, "language"));
        row.push(ns_field(entry, "time_ns"));
        row.push(count_or_dash(entry, "cycles"));
        row.push(field_string(entry, "job_id"));
        assert(texts(row@) =~= entry_row(all[i as int]));
        rows.push(row);
        i += 1;
    }
    assert(rows_view(rows@) =~= wanted);
    let headers: [&str; 7] = ["RANK", "USER", "PUBLIC", "LANG", "TIME", "CYCLES", "JOB"];
    assert(key_texts(headers@) =~= seq![
        "RANK"@,
        "USER"@,
        "PUBLIC"@,
        "LANG"@,
        "TIME"@,
        "CYCLES"@,
        "JOB"@,
    ]);
    print_table(&headers, &rows, out);
    Ok(())
}

} // verus!
