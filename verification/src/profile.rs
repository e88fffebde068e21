//! Where the profile of a job goes.

use vstd::prelude::*;
use crate::error::CliError;
use crate::format::{safe_filename_component, safe_name};
use crate::output::OutputMode;
use crate::text::{byte_len, decimal, decimal_text, utf8_len};

verus! {

/// Where a profile goes. A file is named by a `P`.
#[derive(Debug)]
pub enum Delivery<P> {
    /// To the terminal, as it is.
    Terminal,
    /// To the file that the user named.
    File(P),
    /// To a file of this name.
    FileCalled(String),
}

/// The name of the file for the profile of a job.
pub open spec fn profile_name(job_id: Seq<char>) -> Seq<char> {
    safe_name(job_id) + ".perf-annotate.txt"@
}

/// What is told of a profile in a file.
pub open spec fn profile_text(path: Seq<char>, profile: Seq<char>) -> Seq<char> {
    "Downloaded profile to "@ + path + " ("@ + decimal(byte_len(profile)) + " bytes)\n"@
}

/// Where a profile goes: to the terminal where answers are raw, otherwise to the file that the
/// user named, or one called after the job.
pub fn deliver_profile<P>(mode: OutputMode, output: Option<P>, job_id: &str) -> (r: Result<
    Delivery<P>,
    CliError,
>)
    ensures
        match (mode.raw, output) {
            (true, Some(_)) => r == Err::<Delivery<P>, CliError>(CliError::OutputWithRaw),
            (true, None) => r matches Ok(Delivery::Terminal),
            (false, Some(path)) => r == Ok::<Delivery<P>, CliError>(Delivery::File(path)),
            (false, None) => r matches Ok(Delivery::FileCalled(name)) && name@ == profile_name(
                job_id@,
            ),
        },
{
    if mode.raw {
        match output {
            Some(_) => Err(CliError::OutputWithRaw),
            None => Ok(Delivery::Terminal),
        }
    } else {
        match output {
            Some(path) => Ok(Delivery::File(path)),
            None => {
                let name = safe_filename_component(job_id).concat(".perf-annotate.txt");
                Ok(Delivery::FileCalled(name))
            },
        }
    }
}

/// Appends what is told of a profile in a file.
pub fn print_profile_notice(path: &str, profile: &str, out: &mut String)
    ensures
        final(out)@ == old(out)@ + profile_text(path@, profile@),
{
    let text = "Downloaded profile to ".to_string().concat(path).concat(" (").concat(
        decimal_text(utf8_len(profile) as u64).as_str(),
    ).concat(" bytes)\n");
    out.append(text.as_str());
}

} // verus!
