//! The Slurm commands the application runs on a job, and how a failed run
//! is reported.
use vstd::prelude::*;

use crate::text::{
    append_str, join, join_strings, push_signed_decimal, signed_decimal, strings_view, trim_end,
    trim_end_str,
};

verus! {

/// A command that failed: how it was invoked, and what it reported.
pub struct CommandFailure {
    pub command: String,
    pub output: String,
}

/// A command to run: the program, its arguments, and how to show it.
pub struct SlurmCommand {
    pub program: String,
    pub args: Vec<String>,
    pub label: String,
}

/// `scancel` for `job_id`, with `--signal <signal>` when a signal is given.
pub fn scancel_command(job_id: &str, signal: Option<&str>) -> (c: SlurmCommand)
    ensures
        c.program@ == "scancel"@,
        strings_view(c.args@) == match signal {
            Some(sig) => seq!["--signal"@, sig@, job_id@],
            None => seq![job_id@],
        },
        c.label@ == match signal {
            Some(sig) => "scancel"@ + " --signal "@ + sig@ + " "@ + job_id@,
            None => "scancel"@ + " "@ + job_id@,
        },
        c.label@ == join(seq![c.program@] + strings_view(c.args@), " "@),
{
    let mut args: Vec<String> = Vec::new();
    let mut label = String::from_str("scancel");
    match signal {
        Some(sig) => {
            args.push(String::from_str("--signal"));
            args.push(String::from_str(sig));
            append_str(&mut label, " --signal ");
            append_str(&mut label, sig);
        },
        None => {},
    }
    args.push(String::from_str(job_id));
    append_str(&mut label, " ");
    append_str(&mut label, job_id);
    let c = SlurmCommand { program: String::from_str("scancel"), args, label };
    proof {
        match signal {
            Some(sig) => {
                assert(strings_view(c.args@) =~= seq!["--signal"@, sig@, job_id@]);
            },
            None => {
                assert(strings_view(c.args@) =~= seq![job_id@]);
            },
        }
        reveal_strlit(" ");
        reveal_strlit(" --signal ");
        reveal_strlit("--signal");
        reveal_with_fuel(join, 5);
        let parts = seq![c.program@] + strings_view(c.args@);
        assert(join(parts, " "@) =~= c.label@);
    }
    c
}

/// `scontrol update JobId=<job_id> TimeLimit=<time_limit>`.
pub fn scontrol_timelimit_command(job_id: &str, time_limit: &str) -> (c: SlurmCommand)
    ensures
        c.program@ == "scontrol"@,
        strings_view(c.args@) == seq!["update"@, "JobId="@ + job_id@, "TimeLimit="@ + time_limit@],
        c.label@ == "scontrol update JobId="@ + job_id@ + " TimeLimit="@ + time_limit@,
        c.label@ == join(seq![c.program@] + strings_view(c.args@), " "@),
{
    let mut args: Vec<String> = Vec::new();
    args.push(String::from_str("update"));
    args.push(String::from_str("JobId=").concat(job_id));
    args.push(String::from_str("TimeLimit=").concat(time_limit));
    let mut label = String::from_str("scontrol update JobId=");
    append_str(&mut label, job_id);
    append_str(&mut label, " TimeLimit=");
    append_str(&mut label, time_limit);
    let c = SlurmCommand { program: String::from_str("scontrol"), args, label };
    proof {
        assert(strings_view(c.args@) =~= seq![
            "update"@,
            "JobId="@ + job_id@,
            "TimeLimit="@ + time_limit@,
        ]);
        reveal_strlit(" ");
        reveal_strlit("scontrol update JobId=");
        reveal_strlit("scontrol");
        reveal_strlit("update");
        reveal_strlit("JobId=");
        reveal_strlit(" TimeLimit=");
        reveal_strlit("TimeLimit=");
        reveal_with_fuel(join, 5);
        let parts = seq![c.program@] + strings_view(c.args@);
        assert(join(parts, " "@) =~= c.label@);
    }
    c
}

/// The parts of a failure report: the exit code (or `N/A` when the process
/// was ended by a signal), then the trimmed standard output and error, each
/// under a heading when both are present, or `No output.` when neither is.
pub open spec fn failure_details(
    exit_code: Option<i32>,
    stdout: Seq<char>,
    stderr: Seq<char>,
) -> Seq<Seq<char>> {
    let code = match exit_code {
        Some(c) => "Exit code: "@ + signed_decimal(c as int),
        None => "Exit code: N/A"@,
    };
    let out = trim_end(stdout);
    let err = trim_end(stderr);
    if out.len() > 0 && err.len() > 0 {
        seq![code, "stdout:\n"@ + out, "stderr:\n"@ + err]
    } else if out.len() > 0 {
        seq![code, out]
    } else if err.len() > 0 {
        seq![code, err]
    } else {
        seq![code, "No output."@]
    }
}

/// The report of a failed run: its parts separated by blank lines.
pub open spec fn failure_report(exit_code: Option<i32>, stdout: Seq<char>, stderr: Seq<char>) -> Seq<
    char,
> {
    join(failure_details(exit_code, stdout, stderr), "\n\n"@)
}

/// The failure of the command shown as `command`, which exited with
/// `exit_code` (none when ended by a signal) and printed `stdout` and
/// `stderr` (see `failure_report`).
pub fn command_failure(command: String, exit_code: Option<i32>, stdout: &str, stderr: &str) -> (f:
    CommandFailure)
    ensures
        f.command@ == command@,
        f.output@ == failure_report(exit_code, stdout@, stderr@),
{
    let mut details: Vec<String> = Vec::new();
    let mut code = String::from_str("Exit code: ");
    match exit_code {
        Some(c) => {
            push_signed_decimal(&mut code, c as i64);
        },
        None => {
            append_str(&mut code, "N/A");
        },
    }
    proof {
        reveal_strlit("Exit code: ");
        reveal_strlit("N/A");
        reveal_strlit("Exit code: N/A");
        let want = match exit_code {
            Some(c) => "Exit code: "@ + signed_decimal(c as int),
            None => "Exit code: N/A"@,
        };
        assert(code@ =~= want);
    }
    details.push(code);
    let out = trim_end_str(stdout);
    let err = trim_end_str(stderr);
    let has_out = out.as_str().unicode_len() > 0;
    let has_err = err.as_str().unicode_len() > 0;
    if has_out && has_err {
        details.push(String::from_str("stdout:\n").concat(out.as_str()));
        details.push(String::from_str("stderr:\n").concat(err.as_str()));
    } else if has_out {
        details.push(out);
    } else if has_err {
        details.push(err);
    }
    if details.len() == 1 {
        details.push(String::from_str("No output."));
    }
    proof {
        reveal_strlit("Exit code: ");
        reveal_strlit("N/A");
        reveal_strlit("Exit code: N/A");
        assert(details@.map_values(|p: String| p@) =~= failure_details(
            exit_code,
            stdout@,
            stderr@,
        ));
    }
    let output = join_strings(&details, "\n\n");
    CommandFailure { command, output }
}

} // verus!
