//! The file by which other commands find a running gateway, and the signals that they send it.

use vstd::prelude::*;

use crate::text;
use crate::text::{decimal_text, parse_u32, signed_decimal_text, trim};

verus! {

/// Where a running gateway leaves its process identifier.
pub const PID_FILE: &'static str = "/tmp/oxllm.pid";

/// A signal to a running gateway.
pub enum Signal {
    /// Reload the configuration.
    Hangup,
    /// Stop gracefully.
    Terminate,
}

impl Signal {
    /// The argument by which the `kill` command knows the signal.
    pub open spec fn flag(self) -> Seq<char> {
        match self {
            Signal::Hangup => "-HUP"@,
            Signal::Terminate => "-TERM"@,
        }
    }
}

/// The process that a command is meant for.
pub enum PidLookup {
    /// This one.
    Found(u32),
    /// The file does not hold a process identifier.
    Invalid,
    /// There is no file, and so no running gateway.
    NotRunning,
}

/// The process that a command is meant for: the given one, or else the one in the file, if there
/// is a file.
pub open spec fn pid_lookup(given: Option<u32>, file: Option<Seq<char>>) -> PidLookup {
    match given {
        Some(pid) => PidLookup::Found(pid),
        None => match file {
            None => PidLookup::NotRunning,
            Some(content) => match text::u32_value(text::trimmed(content)) {
                Some(pid) => PidLookup::Found(pid),
                None => PidLookup::Invalid,
            },
        },
    }
}

/// What a command prints that finds no process.
pub open spec fn lookup_text(lookup: PidLookup) -> Option<Seq<char>> {
    match lookup {
        PidLookup::Found(_) => None,
        PidLookup::Invalid => Some("Invalid PID in /tmp/oxllm.pid\n"@),
        PidLookup::NotRunning => Some(
            "oxllm is not running (no PID file at /tmp/oxllm.pid)\nStart it with: oxllm serve\n"@,
        ),
    }
}

/// The exit code of a command that may have been ended by a signal instead, as it is printed.
pub open spec fn exit_code_text(code: Option<i32>) -> Seq<char> {
    match code {
        Some(number) => "Some("@ + text::signed_decimal(number as int) + ")"@,
        None => "None"@,
    }
}

/// What is said about a `kill` command that failed.
pub open spec fn kill_failure_text(code: Option<i32>) -> Seq<char> {
    "kill command failed with exit code: "@ + exit_code_text(code)
}

/// What is said about a signal that was sent.
pub open spec fn sent_text(signal: Signal, pid: u32) -> Seq<char> {
    match signal {
        Signal::Hangup => "Successfully sent hot-reload signal (SIGHUP) to process "@
            + text::decimal(pid as nat),
        Signal::Terminate => "Successfully sent graceful shutdown signal (SIGTERM) to process "@
            + text::decimal(pid as nat),
    }
}

/// What is said about a stop signal that could not even be tried.
pub open spec fn unsent_text(error: Seq<char>) -> Seq<char> {
    "Failed to send SIGTERM: "@ + error
}

/// Makes the content of the file for a process.
pub fn pid_file_content(pid: u32) -> (content: String)
    ensures
        content@ == text::decimal(pid as nat),
{
    decimal_text(pid as u64)
}

/// Finds the process that a command is meant for.
pub fn find_pid(given: Option<u32>, file: Option<String>) -> (lookup: PidLookup)
    ensures
        lookup == pid_lookup(given, text::option_text(file)),
{
    match given {
        Some(pid) => PidLookup::Found(pid),
        None => match file {
            None => PidLookup::NotRunning,
            Some(content) => match parse_u32(trim(content.as_str())) {
                Some(pid) => PidLookup::Found(pid),
                None => PidLookup::Invalid,
            },
        },
    }
}

/// Says what a command prints that finds no process.
pub fn lookup_notice(lookup: &PidLookup) -> (notice: Option<String>)
    ensures
        text::option_text(notice) == lookup_text(*lookup),
{
    match lookup {
        PidLookup::Found(_) => None,
        PidLookup::Invalid => Some("Invalid PID in /tmp/oxllm.pid\n".to_string()),
        PidLookup::NotRunning => Some(
            "oxllm is not running (no PID file at /tmp/oxllm.pid)\nStart it with: oxllm serve\n".to_string(),
        ),
    }
}

/// Makes the arguments of the `kill` command that sends a signal.
pub fn kill_arguments(signal: &Signal, pid: u32) -> (arguments: Vec<String>)
    ensures
        arguments@.len() == 2,
        arguments@[0]@ == signal.flag(),
        arguments@[1]@ == text::decimal(pid as nat),
{
    let flag: &str = match signal {
        Signal::Hangup => "-HUP",
        Signal::Terminate => "-TERM",
    };
    let mut arguments: Vec<String> = Vec::new();
    arguments.push(flag.to_string());
    arguments.push(decimal_text(pid as u64));
    arguments
}

/// Renders the exit code of a command.
fn render_exit_code(code: Option<i32>) -> (out: String)
    ensures
        out@ == exit_code_text(code),
{
    match code {
        Some(number) => {
            let digits: String = signed_decimal_text(number);
            let mut out: String = "Some(".to_string();
            out.append(digits.as_str());
            out.append(")");
            out
        },
        None => "None".to_string(),
    }
}

/// Says what has come of sending a signal: `Ok` with what to tell the user where the `kill`
/// command succeeded, and else `Err` with what is wrong.
pub fn signal_report(signal: &Signal, pid: u32, success: bool, code: Option<i32>) -> (report: Result<
    String,
    String,
>)
    ensures
        report is Ok <==> success,
        report matches Ok(said) ==> said@ == sent_text(*signal, pid),
        report matches Err(said) ==> said@ == kill_failure_text(code),
{
    if success {
        let digits: String = decimal_text(pid as u64);
        let mut said: String = match signal {
            Signal::Hangup => "Successfully sent hot-reload signal (SIGHUP) to process ".to_string(),
            Signal::Terminate => "Successfully sent graceful shutdown signal (SIGTERM) to process ".to_string(),
        };
        said.append(digits.as_str());
        Ok(said)
    } else {
        let shown: String = render_exit_code(code);
        let mut said: String = "kill command failed with exit code: ".to_string();
        said.append(shown.as_str());
        Err(said)
    }
}

/// What the `stop` command prints once it has tried to signal a process: the outcome is whether
/// the `kill` command succeeded, with its exit code, or why it could not be run. No outcome is an
/// error of the `stop` command itself.
pub open spec fn stop_text(pid: u32, outcome: Result<(bool, Option<i32>), String>) -> Seq<char> {
    match outcome {
        Ok((true, _)) => sent_text(Signal::Terminate, pid),
        Ok((false, code)) => kill_failure_text(code),
        Err(error) => unsent_text(error@),
    }
}

/// Says what has come of stopping a process.
pub fn stop_report(pid: u32, outcome: Result<(bool, Option<i32>), String>) -> (said: String)
    ensures
        said@ == stop_text(pid, outcome),
{
    match outcome {
        Ok((success, code)) => match signal_report(&Signal::Terminate, pid, success, code) {
            Ok(said) => said,
            Err(said) => said,
        },
        Err(error) => {
            let mut said: String = "Failed to send SIGTERM: ".to_string();
            said.append(error.as_str());
            said
        },
    }
}

/// What a gateway leaves in the file leads the other commands to it, with white space
/// around it or without.
pub proof fn running_gateways_are_found(pid: u32, before: Seq<char>, after: Seq<char>)
    requires
        forall|i: int| 0 <= i < before.len() ==> text::is_white_space(#[trigger] before[i]),
        forall|i: int| 0 <= i < after.len() ==> text::is_white_space(#[trigger] after[i]),
    ensures
        pid_lookup(None, Some(before + text::decimal(pid as nat) + after)) == PidLookup::Found(pid),
{
    text::decimal_is_read_back(pid, before, after);
}

/// A process that is given explicitly is taken, whatever the file holds.
pub proof fn given_processes_take_precedence(pid: u32, file: Option<Seq<char>>)
    ensures
        pid_lookup(Some(pid), file) == PidLookup::Found(pid),
{
}

/// A gateway leaves its process identifier in the file, in decimal notation.
pub proof fn files_hold_the_identifier(pid: u32, content: String)
    requires
        call_ensures(pid_file_content, (pid,), content),
    ensures
        text::denotes(content@, pid as nat),
{
    text::lemma_decimal_denotes(pid as nat);
}

/// Whether a file holds a process identifier: digits that denote it, with a plus sign before them
/// or without, and with nothing but white space around that.
pub open spec fn holds_pid(content: Seq<char>, pid: u32) -> bool {
    exists|core: Seq<char>| #[trigger] text::is_core_of(core, content) && text::reads_as(core, pid)
}

/// A file holds a process identifier exactly where it is read from it.
proof fn lemma_holds_pid(content: Seq<char>, pid: u32)
    ensures
        holds_pid(content, pid) <==> text::u32_value(text::trimmed(content)) == Some(pid),
{
    text::lemma_trimmed_is_core(content);
    text::lemma_reading(text::trimmed(content), pid);
    if holds_pid(content, pid) {
        let core = choose|core: Seq<char>| #[trigger]
            text::is_core_of(core, content) && text::reads_as(core, pid);
        let digits = choose|digits: Seq<char>|
            (core == digits || core == seq!['+'] + digits) && #[trigger] text::is_digits(digits)
                && text::digits_value(digits) == pid;
        assert(core.len() > 0);
        text::lemma_core_is_trimmed(core, content);
        text::lemma_reading(core, pid);
    }
}

/// A command is meant for the process that is given, whatever the file holds, and else for the
/// one that the file holds. Without either, it is meant for none.
pub proof fn commands_find_their_process(
    given: Option<u32>,
    file: Option<String>,
    lookup: PidLookup,
    pid: u32,
)
    requires
        call_ensures(find_pid, (given, file), lookup),
    ensures
        lookup == PidLookup::Found(pid) <==> match given {
            Some(wanted) => wanted == pid,
            None => file is Some && holds_pid(file->Some_0@, pid),
        },
        lookup is NotRunning <==> given is None && file is None,
{
    if let Some(content) = file {
        lemma_holds_pid(content@, pid);
    }
}

/// A command that finds its process prints no notice, and any other prints one.
pub proof fn notices_are_for_missing_processes(lookup: &PidLookup, notice: Option<String>)
    requires
        call_ensures(lookup_notice, (lookup,), notice),
    ensures
        notice is None <==> *lookup is Found,
        *lookup is Invalid ==> notice is Some && notice->Some_0@ == "Invalid PID in /tmp/oxllm.pid\n"@,
        *lookup is NotRunning ==> notice is Some && notice->Some_0@
            == "oxllm is not running (no PID file at /tmp/oxllm.pid)\nStart it with: oxllm serve\n"@,
{
}

/// The `kill` command is told the signal and the process.
pub proof fn kill_is_told_signal_and_process(signal: &Signal, pid: u32, arguments: Vec<String>)
    requires
        call_ensures(kill_arguments, (signal, pid), arguments),
    ensures
        arguments@.len() == 2,
        arguments@[0]@ == if *signal is Hangup {
            "-HUP"@
        } else {
            "-TERM"@
        },
        text::denotes(arguments@[1]@, pid as nat),
{
    text::lemma_decimal_denotes(pid as nat);
}

/// Whether a text says that a signal was sent to a process: which signal, and the process.
pub open spec fn says_sent(said: Seq<char>, signal: Signal, pid: u32) -> bool {
    exists|digits: Seq<char>| #[trigger]
        text::denotes(digits, pid as nat) && said == (if signal is Hangup {
            "Successfully sent hot-reload signal (SIGHUP) to process "@
        } else {
            "Successfully sent graceful shutdown signal (SIGTERM) to process "@
        }) + digits
}

/// Whether a text says that the `kill` command failed, and with which exit code, if it had one.
pub open spec fn says_kill_failed(said: Seq<char>, code: Option<i32>) -> bool {
    match code {
        None => said == "kill command failed with exit code: None"@,
        Some(number) => exists|digits: Seq<char>| #[trigger]
            text::denotes_signed(digits, number as int) && said
                == "kill command failed with exit code: Some("@ + digits + ")"@,
    }
}

/// The texts on signals say what they are meant to.
proof fn lemma_signal_texts(signal: Signal, pid: u32, code: Option<i32>)
    ensures
        says_sent(sent_text(signal, pid), signal, pid),
        says_kill_failed(kill_failure_text(code), code),
{
    text::lemma_decimal_denotes(pid as nat);
    reveal_strlit("kill command failed with exit code: ");
    reveal_strlit("kill command failed with exit code: Some(");
    reveal_strlit("kill command failed with exit code: None");
    reveal_strlit("Some(");
    reveal_strlit("None");
    match code {
        Some(number) => {
            text::lemma_signed_decimal_denotes(number as int);
            let digits = text::signed_decimal(number as int);
            assert(kill_failure_text(code) == "kill command failed with exit code: Some("@ + digits
                + ")"@);
        },
        None => {
            assert(kill_failure_text(code) == "kill command failed with exit code: None"@);
        },
    }
}

/// A signal is reported as sent exactly where the `kill` command succeeded, and then the report
/// tells which and to which process. Else it tells the exit code.
pub proof fn signals_are_reported_as_they_went(
    signal: &Signal,
    pid: u32,
    success: bool,
    code: Option<i32>,
    report: Result<String, String>,
)
    requires
        call_ensures(signal_report, (signal, pid, success, code), report),
    ensures
        success <==> report is Ok,
        report matches Ok(said) ==> says_sent(said@, *signal, pid),
        report matches Err(said) ==> says_kill_failed(said@, code),
{
    lemma_signal_texts(*signal, pid, code);
}

/// A stop command tells that its signal was sent, or the exit code of the `kill` command, or why
/// that could not be run.
pub proof fn stops_are_reported_as_they_went(
    pid: u32,
    outcome: Result<(bool, Option<i32>), String>,
    said: String,
)
    requires
        call_ensures(stop_report, (pid, outcome), said),
    ensures
        match outcome {
            Ok((success, code)) => if success {
                says_sent(said@, Signal::Terminate, pid)
            } else {
                says_kill_failed(said@, code)
            },
            Err(error) => said@ == "Failed to send SIGTERM: "@ + error@,
        },
{
    if let Ok((success, code)) = outcome {
        lemma_signal_texts(Signal::Terminate, pid, code);
    }
}

} // verus!
