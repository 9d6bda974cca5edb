//! What the commands log and report.

use vstd::prelude::*;

verus! {

/// What is logged unless the environment says otherwise: `verbosity` tells how often a gateway
/// was asked to be verbose, and the other commands have none.
pub open spec fn log_filter_text(verbosity: Option<u8>) -> Seq<char> {
    match verbosity {
        Some(0) => "info,oxllm=info,oxllm_core=info"@,
        Some(1) => "info,oxllm=debug,oxllm_core=debug"@,
        Some(_) => "trace"@,
        None => "info,oxllm=debug,oxllm_core=debug"@,
    }
}

/// What is said about a configuration file that is valid, given how its path is displayed.
pub open spec fn valid_config_text(shown: Seq<char>) -> Seq<char> {
    "Configuration file at '"@ + shown + "' is VALID!"@
}

/// Picks what is logged unless the environment says otherwise.
pub fn log_filter(verbosity: Option<u8>) -> (filter: &'static str)
    ensures
        filter@ == log_filter_text(verbosity),
{
    match verbosity {
        Some(0) => "info,oxllm=info,oxllm_core=info",
        Some(1) => "info,oxllm=debug,oxllm_core=debug",
        Some(_) => "trace",
        None => "info,oxllm=debug,oxllm_core=debug",
    }
}

/// Says that a configuration file is valid.
pub fn valid_config(shown: &str) -> (said: String)
    ensures
        said@ == valid_config_text(shown@),
{
    let mut said: String = "Configuration file at '".to_string();
    said.append(shown);
    said.append("' is VALID!");
    said
}

/// A gateway that was asked twice or more to be verbose logs everything, and one that was asked
/// once logs what the other commands log. One that was not asked logs less than those: they log
/// what helps to find faults, and it does not.
pub proof fn verbosity_decides_what_is_logged(
    verbosity: u8,
    filter: &'static str,
    other: &'static str,
)
    requires
        call_ensures(log_filter, (Some(verbosity),), filter),
        call_ensures(log_filter, (None::<u8>,), other),
    ensures
        verbosity >= 2 <==> filter@ == "trace"@,
        verbosity == 1 <==> filter@ == other@,
        verbosity == 0 <==> filter@ == "info,oxllm=info,oxllm_core=info"@,
        other@ == "info,oxllm=debug,oxllm_core=debug"@,
{
    reveal_strlit("trace");
    reveal_strlit("info,oxllm=info,oxllm_core=info");
    reveal_strlit("info,oxllm=debug,oxllm_core=debug");
    assert("trace"@.len() == 5);
    assert("info,oxllm=info,oxllm_core=info"@.len() == 31);
    assert("info,oxllm=debug,oxllm_core=debug"@.len() == 33);
}

/// What is said about a valid configuration file shows its path between quotes, and the rest does
/// not depend on the path.
pub proof fn valid_files_are_told_by_their_path(
    shown: &str,
    said: String,
    other: &str,
    other_said: String,
)
    requires
        call_ensures(valid_config, (shown,), said),
        call_ensures(valid_config, (other,), other_said),
    ensures
        exists|before: Seq<char>, after: Seq<char>|
            said@ == #[trigger] (before + shown@ + after) && other_said@ == before + other@ + after
                && before.last() == '\'' && after.first() == '\'',
        said@ == other_said@ ==> shown@ == other@,
{
    let before = "Configuration file at '"@;
    let after = "' is VALID!"@;
    reveal_strlit("Configuration file at '");
    reveal_strlit("' is VALID!");
    assert(said@ == before + shown@ + after && other_said@ == before + other@ + after);
    assert(before.last() == '\'' && after.first() == '\'');
    if said@ == other_said@ {
        let n = before.len() as int;
        assert(said@.subrange(n, said@.len() - after.len()) == shown@);
        assert(other_said@.subrange(n, other_said@.len() - after.len()) == other@);
    }
}

} // verus!
