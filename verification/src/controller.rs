//! The iteration controller: one state step per iteration, with four
//! mutually exclusive stop reasons checked in a fixed priority order, a
//! non-zero agent exit always fatal, and 1-based contiguous log records.
//! The pure driver composes the steps over a whole run.

use vstd::prelude::*;
use vstd::string::StrSliceExecFns;
use vstd::string::StringExecFns;
use vstd::string::StringSliceAdditionalSpecFns;
use vstd::utf8::encode_utf8;
use crate::bytes::contains_bytes;
use crate::bytes::contains_seq;
use crate::fmt::exit_code_to_string;
use crate::fmt::spec_exit_code_text;
use crate::fmt::spec_udecimal;
use crate::fmt::append_bytes;
use crate::fmt::append_str_bytes;
use crate::fmt::u32_to_string;
use crate::fmt::u64_to_string;
use crate::runner::InvocationResult;

verus! {

/// Why the loop ended cleanly; exactly one is recorded on a normal exit.
pub enum StopReason {
    /// The configured elapsed-time budget was exceeded before an iteration.
    MaxRuntime,
    /// The invocation exceeded its own wall-clock limit.
    RunnerTimedOut,
    /// The configured stop token appeared in captured output.
    CompletionToken,
    /// The last allowed iteration finished.
    MaxIterations,
}

/// How a run ends when it does not exhaust a zero-iteration budget.
pub enum RunEnd {
    /// A clean halt, with its reason.
    Stopped(StopReason),
    /// The agent backend exited with this non-zero code; always fatal.
    RunnerFailed(i32),
    /// The invocation itself failed for a reason other than a timeout.
    InvocationFailed,
}

/// What the controller decides after one completed invocation.
pub enum LoopOutcome {
    /// Sleep, then run the next iteration.
    Continue,
    /// Halt cleanly with this reason.
    Stop(StopReason),
    /// Halt with a fatal error carrying the exit code.
    Fatal(i32),
}

/// The loop's fixed configuration.
pub struct LoopConfig {
    /// How many iterations may run at most.
    pub iterations: u32,
    /// Seconds slept between iterations.
    pub sleep_secs: u64,
    /// Elapsed-time budget in seconds; 0 means none.
    pub max_seconds: u64,
    /// The completion token searched for in captured output.
    pub stop_token: String,
    /// Whether iteration records are appended to the log.
    pub log_enabled: bool,
}

/// One record appended to the log.
pub struct IterationRecord {
    /// 1-based iteration number.
    pub iteration: u32,
    /// Unix timestamp of the append.
    pub timestamp: u64,
    /// Captured output bytes.
    pub stdout: Vec<u8>,
    /// Captured error bytes.
    pub stderr: Vec<u8>,
    /// The child's exit code, absent when it was ended by a signal.
    pub code: Option<i32>,
}

/// How one invocation went, as the controller sees it.
pub enum InvocationOutcome {
    /// The child ran to completion, with any exit status.
    Completed(InvocationResult),
    /// The invocation hit its wall-clock limit.
    TimedOut,
    /// The invocation failed for another reason, such as a spawn error.
    Failed,
}

/// What one iteration observed: elapsed time before it, the timestamp of
/// its log record, and the invocation's outcome.
pub struct IterationInput {
    /// Seconds elapsed since the run started, measured before invoking.
    pub elapsed_secs: u64,
    /// Unix timestamp for the log record.
    pub timestamp: u64,
    /// How the invocation went.
    pub outcome: InvocationOutcome,
}

/// Whether the elapsed-time budget is configured and exceeded.
pub fn runtime_exceeded(cfg: &LoopConfig, elapsed_secs: u64) -> (r: bool)
    ensures
        r == (cfg.max_seconds > 0 && elapsed_secs >= cfg.max_seconds),
{
    cfg.max_seconds > 0 && elapsed_secs >= cfg.max_seconds
}

/// The stop-token test: a pure substring check of the token's bytes against
/// the captured output.
pub fn stdout_has_token(cfg: &LoopConfig, stdout: &Vec<u8>) -> (r: bool)
    ensures
        r == contains_seq(stdout@, encode_utf8(cfg.stop_token@)),
{
    let token = cfg.stop_token.as_str().as_bytes_vec();
    contains_bytes(stdout, &token)
}

/// The exit code reported on failure: the child's own, or 1 when it was
/// ended by a signal.
pub open spec fn spec_failure_code(code: Option<i32>) -> i32 {
    match code {
        Option::Some(c) => c,
        Option::None => 1,
    }
}

/// Decides what follows one completed invocation, in priority order: a
/// non-zero exit is fatal; a stop token halts cleanly; the last allowed
/// iteration halts cleanly; otherwise the loop continues.
pub fn evaluate_iteration(cfg: &LoopConfig, iteration: u32, result: &InvocationResult) -> (r:
    LoopOutcome)
    ensures
        !result.success ==> r == LoopOutcome::Fatal(spec_failure_code(result.code)),
        result.success && contains_seq(result.stdout@, encode_utf8(cfg.stop_token@)) ==> r
            == LoopOutcome::Stop(StopReason::CompletionToken),
        result.success && !contains_seq(result.stdout@, encode_utf8(cfg.stop_token@)) && iteration
            >= cfg.iterations ==> r == LoopOutcome::Stop(StopReason::MaxIterations),
        result.success && !contains_seq(result.stdout@, encode_utf8(cfg.stop_token@)) && iteration
            < cfg.iterations ==> r == LoopOutcome::Continue,
{
    if !result.success {
        let code = match result.code {
            Option::Some(c) => c,
            Option::None => 1,
        };
        LoopOutcome::Fatal(code)
    } else if stdout_has_token(cfg, &result.stdout) {
        LoopOutcome::Stop(StopReason::CompletionToken)
    } else if iteration >= cfg.iterations {
        LoopOutcome::Stop(StopReason::MaxIterations)
    } else {
        LoopOutcome::Continue
    }
}

fn clone_bytes(v: &Vec<u8>) -> (r: Vec<u8>)
    ensures
        r@ == v@,
{
    let mut r: Vec<u8> = Vec::new();
    append_bytes(&mut r, v);
    proof {
        assert(r@ =~= v@);
    }
    r
}

/// Builds the log record of one completed invocation.
pub fn make_record(iteration: u32, timestamp: u64, result: &InvocationResult) -> (r:
    IterationRecord)
    ensures
        r.iteration == iteration,
        r.timestamp == timestamp,
        r.stdout@ == result.stdout@,
        r.stderr@ == result.stderr@,
        r.code == result.code,
{
    IterationRecord {
        iteration,
        timestamp,
        stdout: clone_bytes(&result.stdout),
        stderr: clone_bytes(&result.stderr),
        code: result.code,
    }
}

/// The serialized form of one log record: a header line with iteration
/// number and timestamp, the raw captured streams each under its marker
/// when not empty, the exit-code line, and a separator line.
pub open spec fn spec_log_record(
    iteration: int,
    timestamp: int,
    stdout: Seq<u8>,
    stderr: Seq<u8>,
    code: Option<int>,
) -> Seq<u8> {
    encode_utf8("[iteration "@ + spec_udecimal(iteration) + "] "@ + spec_udecimal(timestamp) + "\n"@)
        + (if stdout.len() > 0 {
        encode_utf8("\n[stdout]\n"@) + stdout
    } else {
        Seq::empty()
    }) + (if stderr.len() > 0 {
        encode_utf8("\n[stderr]\n"@) + stderr
    } else {
        Seq::empty()
    }) + encode_utf8("\n[exit-code] "@ + spec_exit_code_text(code) + "\n"@) + encode_utf8(
        "\n--------------------------------------------------------------------------------\n"@,
    )
}

/// The view of an optional exit code.
pub open spec fn opt_code_view(code: Option<i32>) -> Option<int> {
    match code {
        Option::Some(c) => Option::Some(c as int),
        Option::None => Option::None,
    }
}

/// Serializes one iteration record for the append-only log.
pub fn format_log_record(record: &IterationRecord) -> (r: Vec<u8>)
    ensures
        r@ == spec_log_record(
            record.iteration as int,
            record.timestamp as int,
            record.stdout@,
            record.stderr@,
            opt_code_view(record.code),
        ),
{
    let mut out: Vec<u8> = Vec::new();
    let mut header = String::from_str("[iteration ");
    let iter_digits = u32_to_string(record.iteration);
    header.append(iter_digits.as_str());
    header.append("] ");
    let ts_digits = u64_to_string(record.timestamp);
    header.append(ts_digits.as_str());
    header.append("\n");
    proof {
        assert(header@ =~= "[iteration "@ + spec_udecimal(record.iteration as int) + "] "@
            + spec_udecimal(record.timestamp as int) + "\n"@);
    }
    append_str_bytes(&mut out, header.as_str());
    if record.stdout.len() > 0 {
        append_str_bytes(&mut out, "\n[stdout]\n");
        append_bytes(&mut out, &record.stdout);
    }
    if record.stderr.len() > 0 {
        append_str_bytes(&mut out, "\n[stderr]\n");
        append_bytes(&mut out, &record.stderr);
    }
    let mut code_line = String::from_str("\n[exit-code] ");
    let code_text = exit_code_to_string(&record.code);
    code_line.append(code_text.as_str());
    code_line.append("\n");
    proof {
        assert(code_line@ =~= "\n[exit-code] "@ + spec_exit_code_text(opt_code_view(record.code))
            + "\n"@);
    }
    append_str_bytes(&mut out, code_line.as_str());
    append_str_bytes(
        &mut out,
        "\n--------------------------------------------------------------------------------\n",
    );
    proof {
        assert(out@ =~= spec_log_record(
            record.iteration as int,
            record.timestamp as int,
            record.stdout@,
            record.stderr@,
            opt_code_view(record.code),
        ));
    }
    out
}

/// The one-line explanation printed for a stop reason.
pub open spec fn spec_stop_message(reason: StopReason, max_seconds: int) -> Seq<char> {
    match reason {
        StopReason::MaxRuntime => "reached max runtime ("@ + spec_udecimal(max_seconds) + "s)"@,
        StopReason::RunnerTimedOut => "runner timed out"@,
        StopReason::CompletionToken => "completion token detected"@,
        StopReason::MaxIterations => "reached max iterations"@,
    }
}

/// Renders the one-line explanation for a stop reason.
pub fn stop_reason_message(reason: &StopReason, max_seconds: u64) -> (r: String)
    ensures
        r@ == spec_stop_message(*reason, max_seconds as int),
{
    match reason {
        StopReason::MaxRuntime => {
            let mut r = String::from_str("reached max runtime (");
            let digits = u64_to_string(max_seconds);
            r.append(digits.as_str());
            r.append("s)");
            proof {
                assert(r@ =~= "reached max runtime ("@ + spec_udecimal(max_seconds as int)
                    + "s)"@);
            }
            r
        },
        StopReason::RunnerTimedOut => String::from_str("runner timed out"),
        StopReason::CompletionToken => String::from_str("completion token detected"),
        StopReason::MaxIterations => String::from_str("reached max iterations"),
    }
}

/// How the run ends, examining iterations from the 1-based index `i` on:
/// the runtime budget is checked before invoking; a timed-out or failed
/// invocation halts; then a completed invocation is judged by
/// [`evaluate_iteration`]'s order.  `None` when the budget of iterations
/// was zero.
pub open spec fn spec_run_end(cfg: LoopConfig, inputs: Seq<IterationInput>, i: int) -> Option<
    RunEnd,
>
    recommends
        1 <= i,
        cfg.iterations <= inputs.len(),
    decreases cfg.iterations + 1 - i,
{
    if i < 1 || i > cfg.iterations || inputs.len() < i {
        Option::None
    } else {
        let inp = inputs[i - 1];
        if cfg.max_seconds > 0 && inp.elapsed_secs >= cfg.max_seconds {
            Option::Some(RunEnd::Stopped(StopReason::MaxRuntime))
        } else {
            match inp.outcome {
                InvocationOutcome::TimedOut => Option::Some(
                    RunEnd::Stopped(StopReason::RunnerTimedOut),
                ),
                InvocationOutcome::Failed => Option::Some(RunEnd::InvocationFailed),
                InvocationOutcome::Completed(res) => {
                    if !res.success {
                        Option::Some(RunEnd::RunnerFailed(spec_failure_code(res.code)))
                    } else if contains_seq(res.stdout@, encode_utf8(cfg.stop_token@)) {
                        Option::Some(RunEnd::Stopped(StopReason::CompletionToken))
                    } else if i == cfg.iterations {
                        Option::Some(RunEnd::Stopped(StopReason::MaxIterations))
                    } else {
                        spec_run_end(cfg, inputs, i + 1)
                    }
                },
            }
        }
    }
}

/// How many log records the run appends, examining iterations from the
/// 1-based index `i` on: one per completed invocation the loop reaches.
pub open spec fn spec_logged_count(cfg: LoopConfig, inputs: Seq<IterationInput>, i: int) -> int
    recommends
        1 <= i,
        cfg.iterations <= inputs.len(),
    decreases cfg.iterations + 1 - i,
{
    if i < 1 || i > cfg.iterations || inputs.len() < i {
        0
    } else {
        let inp = inputs[i - 1];
        if cfg.max_seconds > 0 && inp.elapsed_secs >= cfg.max_seconds {
            0
        } else {
            match inp.outcome {
                InvocationOutcome::TimedOut => 0,
                InvocationOutcome::Failed => 0,
                InvocationOutcome::Completed(res) => {
                    if res.success && !contains_seq(res.stdout@, encode_utf8(cfg.stop_token@)) && i
                        < cfg.iterations {
                        1 + spec_logged_count(cfg, inputs, i + 1)
                    } else {
                        1
                    }
                },
            }
        }
    }
}

/// A timed-out invocation ends the run with the distinct timeout reason
/// and contributes no log record: never a partial result.
pub proof fn lemma_timeout_is_distinct(cfg: LoopConfig, inputs: Seq<IterationInput>, i: int)
    requires
        1 <= i <= cfg.iterations,
        i <= inputs.len(),
        !(cfg.max_seconds > 0 && inputs[i - 1].elapsed_secs >= cfg.max_seconds),
        inputs[i - 1].outcome is TimedOut,
    ensures
        spec_run_end(cfg, inputs, i) == Some(RunEnd::Stopped(StopReason::RunnerTimedOut)),
        spec_logged_count(cfg, inputs, i) == 0,
{
}

/// The stop-token check is a pure substring test on the captured output:
/// a successful iteration whose output contains the configured token stops
/// the run right there with the completion reason, whatever surrounds the
/// token; one whose output lacks the token never stops the run that way.
pub proof fn lemma_stop_token_decides(cfg: LoopConfig, inputs: Seq<IterationInput>, i: int)
    requires
        1 <= i <= cfg.iterations,
        i <= inputs.len(),
        !(cfg.max_seconds > 0 && inputs[i - 1].elapsed_secs >= cfg.max_seconds),
        inputs[i - 1].outcome matches InvocationOutcome::Completed(res) && res.success,
    ensures
        (inputs[i - 1].outcome matches InvocationOutcome::Completed(res) && contains_seq(
            res.stdout@,
            encode_utf8(cfg.stop_token@),
        )) ==> spec_run_end(cfg, inputs, i) == Some(RunEnd::Stopped(StopReason::CompletionToken)),
        (inputs[i - 1].outcome matches InvocationOutcome::Completed(res) && !contains_seq(
            res.stdout@,
            encode_utf8(cfg.stop_token@),
        )) ==> spec_run_end(cfg, inputs, i) != Some(
            RunEnd::Stopped(StopReason::CompletionToken),
        ) || (exists|j: int|
            #![trigger inputs[j - 1]]
            i < j <= cfg.iterations && j <= inputs.len() && (inputs[j - 1].outcome matches
                InvocationOutcome::Completed(r2) && contains_seq(
                r2.stdout@,
                encode_utf8(cfg.stop_token@),
            ))),
    decreases cfg.iterations + 1 - i,
{
    let inp = inputs[i - 1];
    match inp.outcome {
        InvocationOutcome::Completed(res) => {
            if !contains_seq(res.stdout@, encode_utf8(cfg.stop_token@)) && res.success && i
                < cfg.iterations {
                if spec_run_end(cfg, inputs, i) == Some(
                    RunEnd::Stopped(StopReason::CompletionToken),
                ) {
                    lemma_token_stop_has_witness(cfg, inputs, i + 1);
                }
            }
        },
        _ => {},
    }
}

/// A run that stopped on the completion token did so because some reached
/// iteration's completed output held the token.
proof fn lemma_token_stop_has_witness(cfg: LoopConfig, inputs: Seq<IterationInput>, i: int)
    requires
        1 <= i,
        spec_run_end(cfg, inputs, i) == Some(RunEnd::Stopped(StopReason::CompletionToken)),
    ensures
        exists|j: int|
            #![trigger inputs[j - 1]]
            i <= j <= cfg.iterations && j <= inputs.len() && (inputs[j - 1].outcome matches
                InvocationOutcome::Completed(r2) && contains_seq(
                r2.stdout@,
                encode_utf8(cfg.stop_token@),
            )),
    decreases cfg.iterations + 1 - i,
{
    let inp = inputs[i - 1];
    match inp.outcome {
        InvocationOutcome::Completed(res) => {
            if contains_seq(res.stdout@, encode_utf8(cfg.stop_token@)) && res.success && !(
            cfg.max_seconds > 0 && inp.elapsed_secs >= cfg.max_seconds) {
                assert(i <= cfg.iterations && i <= inputs.len());
            } else {
                lemma_token_stop_has_witness(cfg, inputs, i + 1);
            }
        },
        _ => {
            lemma_token_stop_has_witness(cfg, inputs, i + 1);
        },
    }
}

/// One log record agrees with the observation of the iteration it records:
/// the `k`-th record (0-based) carries iteration number `k + 1`, that
/// iteration's timestamp, and the streams and code of its completed
/// invocation.
pub open spec fn record_matches(r: IterationRecord, k: int, inputs: Seq<IterationInput>) -> bool {
    &&& r.iteration == k + 1
    &&& 0 <= k < inputs.len()
    &&& r.timestamp == inputs[k].timestamp
    &&& inputs[k].outcome matches InvocationOutcome::Completed(res) && r.stdout@ == res.stdout@
        && r.stderr@ == res.stderr@ && r.code == res.code
}

/// Iteration numbering in the log is 1-based and contiguous, and each
/// record reflects its iteration's completed invocation.
pub open spec fn records_match(records: Seq<IterationRecord>, inputs: Seq<IterationInput>) -> bool {
    forall|k: int| 0 <= k < records.len() ==> record_matches(#[trigger] records[k], k, inputs)
}

/// A whole run of the loop: its log records and how it ended.
pub struct LoopRun {
    /// The records appended to the log, in order.
    pub records: Vec<IterationRecord>,
    /// How the run ended; absent only with a zero iteration budget.
    pub end: Option<RunEnd>,
}

/// Drives the whole loop over the given per-iteration observations:
/// iteration numbering in the log is 1-based and contiguous, records appear
/// exactly for the completed invocations the loop reaches (and only with
/// logging enabled), and the run ends as [`spec_run_end`] says.
pub fn drive_loop(cfg: &LoopConfig, inputs: &Vec<IterationInput>) -> (run: LoopRun)
    requires
        cfg.iterations <= inputs@.len(),
    ensures
        run.end == spec_run_end(*cfg, inputs@, 1),
        cfg.log_enabled ==> run.records@.len() == spec_logged_count(*cfg, inputs@, 1),
        !cfg.log_enabled ==> run.records@.len() == 0,
        records_match(run.records@, inputs@),
{
    let mut records: Vec<IterationRecord> = Vec::new();
    let mut i: u32 = 1;
    let mut end: Option<RunEnd> = Option::None;
    while i <= cfg.iterations
        invariant_except_break
            1 <= i <= cfg.iterations as int + 1,
            cfg.iterations <= inputs@.len(),
            end is None,
            spec_run_end(*cfg, inputs@, 1) == spec_run_end(*cfg, inputs@, i as int),
            spec_logged_count(*cfg, inputs@, 1) == (if cfg.log_enabled {
                records@.len() as int
            } else {
                i - 1
            }) + spec_logged_count(*cfg, inputs@, i as int),
            cfg.log_enabled ==> records@.len() == i - 1,
            !cfg.log_enabled ==> records@.len() == 0,
            records_match(records@, inputs@),
        ensures
            end == spec_run_end(*cfg, inputs@, 1),
            cfg.log_enabled ==> records@.len() == spec_logged_count(*cfg, inputs@, 1),
            !cfg.log_enabled ==> records@.len() == 0,
            records_match(records@, inputs@),
        decreases cfg.iterations as int + 1 - i,
    {
        let inp = &inputs[(i - 1) as usize];
        if runtime_exceeded(cfg, inp.elapsed_secs) {
            end = Option::Some(RunEnd::Stopped(StopReason::MaxRuntime));
            break;
        }
        match &inp.outcome {
            InvocationOutcome::TimedOut => {
                end = Option::Some(RunEnd::Stopped(StopReason::RunnerTimedOut));
                break;
            },
            InvocationOutcome::Failed => {
                end = Option::Some(RunEnd::InvocationFailed);
                break;
            },
            InvocationOutcome::Completed(res) => {
                if cfg.log_enabled {
                    let record = make_record(i, inp.timestamp, res);
                    let ghost pre = records@;
                    records.push(record);
                    proof {
                        assert(forall|k: int| 0 <= k < pre.len() ==> records@[k] == pre[k]);
                        assert(records@[pre.len() as int] == record);
                        assert(record_matches(record, pre.len() as int, inputs@));
                    }
                }
                let outcome = evaluate_iteration(cfg, i, res);
                match outcome {
                    LoopOutcome::Continue => {
                        i = i + 1;
                    },
                    LoopOutcome::Stop(reason) => {
                        end = Option::Some(RunEnd::Stopped(reason));
                        break;
                    },
                    LoopOutcome::Fatal(code) => {
                        end = Option::Some(RunEnd::RunnerFailed(code));
                        break;
                    },
                }
            },
        }
    }
    LoopRun { records, end }
}

} // verus!
