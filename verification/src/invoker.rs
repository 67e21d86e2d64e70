//! Building the exact command line for each agent backend.  One backend
//! (`codex`) reads the prompt from its input stream and writes its final
//! message to a side-channel file; one delegates to a separate runtime
//! (`uv run python`); the generic fallback only knows a prompt flag and
//! passes the prompt as an argument value.

use vstd::prelude::*;
use vstd::string::StrSliceExecFns;
use vstd::string::StringExecFns;
use crate::runner::InvocationRequest;
use crate::runner::RalphError;
use crate::text::concat_strs;
use crate::text::spec_trim;
use crate::text::lemma_views_push;
use crate::text::push_str_item;
use crate::text::push_string_item;
use crate::text::str_eq;
use crate::text::views_of;
use crate::text::trim_string;

verus! {

/// The view of an optional string slice.
pub open spec fn opt_view(o: Option<&str>) -> Option<Seq<char>> {
    match o {
        Option::Some(s) => Option::Some(s@),
        Option::None => Option::None,
    }
}

fn push_all(args: &mut Vec<String>, extra: &Vec<String>)
    ensures
        views_of(final(args)@) == views_of(old(args)@) + views_of(extra@),
{
    let mut i: usize = 0;
    proof {
        assert(views_of(args@) =~= views_of(args@) + views_of(extra@).subrange(0, 0));
    }
    while i < extra.len()
        invariant
            0 <= i <= extra@.len(),
            views_of(args@) == views_of(old(args)@) + views_of(extra@).subrange(0, i as int),
        decreases extra@.len() - i,
    {
        let item = extra[i].clone();
        proof {
            lemma_views_push(args@, item);
            assert((views_of(old(args)@) + views_of(extra@).subrange(0, i as int)).push(
                views_of(extra@)[i as int],
            ) =~= views_of(old(args)@) + views_of(extra@).subrange(0, i + 1));
        }
        args.push(item);
        i = i + 1;
    }
    proof {
        assert(views_of(extra@).subrange(0, extra@.len() as int) =~= views_of(extra@));
    }
}

/// Whether `needle` appears verbatim among `args`.
pub fn has_arg(args: &Vec<String>, needle: &str) -> (r: bool)
    ensures
        r == exists|i: int| 0 <= i < args@.len() && args@[i]@ == needle@,
{
    let mut i: usize = 0;
    while i < args.len()
        invariant
            0 <= i <= args@.len(),
            forall|k: int| 0 <= k < i ==> args@[k]@ != needle@,
        decreases args@.len() - i,
    {
        if str_eq(args[i].as_str(), needle) {
            return true;
        }
        i = i + 1;
    }
    false
}

/// Fails fast when the runner executable was not located on the search path.
pub fn ensure_runner(runner: &str, found: bool) -> (r: Result<(), RalphError>)
    ensures
        r is Ok <==> found,
        !found ==> (r matches Err(RalphError::RunnerNotFound(n)) && n@ == runner@),
{
    if found {
        Result::Ok(())
    } else {
        Result::Err(RalphError::RunnerNotFound(String::from_str(runner)))
    }
}

/// The argument list handed to the `codex` backend.
pub open spec fn spec_codex_args(
    model: Seq<char>,
    effort: Seq<char>,
    specialization: Option<Seq<char>>,
    full_auto: bool,
    yolo: bool,
    resume_last: bool,
    resume_id: Option<Seq<char>>,
    runner_args: Seq<Seq<char>>,
    codex_json: bool,
    output_path: Seq<char>,
) -> Seq<Seq<char>> {
    (if model.len() > 0 {
        seq!["--model"@, model]
    } else {
        Seq::empty()
    }) + (if effort.len() > 0 {
        seq!["-c"@, "model_reasoning_effort="@ + effort]
    } else {
        Seq::empty()
    }) + (match specialization {
        Option::Some(s) => if spec_trim(s).len() > 0 {
            seq!["-c"@, "specialization="@ + s]
        } else {
            Seq::empty()
        },
        Option::None => Seq::empty(),
    }) + (if yolo {
        seq!["--dangerously-bypass-approvals-and-sandbox"@]
    } else if full_auto {
        seq!["--full-auto"@]
    } else {
        Seq::empty()
    }) + seq!["exec"@] + (if codex_json {
        seq!["--json"@]
    } else {
        Seq::empty()
    }) + seq!["--output-last-message"@, output_path] + (if resume_last || resume_id is Some {
        seq!["resume"@] + (match resume_id {
            Option::Some(id) => seq![id],
            Option::None => seq!["--last"@],
        })
    } else {
        Seq::empty()
    }) + runner_args + seq!["-"@]
}

/// Builds the `codex` invocation: prompt on the input stream, final message
/// to the side-channel file at `output_path`, raw output captured only when
/// the structured event stream is off.
#[verifier::rlimit(60)]
pub fn build_codex_invocation(
    prompt: &str,
    model: &str,
    effort: &str,
    runner_args: &Vec<String>,
    full_auto: bool,
    yolo: bool,
    resume_last: bool,
    resume_id: Option<&str>,
    specialization: Option<&str>,
    codex_json: bool,
    output_path: &str,
    timeout_secs: u64,
) -> (r: InvocationRequest)
    ensures
        r.program@ == "codex"@,
        views_of(r.args@) == spec_codex_args(
            model@,
            effort@,
            opt_view(specialization),
            full_auto,
            yolo,
            resume_last,
            opt_view(resume_id),
            views_of(runner_args@),
            codex_json,
            output_path@,
        ),
        r.input matches Some(p) && p@ == prompt@,
        r.timeout_secs == timeout_secs,
        r.capture_stdout == !codex_json,
        r.capture_stderr,
{
    let mut args: Vec<String> = Vec::new();
    if !model.is_empty() {
        push_str_item(&mut args, "--model");
        push_str_item(&mut args, model);
    }
    if !effort.is_empty() {
        push_str_item(&mut args, "-c");
        push_string_item(&mut args, concat_strs("model_reasoning_effort=", effort));
    }
    match specialization {
        Option::Some(s) => {
            let trimmed = trim_string(s);
            if !trimmed.as_str().is_empty() {
                push_str_item(&mut args, "-c");
                push_string_item(&mut args, concat_strs("specialization=", s));
            }
        },
        Option::None => {},
    }
    if yolo {
        push_str_item(&mut args, "--dangerously-bypass-approvals-and-sandbox");
    } else if full_auto {
        push_str_item(&mut args, "--full-auto");
    }
    push_str_item(&mut args, "exec");
    if codex_json {
        push_str_item(&mut args, "--json");
    }
    push_str_item(&mut args, "--output-last-message");
    push_str_item(&mut args, output_path);
    if resume_last || resume_id.is_some() {
        push_str_item(&mut args, "resume");
        match resume_id {
            Option::Some(id) => push_str_item(&mut args, id),
            Option::None => push_str_item(&mut args, "--last"),
        }
    }
    push_all(&mut args, runner_args);
    push_str_item(&mut args, "-");
    proof {
        assert(views_of(args@) =~= spec_codex_args(
            model@,
            effort@,
            opt_view(specialization),
            full_auto,
            yolo,
            resume_last,
            opt_view(resume_id),
            views_of(runner_args@),
            codex_json,
            output_path@,
        ));
    }
    InvocationRequest {
        program: String::from_str("codex"),
        args,
        input: Option::Some(String::from_str(prompt)),
        timeout_secs,
        capture_stdout: !codex_json,
        capture_stderr: true,
    }
}

/// The argument list handed to a generic backend.
pub open spec fn spec_generic_args(
    model: Seq<char>,
    prompt_flag: Seq<char>,
    prompt: Seq<char>,
    runner_args: Seq<Seq<char>>,
) -> Seq<Seq<char>> {
    (if model.len() > 0 {
        seq!["--model"@, model]
    } else {
        Seq::empty()
    }) + runner_args + seq![prompt_flag, prompt]
}

/// Builds a generic backend invocation: the prompt travels as the value of
/// the configured prompt flag, not on the input stream.
pub fn build_generic_invocation(
    runner: &str,
    model: &str,
    prompt_flag: &str,
    prompt: &str,
    runner_args: &Vec<String>,
    timeout_secs: u64,
) -> (r: InvocationRequest)
    ensures
        r.program@ == runner@,
        views_of(r.args@) == spec_generic_args(
            model@,
            prompt_flag@,
            prompt@,
            views_of(runner_args@),
        ),
        r.input is None,
        r.timeout_secs == timeout_secs,
        r.capture_stdout,
        r.capture_stderr,
{
    let mut args: Vec<String> = Vec::new();
    if !model.is_empty() {
        push_str_item(&mut args, "--model");
        push_str_item(&mut args, model);
    }
    push_all(&mut args, runner_args);
    push_str_item(&mut args, prompt_flag);
    push_str_item(&mut args, prompt);
    proof {
        assert(views_of(args@) =~= spec_generic_args(
            model@,
            prompt_flag@,
            prompt@,
            views_of(runner_args@),
        ));
    }
    InvocationRequest {
        program: String::from_str(runner),
        args,
        input: Option::None,
        timeout_secs,
        capture_stdout: true,
        capture_stderr: true,
    }
}

/// The argument list handed to the delegated-runtime backend.
pub open spec fn spec_sdk_args(
    prompt_path: Seq<char>,
    model: Seq<char>,
    effort: Seq<char>,
    specialization: Option<Seq<char>>,
    max_turns: int,
) -> Seq<Seq<char>> {
    seq![
        "run"@,
        "python"@,
        "scripts/ralph_agent.py"@,
        "--prompt-file"@,
        prompt_path,
        "--model"@,
        model,
        "--max-turns"@,
        crate::fmt::spec_udecimal(max_turns),
        "--reasoning-effort"@,
        effort,
    ] + (match specialization {
        Option::Some(s) => if spec_trim(s).len() > 0 {
            seq!["--specialization"@, s]
        } else {
            Seq::empty()
        },
        Option::None => Seq::empty(),
    })
}

/// Builds the delegated-runtime invocation: the prompt is read from a file
/// whose path travels as an argument.
pub fn build_sdk_invocation(
    prompt_path: &str,
    model: &str,
    effort: &str,
    specialization: Option<&str>,
    max_turns: u32,
    timeout_secs: u64,
) -> (r: InvocationRequest)
    ensures
        r.program@ == "uv"@,
        views_of(r.args@) == spec_sdk_args(
            prompt_path@,
            model@,
            effort@,
            opt_view(specialization),
            max_turns as int,
        ),
        r.input is None,
        r.timeout_secs == timeout_secs,
        r.capture_stdout,
        r.capture_stderr,
{
    let mut args: Vec<String> = Vec::new();
    push_str_item(&mut args, "run");
    push_str_item(&mut args, "python");
    push_str_item(&mut args, "scripts/ralph_agent.py");
    push_str_item(&mut args, "--prompt-file");
    push_str_item(&mut args, prompt_path);
    push_str_item(&mut args, "--model");
    push_str_item(&mut args, model);
    push_str_item(&mut args, "--max-turns");
    push_string_item(&mut args, crate::fmt::u32_to_string(max_turns));
    push_str_item(&mut args, "--reasoning-effort");
    push_str_item(&mut args, effort);
    match specialization {
        Option::Some(s) => {
            let trimmed = trim_string(s);
            if !trimmed.as_str().is_empty() {
                push_str_item(&mut args, "--specialization");
                push_str_item(&mut args, s);
            }
        },
        Option::None => {},
    }
    proof {
        assert(views_of(args@) =~= spec_sdk_args(
            prompt_path@,
            model@,
            effort@,
            opt_view(specialization),
            max_turns as int,
        ));
    }
    InvocationRequest {
        program: String::from_str("uv"),
        args,
        input: Option::None,
        timeout_secs,
        capture_stdout: true,
        capture_stderr: true,
    }
}

/// The name of a scratch file: the purpose prefix, a timestamp, and a text
/// extension.
pub fn temp_file_name(prefix: &str, timestamp_millis: u64) -> (r: String)
    ensures
        r@ == prefix@ + "-"@ + crate::fmt::spec_udecimal(timestamp_millis as int) + ".txt"@,
{
    let mut r = String::from_str(prefix);
    r.append("-");
    let digits = crate::fmt::u64_to_string(timestamp_millis);
    r.append(digits.as_str());
    r.append(".txt");
    proof {
        assert(r@ =~= prefix@ + "-"@ + crate::fmt::spec_udecimal(timestamp_millis as int)
            + ".txt"@);
    }
    r
}

/// Replaces captured output with the side-channel final message when that
/// message is present and not blank; otherwise the captured output stands.
pub fn prefer_last_message(stdout: Vec<u8>, side_message: Option<&str>) -> (r: Vec<u8>)
    ensures
        r@ == (match side_message {
            Option::Some(m) => if spec_trim(m@).len() > 0 {
                vstd::string::StringSliceAdditionalSpecFns::spec_bytes(m)
            } else {
                stdout@
            },
            Option::None => stdout@,
        }),
{
    match side_message {
        Option::Some(m) => {
            let trimmed = trim_string(m);
            if !trimmed.as_str().is_empty() {
                m.as_bytes_vec()
            } else {
                stdout
            }
        },
        Option::None => stdout,
    }
}

} // verus!
