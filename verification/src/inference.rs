//! Goal/next-action inference: building the structured-extraction prompt,
//! locating a JSON object inside free-form model output, and reducing it to
//! a typed proposal.  Extraction fails closed: a missing, malformed or
//! incomplete payload yields no proposal, never a partial one.

use vstd::prelude::*;
use vstd::string::StrSliceExecFns;
use vstd::string::StringExecFns;
use crate::config::spec_lines;
use crate::config::split_lines;
use crate::invoker::build_codex_invocation;
use crate::invoker::build_sdk_invocation;
use crate::invoker::opt_view;
use crate::invoker::spec_codex_args;
use crate::invoker::spec_sdk_args;
use crate::json::json_field_present;
use crate::json::json_field_present_of;
use crate::json::json_str_field;
use crate::json::json_str_field_of;
use crate::runner::InvocationRequest;
use crate::text::concat_strs;
use crate::text::ltrim_string;
use crate::text::spec_ltrim;
use crate::text::spec_trim;
use crate::text::str_starts_with;
use crate::text::trim_string;
use crate::text::views_of;

verus! {

/// The index of the first occurrence of `c`, or the length when absent.
pub open spec fn spec_first_char(s: Seq<char>, c: char) -> int
    decreases s.len(),
{
    if s.len() == 0 {
        0
    } else if s[0] == c {
        0
    } else {
        1 + spec_first_char(s.drop_first(), c)
    }
}

/// The index of the last occurrence of `c`, or -1 when absent.
pub open spec fn spec_last_char(s: Seq<char>, c: char) -> int
    decreases s.len(),
{
    if s.len() == 0 {
        -1
    } else if s[s.len() - 1] == c {
        s.len() - 1
    } else {
        spec_last_char(s.drop_last(), c)
    }
}

proof fn lemma_first_char_at(s: Seq<char>, c: char, i: int)
    requires
        0 <= i <= s.len(),
        forall|k: int| 0 <= k < i ==> s[k] != c,
        i < s.len() ==> s[i] == c,
    ensures
        spec_first_char(s, c) == i,
    decreases i,
{
    if i > 0 {
        lemma_first_char_at(s.drop_first(), c, i - 1);
    }
}

proof fn lemma_last_char_at(s: Seq<char>, c: char, j: int)
    requires
        -1 <= j < s.len(),
        forall|k: int| j < k < s.len() ==> s[k] != c,
        j >= 0 ==> s[j] == c,
    ensures
        spec_last_char(s, c) == j,
    decreases s.len(),
{
    if j == s.len() - 1 {
    } else if s.len() > 0 {
        assert(s[s.len() - 1] != c);
        lemma_last_char_at(s.drop_last(), c, j);
    }
}

/// A line that closes or opens a fence: its leading whitespace removed, it
/// begins with three backticks.
pub open spec fn is_fence_line(line: Seq<char>) -> bool {
    spec_ltrim(line).len() >= "```"@.len() && spec_ltrim(line).take("```"@.len() as int) == "```"@
}

/// The fenced body: every line after the opening fence up to the closing
/// fence or the end, each followed by a newline.
pub open spec fn spec_collect_body(lines: Seq<Seq<char>>) -> Seq<char>
    decreases lines.len(),
{
    if lines.len() == 0 {
        Seq::empty()
    } else if is_fence_line(lines[0]) {
        Seq::empty()
    } else {
        lines[0] + "\n"@ + spec_collect_body(lines.drop_first())
    }
}

/// The JSON candidate inside raw model output: the trimmed body of an
/// opening fenced code block when the output starts with one and the body
/// is not blank; otherwise the span from the first `{` to the last `}`,
/// provided both exist in that order.
pub open spec fn spec_extract_json_block(text: Seq<char>) -> Option<Seq<char>> {
    let t = spec_trim(text);
    let fenced = spec_trim(spec_collect_body(spec_lines(t).drop_first()));
    if t.len() >= "```"@.len() && t.take("```"@.len() as int) == "```"@ && fenced.len() > 0 {
        Option::Some(fenced)
    } else {
        let first = spec_first_char(t, '{');
        let last = spec_last_char(t, '}');
        if first < t.len() && last >= 0 && last > first {
            Option::Some(t.subrange(first, last + 1))
        } else {
            Option::None
        }
    }
}

fn fence_line(line: &str) -> (r: bool)
    ensures
        r == is_fence_line(line@),
{
    let lt = ltrim_string(line);
    str_starts_with(lt.as_str(), "```")
}

/// Locates a JSON object inside raw model output, preferring an opening
/// fenced code block, else the span between the first `{` and the last `}`.
pub fn extract_json_block(text: &str) -> (r: Option<String>)
    ensures
        (r is Some) == (spec_extract_json_block(text@) is Some),
        r matches Some(s) ==> (spec_extract_json_block(text@) matches Some(q) && s@ == q),
{
    let trimmed = trim_string(text);
    let t = trimmed.as_str();
    if str_starts_with(t, "```") {
        proof {
            reveal_strlit("```");
            assert(spec_lines(t@).len() >= 1);
        }
        let lines = split_lines(t);
        let ghost lviews = views_of(lines@);
        let mut stop: usize = 1;
        while stop < lines.len() && !fence_line(lines[stop].as_str())
            invariant
                1 <= stop <= lines@.len(),
                lviews == views_of(lines@),
                lviews.len() == lines@.len(),
                forall|k: int| 0 <= k < lines@.len() ==> lviews[k] == lines@[k]@,
                forall|k: int| 1 <= k < stop ==> !is_fence_line(lviews[k]),
            decreases lines@.len() - stop,
        {
            stop = stop + 1;
        }
        let mut body = String::new();
        let mut j: usize = 1;
        while j < stop
            invariant
                1 <= j <= stop,
                stop <= lviews.len(),
                lviews == views_of(lines@),
                lviews.len() == lines@.len(),
                forall|k: int| 0 <= k < lines@.len() ==> lviews[k] == lines@[k]@,
                forall|k: int| 1 <= k < stop ==> !is_fence_line(lviews[k]),
                stop < lviews.len() ==> is_fence_line(lviews[stop as int]),
                spec_collect_body(lviews.skip(1)) == body@ + spec_collect_body(
                    lviews.skip(j as int),
                ),
            decreases stop - j,
        {
            let ghost tail = lviews.skip(j as int);
            let ghost b0 = body@;
            proof {
                assert(tail[0] == lviews[j as int]);
                assert(tail.drop_first() =~= lviews.skip(j + 1));
            }
            body.append(lines[j].as_str());
            body.append("\n");
            proof {
                assert(b0 + (tail[0] + "\n"@ + spec_collect_body(lviews.skip(j + 1))) =~= body@
                    + spec_collect_body(lviews.skip(j + 1)));
            }
            j = j + 1;
        }
        proof {
            if stop < lviews.len() {
                assert(lviews.skip(stop as int)[0] == lviews[stop as int]);
                assert(spec_collect_body(lviews.skip(stop as int)) =~= Seq::<char>::empty());
            } else {
                assert(lviews.skip(stop as int) =~= Seq::<Seq<char>>::empty());
            }
            assert(body@ =~= spec_collect_body(lviews.skip(1)));
            assert(lviews.skip(1) =~= spec_lines(t@).drop_first());
        }
        let bt = trim_string(body.as_str());
        if !bt.as_str().is_empty() {
            return Option::Some(bt);
        }
    }
    let n = t.unicode_len();
    let mut first: usize = 0;
    while first < n && t.get_char(first) != '{'
        invariant
            0 <= first <= n,
            n == t@.len(),
            forall|k: int| 0 <= k < first ==> t@[k] != '{',
        decreases n - first,
    {
        first = first + 1;
    }
    proof {
        lemma_first_char_at(t@, '{', first as int);
    }
    if first == n {
        return Option::None;
    }
    let mut endpos: usize = n;
    while endpos > 0 && t.get_char(endpos - 1) != '}'
        invariant
            0 <= endpos <= n,
            n == t@.len(),
            forall|k: int| endpos <= k < n ==> t@[k] != '}',
        decreases endpos,
    {
        endpos = endpos - 1;
    }
    proof {
        lemma_last_char_at(t@, '}', endpos - 1);
    }
    if endpos == 0 {
        return Option::None;
    }
    let last = endpos - 1;
    if last <= first {
        return Option::None;
    }
    proof {
        assert(t@.subrange(first as int, last + 1) == spec_extract_json_block(text@)->0);
    }
    Option::Some(String::from_str(t.substring_char(first, last + 1)))
}

/// A raw field value reduced to an accepted one: trimmed, and rejected when
/// absent or blank.
pub open spec fn spec_accept_field(v: Option<Seq<char>>) -> Option<Seq<char>> {
    match v {
        Option::Some(s) => if spec_trim(s).len() > 0 {
            Option::Some(spec_trim(s))
        } else {
            Option::None
        },
        Option::None => Option::None,
    }
}

/// Trims a raw field value and rejects it when absent or blank.
pub fn accept_proposal_field(v: Option<String>) -> (r: Option<String>)
    ensures
        (r is Some) == (spec_accept_field(crate::json::opt_string_view(v)) is Some),
        r matches Some(s) ==> (spec_accept_field(crate::json::opt_string_view(v)) matches Some(q)
            && s@ == q),
{
    match v {
        Option::Some(s) => {
            let t = trim_string(s.as_str());
            if t.as_str().is_empty() {
                Option::None
            } else {
                Option::Some(t)
            }
        },
        Option::None => Option::None,
    }
}

/// The goal field of a candidate document: the long-standing name wins when
/// present; the short name is accepted for backward compatibility.
pub open spec fn spec_goal_field(candidate: Seq<char>) -> Option<Seq<char>> {
    if json_field_present_of(candidate, "ultimate_goal"@) {
        json_str_field_of(candidate, "ultimate_goal"@)
    } else {
        json_str_field_of(candidate, "goal"@)
    }
}

/// The proposal extracted from raw model output: both required fields,
/// trimmed; absent whenever the JSON object is missing or malformed or
/// either field resolves empty.
pub open spec fn spec_parse_goal_payload(output: Seq<char>) -> Option<(Seq<char>, Seq<char>)> {
    match spec_extract_json_block(output) {
        Option::Some(c) => {
            let g = spec_accept_field(spec_goal_field(c));
            let n = spec_accept_field(json_str_field_of(c, "next_action"@));
            if g is Some && n is Some {
                Option::Some((g->0, n->0))
            } else {
                Option::None
            }
        },
        Option::None => Option::None,
    }
}

/// Extracts a goal/next-action proposal from raw model output, failing
/// closed on any missing or malformed part.
pub fn parse_goal_payload(output: &str) -> (r: Option<(String, String)>)
    ensures
        (r is Some) == (spec_parse_goal_payload(output@) is Some),
        r matches Some(p) ==> (spec_parse_goal_payload(output@) matches Some(q) && p.0@ == q.0
            && p.1@ == q.1),
{
    let candidate = match extract_json_block(output) {
        Option::Some(c) => c,
        Option::None => {
            return Option::None;
        },
    };
    let goal_raw = if json_field_present(candidate.as_str(), "ultimate_goal") {
        json_str_field(candidate.as_str(), "ultimate_goal")
    } else {
        json_str_field(candidate.as_str(), "goal")
    };
    let goal = match accept_proposal_field(goal_raw) {
        Option::Some(g) => g,
        Option::None => {
            return Option::None;
        },
    };
    let next = match accept_proposal_field(json_str_field(candidate.as_str(), "next_action")) {
        Option::Some(n) => n,
        Option::None => {
            return Option::None;
        },
    };
    Option::Some((goal, next))
}

/// Extraction is deterministic: two runs over the same characters yield
/// the same proposal.
pub proof fn lemma_parse_goal_payload_deterministic(a: Seq<char>, b: Seq<char>)
    requires
        a == b,
    ensures
        spec_parse_goal_payload(a) == spec_parse_goal_payload(b),
{
}

/// Extraction fails closed: an output with no brace and no fenced block
/// never yields a proposal, and a proposal is never partial — both of its
/// fields are non-empty.
pub proof fn lemma_parse_goal_payload_total(output: Seq<char>)
    ensures
        (forall|k: int| 0 <= k < spec_trim(output).len() ==> spec_trim(output)[k] != '{')
            && !(spec_trim(output).len() >= "```"@.len() && spec_trim(output).take(
            "```"@.len() as int,
        ) == "```"@) ==> spec_parse_goal_payload(output) is None,
        spec_parse_goal_payload(output) matches Some(p) ==> p.0.len() > 0 && p.1.len() > 0,
{
    let t = spec_trim(output);
    if (forall|k: int| 0 <= k < t.len() ==> t[k] != '{') && !(t.len() >= "```"@.len() && t.take(
        "```"@.len() as int,
    ) == "```"@) {
        lemma_first_char_at(t, '{', t.len() as int);
        assert(spec_first_char(t, '{') == t.len());
        assert(spec_extract_json_block(output) is None);
    }
}

/// The view of an optional proposal pair.
pub open spec fn opt_pair_view(p: Option<&(String, String)>) -> Option<(Seq<char>, Seq<char>)> {
    match p {
        Option::Some(q) => Option::Some((q.0@, q.1@)),
        Option::None => Option::None,
    }
}

/// The deterministic structured-extraction prompt: the fixed instruction,
/// the context, then the previous proposal and the human feedback when
/// present.
pub open spec fn spec_inference_prompt(
    context: Seq<char>,
    feedback: Option<Seq<char>>,
    previous: Option<(Seq<char>, Seq<char>)>,
) -> Seq<char> {
    let base =
        "You are a repo analyst. Infer the ultimate project goal and the next concrete action.\nUltimate goal is a stable, long-horizon objective; next action is immediate and concrete.\nPrioritize README/AGENTS/PRD/Linear for the ultimate goal; ignore uncommitted diffs for the goal.\nFor next action, use worktree TODOs, git status/diff, and progress log; keep it small and concrete.\nIf Linear context is present, only use entries that match the repo name or purpose.\nReturn ONLY JSON: {\"ultimate_goal\":\"...\",\"next_action\":\"...\"}.\nRules: both are single sentences, no markdown, no extra keys.\nThink as long as needed before answering; output must be ONLY the JSON.\n\nContext:\n"@
        + context;
    let with_prev = match previous {
        Option::Some(p) => base + "\n\nPrevious proposal:\n- ultimate_goal: "@ + p.0
            + "\n- next_action: "@ + p.1 + "\n"@,
        Option::None => base,
    };
    match feedback {
        Option::Some(f) => with_prev + "\n\nUser feedback:\n"@ + f + "\n"@,
        Option::None => with_prev,
    }
}

/// Builds the structured-extraction prompt for one inference call.
pub fn build_inference_prompt(
    context: &str,
    feedback: Option<&str>,
    previous: Option<&(String, String)>,
) -> (r: String)
    ensures
        r@ == spec_inference_prompt(context@, opt_view(feedback), opt_pair_view(previous)),
{
    let mut prompt = String::from_str(
        "You are a repo analyst. Infer the ultimate project goal and the next concrete action.\nUltimate goal is a stable, long-horizon objective; next action is immediate and concrete.\nPrioritize README/AGENTS/PRD/Linear for the ultimate goal; ignore uncommitted diffs for the goal.\nFor next action, use worktree TODOs, git status/diff, and progress log; keep it small and concrete.\nIf Linear context is present, only use entries that match the repo name or purpose.\nReturn ONLY JSON: {\"ultimate_goal\":\"...\",\"next_action\":\"...\"}.\nRules: both are single sentences, no markdown, no extra keys.\nThink as long as needed before answering; output must be ONLY the JSON.\n\nContext:\n",
    );
    prompt.append(context);
    match previous {
        Option::Some(p) => {
            prompt.append("\n\nPrevious proposal:\n- ultimate_goal: ");
            prompt.append(p.0.as_str());
            prompt.append("\n- next_action: ");
            prompt.append(p.1.as_str());
            prompt.append("\n");
        },
        Option::None => {},
    }
    match feedback {
        Option::Some(f) => {
            prompt.append("\n\nUser feedback:\n");
            prompt.append(f);
            prompt.append("\n");
        },
        Option::None => {},
    }
    proof {
        assert(prompt@ =~= spec_inference_prompt(
            context@,
            opt_view(feedback),
            opt_pair_view(previous),
        ));
    }
    prompt
}

/// Builds the single `codex` invocation that performs one inference call;
/// the caller runs it and hands its output to [`parse_goal_payload`].
pub fn infer_goal_with_codex(
    context: &str,
    model: &str,
    effort: &str,
    yolo: bool,
    specialization: Option<&str>,
    feedback: Option<&str>,
    previous: Option<&(String, String)>,
    runner_timeout_secs: u64,
    codex_json: bool,
    output_path: &str,
) -> (r: InvocationRequest)
    ensures
        r.program@ == "codex"@,
        r.input matches Some(p) && p@ == spec_inference_prompt(
            context@,
            opt_view(feedback),
            opt_pair_view(previous),
        ),
        crate::text::views_of(r.args@) == spec_codex_args(
            model@,
            effort@,
            opt_view(specialization),
            false,
            yolo,
            false,
            Option::None,
            Seq::empty(),
            codex_json,
            output_path@,
        ),
        r.timeout_secs == runner_timeout_secs,
        r.capture_stdout == !codex_json,
        r.capture_stderr,
{
    let prompt = build_inference_prompt(context, feedback, previous);
    let no_args: Vec<String> = Vec::new();
    proof {
        assert(crate::text::views_of(no_args@) =~= Seq::<Seq<char>>::empty());
    }
    build_codex_invocation(
        prompt.as_str(),
        model,
        effort,
        &no_args,
        false,
        yolo,
        false,
        Option::None,
        specialization,
        codex_json,
        output_path,
        runner_timeout_secs,
    )
}

/// Builds the delegated-runtime invocation that performs one inference
/// call, returning the prompt to be written at `prompt_path` alongside the
/// invocation; the caller runs it and hands its output to
/// [`parse_goal_payload`].
pub fn infer_goal_with_sdk(
    context: &str,
    model: &str,
    effort: &str,
    specialization: Option<&str>,
    feedback: Option<&str>,
    previous: Option<&(String, String)>,
    sdk_max_turns: u32,
    runner_timeout_secs: u64,
    prompt_path: &str,
) -> (r: (String, InvocationRequest))
    ensures
        r.0@ == spec_inference_prompt(context@, opt_view(feedback), opt_pair_view(previous)),
        r.1.program@ == "uv"@,
        crate::text::views_of(r.1.args@) == spec_sdk_args(
            prompt_path@,
            model@,
            effort@,
            opt_view(specialization),
            sdk_max_turns as int,
        ),
        r.1.input is None,
        r.1.timeout_secs == runner_timeout_secs,
        r.1.capture_stdout,
        r.1.capture_stderr,
{
    let prompt = build_inference_prompt(context, feedback, previous);
    let request = build_sdk_invocation(
        prompt_path,
        model,
        effort,
        specialization,
        sdk_max_turns,
        runner_timeout_secs,
    );
    (prompt, request)
}

} // verus!
