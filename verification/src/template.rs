//! The prompt template: its default content, placeholder substitution when
//! it is first created, and rendering the working prompt with `@`-prefixed
//! file-path references.

use vstd::prelude::*;
use vstd::string::StrSliceExecFns;
use vstd::string::StringExecFns;
use crate::text::concat_strs;
use crate::text::replace_all;
use crate::text::spec_replace;

verus! {

/// The default prompt template text, with placeholders for the goal, the
/// next action, and the two file-path references.
pub open spec fn spec_default_template() -> Seq<char> {
    "# [Ralph] {{GOAL}}\n\n## Summary\nUse this prompt like a GitHub issue. Keep scope tight and actionable.\n\n## Ultimate Goal (North Star)\n{{GOAL}}\n\n## Proposed Next Action (Confirm Alignment)\n{{NEXT_ACTION}}\n\n## Context\n- Repo context is provided below.\n- Use MCP servers if available (especially `openaiDeveloperDocs` and `linear`).\n\n## Scope\n- In scope:\n- Out of scope:\n\n## Acceptance Criteria\n- [ ] ...\n\n## Tasks\n- [ ] ...\n\n## Risks / Open Questions\n- ...\n\n## Links\n- Linear project/doc links if available\n\nTasks:\n1) Draft or update the PRD at {{PRD}} with goal, scope, milestones, risks.\n2) Update the progress log at {{PROGRESS}} with status and next steps.\n3) If Linear is available, create or link a project + initial issues that mirror\n   the PRD and add the repo link.\n4) Start the first actionable task.\n"@
}

/// The default prompt template text.
pub fn default_template_content() -> (r: String)
    ensures
        r@ == spec_default_template(),
{
    String::from_str(
        "# [Ralph] {{GOAL}}\n\n## Summary\nUse this prompt like a GitHub issue. Keep scope tight and actionable.\n\n## Ultimate Goal (North Star)\n{{GOAL}}\n\n## Proposed Next Action (Confirm Alignment)\n{{NEXT_ACTION}}\n\n## Context\n- Repo context is provided below.\n- Use MCP servers if available (especially `openaiDeveloperDocs` and `linear`).\n\n## Scope\n- In scope:\n- Out of scope:\n\n## Acceptance Criteria\n- [ ] ...\n\n## Tasks\n- [ ] ...\n\n## Risks / Open Questions\n- ...\n\n## Links\n- Linear project/doc links if available\n\nTasks:\n1) Draft or update the PRD at {{PRD}} with goal, scope, milestones, risks.\n2) Update the progress log at {{PROGRESS}} with status and next steps.\n3) If Linear is available, create or link a project + initial issues that mirror\n   the PRD and add the repo link.\n4) Start the first actionable task.\n",
    )
}

/// The working prompt: the template text with both placeholders replaced by
/// `@`-prefixed path references.
pub open spec fn spec_render_prompt(
    template: Seq<char>,
    prd_path: Seq<char>,
    progress_path: Seq<char>,
) -> Seq<char> {
    spec_replace(
        spec_replace(template, "{{PRD}}"@, "@"@ + prd_path),
        "{{PROGRESS}}"@,
        "@"@ + progress_path,
    )
}

/// Renders the working prompt from template text and the two file paths.
pub fn render_prompt(template: &str, prd_path: &str, progress_path: &str) -> (r: String)
    ensures
        r@ == spec_render_prompt(template@, prd_path@, progress_path@),
{
    proof {
        reveal_strlit("{{PRD}}");
        reveal_strlit("{{PROGRESS}}");
    }
    let prd_ref = concat_strs("@", prd_path);
    let progress_ref = concat_strs("@", progress_path);
    let step = replace_all(template, "{{PRD}}", prd_ref.as_str());
    replace_all(step.as_str(), "{{PROGRESS}}", progress_ref.as_str())
}

/// The goal line substituted into a fresh template.
pub open spec fn spec_goal_text(goal: Seq<char>) -> Seq<char> {
    if goal.len() == 0 {
        "Goal: (unspecified) — infer from repo"@
    } else {
        "Goal: "@ + goal
    }
}

/// The next-action line substituted into a fresh template.
pub open spec fn spec_next_action_text(next_action: Seq<char>) -> Seq<char> {
    if next_action.len() == 0 {
        "Next action: (unspecified)"@
    } else {
        next_action
    }
}

/// The content a fresh template file receives: the default template with
/// the resolved goal and next-action text substituted.
pub open spec fn spec_materialized_template(goal: Seq<char>, next_action: Seq<char>) -> Seq<char> {
    spec_replace(
        spec_replace(spec_default_template(), "{{GOAL}}"@, spec_goal_text(goal)),
        "{{NEXT_ACTION}}"@,
        spec_next_action_text(next_action),
    )
}

/// Builds the content of a fresh template file from the resolved goal and
/// next action; either may be empty.
pub fn materialize_template(goal: &str, next_action: &str) -> (r: String)
    ensures
        r@ == spec_materialized_template(goal@, next_action@),
{
    proof {
        reveal_strlit("{{GOAL}}");
        reveal_strlit("{{NEXT_ACTION}}");
    }
    let goal_text = if goal.is_empty() {
        String::from_str("Goal: (unspecified) — infer from repo")
    } else {
        concat_strs("Goal: ", goal)
    };
    let next_text = if next_action.is_empty() {
        String::from_str("Next action: (unspecified)")
    } else {
        String::from_str(next_action)
    };
    let template = default_template_content();
    let step = replace_all(template.as_str(), "{{GOAL}}", goal_text.as_str());
    replace_all(step.as_str(), "{{NEXT_ACTION}}", next_text.as_str())
}

/// The content a fresh requirement document receives.
pub open spec fn spec_initial_prd(
    repo_name: Seq<char>,
    goal: Seq<char>,
    next_action: Seq<char>,
) -> Seq<char> {
    let goal_part = if goal.len() == 0 {
        "# "@ + repo_name + " PRD\n\nGoal: (unspecified)\n"@
    } else {
        "# "@ + repo_name + " PRD\n\nGoal: "@ + goal + "\n"@
    };
    let next_part = if next_action.len() == 0 {
        "Next action: (unspecified)\n"@
    } else {
        "Next action: "@ + next_action + "\n"@
    };
    goal_part + "\n"@ + next_part
}

/// Builds the content of a fresh requirement document.
pub fn initial_prd_content(repo_name: &str, goal: &str, next_action: &str) -> (r: String)
    ensures
        r@ == spec_initial_prd(repo_name@, goal@, next_action@),
{
    let mut r = String::from_str("# ");
    r.append(repo_name);
    if goal.is_empty() {
        r.append(" PRD\n\nGoal: (unspecified)\n");
    } else {
        r.append(" PRD\n\nGoal: ");
        r.append(goal);
        r.append("\n");
    }
    r.append("\n");
    if next_action.is_empty() {
        r.append("Next action: (unspecified)\n");
    } else {
        r.append("Next action: ");
        r.append(next_action);
        r.append("\n");
    }
    proof {
        assert(r@ =~= spec_initial_prd(repo_name@, goal@, next_action@));
    }
    r
}

/// The content a fresh progress log receives.
pub open spec fn spec_initial_progress(repo_name: Seq<char>) -> Seq<char> {
    "Initialized Ralph progress log for "@ + repo_name + ".\n"@
}

/// Builds the content of a fresh progress log.
pub fn initial_progress_content(repo_name: &str) -> (r: String)
    ensures
        r@ == spec_initial_progress(repo_name@),
{
    let mut r = String::from_str("Initialized Ralph progress log for ");
    r.append(repo_name);
    r.append(".\n");
    proof {
        assert(r@ =~= spec_initial_progress(repo_name@));
    }
    r
}

/// Prepends extra instruction text to the prompt when it is present and not
/// blank.
pub open spec fn spec_with_extra(prompt: Seq<char>, extra: Option<Seq<char>>) -> Seq<char> {
    match extra {
        Option::Some(e) => if crate::text::spec_trim(e).len() > 0 {
            e + "\n\n"@ + prompt
        } else {
            prompt
        },
        Option::None => prompt,
    }
}

/// Prepends extra instruction text to the working prompt when configured.
pub fn with_extra(prompt: String, extra: Option<&str>) -> (r: String)
    ensures
        r@ == spec_with_extra(prompt@, crate::invoker::opt_view(extra)),
{
    match extra {
        Option::Some(e) => {
            let t = crate::text::trim_string(e);
            if !t.as_str().is_empty() {
                let mut r = String::from_str(e);
                r.append("\n\n");
                r.append(prompt.as_str());
                r
            } else {
                prompt
            }
        },
        Option::None => prompt,
    }
}

} // verus!
