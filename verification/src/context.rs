//! The context collector's logic: cleaning and truncating each optional
//! source to its byte budget, picking the first existing candidate file,
//! and assembling the bounded context blob.  Reading files, running
//! version-control commands and calling the issue tracker happen outside
//! the library; their raw results arrive here as optional plain strings,
//! and a missing or failing source is omitted, never an error.

use vstd::prelude::*;
use vstd::string::StrSliceExecFns;
use vstd::string::StringExecFns;
use crate::text::concat_strs;
use crate::text::push_str_item;
use crate::text::push_string_item;
use crate::text::spec_trim;
use crate::text::spec_truncate;
use crate::text::str_starts_with;
use crate::text::trim_string;
use crate::text::truncate_string;
use crate::text::utf8_len;
use crate::text::views_of;

verus! {

/// A candidate context file: its name and, when it exists, its contents.
pub type Candidate = (String, Option<String>);

/// A raw file body reduced to a snippet: trimmed, truncated to its byte
/// budget, and dropped entirely when blank.
pub open spec fn spec_clean_snippet(contents: Seq<char>, limit: int) -> Option<Seq<char>> {
    let out = spec_truncate(spec_trim(contents), limit);
    if out.len() == 0 {
        Option::None
    } else {
        Option::Some(out)
    }
}

/// Trims and truncates a file body, yielding nothing when it is blank.
pub fn clean_snippet(contents: &str, limit: usize) -> (r: Option<String>)
    ensures
        (r is Some) == (spec_clean_snippet(contents@, limit as int) is Some),
        r matches Some(s) ==> (spec_clean_snippet(contents@, limit as int) matches Some(q) && s@
            == q),
{
    let t = trim_string(contents);
    let out = truncate_string(t.as_str(), limit);
    if out.as_str().is_empty() {
        Option::None
    } else {
        Option::Some(out)
    }
}

/// A command's output reduced to a usable value: trimmed, and dropped when
/// blank.
pub open spec fn spec_clean_command_output(text: Seq<char>) -> Option<Seq<char>> {
    if spec_trim(text).len() == 0 {
        Option::None
    } else {
        Option::Some(spec_trim(text))
    }
}

/// Trims a command's output, yielding nothing when it is blank.
pub fn clean_command_output(text: &str) -> (r: Option<String>)
    ensures
        (r is Some) == (spec_clean_command_output(text@) is Some),
        r matches Some(s) ==> (spec_clean_command_output(text@) matches Some(q) && s@ == q),
{
    let t = trim_string(text);
    if t.as_str().is_empty() {
        Option::None
    } else {
        Option::Some(t)
    }
}

/// Appends one labelled context section when a value is present: the label,
/// a colon and newline, then the value truncated to `limit` bytes.
pub fn append_context(lines: &mut Vec<String>, label: &str, value: Option<String>, limit: usize)
    ensures
        value matches Some(text) ==> views_of(final(lines)@) == views_of(old(lines)@).push(
            label@ + ":\n"@ + spec_truncate(text@, limit as int),
        ),
        value is None ==> views_of(final(lines)@) == views_of(old(lines)@),
{
    match value {
        Option::Some(text) => {
            let truncated = truncate_string(text.as_str(), limit);
            let entry = concat_strs(concat_strs(label, ":\n").as_str(), truncated.as_str());
            proof {
                assert(entry@ =~= label@ + ":\n"@ + spec_truncate(text@, limit as int));
            }
            push_string_item(lines, entry);
        },
        Option::None => {},
    }
}

/// The section contributed by one optional command output: empty when the
/// command failed or printed only whitespace.
pub open spec fn spec_command_section(label: Seq<char>, raw: Option<String>, limit: int) -> Seq<
    Seq<char>,
> {
    match raw {
        Option::Some(t) => match spec_clean_command_output(t@) {
            Option::Some(cl) => seq![label + ":\n"@ + spec_truncate(cl, limit)],
            Option::None => Seq::empty(),
        },
        Option::None => Seq::empty(),
    }
}

fn push_command_section(lines: &mut Vec<String>, label: &str, raw: &Option<String>, limit: usize)
    ensures
        views_of(final(lines)@) == views_of(old(lines)@) + spec_command_section(
            label@,
            *raw,
            limit as int,
        ),
{
    let cleaned = match raw {
        Option::Some(t) => clean_command_output(t.as_str()),
        Option::None => Option::None,
    };
    proof {
        if cleaned is None {
            assert(views_of(lines@) =~= views_of(lines@) + spec_command_section(
                label@,
                *raw,
                limit as int,
            ));
        }
    }
    append_context(lines, label, cleaned, limit);
    proof {
        if spec_command_section(label@, *raw, limit as int).len() == 1 {
            assert(views_of(old(lines)@).push(
                spec_command_section(label@, *raw, limit as int)[0],
            ) =~= views_of(old(lines)@) + spec_command_section(label@, *raw, limit as int));
        }
    }
}

/// The first candidate whose contents clean to a non-blank snippet, with its
/// name; later candidates are ignored.
pub open spec fn spec_first_snippet(cands: Seq<Candidate>, limit: int) -> Option<
    (Seq<char>, Seq<char>),
>
    decreases cands.len(),
{
    if cands.len() == 0 {
        Option::None
    } else {
        match cands[0].1 {
            Option::Some(c) => match spec_clean_snippet(c@, limit) {
                Option::Some(cl) => Option::Some((cands[0].0@, cl)),
                Option::None => spec_first_snippet(cands.drop_first(), limit),
            },
            Option::None => spec_first_snippet(cands.drop_first(), limit),
        }
    }
}

/// Picks the first candidate file that exists and is not blank.
pub fn first_snippet(cands: &Vec<Candidate>, limit: usize) -> (r: Option<(String, String)>)
    ensures
        (r is Some) == (spec_first_snippet(cands@, limit as int) is Some),
        r matches Some(p) ==> (spec_first_snippet(cands@, limit as int) matches Some(q) && p.0@
            == q.0 && p.1@ == q.1),
{
    let mut i: usize = 0;
    proof {
        assert(cands@.skip(0) =~= cands@);
    }
    while i < cands.len()
        invariant
            0 <= i <= cands@.len(),
            spec_first_snippet(cands@, limit as int) == spec_first_snippet(
                cands@.skip(i as int),
                limit as int,
            ),
        decreases cands@.len() - i,
    {
        let ghost tail = cands@.skip(i as int);
        proof {
            assert(tail[0] == cands@[i as int]);
            assert(tail.drop_first() =~= cands@.skip(i + 1));
        }
        let cand = &cands[i];
        match &cand.1 {
            Option::Some(c) => {
                match clean_snippet(c.as_str(), limit) {
                    Option::Some(cl) => {
                        return Option::Some((cand.0.clone(), cl));
                    },
                    Option::None => {},
                }
            },
            Option::None => {},
        }
        i = i + 1;
    }
    proof {
        assert(cands@.skip(cands@.len() as int) =~= Seq::<Candidate>::empty());
    }
    Option::None
}

/// The sections contributed by every candidate that exists and is not
/// blank, each labelled with its file name.
pub open spec fn spec_present_snippets(cands: Seq<Candidate>, limit: int) -> Seq<Seq<char>>
    decreases cands.len(),
{
    if cands.len() == 0 {
        Seq::empty()
    } else {
        (match cands[0].1 {
            Option::Some(c) => match spec_clean_snippet(c@, limit) {
                Option::Some(cl) => seq![cands[0].0@ + ":\n"@ + cl],
                Option::None => Seq::empty(),
            },
            Option::None => Seq::empty(),
        }) + spec_present_snippets(cands.drop_first(), limit)
    }
}

fn push_present_snippets(lines: &mut Vec<String>, cands: &Vec<Candidate>, limit: usize)
    ensures
        views_of(final(lines)@) == views_of(old(lines)@) + spec_present_snippets(
            cands@,
            limit as int,
        ),
{
    let ghost target = views_of(old(lines)@) + spec_present_snippets(cands@, limit as int);
    let mut i: usize = 0;
    proof {
        assert(cands@.skip(0) =~= cands@);
    }
    while i < cands.len()
        invariant
            0 <= i <= cands@.len(),
            target == views_of(old(lines)@) + spec_present_snippets(cands@, limit as int),
            target == views_of(lines@) + spec_present_snippets(cands@.skip(i as int), limit as int),
        decreases cands@.len() - i,
    {
        let ghost tail = cands@.skip(i as int);
        proof {
            assert(tail[0] == cands@[i as int]);
            assert(tail.drop_first() =~= cands@.skip(i + 1));
        }
        let cand = &cands[i];
        match &cand.1 {
            Option::Some(c) => {
                match clean_snippet(c.as_str(), limit) {
                    Option::Some(cl) => {
                        let entry = concat_strs(
                            concat_strs(cand.0.as_str(), ":\n").as_str(),
                            cl.as_str(),
                        );
                        proof {
                            assert(entry@ =~= tail[0].0@ + ":\n"@ + spec_clean_snippet(
                                tail[0].1->0@,
                                limit as int,
                            )->0);
                            assert(views_of(lines@).push(entry@) + spec_present_snippets(
                                cands@.skip(i + 1),
                                limit as int,
                            ) =~= views_of(lines@) + spec_present_snippets(tail, limit as int));
                        }
                        push_string_item(lines, entry);
                    },
                    Option::None => {},
                }
            },
            Option::None => {},
        }
        i = i + 1;
    }
    proof {
        assert(cands@.skip(cands@.len() as int) =~= Seq::<Candidate>::empty());
    }
}

/// The rest of a joined text: a separator before each remaining part.
pub open spec fn spec_join_rest(sep: Seq<char>, parts: Seq<Seq<char>>) -> Seq<char>
    decreases parts.len(),
{
    if parts.len() == 0 {
        Seq::empty()
    } else {
        sep + parts[0] + spec_join_rest(sep, parts.drop_first())
    }
}

/// `parts` joined with `sep` between consecutive parts.
pub open spec fn spec_join(sep: Seq<char>, parts: Seq<Seq<char>>) -> Seq<char> {
    if parts.len() == 0 {
        Seq::empty()
    } else {
        parts[0] + spec_join_rest(sep, parts.drop_first())
    }
}

/// Joins `parts` with `sep` between consecutive parts.
pub fn join_blocks(parts: &Vec<String>, sep: &str) -> (r: String)
    ensures
        r@ == spec_join(sep@, views_of(parts@)),
{
    if parts.len() == 0 {
        return String::new();
    }
    let mut r = parts[0].clone();
    let mut i: usize = 1;
    proof {
        assert(views_of(parts@)[0] == parts@[0]@);
        assert(views_of(parts@).drop_first() =~= views_of(parts@).skip(1));
    }
    while i < parts.len()
        invariant
            1 <= i <= parts@.len(),
            spec_join(sep@, views_of(parts@)) == r@ + spec_join_rest(
                sep@,
                views_of(parts@).skip(i as int),
            ),
        decreases parts@.len() - i,
    {
        let ghost tail = views_of(parts@).skip(i as int);
        proof {
            assert(tail[0] == parts@[i as int]@);
            assert(tail.drop_first() =~= views_of(parts@).skip(i + 1));
        }
        let ghost r0 = r@;
        r.append(sep);
        r.append(parts[i].as_str());
        proof {
            assert(r0 + (sep@ + parts@[i as int]@ + spec_join_rest(
                sep@,
                views_of(parts@).skip(i + 1),
            )) =~= r@ + spec_join_rest(sep@, views_of(parts@).skip(i + 1)));
        }
        i = i + 1;
    }
    proof {
        assert(views_of(parts@).skip(parts@.len() as int) =~= Seq::<Seq<char>>::empty());
    }
    r
}

/// The readme files probed for, in priority order.
pub fn readme_candidates() -> (r: Vec<String>)
    ensures
        views_of(r@) == seq!["README.md"@, "Readme.md"@, "readme.md"@],
{
    let mut r: Vec<String> = Vec::new();
    push_str_item(&mut r, "README.md");
    push_str_item(&mut r, "Readme.md");
    push_str_item(&mut r, "readme.md");
    proof {
        assert(views_of(r@) =~= seq!["README.md"@, "Readme.md"@, "readme.md"@]);
    }
    r
}

/// The agent-instruction files probed for; all hits are used.
pub fn agent_file_candidates() -> (r: Vec<String>)
    ensures
        views_of(r@) == seq!["AGENTS.md"@],
{
    let mut r: Vec<String> = Vec::new();
    push_str_item(&mut r, "AGENTS.md");
    proof {
        assert(views_of(r@) =~= seq!["AGENTS.md"@]);
    }
    r
}

/// The requirement-document files probed for, in priority order.
pub fn prd_candidates() -> (r: Vec<String>)
    ensures
        views_of(r@) == seq!["ralph/PRD.md"@, "PRD.md"@, "prd.md"@],
{
    let mut r: Vec<String> = Vec::new();
    push_str_item(&mut r, "ralph/PRD.md");
    push_str_item(&mut r, "PRD.md");
    push_str_item(&mut r, "prd.md");
    proof {
        assert(views_of(r@) =~= seq!["ralph/PRD.md"@, "PRD.md"@, "prd.md"@]);
    }
    r
}

/// The progress-log files probed for, in priority order.
pub fn progress_candidates() -> (r: Vec<String>)
    ensures
        views_of(r@) == seq!["ralph/progress.txt"@, "progress.txt"@],
{
    let mut r: Vec<String> = Vec::new();
    push_str_item(&mut r, "ralph/progress.txt");
    push_str_item(&mut r, "progress.txt");
    proof {
        assert(views_of(r@) =~= seq!["ralph/progress.txt"@, "progress.txt"@]);
    }
    r
}

/// The build and manifest files probed for; all hits are used.
pub fn manifest_candidates() -> (r: Vec<String>)
    ensures
        views_of(r@) == seq!["Cargo.toml"@, "lakefile.lean"@, "package.json"@, "pyproject.toml"@],
{
    let mut r: Vec<String> = Vec::new();
    push_str_item(&mut r, "Cargo.toml");
    push_str_item(&mut r, "lakefile.lean");
    push_str_item(&mut r, "package.json");
    push_str_item(&mut r, "pyproject.toml");
    proof {
        assert(views_of(r@) =~= seq![
            "Cargo.toml"@,
            "lakefile.lean"@,
            "package.json"@,
            "pyproject.toml"@,
        ]);
    }
    r
}

/// Everything the context collector reads, gathered outside the library:
/// candidate files in priority order with their contents when they exist,
/// the issue-tracker blob when a credential was configured and the call
/// succeeded, and the output of each version-control command that ran
/// successfully.
pub struct ContextSources {
    /// Readme candidates, in priority order; only the first hit is used.
    pub readme: Vec<Candidate>,
    /// Agent-instruction files; every present one is used.
    pub agent_files: Vec<Candidate>,
    /// Requirement-document candidates; only the first hit is used.
    pub prd: Vec<Candidate>,
    /// Progress-log candidates; only the first hit is used.
    pub progress: Vec<Candidate>,
    /// Build and manifest files; every present one is used.
    pub manifests: Vec<Candidate>,
    /// The assembled issue-tracker blob, absent when unavailable.
    pub linear: Option<String>,
    /// Remote URL of the repository.
    pub git_origin: Option<String>,
    /// The last commit, one line.
    pub git_last_commit: Option<String>,
    /// The recent commit list.
    pub git_recent_commits: Option<String>,
    /// The full tracked file list.
    pub tracked_files: Option<String>,
    /// Marker-comment search results across the working tree.
    pub todo_markers: Option<String>,
    /// Working-tree status, short form.
    pub git_status: Option<String>,
    /// Working-tree diff statistic.
    pub git_diff_stat: Option<String>,
}

/// The section contributed by a first-hit candidate list, under a fixed
/// heading with the file's name in parentheses.
pub open spec fn spec_first_section(
    heading: Seq<char>,
    cands: Seq<Candidate>,
    limit: int,
) -> Seq<Seq<char>> {
    match spec_first_snippet(cands, limit) {
        Option::Some(q) => seq![heading + "("@ + q.0 + "):\n"@ + q.1],
        Option::None => Seq::empty(),
    }
}

fn push_first_section(lines: &mut Vec<String>, heading: &str, cands: &Vec<Candidate>, limit: usize)
    ensures
        views_of(final(lines)@) == views_of(old(lines)@) + spec_first_section(
            heading@,
            cands@,
            limit as int,
        ),
{
    match first_snippet(cands, limit) {
        Option::Some(p) => {
            let entry = concat_strs(
                concat_strs(
                    concat_strs(concat_strs(heading, "(").as_str(), p.0.as_str()).as_str(),
                    "):\n",
                ).as_str(),
                p.1.as_str(),
            );
            proof {
                let q = spec_first_snippet(cands@, limit as int)->0;
                assert(entry@ =~= heading@ + "("@ + q.0 + "):\n"@ + q.1);
                assert(views_of(old(lines)@).push(entry@) =~= views_of(old(lines)@)
                    + spec_first_section(heading@, cands@, limit as int));
            }
            push_string_item(lines, entry);
        },
        Option::None => {
            proof {
                assert(views_of(lines@) =~= views_of(lines@) + spec_first_section(
                    heading@,
                    cands@,
                    limit as int,
                ));
            }
        },
    }
}

/// The line announcing the issue-tracker context, or its absence.
pub open spec fn spec_linear_section(linear: Option<String>) -> Seq<char> {
    match linear {
        Option::Some(l) => "Linear context (use for ultimate goal if relevant):\n"@ + l@,
        Option::None => "Linear context: unavailable"@,
    }
}

/// The full ordered list of context sections.
pub open spec fn spec_context_lines(
    repo_name: Seq<char>,
    cwd: Seq<char>,
    s: ContextSources,
) -> Seq<Seq<char>> {
    seq!["repo: "@ + repo_name, "path: "@ + cwd] + spec_first_section("README "@, s.readme@, 20000)
        + spec_present_snippets(s.agent_files@, 12000) + spec_first_section(
        "PRD "@,
        s.prd@,
        12000,
    ) + spec_first_section("Ralph progress log "@, s.progress@, 8000) + spec_present_snippets(
        s.manifests@,
        8000,
    ) + seq![spec_linear_section(s.linear)] + spec_command_section("git origin"@, s.git_origin, 2000)
        + spec_command_section("git last commit"@, s.git_last_commit, 2000)
        + spec_command_section("git recent commits"@, s.git_recent_commits, 8000)
        + spec_command_section("tracked files"@, s.tracked_files, 20000) + spec_command_section(
        "worktree TODO/FIXME/XXX (use for next action)"@,
        s.todo_markers,
        12000,
    ) + spec_command_section("worktree git status (use for next action)"@, s.git_status, 4000)
        + spec_command_section("worktree git diff --stat (use for next action)"@,
        s.git_diff_stat,
        4000,
    )
}

/// Assembles the bounded context blob from every available source, in
/// priority order, each truncated to its own byte budget; missing sources
/// are omitted.
pub fn collect_repo_context(repo_name: &str, cwd_display: &str, sources: &ContextSources) -> (r:
    String)
    ensures
        r@ == spec_join("\n\n"@, spec_context_lines(repo_name@, cwd_display@, *sources)),
{
    let mut lines: Vec<String> = Vec::new();
    push_string_item(&mut lines, concat_strs("repo: ", repo_name));
    push_string_item(&mut lines, concat_strs("path: ", cwd_display));
    proof {
        assert(views_of(lines@) =~= seq!["repo: "@ + repo_name@, "path: "@ + cwd_display@]);
    }
    push_first_section(&mut lines, "README ", &sources.readme, 20000);
    push_present_snippets(&mut lines, &sources.agent_files, 12000);
    push_first_section(&mut lines, "PRD ", &sources.prd, 12000);
    push_first_section(&mut lines, "Ralph progress log ", &sources.progress, 8000);
    push_present_snippets(&mut lines, &sources.manifests, 8000);
    match &sources.linear {
        Option::Some(l) => {
            let entry = concat_strs(
                "Linear context (use for ultimate goal if relevant):\n",
                l.as_str(),
            );
            push_string_item(&mut lines, entry);
        },
        Option::None => {
            push_str_item(&mut lines, "Linear context: unavailable");
        },
    }
    proof {
        assert(views_of(lines@) =~= seq!["repo: "@ + repo_name@, "path: "@ + cwd_display@]
            + spec_first_section("README "@, sources.readme@, 20000) + spec_present_snippets(
            sources.agent_files@,
            12000,
        ) + spec_first_section("PRD "@, sources.prd@, 12000) + spec_first_section(
            "Ralph progress log "@,
            sources.progress@,
            8000,
        ) + spec_present_snippets(sources.manifests@, 8000) + seq![
            spec_linear_section(sources.linear),
        ]);
    }
    push_command_section(&mut lines, "git origin", &sources.git_origin, 2000);
    push_command_section(&mut lines, "git last commit", &sources.git_last_commit, 2000);
    push_command_section(&mut lines, "git recent commits", &sources.git_recent_commits, 8000);
    push_command_section(&mut lines, "tracked files", &sources.tracked_files, 20000);
    push_command_section(
        &mut lines,
        "worktree TODO/FIXME/XXX (use for next action)",
        &sources.todo_markers,
        12000,
    );
    push_command_section(
        &mut lines,
        "worktree git status (use for next action)",
        &sources.git_status,
        4000,
    );
    push_command_section(
        &mut lines,
        "worktree git diff --stat (use for next action)",
        &sources.git_diff_stat,
        4000,
    );
    proof {
        assert(views_of(lines@) =~= spec_context_lines(repo_name@, cwd_display@, *sources));
    }
    join_blocks(&lines, "\n\n")
}

/// Assembles the inference context; the caller may persist the returned
/// blob to a snapshot path for auditing.
pub fn prepare_inference_context(repo_name: &str, cwd_display: &str, sources: &ContextSources) -> (r:
    String)
    ensures
        r@ == spec_join("\n\n"@, spec_context_lines(repo_name@, cwd_display@, *sources)),
{
    collect_repo_context(repo_name, cwd_display, sources)
}

/// The issue-tracker blob assembled from raw query responses: nothing at
/// all without the project list; document and issue lists are optional.
pub open spec fn spec_linear_blob(
    projects: Seq<char>,
    docs: Option<String>,
    issues: Option<String>,
) -> Seq<char> {
    spec_join(
        "\n\n"@,
        seq!["Linear projects (raw JSON):"@, spec_truncate(projects, 20000)] + (match docs {
            Option::Some(d) => seq!["Linear documents (raw JSON):"@, spec_truncate(d@, 20000)],
            Option::None => Seq::empty(),
        }) + (match issues {
            Option::Some(v) => seq!["Linear issues (raw JSON):"@, spec_truncate(v@, 20000)],
            Option::None => Seq::empty(),
        }),
    )
}

/// Assembles the issue-tracker context from the raw JSON texts of the three
/// queries; absent entirely when the project query yielded nothing.
pub fn assemble_linear_context(
    projects: Option<&String>,
    docs: Option<String>,
    issues: Option<String>,
) -> (r: Option<String>)
    ensures
        projects is None ==> r is None,
        projects matches Some(p) ==> (r matches Some(t) && t@ == spec_linear_blob(
            p@,
            docs,
            issues,
        )),
{
    match projects {
        Option::Some(p) => {
            let mut parts: Vec<String> = Vec::new();
            push_str_item(&mut parts, "Linear projects (raw JSON):");
            push_string_item(&mut parts, truncate_string(p.as_str(), 20000));
            match &docs {
                Option::Some(d) => {
                    push_str_item(&mut parts, "Linear documents (raw JSON):");
                    push_string_item(&mut parts, truncate_string(d.as_str(), 20000));
                },
                Option::None => {},
            }
            match &issues {
                Option::Some(v) => {
                    push_str_item(&mut parts, "Linear issues (raw JSON):");
                    push_string_item(&mut parts, truncate_string(v.as_str(), 20000));
                },
                Option::None => {},
            }
            proof {
                assert(views_of(parts@) =~= seq![
                    "Linear projects (raw JSON):"@,
                    spec_truncate(p@, 20000),
                ] + (match docs {
                    Option::Some(d) => seq![
                        "Linear documents (raw JSON):"@,
                        spec_truncate(d@, 20000),
                    ],
                    Option::None => Seq::empty(),
                }) + (match issues {
                    Option::Some(v) => seq!["Linear issues (raw JSON):"@, spec_truncate(v@, 20000)],
                    Option::None => Seq::empty(),
                }));
            }
            Option::Some(join_blocks(&parts, "\n\n"))
        },
        Option::None => Option::None,
    }
}

/// One hexadecimal digit, lower case.
pub open spec fn spec_hex_digit(d: int) -> char {
    if d == 0 {
        '0'
    } else if d == 1 {
        '1'
    } else if d == 2 {
        '2'
    } else if d == 3 {
        '3'
    } else if d == 4 {
        '4'
    } else if d == 5 {
        '5'
    } else if d == 6 {
        '6'
    } else if d == 7 {
        '7'
    } else if d == 8 {
        '8'
    } else if d == 9 {
        '9'
    } else if d == 10 {
        'a'
    } else if d == 11 {
        'b'
    } else if d == 12 {
        'c'
    } else if d == 13 {
        'd'
    } else if d == 14 {
        'e'
    } else {
        'f'
    }
}

/// How one character is written inside a JSON string: quote and backslash
/// escaped, the named control escapes where they exist, other control
/// characters in hexadecimal form, everything else as it is.
pub open spec fn spec_json_escape_char(c: char) -> Seq<char> {
    if c == '"' {
        seq!['\\', '"']
    } else if c == '\\' {
        seq!['\\', '\\']
    } else if c == '\n' {
        seq!['\\', 'n']
    } else if c == '\r' {
        seq!['\\', 'r']
    } else if c == '\t' {
        seq!['\\', 't']
    } else if (c as u32) == 8 {
        seq!['\\', 'b']
    } else if (c as u32) == 12 {
        seq!['\\', 'f']
    } else if (c as u32) < 0x20 {
        seq!['\\', 'u', '0', '0', spec_hex_digit((c as u32) as int / 16), spec_hex_digit(
            (c as u32) as int % 16,
        )]
    } else {
        seq![c]
    }
}

/// The body of the JSON string encoding of `s`.
pub open spec fn spec_json_escape(s: Seq<char>) -> Seq<char>
    decreases s.len(),
{
    if s.len() == 0 {
        Seq::empty()
    } else {
        spec_json_escape_char(s[0]) + spec_json_escape(s.drop_first())
    }
}

fn hex_digit_str(d: u32) -> (r: &'static str)
    requires
        d < 16,
    ensures
        r@ == seq![spec_hex_digit(d as int)],
{
    proof {
        reveal_strlit("0");
        reveal_strlit("1");
        reveal_strlit("2");
        reveal_strlit("3");
        reveal_strlit("4");
        reveal_strlit("5");
        reveal_strlit("6");
        reveal_strlit("7");
        reveal_strlit("8");
        reveal_strlit("9");
        reveal_strlit("a");
        reveal_strlit("b");
        reveal_strlit("c");
        reveal_strlit("d");
        reveal_strlit("e");
        reveal_strlit("f");
    }
    let r: &'static str = if d == 0 {
        "0"
    } else if d == 1 {
        "1"
    } else if d == 2 {
        "2"
    } else if d == 3 {
        "3"
    } else if d == 4 {
        "4"
    } else if d == 5 {
        "5"
    } else if d == 6 {
        "6"
    } else if d == 7 {
        "7"
    } else if d == 8 {
        "8"
    } else if d == 9 {
        "9"
    } else if d == 10 {
        "a"
    } else if d == 11 {
        "b"
    } else if d == 12 {
        "c"
    } else if d == 13 {
        "d"
    } else if d == 14 {
        "e"
    } else {
        "f"
    };
    proof {
        assert(r@ =~= seq![spec_hex_digit(d as int)]);
    }
    r
}

/// Escapes `s` for use inside a JSON string.
pub fn json_escape(s: &str) -> (r: String)
    ensures
        r@ == spec_json_escape(s@),
{
    let n = s.unicode_len();
    let mut r = String::new();
    let mut i: usize = 0;
    proof {
        assert(s@.skip(0) =~= s@);
        assert(r@ + spec_json_escape(s@) =~= spec_json_escape(s@));
    }
    while i < n
        invariant
            0 <= i <= n,
            n == s@.len(),
            spec_json_escape(s@) == r@ + spec_json_escape(s@.skip(i as int)),
        decreases n - i,
    {
        let ghost tail = s@.skip(i as int);
        let ghost r0 = r@;
        proof {
            assert(tail[0] == s@[i as int]);
            assert(tail.drop_first() =~= s@.skip(i + 1));
        }
        let c = s.get_char(i);
        let u = c as u32;
        if c == '"' {
            r.append("\\\"");
            proof {
                reveal_strlit("\\\"");
            }
        } else if c == '\\' {
            r.append("\\\\");
            proof {
                reveal_strlit("\\\\");
            }
        } else if c == '\n' {
            r.append("\\n");
            proof {
                reveal_strlit("\\n");
            }
        } else if c == '\r' {
            r.append("\\r");
            proof {
                reveal_strlit("\\r");
            }
        } else if c == '\t' {
            r.append("\\t");
            proof {
                reveal_strlit("\\t");
            }
        } else if u == 8 {
            r.append("\\b");
            proof {
                reveal_strlit("\\b");
            }
        } else if u == 12 {
            r.append("\\f");
            proof {
                reveal_strlit("\\f");
            }
        } else if u < 0x20 {
            r.append("\\u00");
            r.append(hex_digit_str(u / 16));
            r.append(hex_digit_str(u % 16));
            proof {
                reveal_strlit("\\u00");
            }
        } else {
            let one = s.substring_char(i, i + 1);
            proof {
                assert(s@.subrange(i as int, i + 1) =~= seq![s@[i as int]]);
            }
            r.append(one);
        }
        proof {
            assert(r@ =~= r0 + spec_json_escape_char(s@[i as int]));
            assert(r0 + (spec_json_escape_char(s@[i as int]) + spec_json_escape(s@.skip(i + 1)))
                =~= r@ + spec_json_escape(s@.skip(i + 1)));
        }
        i = i + 1;
    }
    proof {
        assert(s@.skip(n as int) =~= Seq::<char>::empty());
    }
    r
}

/// The issue-tracker query payload: a JSON object holding the query, as an
/// escaped JSON string, and the variables, already JSON text themselves.
pub open spec fn spec_graphql_payload(query: Seq<char>, variables_json: Seq<char>) -> Seq<char> {
    "{\"query\":\""@ + spec_json_escape(query) + "\",\"variables\":"@ + variables_json + "}"@
}

/// Builds the issue-tracker query payload sent on the wire.
pub fn graphql_payload(query: &str, variables_json: &str) -> (r: String)
    ensures
        r@ == spec_graphql_payload(query@, variables_json@),
{
    let mut r = String::from_str("{\"query\":\"");
    let escaped = json_escape(query);
    r.append(escaped.as_str());
    r.append("\",\"variables\":");
    r.append(variables_json);
    r.append("}");
    proof {
        assert(r@ =~= spec_graphql_payload(query@, variables_json@));
    }
    r
}

/// The authorization header for the issue tracker: a raw personal key is
/// sent as it is, anything else behind the bearer scheme.
pub open spec fn spec_linear_auth_header(token: Seq<char>) -> Seq<char> {
    let t0 = spec_trim(token);
    let t = if t0.len() >= "Bearer "@.len() && t0.take("Bearer "@.len() as int) == "Bearer "@ {
        spec_trim(t0.skip("Bearer "@.len() as int))
    } else {
        t0
    };
    if t.len() >= "lin_api_"@.len() && t.take("lin_api_"@.len() as int) == "lin_api_"@ {
        "Authorization: "@ + t
    } else {
        "Authorization: Bearer "@ + t
    }
}

/// Builds the issue tracker's authorization header from a configured token.
pub fn linear_auth_header(token: &str) -> (r: String)
    ensures
        r@ == spec_linear_auth_header(token@),
{
    let t0 = trim_string(token);
    let t = if str_starts_with(t0.as_str(), "Bearer ") {
        let bl = "Bearer ".unicode_len();
        let rest = t0.as_str().substring_char(bl, t0.as_str().unicode_len());
        proof {
            assert(t0@.subrange("Bearer "@.len() as int, t0@.len() as int) =~= t0@.skip(
                "Bearer "@.len() as int,
            ));
        }
        trim_string(rest)
    } else {
        t0
    };
    if str_starts_with(t.as_str(), "lin_api_") {
        concat_strs("Authorization: ", t.as_str())
    } else {
        concat_strs("Authorization: Bearer ", t.as_str())
    }
}

} // verus!
