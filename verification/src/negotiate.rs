//! The negotiation protocol: a state machine over the two fields of a
//! proposal, terminal when both are accepted.  Each round presents the
//! unset fields, commits those the human accepts, and otherwise feeds the
//! feedback into another inference call; when inference yields nothing the
//! missing fields are taken verbatim from the human.  The interactive reads
//! themselves happen outside the library.

use vstd::prelude::*;
use vstd::string::StrSliceExecFns;
use vstd::string::StringExecFns;
use crate::text::concat_strs;

verus! {

/// A trimmed interactive answer that means yes: `y` or `yes` in any
/// letter case.
pub open spec fn spec_is_yes(answer: Seq<char>) -> bool {
    let t = crate::text::spec_trim(answer);
    (t.len() == 1 && (t[0] == 'y' || t[0] == 'Y')) || (t.len() == 3 && (t[0] == 'y' || t[0] == 'Y')
        && (t[1] == 'e' || t[1] == 'E') && (t[2] == 's' || t[2] == 'S'))
}

/// Interprets an interactive yes/no answer; anything but a yes, including
/// an empty read, counts as no.
pub fn parse_yes_no(answer: &str) -> (r: bool)
    ensures
        r == spec_is_yes(answer@),
{
    let t = crate::text::trim_string(answer);
    let s = t.as_str();
    let n = s.unicode_len();
    if n == 1 {
        let c = s.get_char(0);
        c == 'y' || c == 'Y'
    } else if n == 3 {
        let c0 = s.get_char(0);
        let c1 = s.get_char(1);
        let c2 = s.get_char(2);
        (c0 == 'y' || c0 == 'Y') && (c1 == 'e' || c1 == 'E') && (c2 == 's' || c2 == 'S')
    } else {
        false
    }
}

/// The negotiation's state: the accepted fields (possibly empty, meaning
/// unset) and the current proposal.
pub struct NegotiationState {
    /// The accepted goal; empty while unset.
    pub goal: String,
    /// The accepted next action; empty while unset.
    pub next_action: String,
    /// The current proposal's goal.
    pub proposal_goal: String,
    /// The current proposal's next action.
    pub proposal_next: String,
}

/// Terminal state: both fields are set.
pub open spec fn spec_settled(s: NegotiationState) -> bool {
    s.goal@.len() > 0 && s.next_action@.len() > 0
}

/// The hardcoded fallback proposal used when inference yields nothing at
/// the start.
pub fn fallback_proposal(repo_name: &str) -> (r: (String, String))
    ensures
        r.0@ == "Bootstrap "@ + repo_name@ + " with a PRD, progress log, and initial tasks."@,
        r.1@ == "Draft PRD and create initial tasks in Linear."@,
{
    let goal = concat_strs(
        concat_strs("Bootstrap ", repo_name).as_str(),
        " with a PRD, progress log, and initial tasks.",
    );
    proof {
        assert(goal@ =~= "Bootstrap "@ + repo_name@
            + " with a PRD, progress log, and initial tasks."@);
    }
    (goal, String::from_str("Draft PRD and create initial tasks in Linear."))
}

impl NegotiationState {
    /// Starts a round with initial field values and a first proposal.
    pub fn start(goal: String, next_action: String, proposal: (String, String)) -> (r:
        NegotiationState)
        ensures
            r.goal == goal,
            r.next_action == next_action,
            r.proposal_goal == proposal.0,
            r.proposal_next == proposal.1,
    {
        NegotiationState {
            goal,
            next_action,
            proposal_goal: proposal.0,
            proposal_next: proposal.1,
        }
    }

    /// Whether both fields are settled, ending the negotiation.
    pub fn is_settled(&self) -> (r: bool)
        ensures
            r == spec_settled(*self),
    {
        !self.goal.as_str().is_empty() && !self.next_action.as_str().is_empty()
    }

    /// Whether the goal still needs to be presented.
    pub fn goal_unset(&self) -> (r: bool)
        ensures
            r == (self.goal@.len() == 0),
    {
        self.goal.as_str().is_empty()
    }

    /// Whether the next action still needs to be presented.
    pub fn next_action_unset(&self) -> (r: bool)
        ensures
            r == (self.next_action@.len() == 0),
    {
        self.next_action.as_str().is_empty()
    }

    /// Commits each unset field whose proposed value the human accepted;
    /// any other answer leaves the field unset.
    pub fn apply_answers(&mut self, accept_goal: bool, accept_next: bool)
        ensures
            final(self).goal@ == (if old(self).goal@.len() == 0 && accept_goal {
                old(self).proposal_goal@
            } else {
                old(self).goal@
            }),
            final(self).next_action@ == (if old(self).next_action@.len() == 0 && accept_next {
                old(self).proposal_next@
            } else {
                old(self).next_action@
            }),
            final(self).proposal_goal == old(self).proposal_goal,
            final(self).proposal_next == old(self).proposal_next,
    {
        if self.goal.as_str().is_empty() && accept_goal {
            self.goal = self.proposal_goal.clone();
        }
        if self.next_action.as_str().is_empty() && accept_next {
            self.next_action = self.proposal_next.clone();
        }
    }

    /// Takes the outcome of a re-inference round: a new proposal replaces
    /// the current one and the negotiation loops; no proposal means the
    /// remaining fields must be entered manually.
    pub fn apply_refinement(&mut self, refined: Option<(String, String)>) -> (manual: bool)
        ensures
            refined matches Some(p) ==> (!manual && final(self).proposal_goal == p.0
                && final(self).proposal_next == p.1 && final(self).goal == old(self).goal
                && final(self).next_action == old(self).next_action),
            refined is None ==> (manual && *final(self) == *old(self)),
    {
        match refined {
            Option::Some(p) => {
                self.proposal_goal = p.0;
                self.proposal_next = p.1;
                false
            },
            Option::None => true,
        }
    }

    /// Fills each still-unset field verbatim from manual entry, ending the
    /// negotiation when both entries are non-empty.
    pub fn fill_manual(&mut self, goal_input: String, next_input: String)
        ensures
            final(self).goal@ == (if old(self).goal@.len() == 0 {
                goal_input@
            } else {
                old(self).goal@
            }),
            final(self).next_action@ == (if old(self).next_action@.len() == 0 {
                next_input@
            } else {
                old(self).next_action@
            }),
            final(self).proposal_goal == old(self).proposal_goal,
            final(self).proposal_next == old(self).proposal_next,
    {
        if self.goal.as_str().is_empty() {
            self.goal = goal_input;
        }
        if self.next_action.as_str().is_empty() {
            self.next_action = next_input;
        }
    }
}

/// Accepting both fields of any proposal with non-empty fields settles the
/// negotiation, whatever state it was in.
pub proof fn lemma_accept_settles(pre: NegotiationState, post: NegotiationState)
    requires
        pre.proposal_goal@.len() > 0,
        pre.proposal_next@.len() > 0,
        post.goal@ == (if pre.goal@.len() == 0 {
            pre.proposal_goal@
        } else {
            pre.goal@
        }),
        post.next_action@ == (if pre.next_action@.len() == 0 {
            pre.proposal_next@
        } else {
            pre.next_action@
        }),
    ensures
        spec_settled(post),
{
}

} // verus!
