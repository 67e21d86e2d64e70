use ralph::negotiate::NegotiationState;
use ralph::negotiate::fallback_proposal;
use ralph::negotiate::parse_yes_no;

#[test]
fn yes_answers_in_any_case() {
    assert!(parse_yes_no("y"));
    assert!(parse_yes_no("Y"));
    assert!(parse_yes_no("yes"));
    assert!(parse_yes_no("YES"));
    assert!(parse_yes_no(" yEs \n"));
    assert!(!parse_yes_no(""));
    assert!(!parse_yes_no("no"));
    assert!(!parse_yes_no("yep"));
    assert!(!parse_yes_no("y e s"));
}

#[test]
fn fallback_proposal_names_the_repository() {
    let (goal, next) = fallback_proposal("myrepo");
    assert_eq!(goal, "Bootstrap myrepo with a PRD, progress log, and initial tasks.");
    assert_eq!(next, "Draft PRD and create initial tasks in Linear.");
}

#[test]
fn accepting_both_fields_settles_the_negotiation() {
    let mut state = NegotiationState::start(
        String::new(),
        String::new(),
        ("G".to_string(), "N".to_string()),
    );
    assert!(!state.is_settled());
    assert!(state.goal_unset());
    assert!(state.next_action_unset());
    state.apply_answers(true, true);
    assert!(state.is_settled());
    assert_eq!(state.goal, "G");
    assert_eq!(state.next_action, "N");
}

#[test]
fn a_rejected_field_stays_unset_and_survives_refinement() {
    let mut state = NegotiationState::start(
        String::new(),
        String::new(),
        ("G".to_string(), "N".to_string()),
    );
    state.apply_answers(true, false);
    assert_eq!(state.goal, "G");
    assert!(state.next_action_unset());
    let manual = state.apply_refinement(Some(("G2".to_string(), "N2".to_string())));
    assert!(!manual);
    assert_eq!(state.goal, "G");
    assert_eq!(state.proposal_goal, "G2");
    state.apply_answers(true, true);
    assert_eq!(state.goal, "G");
    assert_eq!(state.next_action, "N2");
    assert!(state.is_settled());
}

#[test]
fn failed_refinement_falls_back_to_manual_entry() {
    let mut state = NegotiationState::start(
        "kept goal".to_string(),
        String::new(),
        ("G".to_string(), "N".to_string()),
    );
    let manual = state.apply_refinement(None);
    assert!(manual);
    state.fill_manual("typed goal".to_string(), "typed action".to_string());
    assert_eq!(state.goal, "kept goal");
    assert_eq!(state.next_action, "typed action");
    assert!(state.is_settled());
}

#[test]
fn preset_fields_are_never_overwritten() {
    let mut state = NegotiationState::start(
        "fixed".to_string(),
        "fixed next".to_string(),
        ("G".to_string(), "N".to_string()),
    );
    state.apply_answers(true, true);
    assert_eq!(state.goal, "fixed");
    assert_eq!(state.next_action, "fixed next");
}
