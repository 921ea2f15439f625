use consensus::console::{
    answer_accepts, decide_input, runs_in_recovery, Confirmation, InputAction, InputContext,
    Recovery,
};

fn idle() -> InputContext {
    InputContext { awaiting: None, recovery: None, connected: true, has_drafts: true }
}

#[test]
fn blank_line_keeps_the_pending_question() {
    let ctx = InputContext { awaiting: Some(Confirmation::Submit), ..idle() };
    let step = decide_input(&ctx, "   \t ");
    assert_eq!(step.awaiting, Some(Confirmation::Submit));
    assert_eq!(step.action, InputAction::Nothing);
}

#[test]
fn yes_in_any_case_confirms() {
    for answer in ["y", "Y", "yes", " YeS ", "YES"] {
        let ctx = InputContext { awaiting: Some(Confirmation::ClearDrafts), ..idle() };
        let step = decide_input(&ctx, answer);
        assert_eq!(step.awaiting, None);
        assert_eq!(step.action, InputAction::Confirmed(Confirmation::ClearDrafts));
    }
}

#[test]
fn anything_else_cancels() {
    for answer in ["n", "no", "yeah", "ye", "/quit", "yés"] {
        let ctx = InputContext { awaiting: Some(Confirmation::Submit), ..idle() };
        let step = decide_input(&ctx, answer);
        assert_eq!(step.awaiting, None);
        assert_eq!(step.action, InputAction::Cancelled);
    }
    assert!(answer_accepts("  y "));
    assert!(!answer_accepts("yy"));
}

#[test]
fn recovery_holds_back_other_input() {
    let progress = Recovery { confirmed: 2, total: 5 };
    let ctx = InputContext { recovery: Some(progress), ..idle() };
    assert_eq!(decide_input(&ctx, "hello").action, InputAction::RecoveryInProgress(progress));
    assert_eq!(decide_input(&ctx, "/submit").action, InputAction::RecoveryInProgress(progress));
    assert_eq!(decide_input(&ctx, "/claim").action, InputAction::RecoveryInProgress(progress));
    assert_eq!(decide_input(&ctx, "/overview").action, InputAction::ShowOverview);
    assert_eq!(decide_input(&ctx, "/quit").action, InputAction::Quit);
    assert_eq!(
        decide_input(&ctx, "/claim c-1").action,
        InputAction::ShowClaim("c-1".to_string())
    );
    assert!(runs_in_recovery("/claim x"));
    assert!(!runs_in_recovery("/clear"));
}

#[test]
fn commands_are_split_at_the_first_space() {
    let ctx = idle();
    assert_eq!(decide_input(&ctx, "/claim   c-7  ").action, InputAction::ShowClaim("c-7".to_string()));
    assert_eq!(decide_input(&ctx, "/claim").action, InputAction::ClaimUsage);
    assert_eq!(decide_input(&ctx, "/drafts").action, InputAction::ShowDrafts);
    assert_eq!(decide_input(&ctx, "/help").action, InputAction::Help);
    assert_eq!(
        decide_input(&ctx, "/frobnicate now").action,
        InputAction::UnknownCommand("frobnicate".to_string())
    );
}

#[test]
fn submit_and_clear_ask_first() {
    let step = decide_input(&idle(), "/submit");
    assert_eq!(step.awaiting, Some(Confirmation::Submit));
    assert_eq!(step.action, InputAction::AskSubmit);
    let step = decide_input(&idle(), "/clear");
    assert_eq!(step.awaiting, Some(Confirmation::ClearDrafts));
    assert_eq!(step.action, InputAction::AskClear);
    let empty = InputContext { has_drafts: false, ..idle() };
    assert_eq!(decide_input(&empty, "/submit").action, InputAction::NoDraftsToSubmit);
    assert_eq!(decide_input(&empty, "/clear").action, InputAction::NoDraftsToClear);
    let offline = InputContext { connected: false, ..idle() };
    assert_eq!(decide_input(&offline, "/submit").action, InputAction::SubmitWhileDisconnected);
    assert_eq!(decide_input(&offline, "/clear").awaiting, Some(Confirmation::ClearDrafts));
}

#[test]
fn plain_text_goes_to_the_assistant_when_connected() {
    assert_eq!(
        decide_input(&idle(), "  What is open?  ").action,
        InputAction::SendToAssistant("What is open?".to_string())
    );
    let offline = InputContext { connected: false, ..idle() };
    assert_eq!(decide_input(&offline, "hi").action, InputAction::Disconnected);
}
