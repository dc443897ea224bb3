use mas_installer::catalog::AssetRole;
use mas_installer::orchestrator::{Message, Orchestrator, Stage};

#[test]
fn stages_without_addon_run_straight_to_done() {
    let mut orch = Orchestrator::new(false, false);
    assert_eq!(orch.stage, Stage::Preparing);
    orch.on_stage_complete(false);
    assert_eq!(orch.stage, Stage::Downloading);
    orch.on_stage_complete(false);
    assert_eq!(orch.stage, Stage::Extracting);
    orch.on_stage_complete(false);
    assert_eq!(orch.stage, Stage::CleaningUp);
    orch.on_stage_complete(false);
    assert_eq!(orch.stage, Stage::Done);
    assert!(orch.is_terminal_stage());
}

#[test]
fn stages_with_addon_pass_both_addon_stages() {
    let mut orch = Orchestrator::new(true, true);
    let mut seen = vec![orch.stage];
    while !orch.is_terminal_stage() {
        orch.on_stage_complete(false);
        seen.push(orch.stage);
    }
    assert_eq!(
        seen,
        vec![
            Stage::Preparing,
            Stage::Downloading,
            Stage::Extracting,
            Stage::DownloadingSpr,
            Stage::ExtractingSpr,
            Stage::CleaningUp,
            Stage::Done,
        ]
    );
}

#[test]
fn cancellation_at_a_stage_boundary_aborts() {
    let mut orch = Orchestrator::new(false, true);
    assert_eq!(orch.stage, Stage::Preparing);
    orch.on_stage_complete(true);
    assert_eq!(orch.stage, Stage::Aborted);
    assert!(orch.is_terminal_stage());
    // Terminal stages never change.
    orch.on_stage_complete(false);
    assert_eq!(orch.stage, Stage::Aborted);
}

#[test]
fn failure_short_circuits_every_later_stage() {
    let mut orch = Orchestrator::new(false, false);
    orch.on_stage_complete(false);
    orch.on_failure();
    assert_eq!(orch.stage, Stage::Failed);
    orch.on_stage_complete(false);
    assert_eq!(orch.stage, Stage::Failed);
    assert_eq!(orch.stage_message(), Some(Message::Error));
}

#[test]
fn stage_messages_announce_each_stage() {
    let mut orch = Orchestrator::new(false, true);
    assert_eq!(orch.stage_message(), Some(Message::Preparing));
    orch.on_stage_complete(false);
    assert_eq!(orch.stage_message(), Some(Message::Downloading));
    orch.on_stage_complete(false);
    assert_eq!(orch.stage_message(), Some(Message::Extracting));
    orch.on_stage_complete(false);
    assert_eq!(orch.stage_message(), Some(Message::DownloadingSpr));
    orch.on_stage_complete(false);
    assert_eq!(orch.stage_message(), Some(Message::ExtractingSpr));
    orch.on_stage_complete(false);
    assert_eq!(orch.stage_message(), Some(Message::CleaningUp));
    orch.on_stage_complete(false);
    assert_eq!(orch.stage_message(), Some(Message::Done));
}

#[test]
fn aborted_attempt_emits_no_stage_message() {
    let mut orch = Orchestrator::new(false, false);
    orch.on_stage_complete(true);
    assert_eq!(orch.stage_message(), None);
}

#[test]
fn variant_preference_selects_the_primary_role() {
    assert!(matches!(
        Orchestrator::new(false, false).primary_role(),
        AssetRole::DefVer
    ));
    assert!(matches!(
        Orchestrator::new(true, false).primary_role(),
        AssetRole::DlxVer
    ));
}
