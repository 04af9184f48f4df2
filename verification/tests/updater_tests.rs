use lokan_hub::updater::{Slot, SlotState, UpdaterState};

struct Expected {
    active: Option<Slot>,
    staging: Option<Slot>,
    last_failed: Option<Slot>,
    slots: Vec<(Slot, SlotState)>,
}

enum Action {
    Stage { artifact: &'static str },
    Commit { expect_ok: bool },
    MarkBad { expect_some: bool },
    Rollback { expect_ok: bool },
}

struct TestCase {
    name: &'static str,
    steps: Vec<Action>,
    health_results: Vec<bool>,
    expected: Expected,
}

/// Drive one commit: begin, consult the health verdict, finalize or fail.
fn commit_on_health(state: &mut UpdaterState, healthy: bool) -> Result<Slot, ()> {
    let slot = state.begin_commit().map_err(|_| ())?;
    if healthy {
        state.finalize_commit(slot);
        Ok(slot)
    } else {
        state.fail_commit(slot);
        Err(())
    }
}

#[test]
fn state_machine_transitions() {
    let cases = vec![
        TestCase {
            name: "happy_path_commit",
            steps: vec![
                Action::Stage { artifact: "artifact:v1" },
                Action::Commit { expect_ok: true },
            ],
            health_results: vec![true],
            expected: Expected {
                active: Some(Slot::B),
                staging: None,
                last_failed: None,
                slots: vec![(Slot::A, SlotState::Inactive), (Slot::B, SlotState::Active)],
            },
        },
        TestCase {
            name: "commit_failure_marks_bad",
            steps: vec![
                Action::Stage { artifact: "artifact:v2" },
                Action::Commit { expect_ok: false },
            ],
            health_results: vec![false],
            expected: Expected {
                active: Some(Slot::A),
                staging: None,
                last_failed: Some(Slot::B),
                slots: vec![(Slot::A, SlotState::Active), (Slot::B, SlotState::Bad)],
            },
        },
        TestCase {
            name: "mark_bad_then_rollback",
            steps: vec![
                Action::Stage { artifact: "artifact:v3" },
                Action::Commit { expect_ok: true },
                Action::MarkBad { expect_some: true },
                Action::Rollback { expect_ok: true },
            ],
            health_results: vec![true],
            expected: Expected {
                active: Some(Slot::A),
                staging: None,
                last_failed: None,
                slots: vec![(Slot::A, SlotState::Active), (Slot::B, SlotState::Inactive)],
            },
        },
    ];

    for case in cases {
        let mut state = UpdaterState::default();
        let mut health = case.health_results.iter();
        for step in &case.steps {
            match step {
                Action::Stage { artifact } => {
                    state
                        .stage(artifact.to_string(), None)
                        .unwrap_or_else(|err| panic!("{}: stage failed: {err:?}", case.name));
                }
                Action::Commit { expect_ok } => {
                    let healthy = *health.next().unwrap_or(&true);
                    let result = commit_on_health(&mut state, healthy);
                    assert_eq!(result.is_ok(), *expect_ok, "{}: commit expectation", case.name);
                }
                Action::MarkBad { expect_some } => {
                    let result = state.mark_active_bad();
                    assert_eq!(result.is_some(), *expect_some, "{}: mark_bad", case.name);
                }
                Action::Rollback { expect_ok } => {
                    let result = state.rollback();
                    assert_eq!(result.is_ok(), *expect_ok, "{}: rollback", case.name);
                }
            }
        }
        assert_eq!(state.active, case.expected.active, "{}: active slot", case.name);
        assert_eq!(state.staging, case.expected.staging, "{}: staging slot", case.name);
        assert_eq!(state.last_failed, case.expected.last_failed, "{}: last failed", case.name);
        for (slot, expected_state) in &case.expected.slots {
            let info = state.slots.get(*slot);
            assert_eq!(info.state, *expected_state, "{}: slot {slot:?} state", case.name);
        }
    }
}

#[test]
fn stage_same_artifact_is_idempotent() {
    let mut state = UpdaterState::default();
    let slot = state.stage("artifact:v1".to_string(), None).expect("stage");
    assert_eq!(slot, Slot::B);
    let generation = state.generation;
    let again = state.stage("artifact:v1".to_string(), None).expect("restage");
    assert_eq!(again, Slot::B);
    assert_eq!(state.generation, generation, "idempotent stage must not bump the generation");
    let other = state.stage("artifact:v2".to_string(), None).expect("overwrite");
    assert_eq!(other, Slot::B);
    assert_eq!(state.generation, generation + 1);
}

#[test]
fn stage_errors() {
    let mut state = UpdaterState::default();
    state.stage("a1".to_string(), None).expect("stage");
    let err = state.stage("a2".to_string(), Some(Slot::A)).unwrap_err();
    assert!(matches!(
        err,
        lokan_hub::updater::StageError::TargetSlotMismatch {
            expected: Slot::B,
            requested: Slot::A
        }
    ));
    state.begin_commit().expect("begin");
    let err = state.stage("a3".to_string(), None).unwrap_err();
    assert!(matches!(err, lokan_hub::updater::StageError::SlotBooting));

    let mut fresh = UpdaterState::default();
    let err = fresh.stage("a1".to_string(), Some(Slot::A)).unwrap_err();
    assert!(matches!(
        err,
        lokan_hub::updater::StageError::TargetSlotUnavailable(Slot::A)
    ));
}

#[test]
fn commit_and_rollback_errors() {
    let mut state = UpdaterState::default();
    assert!(matches!(
        state.begin_commit().unwrap_err(),
        lokan_hub::updater::CommitError::NothingStaged
    ));
    assert!(matches!(
        state.rollback().unwrap_err(),
        lokan_hub::updater::RollbackError::NoPreviousActive
    ));
    // A previous active without a recorded failure cannot roll back.
    state.stage("v1".to_string(), None).expect("stage");
    let slot = state.begin_commit().expect("begin");
    state.finalize_commit(slot);
    assert!(matches!(
        state.rollback().unwrap_err(),
        lokan_hub::updater::RollbackError::NoFailedSlot
    ));
}

#[test]
fn slot_other_swaps() {
    assert_eq!(Slot::A.other(), Slot::B);
    assert_eq!(Slot::B.other(), Slot::A);
}
