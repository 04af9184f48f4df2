use lokan_hub::scene::{
    scene_apply_results, scene_rollback_results, scene_status, DeviceStatus, OpOutcome,
    SceneStatus,
};

fn ids(names: &[&str]) -> Vec<String> {
    names.iter().map(|s| s.to_string()).collect()
}

#[test]
fn scene_rolls_back_on_failure() {
    // Device "one" applies, device "two" fails: "one" is rolled back and the
    // scene reports a partial failure.
    let device_ids = ids(&["one", "two"]);
    let outcomes = vec![OpOutcome::Applied, OpOutcome::Failed];
    let (mut results, rollback) = scene_apply_results(&device_ids, &outcomes);
    assert_eq!(rollback, vec!["one".to_string()]);
    scene_rollback_results(&mut results, &rollback, &vec![true]);
    let status = scene_status(&results, true);
    assert!(matches!(status, SceneStatus::PartialFailure));
    let rolled_back = results
        .iter()
        .find(|r| r.device_id == "one" && matches!(r.status, DeviceStatus::RolledBack));
    assert!(rolled_back.is_some(), "device one should have been rolled back");
}

#[test]
fn all_operations_applied() {
    let device_ids = ids(&["one", "two"]);
    let outcomes = vec![OpOutcome::Applied, OpOutcome::Applied];
    let (results, rollback) = scene_apply_results(&device_ids, &outcomes);
    assert!(rollback.is_empty());
    assert!(results.iter().all(|r| matches!(r.status, DeviceStatus::Applied)));
    assert!(matches!(scene_status(&results, false), SceneStatus::Applied));
}

#[test]
fn later_operations_are_skipped_after_a_failure() {
    let device_ids = ids(&["one", "two", "three"]);
    let outcomes = vec![OpOutcome::Failed];
    let (results, rollback) = scene_apply_results(&device_ids, &outcomes);
    assert!(rollback.is_empty());
    assert!(matches!(results[0].status, DeviceStatus::Failed));
    assert!(matches!(results[1].status, DeviceStatus::Skipped));
    assert!(matches!(results[2].status, DeviceStatus::Skipped));
    assert!(matches!(scene_status(&results, true), SceneStatus::Failed));
}

#[test]
fn rollbacks_run_in_reverse_order_and_may_fail() {
    let device_ids = ids(&["one", "two", "three"]);
    let outcomes = vec![OpOutcome::Applied, OpOutcome::Applied, OpOutcome::Failed];
    let (mut results, rollback) = scene_apply_results(&device_ids, &outcomes);
    assert_eq!(rollback, vec!["two".to_string(), "one".to_string()]);
    scene_rollback_results(&mut results, &rollback, &vec![false, true]);
    // "two" failed to restore, "one" restored.
    assert!(matches!(results[3].status, DeviceStatus::Failed));
    assert!(matches!(results[4].status, DeviceStatus::RolledBack));
    assert!(matches!(scene_status(&results, true), SceneStatus::PartialFailure));
}
