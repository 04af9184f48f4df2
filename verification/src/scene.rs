//! Scene application decisions. The device I/O layer applies operations in
//! order, stopping at the first failure, and hands the outcomes here: this
//! module decides which operations are skipped, which previously applied
//! devices must be rolled back (in reverse order), and the overall verdict.

use vstd::prelude::*;

verus! {

/// Per-device outcome of a scene.
#[derive(Debug, Clone, Copy, PartialEq, Eq, Structural)]
pub enum DeviceStatus {
    Applied,
    RolledBack,
    Failed,
    Skipped,
}

/// Overall verdict of a scene.
#[derive(Debug, Clone, Copy, PartialEq, Eq, Structural)]
pub enum SceneStatus {
    Applied,
    PartialFailure,
    Failed,
}

/// One device's entry in the scene response.
#[derive(Debug, Clone, PartialEq, Eq)]
pub struct DeviceApplyResult {
    pub device_id: String,
    pub status: DeviceStatus,
}

/// What happened when the I/O layer tried one operation.
#[derive(Debug, Clone, Copy, PartialEq, Eq, Structural)]
pub enum OpOutcome {
    /// The device's prior state was read and the new state applied.
    Applied,
    /// Reading or writing the device failed.
    Failed,
}

/// The status each operation receives, given the outcomes of the attempted
/// prefix: attempted operations keep their outcome, everything after the
/// first failure is skipped.
pub open spec fn spec_op_status(outcomes: Seq<OpOutcome>, i: int) -> DeviceStatus {
    if 0 <= i < outcomes.len() {
        if outcomes[i] is Applied {
            DeviceStatus::Applied
        } else {
            DeviceStatus::Failed
        }
    } else {
        DeviceStatus::Skipped
    }
}

/// Whether any attempted operation failed.
pub open spec fn spec_any_failed(outcomes: Seq<OpOutcome>) -> bool {
    exists|i: int| 0 <= i < outcomes.len() && (#[trigger] outcomes[i]) is Failed
}

/// Lay out the per-device results of the apply phase. `outcomes` covers the
/// attempted prefix of the operations, in order; only its last entry may be
/// a failure. Returns one result per operation, and the device ids to roll
/// back: the successfully applied ones, most recent first, empty when
/// nothing failed.
pub fn scene_apply_results(device_ids: &Vec<String>, outcomes: &Vec<OpOutcome>) -> (r: (
    Vec<DeviceApplyResult>,
    Vec<String>,
))
    requires
        outcomes@.len() <= device_ids@.len(),
        forall|i: int| 0 <= i < outcomes@.len() - 1 ==> (#[trigger] outcomes@[i]) is Applied,
        outcomes@.len() < device_ids@.len() ==> outcomes@.len() > 0 && outcomes@.last() is Failed,
    ensures
        r.0@.len() == device_ids@.len(),
        forall|i: int| 0 <= i < device_ids@.len() ==> (#[trigger] r.0@[i]).status == spec_op_status(
            outcomes@,
            i,
        ) && r.0@[i].device_id@ == device_ids@[i]@,
        !spec_any_failed(outcomes@) ==> r.1@.len() == 0,
        spec_any_failed(outcomes@) ==> {
            &&& r.1@.len() == outcomes@.len() - 1
            &&& forall|j: int| 0 <= j < r.1@.len() ==> (#[trigger] r.1@[j])@ == device_ids@[outcomes@.len() - 2 - j]@
        },
{
    let mut results: Vec<DeviceApplyResult> = Vec::new();
    let mut failed = false;
    let mut i: usize = 0;
    while i < device_ids.len()
        invariant
            i <= device_ids@.len(),
            outcomes@.len() <= device_ids@.len(),
            results@.len() == i,
            forall|j: int| 0 <= j < i ==> (#[trigger] results@[j]).status == spec_op_status(
                outcomes@,
                j,
            ) && results@[j].device_id@ == device_ids@[j]@,
            failed == exists|j: int|
                0 <= j < i && j < outcomes@.len() && (#[trigger] outcomes@[j]) is Failed,
        decreases device_ids@.len() - i,
    {
        let status = if i < outcomes.len() {
            match outcomes[i] {
                OpOutcome::Applied => DeviceStatus::Applied,
                OpOutcome::Failed => DeviceStatus::Failed,
            }
        } else {
            DeviceStatus::Skipped
        };
        if i < outcomes.len() && matches!(outcomes[i], OpOutcome::Failed) {
            failed = true;
        }
        results.push(DeviceApplyResult { device_id: device_ids[i].clone(), status });
        i = i + 1;
    }

    let mut rollback: Vec<String> = Vec::new();
    if failed {
        assert(spec_any_failed(outcomes@));
        assert(outcomes@.last() is Failed || outcomes@.len() == device_ids@.len());
        let applied = outcomes.len() - 1;
        let mut k: usize = applied;
        while k > 0
            invariant
                k <= applied,
                applied == outcomes@.len() - 1,
                outcomes@.len() <= device_ids@.len(),
                rollback@.len() == applied - k,
                forall|j: int| 0 <= j < rollback@.len() ==> (#[trigger] rollback@[j])@
                    == device_ids@[applied - 1 - j]@,
            decreases k,
        {
            k = k - 1;
            rollback.push(device_ids[k].clone());
        }
    } else {
        assert(!spec_any_failed(outcomes@)) by {
            assert(forall|j: int|
                0 <= j < outcomes@.len() ==> !((#[trigger] outcomes@[j]) is Failed));
        }
    }
    (results, rollback)
}

/// Fold the rollback outcomes into the response: each rolled-back device
/// gains an entry, `RolledBack` when its restore succeeded and `Failed` when
/// the restore itself failed.
pub fn scene_rollback_results(
    results: &mut Vec<DeviceApplyResult>,
    rollback_ids: &Vec<String>,
    restore_ok: &Vec<bool>,
)
    requires
        restore_ok@.len() == rollback_ids@.len(),
    ensures
        final(results)@.len() == old(results)@.len() + rollback_ids@.len(),
        forall|j: int| 0 <= j < old(results)@.len() ==> final(results)@[j] == old(results)@[j],
        forall|j: int| 0 <= j < rollback_ids@.len() ==> {
            let entry = #[trigger] final(results)@[old(results)@.len() + j];
            &&& entry.device_id@ == rollback_ids@[j]@
            &&& entry.status == (if restore_ok@[j] {
                DeviceStatus::RolledBack
            } else {
                DeviceStatus::Failed
            })
        },
{
    let mut j: usize = 0;
    while j < rollback_ids.len()
        invariant
            j <= rollback_ids@.len(),
            restore_ok@.len() == rollback_ids@.len(),
            results@.len() == old(results)@.len() + j,
            forall|k: int| 0 <= k < old(results)@.len() ==> #[trigger] results@[k] == old(
                results,
            )@[k],
            forall|k: int| 0 <= k < j ==> {
                let entry = #[trigger] results@[old(results)@.len() + k];
                &&& entry.device_id@ == rollback_ids@[k]@
                &&& entry.status == (if restore_ok@[k] {
                    DeviceStatus::RolledBack
                } else {
                    DeviceStatus::Failed
                })
            },
        decreases rollback_ids@.len() - j,
    {
        let status = if restore_ok[j] {
            DeviceStatus::RolledBack
        } else {
            DeviceStatus::Failed
        };
        results.push(DeviceApplyResult { device_id: rollback_ids[j].clone(), status });
        j = j + 1;
    }
}

/// Whether some entry was rolled back.
pub open spec fn spec_any_rolled_back(results: Seq<DeviceApplyResult>) -> bool {
    exists|i: int| 0 <= i < results.len() && (#[trigger] results[i]).status is RolledBack
}

/// The scene's overall outcome: `Applied` when nothing failed; otherwise
/// `PartialFailure` when at least one device was restored, else `Failed`.
pub fn scene_status(results: &Vec<DeviceApplyResult>, failure_encountered: bool) -> (r:
    SceneStatus)
    ensures
        !failure_encountered ==> r == SceneStatus::Applied,
        failure_encountered && spec_any_rolled_back(results@) ==> r == SceneStatus::PartialFailure,
        failure_encountered && !spec_any_rolled_back(results@) ==> r == SceneStatus::Failed,
{
    if !failure_encountered {
        return SceneStatus::Applied;
    }
    let mut i: usize = 0;
    while i < results.len()
        invariant
            i <= results@.len(),
            failure_encountered,
            forall|j: int| 0 <= j < i ==> !((#[trigger] results@[j]).status is RolledBack),
        decreases results@.len() - i,
    {
        if matches!(results[i].status, DeviceStatus::RolledBack) {
            assert(spec_any_rolled_back(results@));
            return SceneStatus::PartialFailure;
        }
        i = i + 1;
    }
    SceneStatus::Failed
}

} // verus!
