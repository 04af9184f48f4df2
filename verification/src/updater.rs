//! A/B slot state machine for over-the-air updates.
//!
//! The machine is specified twice: once as pure spec functions over
//! [`StateV`] (the mathematical model), and once as executable methods on
//! [`UpdaterState`] whose contracts tie each method to its spec function.
//! The well-formedness predicate [`StateV::inv`] is preserved by every
//! transition, which yields the A/B invariant for all reachable states.

use vstd::prelude::*;

verus! {

/// One of the two interchangeable deployment slots.
#[derive(Debug, Clone, Copy, PartialEq, Eq, Structural)]
pub enum Slot {
    A,
    B,
}

impl Slot {
    /// The other slot of the pair.
    pub fn other(self) -> (r: Slot)
        ensures
            r == self.spec_other(),
            r != self,
    {
        match self {
            Slot::A => Slot::B,
            Slot::B => Slot::A,
        }
    }

    /// What `other` returns.
    pub open spec fn spec_other(self) -> Slot {
        match self {
            Slot::A => Slot::B,
            Slot::B => Slot::A,
        }
    }
}

/// Lifecycle state of a single slot.
#[derive(Debug, Clone, Copy, PartialEq, Eq, Structural)]
pub enum SlotState {
    Inactive,
    Staged,
    Booting,
    Active,
    Bad,
}

/// Executable per-slot record: lifecycle state, staged artifact, and the
/// state-machine generation at which the slot was last mutated.
#[derive(Debug, Clone, PartialEq, Eq)]
pub struct SlotInfo {
    pub state: SlotState,
    pub artifact: Option<String>,
    pub generation: u64,
}

/// Mathematical model of a [`SlotInfo`].
pub struct SlotInfoV {
    pub state: SlotState,
    pub artifact: Option<Seq<char>>,
    pub generation: u64,
}

impl View for SlotInfo {
    type V = SlotInfoV;

    open spec fn view(&self) -> SlotInfoV {
        SlotInfoV {
            state: self.state,
            artifact: match self.artifact {
                Some(ref s) => Some(s@),
                None => None,
            },
            generation: self.generation,
        }
    }
}

impl SlotInfo {
    /// A fresh slot record in the given state, with no artifact.
    pub fn new(state: SlotState) -> (r: SlotInfo)
        ensures
            r@ == (SlotInfoV { state, artifact: None, generation: 0 }),
    {
        SlotInfo { state, artifact: None, generation: 0 }
    }
}

/// The two slot records of the machine.
#[derive(Debug, Clone, PartialEq, Eq)]
pub struct SlotPair {
    pub a: SlotInfo,
    pub b: SlotInfo,
}

impl SlotPair {
    /// The record of the given slot.
    pub fn get(&self, slot: Slot) -> (r: &SlotInfo)
        ensures
            r@ == self@.get(slot),
    {
        match slot {
            Slot::A => &self.a,
            Slot::B => &self.b,
        }
    }
}

/// Mathematical model of a [`SlotPair`].
pub struct SlotPairV {
    pub a: SlotInfoV,
    pub b: SlotInfoV,
}

impl SlotPairV {
    /// The model record of the given slot.
    pub open spec fn get(self, slot: Slot) -> SlotInfoV {
        match slot {
            Slot::A => self.a,
            Slot::B => self.b,
        }
    }

    /// This pair with the given slot's record replaced.
    pub open spec fn set(self, slot: Slot, info: SlotInfoV) -> SlotPairV {
        match slot {
            Slot::A => SlotPairV { a: info, ..self },
            Slot::B => SlotPairV { b: info, ..self },
        }
    }
}

impl View for SlotPair {
    type V = SlotPairV;

    open spec fn view(&self) -> SlotPairV {
        SlotPairV { a: self.a@, b: self.b@ }
    }
}

/// Why a stage request was rejected.
#[derive(Debug, Clone, PartialEq, Eq)]
pub enum StageError {
    /// Neither slot is available for staging.
    NoAvailableSlot,
    /// The staging slot is booting and cannot be restaged.
    SlotBooting,
    /// The explicitly requested slot is not available.
    TargetSlotUnavailable(Slot),
    /// A slot is already staging and the requested target differs from it.
    TargetSlotMismatch { expected: Slot, requested: Slot },
    /// Bundle verification rejected the artifact.
    InvalidBundle(String),
}

/// Why a commit request was rejected.
#[derive(Debug, Clone, PartialEq, Eq, Structural)]
pub enum CommitError {
    /// No artifact is staged.
    NothingStaged,
    /// The staging slot is in a state from which a commit cannot begin.
    InvalidStageState,
}

/// Why a rollback request was rejected.
#[derive(Debug, Clone, PartialEq, Eq, Structural)]
pub enum RollbackError {
    /// No previous active slot is recorded.
    NoPreviousActive,
    /// No failed slot is recorded.
    NoFailedSlot,
}

/// Durable state of the updater state machine.
#[derive(Debug, Clone, PartialEq, Eq)]
pub struct UpdaterState {
    pub generation: u64,
    pub active: Option<Slot>,
    pub previous_active: Option<Slot>,
    pub staging: Option<Slot>,
    pub last_failed: Option<Slot>,
    pub slots: SlotPair,
}

/// Mathematical model of an [`UpdaterState`].
pub struct StateV {
    pub generation: u64,
    pub active: Option<Slot>,
    pub previous_active: Option<Slot>,
    pub staging: Option<Slot>,
    pub last_failed: Option<Slot>,
    pub slots: SlotPairV,
}

impl View for UpdaterState {
    type V = StateV;

    open spec fn view(&self) -> StateV {
        StateV {
            generation: self.generation,
            active: self.active,
            previous_active: self.previous_active,
            staging: self.staging,
            last_failed: self.last_failed,
            slots: self.slots@,
        }
    }
}

/// Error model for the stage transition (no artifact payload needed).
pub enum StageErrV {
    Mismatch { expected: Slot, requested: Slot },
    Booting,
    Unavailable(Slot),
    NoSlot,
}

impl StateV {
    /// A slot may receive a stage if it is not the live active slot and its
    /// state is `Inactive`, `Bad` or `Staged`.
    pub open spec fn available_for_stage(self, slot: Slot) -> bool {
        &&& !(self.active == Some(slot) && self.slots.get(slot).state is Active)
        &&& (self.slots.get(slot).state is Inactive || self.slots.get(slot).state is Bad
            || self.slots.get(slot).state is Staged)
    }

    /// Well-formedness of the machine, preserved by every transition:
    /// a slot is `Active` exactly when `active` names it; a slot is `Staged`
    /// or `Booting` exactly when `staging` names it; a staging slot rules out
    /// a recorded previous active; once both a previous active and a failure
    /// are recorded, no slot is live; slot generations never exceed the
    /// machine generation.
    pub open spec fn inv(self) -> bool {
        &&& (self.slots.a.state is Active <==> self.active == Some(Slot::A))
        &&& (self.slots.b.state is Active <==> self.active == Some(Slot::B))
        &&& ((self.slots.a.state is Staged || self.slots.a.state is Booting) <==> self.staging
            == Some(Slot::A))
        &&& ((self.slots.b.state is Staged || self.slots.b.state is Booting) <==> self.staging
            == Some(Slot::B))
        &&& self.staging is Some ==> self.previous_active is None
        &&& (self.previous_active is Some && self.last_failed is Some) ==> self.active is None
    }

    /// The slot a fresh stage would pick: the explicit target, or the first
    /// available slot in `[A, B]` order.
    pub open spec fn stage_candidate(self, target: Option<Slot>) -> Option<Slot> {
        match target {
            Some(sl) => if self.available_for_stage(sl) { Some(sl) } else { None },
            None => if self.available_for_stage(Slot::A) {
                Some(Slot::A)
            } else if self.available_for_stage(Slot::B) {
                Some(Slot::B)
            } else {
                None
            },
        }
    }

    /// Outcome of `stage`: the chosen slot or the error, and the state after.
    pub open spec fn stage_outcome(self, artifact: Seq<char>, target: Option<Slot>) -> (
        Result<Slot, StageErrV>,
        StateV,
    ) {
        if let Some(st) = self.staging {
            if target is Some && target != Some(st) {
                (Err(StageErrV::Mismatch { expected: st, requested: target.unwrap() }), self)
            } else if self.slots.get(st).state is Booting {
                (Err(StageErrV::Booting), self)
            } else if self.slots.get(st).state is Staged && self.slots.get(st).artifact == Some(
                artifact,
            ) {
                (Ok(st), self)
            } else {
                (Ok(st), self.stage_into(st, artifact))
            }
        } else {
            match self.stage_candidate(target) {
                Some(cand) => (
                    Ok(cand),
                    StateV { staging: Some(cand), ..self.stage_into(cand, artifact) },
                ),
                None => match target {
                    Some(req) => (Err(StageErrV::Unavailable(req)), self),
                    None => (Err(StageErrV::NoSlot), self),
                },
            }
        }
    }

    /// Common part of a mutating stage: the slot becomes `Staged` with the
    /// new artifact, the generation is bumped and recorded on the slot, and
    /// any recorded previous active is cleared.
    pub open spec fn stage_into(self, slot: Slot, artifact: Seq<char>) -> StateV {
        StateV {
            generation: (self.generation + 1) as u64,
            previous_active: None,
            slots: self.slots.set(
                slot,
                SlotInfoV {
                    state: SlotState::Staged,
                    artifact: Some(artifact),
                    generation: (self.generation + 1) as u64,
                },
            ),
            ..self
        }
    }

    /// Outcome of `begin_commit`: the booting slot or the error, and the
    /// state after.
    pub open spec fn begin_commit_outcome(self) -> (Result<Slot, CommitError>, StateV) {
        match self.staging {
            Some(st) => if self.slots.get(st).state is Staged {
                (
                    Ok(st),
                    StateV {
                        slots: self.slots.set(
                            st,
                            SlotInfoV { state: SlotState::Booting, ..self.slots.get(st) },
                        ),
                        ..self
                    },
                )
            } else if self.slots.get(st).state is Booting {
                (Ok(st), self)
            } else {
                (Err(CommitError::InvalidStageState), self)
            },
            None => (Err(CommitError::NothingStaged), self),
        }
    }

    /// State after `finalize_commit(slot)`.
    pub open spec fn finalize_commit_post(self, slot: Slot) -> StateV {
        let demoted = match self.active {
            Some(prev) => if prev != slot {
                self.slots.set(
                    prev,
                    SlotInfoV { state: SlotState::Inactive, ..self.slots.get(prev) },
                )
            } else {
                self.slots
            },
            None => self.slots,
        };
        StateV {
            active: Some(slot),
            previous_active: if self.active == Some(slot) { None } else { self.active },
            staging: None,
            last_failed: None,
            slots: demoted.set(slot, SlotInfoV { state: SlotState::Active, ..demoted.get(slot) }),
            ..self
        }
    }

    /// State after `fail_commit(slot)`.
    pub open spec fn fail_commit_post(self, slot: Slot) -> StateV {
        StateV {
            staging: None,
            last_failed: Some(slot),
            slots: self.slots.set(slot, SlotInfoV { state: SlotState::Bad, ..self.slots.get(slot) }),
            ..self
        }
    }

    /// Outcome of `mark_active_bad`: the demoted slot if one was live, and
    /// the state after.
    pub open spec fn mark_active_bad_outcome(self) -> (Option<Slot>, StateV) {
        match self.active {
            Some(a) => if self.slots.get(a).state is Active {
                (
                    Some(a),
                    StateV {
                        active: None,
                        last_failed: Some(a),
                        slots: self.slots.set(
                            a,
                            SlotInfoV { state: SlotState::Bad, ..self.slots.get(a) },
                        ),
                        ..self
                    },
                )
            } else {
                (None, self)
            },
            None => (None, self),
        }
    }

    /// Outcome of `rollback`: the restored slot or the error, and the state
    /// after.
    pub open spec fn rollback_outcome(self) -> (Result<Slot, RollbackError>, StateV) {
        match self.previous_active {
            Some(prev) => match self.last_failed {
                Some(failed) => {
                    let restored = self.slots.set(
                        prev,
                        SlotInfoV { state: SlotState::Active, ..self.slots.get(prev) },
                    );
                    let demoted = if restored.get(failed).state is Bad {
                        restored.set(
                            failed,
                            SlotInfoV { state: SlotState::Inactive, ..restored.get(failed) },
                        )
                    } else {
                        restored
                    };
                    (
                        Ok(prev),
                        StateV {
                            active: Some(prev),
                            previous_active: None,
                            last_failed: None,
                            staging: None,
                            slots: demoted,
                            ..self
                        },
                    )
                },
                None => (Err(RollbackError::NoFailedSlot), self),
            },
            None => (Err(RollbackError::NoPreviousActive), self),
        }
    }

    /// The initial state: slot A active, slot B empty.
    pub open spec fn initial() -> StateV {
        StateV {
            generation: 0,
            active: Some(Slot::A),
            previous_active: None,
            staging: None,
            last_failed: None,
            slots: SlotPairV {
                a: SlotInfoV { state: SlotState::Active, artifact: None, generation: 0 },
                b: SlotInfoV { state: SlotState::Inactive, artifact: None, generation: 0 },
            },
        }
    }
}

impl Default for UpdaterState {
    /// The initial machine: slot A active, slot B inactive.
    fn default() -> (r: UpdaterState)
        ensures
            r@ == StateV::initial(),
            r@.inv(),
    {
        UpdaterState {
            generation: 0,
            active: Some(Slot::A),
            previous_active: None,
            staging: None,
            last_failed: None,
            slots: SlotPair {
                a: SlotInfo::new(SlotState::Active),
                b: SlotInfo::new(SlotState::Inactive),
            },
        }
    }
}

impl UpdaterState {
    /// Whether a slot may receive a fresh stage.
    pub fn is_slot_available_for_stage(&self, slot: Slot) -> (r: bool)
        ensures
            r == self@.available_for_stage(slot),
    {
        let info = self.slots.get(slot);
        if self.active == Some(slot) && info.state == SlotState::Active {
            return false;
        }
        info.state == SlotState::Inactive || info.state == SlotState::Bad || info.state
            == SlotState::Staged
    }

    /// Stage `artifact` into a slot. With a slot already staging, an explicit
    /// differing target is rejected, a booting slot is rejected, and staging
    /// the identical artifact again is a no-op; otherwise the artifact
    /// overwrites the staging slot. With no slot staging, the explicit target
    /// (or the first available slot in `[A, B]` order) is staged.
    pub fn stage(&mut self, artifact: String, target: Option<Slot>) -> (r: Result<
        Slot,
        StageError,
    >)
        requires
            old(self).generation < u64::MAX,
        ensures
            final(self)@ == old(self)@.stage_outcome(artifact@, target).1,
            match old(self)@.stage_outcome(artifact@, target).0 {
                Ok(sl) => r matches Ok(got) && got == sl,
                Err(e) => match e {
                    StageErrV::Mismatch { expected, requested } => r matches Err(
                        StageError::TargetSlotMismatch { expected: e2, requested: r2 },
                    ) && e2 == expected && r2 == requested,
                    StageErrV::Booting => r matches Err(StageError::SlotBooting),
                    StageErrV::Unavailable(sl) => r matches Err(
                        StageError::TargetSlotUnavailable(got),
                    ) && got == sl,
                    StageErrV::NoSlot => r matches Err(StageError::NoAvailableSlot),
                },
            },
            old(self)@.inv() ==> final(self)@.inv(),
    {
        if let Some(st) = self.staging {
            if let Some(requested) = target {
                if requested != st {
                    return Err(StageError::TargetSlotMismatch { expected: st, requested });
                }
            }
            let booting = self.slots.get(st).state == SlotState::Booting;
            if booting {
                return Err(StageError::SlotBooting);
            }
            let same = self.slots.get(st).state == SlotState::Staged && match &self.slots.get(
                st,
            ).artifact {
                Some(existing) => *existing == artifact,
                None => false,
            };
            if same {
                return Ok(st);
            }
            self.stage_write(st, artifact);
            return Ok(st);
        }

        let candidate: Slot = match target {
            Some(sl) => {
                if !self.is_slot_available_for_stage(sl) {
                    return Err(StageError::TargetSlotUnavailable(sl));
                }
                sl
            },
            None => {
                if self.is_slot_available_for_stage(Slot::A) {
                    Slot::A
                } else if self.is_slot_available_for_stage(Slot::B) {
                    Slot::B
                } else {
                    return Err(StageError::NoAvailableSlot);
                }
            },
        };
        self.stage_write(candidate, artifact);
        self.staging = Some(candidate);
        Ok(candidate)
    }

    /// Write a staged artifact into `slot`, bumping the generation and
    /// clearing the recorded previous active.
    fn stage_write(&mut self, slot: Slot, artifact: String)
        requires
            old(self).generation < u64::MAX,
        ensures
            final(self)@ == old(self)@.stage_into(slot, artifact@),
    {
        self.generation = self.generation + 1;
        self.previous_active = None;
        let info = SlotInfo {
            state: SlotState::Staged,
            artifact: Some(artifact),
            generation: self.generation,
        };
        match slot {
            Slot::A => {
                self.slots.a = info;
            },
            Slot::B => {
                self.slots.b = info;
            },
        }
    }

    /// Begin committing the staged artifact: the staging slot moves from
    /// `Staged` to `Booting`; an already-booting slot succeeds idempotently.
    pub fn begin_commit(&mut self) -> (r: Result<Slot, CommitError>)
        ensures
            final(self)@ == old(self)@.begin_commit_outcome().1,
            r == old(self)@.begin_commit_outcome().0,
            old(self)@.inv() ==> final(self)@.inv(),
    {
        let st = match self.staging {
            Some(st) => st,
            None => {
                return Err(CommitError::NothingStaged);
            },
        };
        match self.slots.get(st).state {
            SlotState::Staged => {
                let prev = self.slots.get(st);
                let info = SlotInfo {
                    state: SlotState::Booting,
                    artifact: prev.artifact.clone(),
                    generation: prev.generation,
                };
                self.set_slot(st, info);
                assert(final(self)@.slots =~= old(self)@.begin_commit_outcome().1.slots);
                Ok(st)
            },
            SlotState::Booting => Ok(st),
            _ => Err(CommitError::InvalidStageState),
        }
    }

    /// Replace the record of `slot`.
    fn set_slot(&mut self, slot: Slot, info: SlotInfo)
        ensures
            final(self)@ == (StateV { slots: old(self)@.slots.set(slot, info@), ..old(self)@ }),
    {
        match slot {
            Slot::A => {
                self.slots.a = info;
            },
            Slot::B => {
                self.slots.b = info;
            },
        }
    }

    /// Make `slot` the live slot: the old active slot (if different) becomes
    /// `Inactive` and is recorded as the previous active; staging and the
    /// failure record are cleared.
    pub fn finalize_commit(&mut self, slot: Slot)
        ensures
            final(self)@ == old(self)@.finalize_commit_post(slot),
            (old(self)@.inv() && old(self)@.staging == Some(slot)) ==> final(self)@.inv(),
    {
        let previous_active = self.active;
        if let Some(prev) = previous_active {
            if prev != slot {
                let info = self.slots.get(prev);
                let demoted = SlotInfo {
                    state: SlotState::Inactive,
                    artifact: info.artifact.clone(),
                    generation: info.generation,
                };
                self.set_slot(prev, demoted);
            }
        }
        let info = self.slots.get(slot);
        let promoted = SlotInfo {
            state: SlotState::Active,
            artifact: info.artifact.clone(),
            generation: info.generation,
        };
        self.set_slot(slot, promoted);
        self.previous_active = match previous_active {
            Some(prev) => if prev == slot {
                None
            } else {
                Some(prev)
            },
            None => None,
        };
        self.active = Some(slot);
        self.staging = None;
        self.last_failed = None;
        assert(final(self)@.slots =~= old(self)@.finalize_commit_post(slot).slots);
    }

    /// Record a failed commit: `slot` becomes `Bad`, the failure is recorded,
    /// staging is cleared, and the previously active slot retains control.
    pub fn fail_commit(&mut self, slot: Slot)
        ensures
            final(self)@ == old(self)@.fail_commit_post(slot),
            (old(self)@.inv() && old(self)@.staging == Some(slot)) ==> final(self)@.inv(),
    {
        let info = self.slots.get(slot);
        let bad = SlotInfo {
            state: SlotState::Bad,
            artifact: info.artifact.clone(),
            generation: info.generation,
        };
        self.set_slot(slot, bad);
        self.last_failed = Some(slot);
        self.staging = None;
        assert(final(self)@.slots =~= old(self)@.fail_commit_post(slot).slots);
    }

    /// Demote the live slot to `Bad`, clearing `active` and recording the
    /// failure. Returns the demoted slot, or `None` when no slot is live in
    /// state `Active`.
    pub fn mark_active_bad(&mut self) -> (r: Option<Slot>)
        ensures
            final(self)@ == old(self)@.mark_active_bad_outcome().1,
            r == old(self)@.mark_active_bad_outcome().0,
            old(self)@.inv() ==> final(self)@.inv(),
    {
        let active = match self.active {
            Some(a) => a,
            None => {
                return None;
            },
        };
        if self.slots.get(active).state != SlotState::Active {
            return None;
        }
        let info = self.slots.get(active);
        let bad = SlotInfo {
            state: SlotState::Bad,
            artifact: info.artifact.clone(),
            generation: info.generation,
        };
        self.set_slot(active, bad);
        self.active = None;
        self.last_failed = Some(active);
        assert(final(self)@.slots =~= old(self)@.mark_active_bad_outcome().1.slots);
        Some(active)
    }

    /// Restore the recorded previous active slot: it becomes `Active` again,
    /// a failed slot still marked `Bad` is demoted to `Inactive`, and the
    /// previous-active, failure and staging records are cleared.
    pub fn rollback(&mut self) -> (r: Result<Slot, RollbackError>)
        ensures
            final(self)@ == old(self)@.rollback_outcome().1,
            r == old(self)@.rollback_outcome().0,
            old(self)@.inv() ==> final(self)@.inv(),
    {
        let prev = match self.previous_active {
            Some(p) => p,
            None => {
                return Err(RollbackError::NoPreviousActive);
            },
        };
        let failed = match self.last_failed {
            Some(f) => f,
            None => {
                return Err(RollbackError::NoFailedSlot);
            },
        };
        let info = self.slots.get(prev);
        let restored = SlotInfo {
            state: SlotState::Active,
            artifact: info.artifact.clone(),
            generation: info.generation,
        };
        self.set_slot(prev, restored);
        if self.slots.get(failed).state == SlotState::Bad {
            let finfo = self.slots.get(failed);
            let demoted = SlotInfo {
                state: SlotState::Inactive,
                artifact: finfo.artifact.clone(),
                generation: finfo.generation,
            };
            self.set_slot(failed, demoted);
        }
        self.active = Some(prev);
        self.previous_active = None;
        self.last_failed = None;
        self.staging = None;
        assert(final(self)@.slots =~= old(self)@.rollback_outcome().1.slots);
        Ok(prev)
    }
}

/// The update service's name, as observability and metrics label it.
pub const SERVICE_NAME: &'static str = "updater";

/// Install the updater's service name on a fresh observability handle, as a
/// test harness does before exercising the service.
pub fn init_for_tests(obs: &mut crate::obs::ObsInit) -> (r: Result<(), crate::obs::ObsInitError>)
    ensures
        old(obs).service is None ==> r is Ok,
        old(obs).service is Some ==> (r matches Err(e) && e is AlreadyInitialized),
{
    obs.init(SERVICE_NAME)
}

/// One operation of the updater, as driven by the update service: commit
/// outcomes always name the slot returned by `begin_commit`, that is the
/// staging slot.
pub enum UpdaterOp {
    Stage { artifact: Seq<char>, target: Option<Slot> },
    BeginCommit,
    CommitFinalized,
    CommitFailed,
    MarkActiveBad,
    Rollback,
}

/// The state after one operation. A finalize or fail with nothing staged
/// leaves the state unchanged, as the service refuses to commit then.
pub open spec fn apply_op(s: StateV, op: UpdaterOp) -> StateV {
    match op {
        UpdaterOp::Stage { artifact, target } => s.stage_outcome(artifact, target).1,
        UpdaterOp::BeginCommit => s.begin_commit_outcome().1,
        UpdaterOp::CommitFinalized => match s.staging {
            Some(st) => s.finalize_commit_post(st),
            None => s,
        },
        UpdaterOp::CommitFailed => match s.staging {
            Some(st) => s.fail_commit_post(st),
            None => s,
        },
        UpdaterOp::MarkActiveBad => s.mark_active_bad_outcome().1,
        UpdaterOp::Rollback => s.rollback_outcome().1,
    }
}

/// The state after a finite sequence of operations.
pub open spec fn apply_ops(s: StateV, ops: Seq<UpdaterOp>) -> StateV
    decreases ops.len(),
{
    if ops.len() == 0 {
        s
    } else {
        apply_ops(apply_op(s, ops[0]), ops.skip(1))
    }
}

/// Each single operation preserves well-formedness.
pub proof fn lemma_op_preserves_inv(s: StateV, op: UpdaterOp)
    requires
        s.inv(),
    ensures
        apply_op(s, op).inv(),
{
    match op {
        UpdaterOp::Stage { artifact, target } => {
            assert(s.stage_outcome(artifact, target).1.inv());
        },
        UpdaterOp::BeginCommit => {
            assert(s.begin_commit_outcome().1.inv());
        },
        UpdaterOp::CommitFinalized => {
            if let Some(st) = s.staging {
                assert(s.finalize_commit_post(st).inv());
            }
        },
        UpdaterOp::CommitFailed => {
            if let Some(st) = s.staging {
                assert(s.fail_commit_post(st).inv());
            }
        },
        UpdaterOp::MarkActiveBad => {
            assert(s.mark_active_bad_outcome().1.inv());
        },
        UpdaterOp::Rollback => {
            assert(s.rollback_outcome().1.inv());
        },
    }
}

/// A/B invariant: every state reachable from a well-formed state (in
/// particular, from the initial state) by any finite sequence of updater
/// operations is well-formed — at most one slot is `Active`, and `staging`,
/// when present, names the unique `Staged`/`Booting` slot.
pub proof fn lemma_ab_invariant(s: StateV, ops: Seq<UpdaterOp>)
    requires
        s.inv(),
    ensures
        apply_ops(s, ops).inv(),
    decreases ops.len(),
{
    if ops.len() > 0 {
        lemma_op_preserves_inv(s, ops[0]);
        lemma_ab_invariant(apply_op(s, ops[0]), ops.skip(1));
    }
}

/// Stage idempotency: staging an artifact that already sits, staged, in the
/// staging slot changes nothing — in particular the generation is not bumped.
pub proof fn lemma_stage_idempotent(s: StateV, artifact: Seq<char>, target: Option<Slot>)
    requires
        s.staging matches Some(st) && s.slots.get(st).state is Staged && s.slots.get(st).artifact
            == Some(artifact),
        target is Some ==> target == s.staging,
    ensures
        s.stage_outcome(artifact, target).1 == s,
        s.stage_outcome(artifact, target).1.generation == s.generation,
        s.stage_outcome(artifact, target).0 == Ok::<Slot, StageErrV>(s.staging.unwrap()),
{
}

} // verus!
