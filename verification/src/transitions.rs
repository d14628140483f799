//! The activate/deactivate state machine over an abstract filesystem.
//!
//! The surrounding program performs the filesystem actions; the functions
//! here decide, from a classified mount state, which step comes next, exactly
//! as the lifecycle demands. An abstract model of the two directories and the
//! mount flag lets the round-trip and idempotence laws of the lifecycle be
//! stated and proved against the same classification table the program runs.

use crate::mount_state::{spec_mount_state, FsProbe, MountState};
use vstd::prelude::*;

verus! {

/// One filesystem action of the lifecycle, performed by the surrounding
/// program.
#[derive(Clone, Copy, PartialEq, Eq, Debug, Structural)]
pub enum OverlayAction {
    /// Rename the original directory to the shadow path.
    RenameOriginalToMoved,
    /// Create the original directory, empty.
    CreateOriginalDir,
    /// Remove the original directory if it exists and is empty.
    RemoveOriginalDir,
    /// Mount the overlay at the original path.
    MountOverlay,
    /// Unmount the overlay.
    UnmountOverlay,
    /// Rename the shadow directory back to the original path.
    RenameMovedToOriginal,
}

/// The abstract filesystem: the two directories (absent, or present with
/// their underlying contents) and whether the overlay is mounted. While
/// mounted, the original directory's underlying contents are unchanged
/// beneath the mount.
pub struct FsModel {
    /// The original game directory's underlying contents, if it exists.
    pub original: Option<Seq<int>>,
    /// The shadow directory's contents, if it exists.
    pub moved: Option<Seq<int>>,
    /// Whether the overlay is mounted at the original path.
    pub mounted: bool,
}

/// What a probe of the model observes. While mounted, a real probe of the
/// original directory reads through the overlay; the classification table
/// never consults the original's emptiness in that case, so the model may
/// report the underlying contents.
pub open spec fn spec_probe_of(m: FsModel) -> FsProbe {
    FsProbe {
        original_is_dir: m.original is Some,
        original_empty: m.original is Some && m.original.unwrap().len() == 0,
        moved_is_dir: m.moved is Some,
        moved_empty: m.moved is Some && m.moved.unwrap().len() == 0,
        mounted: m.mounted,
    }
}

/// A mount can only exist where the original directory does.
pub open spec fn spec_model_wf(m: FsModel) -> bool {
    m.mounted ==> m.original is Some
}

/// How one action changes the model. An action whose precondition does not
/// hold changes nothing, matching the skip-if-absent behaviour of the
/// cleanup removal.
pub open spec fn spec_apply(m: FsModel, a: OverlayAction) -> FsModel {
    match a {
        OverlayAction::RenameOriginalToMoved => if m.original is Some && !m.mounted && (
        m.moved is None || m.moved.unwrap().len() == 0) {
            FsModel { original: None, moved: m.original, mounted: m.mounted }
        } else {
            m
        },
        OverlayAction::CreateOriginalDir => if m.original is None {
            FsModel { original: Some(Seq::empty()), moved: m.moved, mounted: m.mounted }
        } else {
            m
        },
        OverlayAction::RemoveOriginalDir => if m.original is Some && m.original.unwrap().len() == 0
            && !m.mounted {
            FsModel { original: None, moved: m.moved, mounted: m.mounted }
        } else {
            m
        },
        OverlayAction::MountOverlay => if m.original is Some && !m.mounted {
            FsModel { original: m.original, moved: m.moved, mounted: true }
        } else {
            m
        },
        OverlayAction::UnmountOverlay => if m.mounted {
            FsModel { original: m.original, moved: m.moved, mounted: false }
        } else {
            m
        },
        OverlayAction::RenameMovedToOriginal => if m.moved is Some && m.original is None
            && !m.mounted {
            FsModel { original: m.moved, moved: None, mounted: m.mounted }
        } else {
            m
        },
    }
}

/// The move-back tail of deactivation: drop the (empty or already removed)
/// original directory, then rename the shadow back into place.
pub open spec fn spec_move_back(m: FsModel) -> FsModel {
    spec_apply(spec_apply(m, OverlayAction::RemoveOriginalDir), OverlayAction::RenameMovedToOriginal)
}

/// Deactivation over the model, as the state machine drives it: nothing to
/// do from `Normal`; from `Mounted`, unmount, re-read the state — which must
/// now read `Moved` — and move back; from `Moved`, move back; anything else
/// is a fatal error (`None`).
pub open spec fn spec_deactivate(m: FsModel) -> Option<FsModel> {
    match spec_mount_state(spec_probe_of(m)) {
        MountState::Normal => Some(m),
        MountState::Mounted => {
            let m1 = spec_apply(m, OverlayAction::UnmountOverlay);
            if spec_mount_state(spec_probe_of(m1)) == MountState::Moved {
                Some(spec_move_back(m1))
            } else {
                None
            }
        },
        MountState::Moved => Some(spec_move_back(m)),
        _ => None,
    }
}

/// Activation from an unmounted layout: from `Normal`, rename the original
/// away, recreate it empty and mount; from `Moved`, recreate and mount;
/// anything else is a fatal error (`None`).
pub open spec fn spec_activate_core(m: FsModel) -> Option<FsModel> {
    match spec_mount_state(spec_probe_of(m)) {
        MountState::Normal => Some(
            spec_apply(
                spec_apply(
                    spec_apply(m, OverlayAction::RenameOriginalToMoved),
                    OverlayAction::CreateOriginalDir,
                ),
                OverlayAction::MountOverlay,
            ),
        ),
        MountState::Moved => Some(
            spec_apply(spec_apply(m, OverlayAction::CreateOriginalDir), OverlayAction::MountOverlay),
        ),
        _ => None,
    }
}

/// Activation over the model: a still-mounted overlay is deactivated first
/// (re-activation after a set change), then activation proceeds from the
/// unmounted layout.
pub open spec fn spec_activate(m: FsModel) -> Option<FsModel> {
    if spec_mount_state(spec_probe_of(m)) == MountState::Mounted {
        match spec_deactivate(m) {
            Some(m1) => spec_activate_core(m1),
            None => None,
        }
    } else {
        spec_activate_core(m)
    }
}

/// The next step of deactivation, given the classified state.
#[derive(Clone, Copy, PartialEq, Eq, Debug, Structural)]
pub enum DeactivateStep {
    /// State is `Normal`: deactivation is a no-op.
    AlreadyNormal,
    /// State is `Mounted`: check the busy probe, unmount, then re-read the
    /// state and take the next step.
    UnmountFirst,
    /// State is `Moved`: remove the original directory if it exists, then
    /// rename the shadow back, then restore the working directory.
    MoveBack,
    /// Any other state is fatal.
    Fail,
}

/// The next step of activation, given the classified state.
#[derive(Clone, Copy, PartialEq, Eq, Debug, Structural)]
pub enum ActivateStep {
    /// State is `Mounted`: deactivate first, then re-read the state and take
    /// the next step (supports re-activation after a set change).
    DeactivateFirst,
    /// State is `Normal`: rename the original directory to the shadow path,
    /// then re-read the state — it must read `Moved` — and take the next
    /// step.
    MoveAway,
    /// State is `Moved`: recreate the empty original directory, compose the
    /// mount string and mount.
    ReadyToMount,
    /// Any other state is fatal: never auto-corrected.
    Fail,
}

/// Decide the next deactivation step from a classified state.
pub fn deactivate_step(state: MountState) -> (r: DeactivateStep)
    ensures
        r == match state {
            MountState::Normal => DeactivateStep::AlreadyNormal,
            MountState::Mounted => DeactivateStep::UnmountFirst,
            MountState::Moved => DeactivateStep::MoveBack,
            _ => DeactivateStep::Fail,
        },
{
    match state {
        MountState::Normal => DeactivateStep::AlreadyNormal,
        MountState::Mounted => DeactivateStep::UnmountFirst,
        MountState::Moved => DeactivateStep::MoveBack,
        _ => DeactivateStep::Fail,
    }
}

/// Decide the next activation step from a classified state.
pub fn activate_step(state: MountState) -> (r: ActivateStep)
    ensures
        r == match state {
            MountState::Mounted => ActivateStep::DeactivateFirst,
            MountState::Normal => ActivateStep::MoveAway,
            MountState::Moved => ActivateStep::ReadyToMount,
            _ => ActivateStep::Fail,
        },
{
    match state {
        MountState::Mounted => ActivateStep::DeactivateFirst,
        MountState::Normal => ActivateStep::MoveAway,
        MountState::Moved => ActivateStep::ReadyToMount,
        _ => ActivateStep::Fail,
    }
}

/// Round trip: activating a game in the `Normal` layout and then
/// deactivating it succeeds, restores the original directory to its
/// pre-activation location with its pre-activation contents, leaves no
/// residual mount point, and reads as `Normal` again.
pub proof fn lemma_activate_deactivate_round_trip(m: FsModel)
    requires
        spec_model_wf(m),
        spec_mount_state(spec_probe_of(m)) == MountState::Normal,
    ensures
        spec_activate(m) is Some,
        spec_mount_state(spec_probe_of(spec_activate(m).unwrap())) == MountState::Mounted,
        spec_deactivate(spec_activate(m).unwrap()) is Some,
        spec_deactivate(spec_activate(m).unwrap()).unwrap().original == m.original,
        !spec_deactivate(spec_activate(m).unwrap()).unwrap().mounted,
        spec_mount_state(spec_probe_of(spec_deactivate(spec_activate(m).unwrap()).unwrap()))
            == MountState::Normal,
{
}

/// Idempotence: after one successful deactivation the state reads `Normal`,
/// and deactivating again is a no-op returning the same model.
pub proof fn lemma_deactivate_idempotent(m: FsModel)
    requires
        spec_model_wf(m),
        spec_deactivate(m) is Some,
    ensures
        spec_model_wf(spec_deactivate(m).unwrap()),
        spec_mount_state(spec_probe_of(spec_deactivate(m).unwrap())) == MountState::Normal,
        spec_deactivate(spec_deactivate(m).unwrap()) == Some(spec_deactivate(m).unwrap()),
{
}

} // verus!
