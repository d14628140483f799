//! Inference of the overlay's mount state from filesystem probes.
//!
//! No state is persisted between invocations: everything is derived from
//! whether the original and shadow directories exist, whether they are empty,
//! and whether the original path is currently a mount point. The invariant of
//! a well-formed layout is that exactly one of the two directories holds the
//! real game files.

use vstd::prelude::*;

verus! {

/// The inferred state of one game's overlay mount.
#[derive(Clone, Copy, PartialEq, Eq, Debug, Structural)]
pub enum MountState {
    /// Unknown mount state.
    Unknown,
    /// Files are in the original path; the shadow path is absent or empty.
    Normal,
    /// The overlay is mounted at the original path and the files are in the
    /// shadow path.
    Mounted,
    /// The original path is absent (or empty and cleaned up) and the files
    /// are in the shadow path.
    Moved,
    /// Known bad mount state: the layout violates the invariant.
    Invalid,
}

/// What one round of filesystem probing observed about the two directories
/// and the mount point.
#[derive(Clone, Copy, PartialEq, Eq, Debug, Structural)]
pub struct FsProbe {
    /// The original game path exists and is a directory.
    pub original_is_dir: bool,
    /// The original directory has no entries. Only meaningful when it exists
    /// and is not a mount point: a probe through a mounted overlay reads the
    /// overlay's contents, and the table below never consults this field in
    /// that case.
    pub original_empty: bool,
    /// The shadow path exists and is a directory.
    pub moved_is_dir: bool,
    /// The shadow directory has no entries.
    pub moved_empty: bool,
    /// The original path is currently a mount point.
    pub mounted: bool,
}

/// The complete state-inference table.
///
/// - Original absent: the shadow must be a non-empty directory (`Moved`),
///   anything else is `Invalid`.
/// - Original present and mounted: the shadow must be a non-empty directory
///   (`Mounted`), anything else is `Invalid`.
/// - Original present, unmounted and empty: the shadow must be a non-empty
///   directory (`Moved`; the stray empty original is then removed as
///   cleanup), anything else is `Invalid`.
/// - Original present, unmounted and non-empty: the shadow, if present, must
///   be empty (`Normal`), anything else is `Invalid`.
pub open spec fn spec_mount_state(p: FsProbe) -> MountState {
    if !p.original_is_dir {
        if p.moved_is_dir && !p.moved_empty {
            MountState::Moved
        } else {
            MountState::Invalid
        }
    } else if p.mounted {
        if p.moved_is_dir && !p.moved_empty {
            MountState::Mounted
        } else {
            MountState::Invalid
        }
    } else if p.original_empty {
        if p.moved_is_dir && !p.moved_empty {
            MountState::Moved
        } else {
            MountState::Invalid
        }
    } else {
        if p.moved_is_dir && !p.moved_empty {
            MountState::Invalid
        } else {
            MountState::Normal
        }
    }
}

/// True exactly when the probe shows a stray empty original directory next to
/// a populated shadow directory: the layout reads as `Moved` and the empty
/// original is removed as an intentional, idempotent cleanup.
pub open spec fn spec_needs_cleanup(p: FsProbe) -> bool {
    p.original_is_dir && !p.mounted && p.original_empty && p.moved_is_dir && !p.moved_empty
}

/// Classify one probe according to the state-inference table.
pub fn mount_state_of(p: FsProbe) -> (r: MountState)
    ensures
        r == spec_mount_state(p),
{
    if !p.original_is_dir {
        if p.moved_is_dir && !p.moved_empty {
            MountState::Moved
        } else {
            MountState::Invalid
        }
    } else if p.mounted {
        if p.moved_is_dir && !p.moved_empty {
            MountState::Mounted
        } else {
            MountState::Invalid
        }
    } else if p.original_empty {
        if p.moved_is_dir && !p.moved_empty {
            MountState::Moved
        } else {
            MountState::Invalid
        }
    } else {
        if p.moved_is_dir && !p.moved_empty {
            MountState::Invalid
        } else {
            MountState::Normal
        }
    }
}

/// True exactly when classification found the stray-empty-original layout,
/// whose cleanup is the removal of the empty original directory.
pub fn original_needs_removal(p: FsProbe) -> (r: bool)
    ensures
        r == spec_needs_cleanup(p),
{
    p.original_is_dir && !p.mounted && p.original_empty && p.moved_is_dir && !p.moved_empty
}

/// State inference is a pure, total function of the five probed facts: every
/// probe is classified as exactly one of `Normal`, `Mounted`, `Moved` or
/// `Invalid` (never `Unknown`), each of the three valid states holds exactly
/// on its row of the table, and `Invalid` holds exactly on the remaining
/// combinations — none is silently accepted.
pub proof fn lemma_mount_state_cases(p: FsProbe)
    ensures
        spec_mount_state(p) != MountState::Unknown,
        spec_mount_state(p) == MountState::Normal <==> (p.original_is_dir && !p.mounted
            && !p.original_empty && (!p.moved_is_dir || p.moved_empty)),
        spec_mount_state(p) == MountState::Mounted <==> (p.original_is_dir && p.mounted
            && p.moved_is_dir && !p.moved_empty),
        spec_mount_state(p) == MountState::Moved <==> (p.moved_is_dir && !p.moved_empty
            && (!p.original_is_dir || (!p.mounted && p.original_empty))),
        spec_mount_state(p) == MountState::Invalid <==> !(spec_mount_state(p)
            == MountState::Normal || spec_mount_state(p) == MountState::Mounted
            || spec_mount_state(p) == MountState::Moved),
{
}

} // verus!
