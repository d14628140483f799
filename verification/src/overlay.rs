//! One game's overlay mount lifecycle.
//!
//! The overlay owns the game identifier, the original and shadow paths and a
//! remembered working directory. All filesystem probing and process spawning
//! happens outside: the functions here classify probes, compute the exact
//! argument vectors of the privileged helper and of the read-only probes, and
//! interpret the outcomes as the closed error set.

use crate::mount_state::{spec_mount_state, mount_state_of, FsProbe, MountState};
use vstd::prelude::*;

verus! {

/// The closed set of overlay errors.
#[derive(Clone, Copy, PartialEq, Eq, Debug, Structural)]
pub enum OverlayErrorKind {
    /// The overlay is still in use; retryable.
    Used,
    /// The mount or unmount helper exited non-zero.
    Mount,
    /// A collaborator process failed to run, or a directory change failed.
    Process,
    /// The filesystem layout violates the state-machine invariant; fatal.
    MountState,
    /// A path is not representable as the required text encoding; fatal.
    String,
}

/// An error from the overlay lifecycle, naming the overlay it concerns.
#[derive(Debug)]
pub struct OverlayError {
    kind: OverlayErrorKind,
    overlay: String,
    message: String,
}

impl OverlayError {
    /// The error's kind.
    pub closed spec fn spec_kind(&self) -> OverlayErrorKind {
        self.kind
    }

    /// The identifier of the overlay the error concerns.
    pub closed spec fn spec_overlay(&self) -> Seq<char> {
        self.overlay@
    }

    /// The error's message text.
    pub closed spec fn spec_message(&self) -> Seq<char> {
        self.message@
    }

    /// Build an error of `kind` for the overlay `overlay`.
    pub fn new(kind: OverlayErrorKind, overlay: String, message: String) -> (r: OverlayError)
        ensures
            r.spec_kind() == kind,
            r.spec_overlay() == overlay@,
            r.spec_message() == message@,
    {
        OverlayError { kind, overlay, message }
    }

    /// The error's kind.
    pub fn kind(&self) -> (r: OverlayErrorKind)
        ensures
            r == self.spec_kind(),
    {
        self.kind
    }

    /// The identifier of the overlay the error concerns.
    pub fn overlay(&self) -> (r: String)
        ensures
            r@ == self.spec_overlay(),
    {
        self.overlay.clone()
    }

    /// The error's message text.
    pub fn message(self) -> (r: String)
        ensures
            r@ == self.spec_message(),
    {
        self.message
    }

    /// A readable, single-line description of the error.
    pub fn describe(&self) -> (r: String)
        ensures
            r@ == match self.spec_kind() {
                OverlayErrorKind::Used => "Unmounting failed, the overlay '"@ + self.spec_overlay()
                    + "' is still in use."@,
                OverlayErrorKind::Mount => "The mounting helper process encountered an error: "@
                    + self.spec_message(),
                OverlayErrorKind::Process => "Error running process: "@ + self.spec_message(),
                OverlayErrorKind::MountState => "'"@ + self.spec_overlay()
                    + "' is in an invalid mounting state: "@ + self.spec_message(),
                OverlayErrorKind::String => "Unable to convert string: "@ + self.spec_message(),
            },
    {
        match self.kind {
            OverlayErrorKind::Used => {
                let mut r = "Unmounting failed, the overlay '".to_owned();
                r.append(self.overlay.as_str());
                r.append("' is still in use.");
                r
            },
            OverlayErrorKind::Mount => {
                let mut r = "The mounting helper process encountered an error: ".to_owned();
                r.append(self.message.as_str());
                r
            },
            OverlayErrorKind::Process => {
                let mut r = "Error running process: ".to_owned();
                r.append(self.message.as_str());
                r
            },
            OverlayErrorKind::MountState => {
                let mut r = "'".to_owned();
                r.append(self.overlay.as_str());
                r.append("' is in an invalid mounting state: ");
                r.append(self.message.as_str());
                r
            },
            OverlayErrorKind::String => {
                let mut r = "Unable to convert string: ".to_owned();
                r.append(self.message.as_str());
                r
            },
        }
    }
}

impl Clone for OverlayError {
    /// An exact copy of the error.
    fn clone(&self) -> (res: Self)
        ensures
            res.spec_kind() == self.spec_kind(),
            res.spec_overlay() == self.spec_overlay(),
            res.spec_message() == self.spec_message(),
    {
        OverlayError {
            kind: self.kind,
            overlay: self.overlay.clone(),
            message: self.message.clone(),
        }
    }
}

/// One game's overlay: identifier, original path, shadow path, and the
/// working directory remembered at construction — used to move the process
/// away from the mount target around mount and unmount, and back afterwards.
pub struct Overlay {
    /// The game identifier, also the helper's overlay name.
    pub game_id: String,
    /// The original game directory, the mount target.
    pub path: String,
    /// The shadow path holding the real files while mounted.
    pub moved_path: String,
    /// The working directory remembered at construction.
    pub cwd: String,
}

impl Overlay {
    /// Remember the paths and the current working directory, handed in by
    /// the caller.
    pub fn new(id: String, path: String, moved_path: String, cwd: String) -> (r: Overlay)
        ensures
            r.game_id == id,
            r.path == path,
            r.moved_path == moved_path,
            r.cwd == cwd,
    {
        Overlay { game_id: id, path, moved_path, cwd }
    }

    /// Classify one filesystem probe. Every layout violating the invariant
    /// — exactly one of the two directories holds the game files — is a
    /// `MountState` error; nothing is silently accepted, and neither
    /// `Invalid` nor `Unknown` is ever returned as a state.
    pub fn get_current_mounting_state(&self, probe: FsProbe) -> (r: Result<
        MountState,
        OverlayError,
    >)
        ensures
            match r {
                Ok(state) => state == spec_mount_state(probe) && state != MountState::Invalid
                    && state != MountState::Unknown,
                Err(e) => spec_mount_state(probe) == MountState::Invalid && e.spec_kind()
                    == OverlayErrorKind::MountState && e.spec_overlay() == self.game_id@,
            },
    {
        let state = mount_state_of(probe);
        match state {
            MountState::Invalid => {
                let mut msg = "layout of '".to_owned();
                msg.append(self.path.as_str());
                msg.append("' and '");
                msg.append(self.moved_path.as_str());
                msg.append("' violates the mount-state invariant");
                Err(OverlayError {
                    kind: OverlayErrorKind::MountState,
                    overlay: self.game_id.clone(),
                    message: msg,
                })
            },
            _ => Ok(state),
        }
    }

    /// The exact invocation of the privileged helper that mounts the
    /// overlay: `pkexec mod-manager-overlayfs-helper mount <game-id>
    /// <mount-string> <target-path>`.
    pub fn mount_helper_args(&self, mount_string: String) -> (r: Vec<String>)
        ensures
            crate::config::strs_view(r@) =~= seq![
                "pkexec"@,
                "mod-manager-overlayfs-helper"@,
                "mount"@,
                self.game_id@,
                mount_string@,
                self.path@,
            ],
    {
        let mut r: Vec<String> = Vec::new();
        r.push("pkexec".to_owned());
        r.push("mod-manager-overlayfs-helper".to_owned());
        r.push("mount".to_owned());
        r.push(self.game_id.clone());
        r.push(mount_string);
        r.push(self.path.clone());
        r
    }

    /// The exact invocation of the privileged helper that unmounts the
    /// overlay: `pkexec mod-manager-overlayfs-helper umount <game-id>`.
    pub fn umount_helper_args(&self) -> (r: Vec<String>)
        ensures
            crate::config::strs_view(r@) =~= seq![
                "pkexec"@,
                "mod-manager-overlayfs-helper"@,
                "umount"@,
                self.game_id@,
            ],
    {
        let mut r: Vec<String> = Vec::new();
        r.push("pkexec".to_owned());
        r.push("mod-manager-overlayfs-helper".to_owned());
        r.push("umount".to_owned());
        r.push(self.game_id.clone());
        r
    }

    /// The exact invocation of the privileged helper that resets the
    /// overlay's work directory, which must be empty before each mount:
    /// `pkexec mod-manager-overlayfs-helper cleanworkdir <game-id> <workdir>`.
    pub fn cleanworkdir_helper_args(&self, workdir: &str) -> (r: Vec<String>)
        ensures
            crate::config::strs_view(r@) =~= seq![
                "pkexec"@,
                "mod-manager-overlayfs-helper"@,
                "cleanworkdir"@,
                self.game_id@,
                workdir@,
            ],
    {
        let mut r: Vec<String> = Vec::new();
        r.push("pkexec".to_owned());
        r.push("mod-manager-overlayfs-helper".to_owned());
        r.push("cleanworkdir".to_owned());
        r.push(self.game_id.clone());
        r.push(workdir.to_owned());
        r
    }

    /// The busy-mount probe: `lsof +f -- <game-id>`; an exit status of 0
    /// means some process still holds files open under the overlay.
    pub fn busy_check_args(&self) -> (r: Vec<String>)
        ensures
            crate::config::strs_view(r@) =~= seq!["lsof"@, "+f"@, "--"@, self.game_id@],
    {
        let mut r: Vec<String> = Vec::new();
        r.push("lsof".to_owned());
        r.push("+f".to_owned());
        r.push("--".to_owned());
        r.push(self.game_id.clone());
        r
    }

    /// The read-only mount-point probe: `mountpoint --quiet <path>`; an exit
    /// status of 0 means the original path is currently a mount point.
    pub fn mountpoint_probe_args(&self) -> (r: Vec<String>)
        ensures
            crate::config::strs_view(r@) =~= seq!["mountpoint"@, "--quiet"@, self.path@],
    {
        let mut r: Vec<String> = Vec::new();
        r.push("mountpoint".to_owned());
        r.push("--quiet".to_owned());
        r.push(self.path.clone());
        r
    }

    /// Judge a mount attempt: the helper must have exited 0 *and* the
    /// re-probed mount-point status must confirm the mount — a clean helper
    /// exit without the post-condition is still a failure.
    pub fn mount_result(&self, helper_exit_ok: bool, now_mounted: bool) -> (r: Result<
        (),
        OverlayError,
    >)
        ensures
            r is Ok <==> helper_exit_ok && now_mounted,
            match r {
                Ok(_) => true,
                Err(e) => e.spec_overlay() == self.game_id@ && e.spec_kind() == (if !helper_exit_ok {
                    OverlayErrorKind::Mount
                } else {
                    OverlayErrorKind::MountState
                }),
            },
    {
        if !helper_exit_ok {
            return Err(OverlayError {
                kind: OverlayErrorKind::Mount,
                overlay: self.game_id.clone(),
                message: "the mounting helper process exited with a non-zero status".to_owned(),
            });
        }
        if !now_mounted {
            return Err(OverlayError {
                kind: OverlayErrorKind::MountState,
                overlay: self.game_id.clone(),
                message: "mounting wasn't successful".to_owned(),
            });
        }
        Ok(())
    }

    /// Judge the busy-mount probe: a mount still in use is the distinguished
    /// retryable `Used` error, so callers can prompt and try again.
    pub fn busy_check_result(&self, in_use: bool) -> (r: Result<(), OverlayError>)
        ensures
            r is Ok <==> !in_use,
            match r {
                Ok(_) => true,
                Err(e) => e.spec_kind() == OverlayErrorKind::Used && e.spec_overlay()
                    == self.game_id@,
            },
    {
        if in_use {
            return Err(OverlayError {
                kind: OverlayErrorKind::Used,
                overlay: self.game_id.clone(),
                message: "Unmounting failed, the overlay is still in use.".to_owned(),
            });
        }
        Ok(())
    }

    /// Judge an unmount attempt by the helper's exit status.
    pub fn unmount_result(&self, helper_exit_ok: bool) -> (r: Result<(), OverlayError>)
        ensures
            r is Ok <==> helper_exit_ok,
            match r {
                Ok(_) => true,
                Err(e) => e.spec_kind() == OverlayErrorKind::Mount && e.spec_overlay()
                    == self.game_id@,
            },
    {
        if !helper_exit_ok {
            return Err(OverlayError {
                kind: OverlayErrorKind::Mount,
                overlay: self.game_id.clone(),
                message: "the unmounting helper process exited with a non-zero status".to_owned(),
            });
        }
        Ok(())
    }

    /// Judge a work-directory reset by the helper's exit status.
    pub fn cleanworkdir_result(&self, helper_exit_ok: bool) -> (r: Result<(), OverlayError>)
        ensures
            r is Ok <==> helper_exit_ok,
            match r {
                Ok(_) => true,
                Err(e) => e.spec_kind() == OverlayErrorKind::Process && e.spec_overlay()
                    == self.game_id@,
            },
    {
        if !helper_exit_ok {
            return Err(OverlayError {
                kind: OverlayErrorKind::Process,
                overlay: self.game_id.clone(),
                message: "'cleanworkdir' failed".to_owned(),
            });
        }
        Ok(())
    }

    /// Where the process must change its working directory to: away to `/`
    /// before touching the mount point (so the cwd never blocks the mount),
    /// and back to the remembered directory afterwards.
    pub fn cwd_target(&self, restore: bool) -> (r: String)
        ensures
            r@ == (if restore {
                self.cwd@
            } else {
                "/"@
            }),
    {
        if restore {
            self.cwd.clone()
        } else {
            "/".to_owned()
        }
    }
}

} // verus!
