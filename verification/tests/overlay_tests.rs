use mod_manager::env_map::EnvMap;
use mod_manager::mount_state::{mount_state_of, original_needs_removal, FsProbe, MountState};
use mod_manager::overlay::{Overlay, OverlayError, OverlayErrorKind};
use mod_manager::strutil::{contains_substring, escape_special_mount_chars, join_path};
use mod_manager::transitions::{activate_step, deactivate_step, ActivateStep, DeactivateStep};

fn probe(
    original_is_dir: bool,
    original_empty: bool,
    moved_is_dir: bool,
    moved_empty: bool,
    mounted: bool,
) -> FsProbe {
    FsProbe { original_is_dir, original_empty, moved_is_dir, moved_empty, mounted }
}

fn overlay() -> Overlay {
    Overlay::new(
        "game".to_string(),
        "orig".to_string(),
        "orig_mod-manager".to_string(),
        "/home/user".to_string(),
    )
}

#[test]
fn mount_state_normal_rows() {
    // original present, unmounted and non-empty; shadow absent or empty
    assert_eq!(mount_state_of(probe(true, false, false, false, false)), MountState::Normal);
    assert_eq!(mount_state_of(probe(true, false, true, true, false)), MountState::Normal);
}

#[test]
fn mount_state_mounted_row() {
    assert_eq!(mount_state_of(probe(true, false, true, false, true)), MountState::Mounted);
    // mounted but the shadow is gone or empty: invalid
    assert_eq!(mount_state_of(probe(true, false, false, false, true)), MountState::Invalid);
    assert_eq!(mount_state_of(probe(true, false, true, true, true)), MountState::Invalid);
}

#[test]
fn mount_state_moved_rows() {
    // original absent, shadow populated
    assert_eq!(mount_state_of(probe(false, false, true, false, false)), MountState::Moved);
    // original present but empty and unmounted, shadow populated: the stray
    // empty original is flagged for removal
    let p = probe(true, true, true, false, false);
    assert_eq!(mount_state_of(p), MountState::Moved);
    assert!(original_needs_removal(p));
    assert!(!original_needs_removal(probe(false, false, true, false, false)));
}

#[test]
fn mount_state_invalid_rows() {
    // both directories missing
    assert_eq!(mount_state_of(probe(false, false, false, false, false)), MountState::Invalid);
    // both populated
    assert_eq!(mount_state_of(probe(true, false, true, false, false)), MountState::Invalid);
    // original absent, shadow empty
    assert_eq!(mount_state_of(probe(false, false, true, true, false)), MountState::Invalid);
    // original empty, shadow empty
    assert_eq!(mount_state_of(probe(true, true, true, true, false)), MountState::Invalid);
}

#[test]
fn get_current_mounting_state_rejects_invalid() {
    let o = overlay();
    let r = o.get_current_mounting_state(probe(false, false, false, false, false));
    let e = r.unwrap_err();
    assert_eq!(e.kind(), OverlayErrorKind::MountState);
    assert_eq!(e.overlay(), "game");

    let ok = o.get_current_mounting_state(probe(true, false, false, false, false));
    assert_eq!(ok.unwrap(), MountState::Normal);
}

#[test]
fn activate_then_deactivate_round_trip_over_probes() {
    // the probe sequence of one activation from Normal followed by one
    // deactivation, as the state machine sees it
    let normal = probe(true, false, false, false, false);
    assert_eq!(activate_step(mount_state_of(normal)), ActivateStep::MoveAway);
    // after renaming the original away
    let moved = probe(false, false, true, false, false);
    assert_eq!(activate_step(mount_state_of(moved)), ActivateStep::ReadyToMount);
    // after creating the empty original and mounting
    let mounted = probe(true, true, true, false, true);
    assert_eq!(mount_state_of(mounted), MountState::Mounted);
    // deactivation: unmount first
    assert_eq!(deactivate_step(mount_state_of(mounted)), DeactivateStep::UnmountFirst);
    // after unmounting, the empty original reads as Moved
    let unmounted = probe(true, true, true, false, false);
    assert_eq!(deactivate_step(mount_state_of(unmounted)), DeactivateStep::MoveBack);
    assert!(original_needs_removal(unmounted));
    // after moving back, the layout reads Normal again
    let back = probe(true, false, false, false, false);
    assert_eq!(mount_state_of(back), MountState::Normal);
}

#[test]
fn deactivate_is_noop_when_already_normal() {
    let normal = probe(true, false, false, false, false);
    assert_eq!(deactivate_step(mount_state_of(normal)), DeactivateStep::AlreadyNormal);
    // and a second reading still answers the same
    assert_eq!(deactivate_step(mount_state_of(normal)), DeactivateStep::AlreadyNormal);
}

#[test]
fn steps_fail_on_bad_states() {
    assert_eq!(deactivate_step(MountState::Invalid), DeactivateStep::Fail);
    assert_eq!(deactivate_step(MountState::Unknown), DeactivateStep::Fail);
    assert_eq!(activate_step(MountState::Invalid), ActivateStep::Fail);
    assert_eq!(activate_step(MountState::Unknown), ActivateStep::Fail);
}

#[test]
fn helper_argument_vectors() {
    let o = overlay();
    assert_eq!(
        o.mount_helper_args("opts".to_string()),
        vec!["pkexec", "mod-manager-overlayfs-helper", "mount", "game", "opts", "orig"]
    );
    assert_eq!(
        o.umount_helper_args(),
        vec!["pkexec", "mod-manager-overlayfs-helper", "umount", "game"]
    );
    assert_eq!(
        o.cleanworkdir_helper_args("wd"),
        vec!["pkexec", "mod-manager-overlayfs-helper", "cleanworkdir", "game", "wd"]
    );
    assert_eq!(o.busy_check_args(), vec!["lsof", "+f", "--", "game"]);
    assert_eq!(o.mountpoint_probe_args(), vec!["mountpoint", "--quiet", "orig"]);
}

#[test]
fn mount_result_requires_exit_and_postcondition() {
    let o = overlay();
    assert!(o.mount_result(true, true).is_ok());
    assert_eq!(o.mount_result(false, false).unwrap_err().kind(), OverlayErrorKind::Mount);
    // the helper exited 0 but the mount point does not verify: still failure
    assert_eq!(o.mount_result(true, false).unwrap_err().kind(), OverlayErrorKind::MountState);
}

#[test]
fn unmount_and_busy_results() {
    let o = overlay();
    assert!(o.busy_check_result(false).is_ok());
    let used = o.busy_check_result(true).unwrap_err();
    assert_eq!(used.kind(), OverlayErrorKind::Used);
    assert_eq!(
        used.describe(),
        "Unmounting failed, the overlay 'game' is still in use."
    );
    assert!(o.unmount_result(true).is_ok());
    assert_eq!(o.unmount_result(false).unwrap_err().kind(), OverlayErrorKind::Mount);
    assert!(o.cleanworkdir_result(true).is_ok());
    assert_eq!(o.cleanworkdir_result(false).unwrap_err().kind(), OverlayErrorKind::Process);
}

#[test]
fn cwd_targets() {
    let o = overlay();
    assert_eq!(o.cwd_target(false), "/");
    assert_eq!(o.cwd_target(true), "/home/user");
}

#[test]
fn escape_replaces_delimiter() {
    assert_eq!(escape_special_mount_chars("a,b"), "a\\,b");
    assert_eq!(escape_special_mount_chars("no commas"), "no commas");
    assert_eq!(escape_special_mount_chars(""), "");
    assert_eq!(escape_special_mount_chars(",,"), "\\,\\,");
}

#[test]
fn join_path_cases() {
    assert_eq!(join_path("root", "leaf"), "root/leaf");
    assert_eq!(join_path("root/", "leaf"), "root/leaf");
    assert_eq!(join_path("", "leaf"), "leaf");
}

#[test]
fn substring_containment() {
    assert!(contains_substring("abcdef", "cde"));
    assert!(contains_substring("abcdef", ""));
    assert!(contains_substring("abcdef", "abcdef"));
    assert!(!contains_substring("abcdef", "cdf"));
    assert!(!contains_substring("ab", "abc"));
}

#[test]
fn env_map_insert_get_merge() {
    let mut a = EnvMap::new();
    a.insert("A".to_string(), "1".to_string());
    a.insert("B".to_string(), "2".to_string());
    a.insert("A".to_string(), "3".to_string());
    assert_eq!(a.get("A").unwrap().as_str(), "3");
    assert_eq!(a.get("B").unwrap().as_str(), "2");
    assert!(a.get("C").is_none());

    let mut b = EnvMap::new();
    b.insert("B".to_string(), "9".to_string());
    b.insert("C".to_string(), "8".to_string());
    a.merge_from(&b);
    assert_eq!(a.get("A").unwrap().as_str(), "3");
    assert_eq!(a.get("B").unwrap().as_str(), "9");
    assert_eq!(a.get("C").unwrap().as_str(), "8");
}

#[test]
fn overlay_error_descriptions() {
    let e = OverlayError::new(
        OverlayErrorKind::String,
        "game".to_string(),
        "bad path".to_string(),
    );
    assert_eq!(e.describe(), "Unable to convert string: bad path");
    assert_eq!(e.kind(), OverlayErrorKind::String);
    assert_eq!(e.message(), "bad path");

    let e = OverlayError::new(
        OverlayErrorKind::MountState,
        "game".to_string(),
        "both are empty".to_string(),
    );
    assert_eq!(
        e.describe(),
        "'game' is in an invalid mounting state: both are empty"
    );
}
