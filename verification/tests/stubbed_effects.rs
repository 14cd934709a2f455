//! The identifiers whose appearance in library code would mean an effect
//! the slices do not have: a filesystem, a process, a clock, a transport or
//! a kernel binding. The lists are exactly their recorded lengths.

use aegis::compositor::zenoh_check;
use aegis::hephaestus::SOLVER_SLICE;

const COMPOSITOR_WATCHED: [&str; 28] = [
    "std::fs",
    "std::process",
    "Command::",
    "OpenOptions",
    "File::",
    "read_to_string",
    "std::thread",
    "thread::sleep",
    "Instant::",
    "SystemTime",
    "Duration::",
    "smithay::",
    "wlroots::",
    "wlroots_sys",
    "wayland_server",
    "wayland_client",
    "libinput::",
    "xkbcommon::",
    "drm::",
    "gbm::",
    "zenoh::",
    "libc",
    "RawFd",
    "std::net",
    "UnixListener",
    "UnixStream",
    "TcpListener",
    "TcpStream",
];

const GEOMETRY_WATCHED: [&str; 22] = [
    "std::fs",
    "std::process",
    "std::path",
    "PathBuf",
    "exists()",
    "Command::",
    "OpenOptions",
    "File::",
    "read_to_string",
    "create_dir",
    "truck",
    "opencascade",
    "manifold3d",
    "gmsh",
    "z3::",
    "z3_sys",
    "cgroups_rs",
    "sys/fs/cgroup",
    "libc",
    "dbus",
    "zbus",
    "SystemTime",
];

#[test]
fn stubbed_effects_the_watched_list_is_its_recorded_length() {
    assert_eq!(COMPOSITOR_WATCHED.len(), 28);
    let mut names = COMPOSITOR_WATCHED.to_vec();
    names.sort_unstable();
    names.dedup();
    assert_eq!(names.len(), 28);
    assert!(names.iter().all(|needle| !needle.is_empty()));
}

#[test]
fn the_watched_list_is_its_recorded_length() {
    assert_eq!(GEOMETRY_WATCHED.len(), 22);
    let mut names = GEOMETRY_WATCHED.to_vec();
    names.sort_unstable();
    names.dedup();
    assert_eq!(names.len(), 22);
    assert!(names.iter().all(|needle| !needle.is_empty()));
}

#[test]
fn the_recorded_names_are_records_not_calls() {
    let check = zenoh_check();
    assert!(!COMPOSITOR_WATCHED.contains(&check.crate_name));
    assert!(!GEOMETRY_WATCHED.iter().any(|needle| SOLVER_SLICE.contains(needle)));
}
