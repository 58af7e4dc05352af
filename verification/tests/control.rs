//! Control messages, commands, sessions and devices.

use tiny_dfr::control::{
    command_to_run, file_access, layer_request, requested_control_layer, runnable_command, session_dir,
    session_user, shell_invocation, touchbar_device_name, wants_editor, FileAccess, SessionDir,
    SessionUser, O_ACCMODE, O_RDONLY, O_RDWR, O_WRONLY,
};

#[test]
fn messages_ask_for_layers() {
    assert_eq!(layer_request("layer 3"), Some(3));
    assert_eq!(layer_request("  BAR\t2 extra\n"), Some(2));
    assert_eq!(layer_request("Default"), Some(0));
    assert_eq!(layer_request("default 7"), Some(0));
    assert_eq!(layer_request("layer"), None);
    assert_eq!(layer_request("layer x"), None);
    assert_eq!(layer_request("layer -1"), None);
    assert_eq!(layer_request("layer 99999999999999999999"), None);
    assert_eq!(layer_request("layers 1"), None);
    assert_eq!(layer_request("   "), None);
}

#[test]
fn the_last_request_counts() {
    let messages = |list: &[&[u8]]| -> Vec<Vec<u8>> { list.iter().map(|m| m.to_vec()).collect() };
    assert_eq!(requested_control_layer(&messages(&[])), None);
    assert_eq!(requested_control_layer(&messages(&[b"layer 1", b"bar 4"])), Some(4));
    assert_eq!(requested_control_layer(&messages(&[b"layer 1", b"nonsense", b""])), Some(1));
    assert_eq!(requested_control_layer(&messages(&[b"layer 5", b"default"])), Some(0));
    assert_eq!(requested_control_layer(&messages(&[b"layer 5", b"layer \xff"])), Some(5));
    assert_eq!(requested_control_layer(&messages(&[b"layer 6 \xff"])), Some(6));
}

#[test]
fn digitizers_are_told_by_their_names() {
    assert!(touchbar_device_name("Apple Inc. iBridge Touchpad"));
    assert!(touchbar_device_name("MacBookPro17,1 Touch Bar"));
    assert!(!touchbar_device_name("Touch Bar"));
    assert!(!touchbar_device_name("Apple SPI Keyboard"));
}

#[test]
fn messages_beyond_ascii_are_decoded() {
    let message = "layer 7 \u{e9}".as_bytes().to_vec();
    assert_eq!(requested_control_layer(&vec![message]), Some(7));
    let spaced = "\u{a0}layer 3\u{2003}".as_bytes().to_vec();
    assert_eq!(requested_control_layer(&vec![spaced]), Some(3));
}

#[test]
fn commands_run_only_where_they_were_allowed() {
    let command = || Some("ls".to_string());
    assert_eq!(command_to_run(true, command()), command());
    assert_eq!(command_to_run(false, command()), None);
    assert_eq!(command_to_run(true, None), None);
}

#[test]
fn blank_commands_are_not_run() {
    assert_eq!(runnable_command(" \n"), None);
    assert_eq!(runnable_command(" ls -l "), Some("ls -l".to_string()));
}

#[test]
fn commands_run_in_a_shell() {
    let plain = shell_invocation(&None, "echo a b");
    assert_eq!(plain.program, "sh");
    assert_eq!(plain.args, vec!["-c", "echo a b"]);
    let user = shell_invocation(&Some(("ann".to_string(), 1000)), "echo");
    assert_eq!(user.program, "runuser");
    assert_eq!(
        user.args,
        vec![
            "-u",
            "ann",
            "--",
            "env",
            "XDG_RUNTIME_DIR=/run/user/1000",
            "WAYLAND_DISPLAY=wayland-0",
            "sh",
            "-c",
            "echo"
        ]
    );
}

#[test]
fn sessions_are_those_of_people() {
    assert_eq!(session_dir("1000"), SessionDir::Candidate(1000));
    assert_eq!(session_dir("999"), SessionDir::Skipped);
    assert_eq!(session_dir("0"), SessionDir::Skipped);
    assert_eq!(session_dir("x"), SessionDir::Invalid);
    assert_eq!(session_dir("4294967296"), SessionDir::Invalid);
}

#[test]
fn user_names_are_trimmed() {
    match session_user(b"ann\n".to_vec()) {
        SessionUser::Named(name) => assert_eq!(name, "ann"),
        _ => panic!("no name"),
    }
    assert!(matches!(session_user(b" \n".to_vec()), SessionUser::Unnamed));
    assert!(matches!(session_user(vec![0xff]), SessionUser::Invalid));
    match session_user("äx".as_bytes().to_vec()) {
        SessionUser::Named(name) => assert_eq!(name, "äx"),
        _ => panic!("no name"),
    }
}

#[test]
fn the_editor_is_asked_for_by_an_argument() {
    let args = |list: &[&str]| -> Vec<String> { list.iter().map(|s| s.to_string()).collect() };
    assert!(wants_editor(&args(&["tiny-dfr", "edit"])));
    assert!(wants_editor(&args(&["tiny-dfr", "x", "--edit"])));
    assert!(!wants_editor(&args(&["edit"])));
    assert!(!wants_editor(&args(&["tiny-dfr", "editor"])));
    assert!(!wants_editor(&args(&[])));
}

#[test]
fn files_are_opened_as_the_flags_say() {
    assert_eq!(O_ACCMODE, libc::O_ACCMODE);
    assert_eq!(O_RDONLY, libc::O_RDONLY);
    assert_eq!(O_WRONLY, libc::O_WRONLY);
    assert_eq!(O_RDWR, libc::O_RDWR);
    let other = libc::O_NONBLOCK | libc::O_CLOEXEC;
    assert_eq!(file_access(other | libc::O_RDONLY), FileAccess { read: true, write: false });
    assert_eq!(file_access(other | libc::O_WRONLY), FileAccess { read: false, write: true });
    assert_eq!(file_access(other | libc::O_RDWR), FileAccess { read: true, write: true });
    assert_eq!(file_access(3), FileAccess { read: false, write: false });
}
