use ai_agent_os::hyprland::{
    command_reply, command_request, command_socket_path, event_socket_path, join_path, HyprlandEvent,
};

#[test]
fn parses_each_event_kind() {
    assert_eq!(HyprlandEvent::parse_line("workspace>>3\n"), Some(HyprlandEvent::WorkspaceChanged { id: 3 }));
    assert_eq!(
        HyprlandEvent::parse_line("openwindow>>0xabc"),
        Some(HyprlandEvent::WindowOpened { address: "0xabc".to_string() })
    );
    assert_eq!(
        HyprlandEvent::parse_line("closewindow>>0xabc"),
        Some(HyprlandEvent::WindowClosed { address: "0xabc".to_string() })
    );
    assert_eq!(
        HyprlandEvent::parse_line("movewindow>>0xabc,4"),
        Some(HyprlandEvent::WindowMoved { address: "0xabc".to_string(), workspace: 4 })
    );
    assert_eq!(
        HyprlandEvent::parse_line("monitoradded>>DP-1"),
        Some(HyprlandEvent::MonitorAdded { name: "DP-1".to_string() })
    );
    assert_eq!(
        HyprlandEvent::parse_line("monitorremoved>>DP-1"),
        Some(HyprlandEvent::MonitorRemoved { name: "DP-1".to_string() })
    );
}

#[test]
fn unparsable_numbers_become_zero() {
    assert_eq!(HyprlandEvent::parse_line("workspace>>name"), Some(HyprlandEvent::WorkspaceChanged { id: 0 }));
    assert_eq!(
        HyprlandEvent::parse_line("movewindow>>0x1"),
        Some(HyprlandEvent::WindowMoved { address: "0x1".to_string(), workspace: 0 })
    );
    assert_eq!(
        HyprlandEvent::parse_line("movewindow>>0x1,7,extra"),
        Some(HyprlandEvent::WindowMoved { address: "0x1".to_string(), workspace: 7 })
    );
}

#[test]
fn lines_without_known_event_are_skipped() {
    assert_eq!(HyprlandEvent::parse_line(""), None);
    assert_eq!(HyprlandEvent::parse_line("no separator"), None);
    assert_eq!(HyprlandEvent::parse_line("activewindow>>kitty,zsh"), None);
}

#[test]
fn data_is_split_at_first_separator() {
    assert_eq!(
        HyprlandEvent::parse_line("  openwindow>>a>>b  "),
        Some(HyprlandEvent::WindowOpened { address: "a>>b".to_string() })
    );
}

#[test]
fn command_framing() {
    assert_eq!(command_request("j/clients"), "j/clients\n");
    assert_eq!(command_reply("  {\"id\":1}\n"), "{\"id\":1}");
}

#[test]
fn socket_paths_of_an_instance() {
    assert_eq!(
        command_socket_path("/run/user/1000", "abc_123"),
        "/run/user/1000/hypr/abc_123/.socket.sock"
    );
    assert_eq!(
        event_socket_path("/run/user/1000", "abc_123"),
        "/run/user/1000/hypr/abc_123/.socket2.sock"
    );
    assert_eq!(
        command_socket_path("/run/user/1000/", "abc_123"),
        "/run/user/1000/hypr/abc_123/.socket.sock"
    );
}

#[test]
fn joining_path_components() {
    assert_eq!(join_path("/a", "b"), "/a/b");
    assert_eq!(join_path("/a/", "b"), "/a/b");
    assert_eq!(join_path("", "b"), "b");
    assert_eq!(join_path("/a", "/etc"), "/etc");
    assert_eq!(join_path("/a", ""), "/a/");
    assert_eq!(
        join_path("/a", "b"),
        std::path::PathBuf::from("/a").join("b").to_str().unwrap()
    );
}
