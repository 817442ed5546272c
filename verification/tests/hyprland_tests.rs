use sgs::hyprland::{
    active_window_title, dispatch_args, event_should_refresh_ui, parse_event,
    sort_workspaces_by_id, ActiveWindow, HyprActiveWorkspace, HyprWorkspace, HyprlandEvent,
};
use sgs::paths::event_socket_path;

fn ws(id: i32, name: &str) -> HyprWorkspace {
    HyprWorkspace { id, name: name.to_string(), monitor: String::new(), windows: 0 }
}

#[test]
fn known_events_parse_with_their_data() {
    let cases = [
        ("workspace>>3", "Workspace"),
        ("focusedmon>>DP-1,2", "FocusedMonitor"),
        ("activewindow>>kitty,~", "ActiveWindow"),
        ("createworkspace>>7", "CreateWorkspace"),
        ("destroyworkspace>>7", "DestroyWorkspace"),
        ("moveworkspace>>7,DP-1", "MoveWorkspace"),
        ("openwindow>>abc,1,kitty,title", "OpenWindow"),
        ("closewindow>>abc", "CloseWindow"),
    ];
    for (line, kind) in cases {
        let e = parse_event(line);
        let dbg = format!("{e:?}");
        let data = line.split_once(">>").unwrap().1;
        assert_eq!(dbg, format!("{kind}({data:?})"), "{line}");
    }
}

#[test]
fn data_may_hold_the_separator() {
    match parse_event("workspace>>a>>b") {
        HyprlandEvent::Workspace(d) => assert_eq!(d, "a>>b"),
        other => panic!("unexpected {other:?}"),
    }
}

#[test]
fn unknown_events_keep_the_line() {
    for line in ["", "garbage", "urgent>>abc", "workspace", ">>x", "Workspace>>1"] {
        match parse_event(line) {
            HyprlandEvent::Unknown(l) => assert_eq!(l, line),
            other => panic!("unexpected {other:?} for {line:?}"),
        }
    }
}

#[test]
fn refresh_follows_event_kind() {
    assert!(event_should_refresh_ui(&parse_event("workspace>>1")));
    assert!(event_should_refresh_ui(&parse_event("openwindow>>x")));
    assert!(event_should_refresh_ui(&parse_event("closewindow>>x")));
    assert!(event_should_refresh_ui(&parse_event("focusedmon>>x")));
    assert!(!event_should_refresh_ui(&parse_event("activewindow>>x")));
    assert!(!event_should_refresh_ui(&parse_event("nonsense")));
}

#[test]
fn workspaces_sorted_stably_by_id() {
    let input = vec![ws(3, "c"), ws(1, "a"), ws(3, "c2"), ws(-99, "special"), ws(2, "b"), ws(1, "a2")];
    let out = sort_workspaces_by_id(input);
    let got: Vec<(i32, String)> = out.into_iter().map(|w| (w.id, w.name)).collect();
    let want: Vec<(i32, String)> = vec![
        (-99, "special".into()),
        (1, "a".into()),
        (1, "a2".into()),
        (2, "b".into()),
        (3, "c".into()),
        (3, "c2".into()),
    ];
    assert_eq!(got, want);
}

#[test]
fn sorting_sorted_list_changes_nothing() {
    let out = sort_workspaces_by_id(vec![ws(1, "x"), ws(2, "y"), ws(2, "z")]);
    let names: Vec<String> = out.into_iter().map(|w| w.name).collect();
    assert_eq!(names, vec!["x", "y", "z"]);
    assert!(sort_workspaces_by_id(Vec::new()).is_empty());
}

#[test]
fn window_title_trimmed_or_desktop() {
    let mk = |t: &str| ActiveWindow {
        address: "0x1".into(),
        class: "kitty".into(),
        title: t.into(),
        workspace: HyprActiveWorkspace { id: 1, name: "1".into() },
    };
    assert_eq!(active_window_title(&mk("  vim  ")), "vim");
    assert_eq!(active_window_title(&mk("   ")), "Desktop");
    assert_eq!(active_window_title(&mk("")), "Desktop");
}

#[test]
fn dispatch_arguments() {
    assert_eq!(dispatch_args("workspace 3"), Some(vec!["dispatch".to_string(), "workspace".into(), "3".into()]));
    assert_eq!(dispatch_args("  exec   kitty -e  htop "), Some(vec![
        "dispatch".to_string(), "exec".into(), "kitty".into(), "-e".into(), "htop".into()
    ]));
    assert_eq!(dispatch_args("   "), None);
    assert_eq!(dispatch_args(""), None);
}

#[test]
fn event_socket_path_joined() {
    assert_eq!(event_socket_path("/run/user/1000", "abc_123"), "/run/user/1000/hypr/abc_123/.socket2.sock");
    assert_eq!(event_socket_path("/run/user/1000/", "sig"), "/run/user/1000/hypr/sig/.socket2.sock");
}
