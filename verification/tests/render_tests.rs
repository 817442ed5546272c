use sgs::lua::{build_box, build_button, build_clock, build_label, LuaTable, LuaValue};
use sgs::paths::{config_path, css_path, join};
use sgs::render::{
    action_command, active_window_label, battery_label, battery_text, cpu_step, has_class,
    is_battery_type, memory_label, plan_widget, volume_label, volume_text, workspace_buttons,
    workspace_ids, CpuReading, PollInterval, PollSource, WidgetPlan,
};
use sgs::runtime::{ui_action, unknown_window_message, window_op, Runtime, UiAction, WindowOp, WindowRequest};
use sgs::ipc::IpcEvent;
use sgs::surface::plan_window;
use sgs::system::{CpuSnapshot, MemoryInfo};
use sgs::widget::{
    Action, Anchor, BatteryNode, Layer, MemoryNode, WidgetNode, WindowConfig, WorkspacesNode,
};

fn s(t: &str) -> LuaValue {
    LuaValue::Str { lossy: t.to_string(), text: Some(t.to_string()), number: None }
}

fn table(fields: Vec<(&str, LuaValue)>) -> LuaTable {
    LuaTable { fields: fields.into_iter().map(|(k, v)| (k.to_string(), v)).collect() }
}

#[test]
fn plan_of_a_tree() {
    let a = build_label(table(vec![("text", s("a")), ("class", s("c"))]));
    let b = build_clock(table(vec![]));
    let bx = build_box(table(vec![("children", LuaValue::Table(vec![LuaValue::Widget(a), LuaValue::Widget(b)]))])).unwrap();
    match plan_widget(&bx) {
        WidgetPlan::Box { spacing, children, .. } => {
            assert_eq!(spacing, 4);
            assert_eq!(children.len(), 2);
            assert!(matches!(&children[0], WidgetPlan::Label { text, classes } if text == "a" && classes == &vec!["c".to_string()]));
            assert!(matches!(&children[1], WidgetPlan::Polled { source: PollSource::Clock(f), every: PollInterval::Seconds(1), .. } if f == "%H:%M:%S"));
        }
        other => panic!("{other:?}"),
    }
}

#[test]
fn plan_refresh_periods() {
    let bat = WidgetNode::Battery(BatteryNode { class: vec![] });
    assert!(matches!(plan_widget(&bat), WidgetPlan::Polled { source: PollSource::Battery, every: PollInterval::Seconds(10), .. }));
    let mem = WidgetNode::Memory(MemoryNode { class: vec!["m".into()] });
    assert!(matches!(plan_widget(&mem), WidgetPlan::Polled { source: PollSource::Memory, every: PollInterval::Millis(750), .. }));
    let btn = build_button(table(vec![("text", s("x")), ("command", s("ls"))]));
    assert!(matches!(plan_widget(&btn), WidgetPlan::Button { on_click: Some(Action::Command(c)), .. } if c == "ls"));
}

#[test]
fn workspace_ids_cover_count_and_fetched() {
    assert_eq!(workspace_ids(None, 3), vec![1, 2, 3, 4, 5]);
    assert_eq!(workspace_ids(None, 7), vec![1, 2, 3, 4, 5, 6, 7]);
    assert_eq!(workspace_ids(Some(vec![9, 3, -98, 3, 0]), 2), vec![1, 2, 3, 9]);
    assert_eq!(workspace_ids(Some(vec![]), 0), Vec::<i32>::new());
    assert_eq!(workspace_ids(Some(vec![4, 2]), -1), vec![2, 4]);
}

#[test]
fn workspace_buttons_mark_active() {
    let cfg = WorkspacesNode { class: vec![], button_class: vec!["pill".into()], count: 3 };
    let bs = workspace_buttons(Some(vec![2, 10]), Some(2), &cfg);
    let ids: Vec<i32> = bs.iter().map(|b| b.id).collect();
    assert_eq!(ids, vec![1, 2, 3, 10]);
    assert_eq!(bs[1].classes, vec!["workspace", "workspace-active", "pill"]);
    assert_eq!(bs[0].classes, vec!["workspace", "pill"]);
    assert_eq!(bs[3].label, "10");
    assert_eq!(bs[3].dispatch, "workspace 10");
    let bs = workspace_buttons(None, None, &cfg);
    assert_eq!(bs.iter().filter(|b| has_class(&b.classes, "workspace-active")).count(), 1);
    assert_eq!(bs[0].classes, vec!["workspace", "workspace-active", "pill"]);
}

#[test]
fn label_texts() {
    let m = MemoryInfo { total_kib: 16 * 1048576, available_kib: 8 * 1048576, used_kib: 8 * 1048576 };
    assert_eq!(memory_label(Some(m)), "RAM: 8.0G/16.0G");
    assert_eq!(memory_label(None), "RAM: ??");
    assert_eq!(active_window_label(Some("kitty".into())), "kitty");
    assert_eq!(active_window_label(None), "??");
    assert_eq!(volume_label(Some("45%".into())), "VOL: 45%");
    assert_eq!(volume_label(None), "VOL: ??");
    assert_eq!(battery_label(None), "BAT: ??");
    assert_eq!(volume_text("  MUTE\n"), Some("MUTE".to_string()));
    assert_eq!(volume_text(" \n"), None);
}

#[test]
fn battery_texts() {
    assert_eq!(battery_text("87\n", Some("Charging\n".into())), "87%+");
    assert_eq!(battery_text("50", Some("Discharging".into())), "50%-");
    assert_eq!(battery_text("100", Some("Full".into())), "100%=");
    assert_eq!(battery_text("100", Some("Not charging".into())), "100%");
    assert_eq!(battery_text("3", None), "3%");
    assert!(is_battery_type("Battery\n"));
    assert!(!is_battery_type("Mains"));
}

#[test]
fn cpu_label_steps() {
    let a = CpuSnapshot { idle: 10, total: 100 };
    let b = CpuSnapshot { idle: 20, total: 140 };
    let (keep, r) = cpu_step(None, Some(a));
    assert!(matches!(r, CpuReading::Warmup));
    let (keep, r) = cpu_step(keep, Some(b));
    match r {
        CpuReading::Usage(u) => assert_eq!((u.used, u.total), (30, 40)),
        other => panic!("{other:?}"),
    }
    let (keep2, r) = cpu_step(keep, None);
    assert!(matches!(r, CpuReading::Unavailable));
    assert_eq!(keep2.unwrap().total, 140);
}

#[test]
fn action_commands() {
    assert_eq!(action_command(&Action::Command("echo hi".into())), Some(("sh".to_string(), vec!["-c".to_string(), "echo hi".to_string()])));
    assert_eq!(action_command(&Action::HyprDispatch("workspace 2".into())), Some(("hyprctl".to_string(), vec!["dispatch".to_string(), "workspace".into(), "2".into()])));
    assert_eq!(action_command(&Action::HyprDispatch("  ".into())), None);
}

#[test]
fn window_surface_plan() {
    let child = build_label(table(vec![]));
    let cfg = WindowConfig {
        name: "bar".into(),
        monitor: 0,
        layer: Layer::Top,
        anchor: vec![Anchor::Left, Anchor::Top],
        height: Some(30),
        width: Some(200),
        class: vec!["x".into()],
        child,
    };
    let p = plan_window(&cfg);
    assert_eq!(p.title, "sgs:bar");
    assert!(p.edges.top && p.edges.left && !p.edges.bottom && !p.edges.right);
    assert_eq!(p.exclusive_zone, Some(30));
    assert_eq!(p.css_classes, vec!["sgs-window", "x"]);
    let side = WindowConfig { anchor: vec![Anchor::Right], ..cfg };
    assert_eq!(plan_window(&side).exclusive_zone, Some(200));
    let none = WindowConfig { anchor: vec![], ..side };
    assert_eq!(plan_window(&none).exclusive_zone, None);
}

#[test]
fn registry_read_after_write() {
    let mut rt: Runtime<u32> = Runtime::new();
    assert_eq!(rt.get("bar"), None);
    rt.insert_window("bar".into(), 1);
    rt.insert_window("dock".into(), 2);
    rt.insert_window("bar".into(), 3);
    assert_eq!(rt.get("bar"), Some(&3));
    assert_eq!(rt.get("dock"), Some(&2));
    assert_eq!(rt.get("other"), None);
}

#[test]
fn control_events_to_actions() {
    assert!(matches!(ui_action(IpcEvent::Reload), UiAction::Restart));
    assert!(matches!(ui_action(IpcEvent::Quit), UiAction::Quit));
    assert!(matches!(ui_action(IpcEvent::Toggle { window: "w".into() }), UiAction::Window(WindowRequest::Toggle, n) if n == "w"));
    assert_eq!(window_op(WindowRequest::Toggle, true, true), WindowOp::Hide);
    assert_eq!(window_op(WindowRequest::Toggle, true, false), WindowOp::Present);
    assert_eq!(window_op(WindowRequest::Open, true, true), WindowOp::Present);
    assert_eq!(window_op(WindowRequest::Close, true, false), WindowOp::Hide);
    assert_eq!(window_op(WindowRequest::Open, false, false), WindowOp::ReportUnknown);
    assert_eq!(unknown_window_message("x"), "[sgs] unknown window: x");
}

#[test]
fn paths_join_like_pathbuf() {
    for (a, b) in [("/a", "b"), ("/a/", "b"), ("", "b"), ("/a", "/b"), (".", "sgs/init.lua"), ("a", "")] {
        let std = std::path::PathBuf::from(a).join(b);
        assert_eq!(join(a, b), std.to_str().unwrap(), "{a:?} {b:?}");
    }
    assert_eq!(config_path(Some("/x.lua".into()), Some("/home/u/.config".into())), "/x.lua");
    assert_eq!(config_path(None, Some("/home/u/.config".into())), "/home/u/.config/sgs/init.lua");
    assert_eq!(config_path(None, None), "./sgs/init.lua");
    assert_eq!(css_path(None, Some("/c".into())), "/c/sgs/style.css");
}

#[test]
fn workspaces_plan_polls() {
    let node = WidgetNode::Workspaces(WorkspacesNode { class: vec!["ws".into()], button_class: vec![], count: 4 });
    match plan_widget(&node) {
        WidgetPlan::Workspaces { classes, count, spacing, event_poll, fallback_poll, .. } => {
            assert_eq!(classes, vec!["ws"]);
            assert_eq!(count, 4);
            assert_eq!(spacing, 4);
            assert_eq!(event_poll, PollInterval::Millis(50));
            assert_eq!(fallback_poll, PollInterval::Millis(250));
        }
        other => panic!("{other:?}"),
    }
}

#[test]
fn toggling_twice_restores_visibility() {
    for visible in [true, false] {
        let first = window_op(WindowRequest::Toggle, true, visible);
        let visible_after = first == WindowOp::Present;
        let second = window_op(WindowRequest::Toggle, true, visible_after);
        assert_eq!(second == WindowOp::Present, visible);
    }
}
