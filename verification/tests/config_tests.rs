use sgs::lua::{
    build_active_window, build_battery, build_box, build_button, build_centerbox, build_clock,
    build_cpu, build_label, build_memory, build_volume, build_window, build_workspaces,
    get_string, lua_type_name, parse_anchors, parse_layer, ConfigError, LuaRuntimeState, LuaTable,
    LuaType, LuaValue, Slot,
};
use sgs::widget::{Action, Anchor, Layer, Orientation, WidgetNode};

fn s(t: &str) -> LuaValue {
    LuaValue::Str { lossy: t.to_string(), text: Some(t.to_string()), number: t.parse().ok() }
}

fn num(i: i64) -> LuaValue {
    LuaValue::Num { integer: true, text: Some(i.to_string()), number: i32::try_from(i).ok() }
}

fn table(fields: Vec<(&str, LuaValue)>) -> LuaTable {
    LuaTable { fields: fields.into_iter().map(|(k, v)| (k.to_string(), v)).collect() }
}

fn label(text: &str) -> LuaValue {
    LuaValue::Widget(build_label(table(vec![("text", s(text))])))
}

fn text_of(node: &WidgetNode) -> String {
    match node {
        WidgetNode::Label(l) => l.text.clone(),
        other => panic!("not a label: {other:?}"),
    }
}

#[test]
fn label_defaults_and_classes() {
    match build_label(table(vec![])) {
        WidgetNode::Label(l) => {
            assert_eq!(l.text, "");
            assert!(l.class.is_empty());
        }
        other => panic!("{other:?}"),
    }
    match build_label(table(vec![("text", s("hi")), ("class", s("big"))])) {
        WidgetNode::Label(l) => {
            assert_eq!(l.text, "hi");
            assert_eq!(l.class, vec!["big"]);
        }
        other => panic!("{other:?}"),
    }
    // numbers convert to text; class tables keep their strings and numbers
    let t = table(vec![
        ("text", num(42)),
        ("class", LuaValue::Table(vec![s("a"), LuaValue::Other(LuaType::Boolean), num(3), s("b")])),
    ]);
    match build_label(t) {
        WidgetNode::Label(l) => {
            assert_eq!(l.text, "42");
            assert_eq!(l.class, vec!["a", "3", "b"]);
        }
        other => panic!("{other:?}"),
    }
}

#[test]
fn invalid_utf8_strings() {
    let bad = LuaValue::Str { lossy: "a\u{fffd}".to_string(), text: None, number: None };
    // a class string is read lossily, a text falls back to the default
    let t = table(vec![("text", LuaValue::Str { lossy: "x\u{fffd}".into(), text: None, number: None }), ("class", bad)]);
    match build_label(t) {
        WidgetNode::Label(l) => {
            assert_eq!(l.text, "");
            assert_eq!(l.class, vec!["a\u{fffd}"]);
        }
        other => panic!("{other:?}"),
    }
}

#[test]
fn button_actions() {
    match build_button(table(vec![("text", s("go")), ("command", s("ls")), ("hypr_dispatch", s("workspace 1"))])) {
        WidgetNode::Button(b) => {
            assert_eq!(b.text, "go");
            assert!(matches!(b.on_click, Some(Action::Command(ref c)) if c == "ls"));
        }
        other => panic!("{other:?}"),
    }
    match build_button(table(vec![("hypr_dispatch", s("workspace 1"))])) {
        WidgetNode::Button(b) => assert!(matches!(b.on_click, Some(Action::HyprDispatch(ref d)) if d == "workspace 1")),
        other => panic!("{other:?}"),
    }
    match build_button(table(vec![("command", LuaValue::Other(LuaType::Function))])) {
        WidgetNode::Button(b) => assert!(b.on_click.is_none()),
        other => panic!("{other:?}"),
    }
}

#[test]
fn simple_widgets() {
    match build_clock(table(vec![])) {
        WidgetNode::Clock(c) => assert_eq!(c.format, "%H:%M:%S"),
        other => panic!("{other:?}"),
    }
    match build_clock(table(vec![("format", s("%H:%M"))])) {
        WidgetNode::Clock(c) => assert_eq!(c.format, "%H:%M"),
        other => panic!("{other:?}"),
    }
    assert!(matches!(build_battery(table(vec![("class", s("b"))])), WidgetNode::Battery(n) if n.class == vec!["b"]));
    assert!(matches!(build_cpu(table(vec![])), WidgetNode::Cpu(_)));
    assert!(matches!(build_memory(table(vec![])), WidgetNode::Memory(_)));
    assert!(matches!(build_volume(table(vec![])), WidgetNode::Volume(_)));
    assert!(matches!(build_active_window(table(vec![])), WidgetNode::ActiveWindow(_)));
}

#[test]
fn workspaces_options() {
    match build_workspaces(table(vec![])) {
        WidgetNode::Workspaces(w) => {
            assert_eq!(w.count, 5);
            assert!(w.button_class.is_empty());
        }
        other => panic!("{other:?}"),
    }
    let t = table(vec![("count", num(9)), ("button_class", LuaValue::Table(vec![s("x"), s("y")]))]);
    match build_workspaces(t) {
        WidgetNode::Workspaces(w) => {
            assert_eq!(w.count, 9);
            assert_eq!(w.button_class, vec!["x", "y"]);
        }
        other => panic!("{other:?}"),
    }
    // a string holding a number converts; one that does not keeps the default
    match build_workspaces(table(vec![("count", s("7"))])) {
        WidgetNode::Workspaces(w) => assert_eq!(w.count, 7),
        other => panic!("{other:?}"),
    }
    match build_workspaces(table(vec![("count", s("many"))])) {
        WidgetNode::Workspaces(w) => assert_eq!(w.count, 5),
        other => panic!("{other:?}"),
    }
}

#[test]
fn box_children_and_orientation() {
    let t = table(vec![
        ("orientation", s("vertical")),
        ("children", LuaValue::Table(vec![label("a"), label("b")])),
    ]);
    match build_box(t) {
        Ok(WidgetNode::Box(b)) => {
            assert_eq!(b.orientation, Orientation::Vertical);
            let texts: Vec<String> = b.children.iter().map(text_of).collect();
            assert_eq!(texts, vec!["a", "b"]);
        }
        other => panic!("{other:?}"),
    }
    match build_box(table(vec![("orientation", s("diagonal"))])) {
        Ok(WidgetNode::Box(b)) => {
            assert_eq!(b.orientation, Orientation::Horizontal);
            assert!(b.children.is_empty());
        }
        other => panic!("{other:?}"),
    }
}

#[test]
fn box_children_errors() {
    let t = table(vec![("children", s("nope"))]);
    assert_eq!(build_box(t).unwrap_err(), ConfigError::ExpectedChildrenTable);
    let t = table(vec![("children", LuaValue::Table(vec![label("a"), num(3), LuaValue::UserData]))]);
    assert_eq!(build_box(t).unwrap_err(), ConfigError::NotUserData { from: LuaType::Integer });
    let t = table(vec![("children", LuaValue::Table(vec![LuaValue::UserData, num(3)]))]);
    assert_eq!(build_box(t).unwrap_err(), ConfigError::UserDataMismatch);
}

#[test]
fn centerbox_slots() {
    let t = table(vec![("start", label("s")), ("end", label("e"))]);
    match build_centerbox(t) {
        Ok(WidgetNode::CenterBox(c)) => {
            assert_eq!(text_of(c.start.as_ref().unwrap()), "s");
            assert!(c.center.is_none());
            assert_eq!(text_of(c.end.as_ref().unwrap()), "e");
        }
        other => panic!("{other:?}"),
    }
    let t = table(vec![("center", s("x")), ("end", LuaValue::UserData)]);
    assert_eq!(build_centerbox(t).unwrap_err(), ConfigError::ExpectedWidgetOrNil { slot: Slot::Center });
    let t = table(vec![("end", LuaValue::UserData)]);
    assert_eq!(build_centerbox(t).unwrap_err(), ConfigError::UserDataMismatch);
}

#[test]
fn window_options() {
    let t = table(vec![
        ("child", label("hello")),
        ("layer", s("overlay")),
        ("anchor", s("bottom")),
        ("height", num(30)),
        ("monitor", num(1)),
        ("class", LuaValue::Table(vec![s("bar")])),
    ]);
    let w = build_window("main".to_string(), t).unwrap();
    assert_eq!(w.name, "main");
    assert_eq!(w.layer, Layer::Overlay);
    assert_eq!(w.anchor, vec![Anchor::Bottom, Anchor::Left, Anchor::Right]);
    assert_eq!(w.height, Some(30));
    assert_eq!(w.width, None);
    assert_eq!(w.monitor, 1);
    assert_eq!(w.class, vec!["bar"]);
    assert_eq!(text_of(&w.child), "hello");

    let w = build_window("w".to_string(), table(vec![("child", label("x"))])).unwrap();
    assert_eq!(w.layer, Layer::Top);
    assert_eq!(w.anchor, vec![Anchor::Top, Anchor::Left, Anchor::Right]);
    assert_eq!(w.monitor, 0);
}

#[test]
fn window_needs_a_child_widget() {
    let e = build_window("w".to_string(), table(vec![])).unwrap_err();
    assert_eq!(e, ConfigError::NotUserData { from: LuaType::Nil });
    let e = build_window("w".to_string(), table(vec![("child", s("x"))])).unwrap_err();
    assert_eq!(e, ConfigError::NotUserData { from: LuaType::String });
    let e = build_window("w".to_string(), table(vec![("child", LuaValue::UserData)])).unwrap_err();
    assert_eq!(e, ConfigError::UserDataMismatch);
}

#[test]
fn layers_by_name() {
    assert_eq!(parse_layer("background"), Layer::Background);
    assert_eq!(parse_layer("bottom"), Layer::Bottom);
    assert_eq!(parse_layer("overlay"), Layer::Overlay);
    assert_eq!(parse_layer("top"), Layer::Top);
    assert_eq!(parse_layer("Bottom"), Layer::Top);
}

#[test]
fn anchors_by_name_or_list() {
    let a = |v: LuaValue| parse_anchors(&table(vec![("anchor", v)]));
    assert_eq!(a(s("top")), vec![Anchor::Top, Anchor::Left, Anchor::Right]);
    assert_eq!(a(s("left")), vec![Anchor::Top, Anchor::Bottom, Anchor::Left]);
    assert_eq!(a(s("right")), vec![Anchor::Top, Anchor::Bottom, Anchor::Right]);
    assert_eq!(a(s("middle")), vec![Anchor::Top, Anchor::Left, Anchor::Right]);
    assert_eq!(a(LuaValue::Table(vec![s("left"), s("bogus"), s("bottom")])), vec![Anchor::Left, Anchor::Bottom]);
    assert_eq!(a(LuaValue::Table(vec![s("bogus")])), vec![Anchor::Top, Anchor::Left, Anchor::Right]);
    assert_eq!(a(num(3)), vec![Anchor::Top, Anchor::Left, Anchor::Right]);
    assert_eq!(parse_anchors(&table(vec![])), vec![Anchor::Top, Anchor::Left, Anchor::Right]);
}

#[test]
fn lookup_takes_first_field() {
    let t = table(vec![("text", s("one")), ("text", s("two"))]);
    assert_eq!(get_string(&t, "text", "d"), "one");
    assert_eq!(get_string(&t, "missing", "d"), "d");
}

#[test]
fn runtime_state_keeps_order() {
    let mut st = LuaRuntimeState::new();
    st.push_window(build_window("a".into(), table(vec![("child", label("x"))])).unwrap());
    st.push_window(build_window("b".into(), table(vec![("child", label("y"))])).unwrap());
    let names: Vec<String> = st.windows.iter().map(|w| w.name.clone()).collect();
    assert_eq!(names, vec!["a", "b"]);
}

#[test]
fn type_names() {
    assert_eq!(lua_type_name(LuaType::UserData), "userdata");
    assert_eq!(lua_type_name(LuaType::Integer), "integer");
    assert_eq!(lua_type_name(LuaType::Nil), "nil");
}
