//! The widget tree and window configuration that a configuration script
//! builds and the renderer shows.

use vstd::prelude::*;

verus! {

/// One window of the bar: where it sits on the screen and what it shows.
#[derive(Debug)]
pub struct WindowConfig {
    pub name: String,
    pub monitor: i32,
    pub layer: Layer,
    pub anchor: Vec<Anchor>,
    pub height: Option<i32>,
    pub width: Option<i32>,
    pub class: Vec<String>,
    pub child: WidgetNode,
}

/// The layer-shell layer a window is placed on.
#[derive(Debug, Clone, Copy, PartialEq, Eq, Structural)]
pub enum Layer {
    Background,
    Bottom,
    Top,
    Overlay,
}

/// A screen edge a window is anchored to.
#[derive(Debug, Clone, Copy, PartialEq, Eq, Structural)]
pub enum Anchor {
    Top,
    Bottom,
    Left,
    Right,
}

/// A node of the widget tree.
#[derive(Debug)]
pub enum WidgetNode {
    Label(LabelNode),
    Button(ButtonNode),
    Clock(ClockNode),
    Box(BoxNode),
    CenterBox(CenterBoxNode),
    Volume(VolumeNode),
    Battery(BatteryNode),
    Cpu(CpuNode),
    Memory(MemoryNode),
    Workspaces(WorkspacesNode),
    ActiveWindow(ActiveWindowNode),
}

/// A container that lays its children out in a row or a column.
#[derive(Debug)]
pub struct BoxNode {
    pub class: Vec<String>,
    pub orientation: Orientation,
    pub children: Vec<WidgetNode>,
}

/// A container with up to three slots: start, center and end.
#[derive(Debug)]
pub struct CenterBoxNode {
    pub class: Vec<String>,
    pub start: Option<Box<WidgetNode>>,
    pub center: Option<Box<WidgetNode>>,
    pub end: Option<Box<WidgetNode>>,
}

/// A fixed text.
#[derive(Debug)]
pub struct LabelNode {
    pub class: Vec<String>,
    pub text: String,
}

/// A button with a text and an optional action on click.
#[derive(Debug)]
pub struct ButtonNode {
    pub class: Vec<String>,
    pub text: String,
    pub on_click: Option<Action>,
}

/// The current time, in a `strftime`-like format.
#[derive(Debug)]
pub struct ClockNode {
    pub class: Vec<String>,
    pub format: String,
}

/// The audio volume.
#[derive(Debug)]
pub struct VolumeNode {
    pub class: Vec<String>,
}

/// The title of the focused window.
#[derive(Debug)]
pub struct ActiveWindowNode {
    pub class: Vec<String>,
}

/// The battery charge.
#[derive(Debug)]
pub struct BatteryNode {
    pub class: Vec<String>,
}

/// The processor usage.
#[derive(Debug)]
pub struct CpuNode {
    pub class: Vec<String>,
}

/// The memory usage.
#[derive(Debug)]
pub struct MemoryNode {
    pub class: Vec<String>,
}

/// One button per workspace, at least `count` of them.
#[derive(Debug)]
pub struct WorkspacesNode {
    pub class: Vec<String>,
    pub button_class: Vec<String>,
    pub count: i32,
}

/// The direction in which a box lays out its children.
#[derive(Debug, Clone, Copy, PartialEq, Eq, Structural)]
pub enum Orientation {
    Horizontal,
    Vertical,
}

/// What a button does when clicked.
#[derive(Debug)]
pub enum Action {
    /// A shell command, run with `sh -c`.
    Command(String),
    /// Arguments of `hyprctl dispatch`.
    HyprDispatch(String),
}

/// An action with its text as a sequence of characters.
pub enum ActionView {
    Command(Seq<char>),
    HyprDispatch(Seq<char>),
}

impl View for Action {
    type V = ActionView;

    open spec fn view(&self) -> ActionView {
        match self {
            Action::Command(c) => ActionView::Command(c@),
            Action::HyprDispatch(d) => ActionView::HyprDispatch(d@),
        }
    }
}

/// The view of an optional action.
pub open spec fn opt_action_view(a: Option<Action>) -> Option<ActionView> {
    match a {
        Some(x) => Some(x@),
        None => None,
    }
}

/// The view of a list of CSS classes.
pub open spec fn classes_view(v: Seq<String>) -> Seq<Seq<char>> {
    v.map_values(|s: String| s@)
}

/// Whether two trees are equal up to the identity of their strings: the
/// same kinds, texts, classes, actions and children.
pub open spec fn same_node(a: WidgetNode, b: WidgetNode) -> bool
    decreases a,
{
    match (a, b) {
        (WidgetNode::Label(x), WidgetNode::Label(y)) => x.text@ == y.text@ && classes_view(x.class@)
            == classes_view(y.class@),
        (WidgetNode::Button(x), WidgetNode::Button(y)) => x.text@ == y.text@ && classes_view(
            x.class@,
        ) == classes_view(y.class@) && opt_action_view(x.on_click) == opt_action_view(y.on_click),
        (WidgetNode::Clock(x), WidgetNode::Clock(y)) => x.format@ == y.format@ && classes_view(
            x.class@,
        ) == classes_view(y.class@),
        (WidgetNode::Box(x), WidgetNode::Box(y)) => x.orientation == y.orientation && classes_view(
            x.class@,
        ) == classes_view(y.class@) && x.children@.len() == y.children@.len() && forall|i: int|
            0 <= i < x.children@.len() ==> same_node(x.children@[i], #[trigger] y.children@[i]),
        (WidgetNode::CenterBox(x), WidgetNode::CenterBox(y)) => classes_view(x.class@)
            == classes_view(y.class@) && same_slot(x.start, y.start) && same_slot(x.center, y.center)
            && same_slot(x.end, y.end),
        (WidgetNode::Volume(x), WidgetNode::Volume(y)) => classes_view(x.class@) == classes_view(
            y.class@,
        ),
        (WidgetNode::Battery(x), WidgetNode::Battery(y)) => classes_view(x.class@) == classes_view(
            y.class@,
        ),
        (WidgetNode::Cpu(x), WidgetNode::Cpu(y)) => classes_view(x.class@) == classes_view(y.class@),
        (WidgetNode::Memory(x), WidgetNode::Memory(y)) => classes_view(x.class@) == classes_view(
            y.class@,
        ),
        (WidgetNode::Workspaces(x), WidgetNode::Workspaces(y)) => x.count == y.count && classes_view(
            x.class@,
        ) == classes_view(y.class@) && classes_view(x.button_class@) == classes_view(
            y.button_class@,
        ),
        (WidgetNode::ActiveWindow(x), WidgetNode::ActiveWindow(y)) => classes_view(x.class@)
            == classes_view(y.class@),
        _ => false,
    }
}

/// Whether two center-box slots hold equal trees, or are both empty.
pub open spec fn same_slot(a: Option<Box<WidgetNode>>, b: Option<Box<WidgetNode>>) -> bool
    decreases a,
{
    match (a, b) {
        (Some(x), Some(y)) => same_node(*x, *y),
        (None, None) => true,
        _ => false,
    }
}

/// A copy of a list of strings.
pub fn copy_strings(v: &Vec<String>) -> (r: Vec<String>)
    ensures
        r@ == v@,
{
    let mut out: Vec<String> = Vec::new();
    let mut i: usize = 0;
    while i < v.len()
        invariant
            i <= v@.len(),
            out@ == v@.take(i as int),
        decreases v.len() - i,
    {
        out.push(v[i].clone());
        assert(out@ =~= v@.take(i + 1));
        i = i + 1;
    }
    assert(v@.take(v@.len() as int) =~= v@);
    out
}

/// A copy of an action.
pub fn copy_action(a: &Action) -> (r: Action)
    ensures
        r@ == a@,
{
    match a {
        Action::Command(c) => Action::Command(c.clone()),
        Action::HyprDispatch(d) => Action::HyprDispatch(d.clone()),
    }
}

fn copy_slot(w: &Option<Box<WidgetNode>>) -> (r: Option<Box<WidgetNode>>)
    ensures
        same_slot(*w, r),
    decreases *w,
{
    match w {
        Some(b) => Some(Box::new(copy_node(&**b))),
        None => None,
    }
}

/// A copy of a widget tree.
pub fn copy_node(n: &WidgetNode) -> (r: WidgetNode)
    ensures
        same_node(*n, r),
    decreases *n,
{
    match n {
        WidgetNode::Label(x) => WidgetNode::Label(LabelNode { class: copy_strings(&x.class), text: x.text.clone() }),
        WidgetNode::Button(x) => WidgetNode::Button(
            ButtonNode {
                class: copy_strings(&x.class),
                text: x.text.clone(),
                on_click: match &x.on_click {
                    Some(a) => Some(copy_action(a)),
                    None => None,
                },
            },
        ),
        WidgetNode::Clock(x) => WidgetNode::Clock(ClockNode { class: copy_strings(&x.class), format: x.format.clone() }),
        WidgetNode::Box(x) => {
            let mut children: Vec<WidgetNode> = Vec::new();
            let mut i: usize = 0;
            while i < x.children.len()
                invariant
                    *n == WidgetNode::Box(*x),
                    i <= x.children@.len(),
                    children@.len() == i,
                    forall|j: int| 0 <= j < i ==> same_node(x.children@[j], #[trigger] children@[j]),
                decreases x.children.len() - i,
            {
                proof {
                    assert(decreases_to!(*n => (*n)->Box_0));
                    assert(decreases_to!(x.children => x.children@));
                    assert(decreases_to!(x.children@ => x.children@[i as int]));
                }
                let c = copy_node(&x.children[i]);
                children.push(c);
                i = i + 1;
            }
            WidgetNode::Box(BoxNode { class: copy_strings(&x.class), orientation: x.orientation, children })
        },
        WidgetNode::CenterBox(x) => WidgetNode::CenterBox(
            CenterBoxNode {
                class: copy_strings(&x.class),
                start: copy_slot(&x.start),
                center: copy_slot(&x.center),
                end: copy_slot(&x.end),
            },
        ),
        WidgetNode::Volume(x) => WidgetNode::Volume(VolumeNode { class: copy_strings(&x.class) }),
        WidgetNode::Battery(x) => WidgetNode::Battery(BatteryNode { class: copy_strings(&x.class) }),
        WidgetNode::Cpu(x) => WidgetNode::Cpu(CpuNode { class: copy_strings(&x.class) }),
        WidgetNode::Memory(x) => WidgetNode::Memory(MemoryNode { class: copy_strings(&x.class) }),
        WidgetNode::Workspaces(x) => WidgetNode::Workspaces(
            WorkspacesNode {
                class: copy_strings(&x.class),
                button_class: copy_strings(&x.button_class),
                count: x.count,
            },
        ),
        WidgetNode::ActiveWindow(x) => WidgetNode::ActiveWindow(ActiveWindowNode { class: copy_strings(&x.class) }),
    }
}

} // verus!
