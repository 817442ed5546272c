//! How a widget tree is shown: the plan of toolkit widgets to build for it
//! (kinds, classes, refresh periods), the workspace buttons, and the texts
//! of the live labels. The toolkit calls themselves are made by the
//! application from these plans.

use vstd::prelude::*;
use crate::hyprland::{dispatch_args, spec_dispatch_args};
use crate::system::{cpu_usage, format_kib, spec_format_kib, CpuSnapshot, CpuUsage, MemoryInfo, sat_sub};
use crate::text::{str_concat, decimal, i32_to_string, int_decimal, str_eq, trim, trim_str};
use crate::widget::{
    classes_view, copy_action, copy_strings, opt_action_view, Action, ActionView, BoxNode,
    CenterBoxNode, Orientation, WidgetNode, WorkspacesNode,
};

verus! {

broadcast use vstd::string::group_string_axioms;

/// Where a live label takes its text from.
#[derive(Debug)]
pub enum PollSource {
    Battery,
    Cpu,
    /// The current time, in this format.
    Clock(String),
    Volume,
    Memory,
    ActiveWindow,
}

/// How often a live label is refreshed.
#[derive(Debug, Clone, Copy, PartialEq, Eq, Structural)]
pub enum PollInterval {
    /// Every so many seconds (a whole-second timer).
    Seconds(u32),
    /// Every so many milliseconds.
    Millis(u32),
}

/// The toolkit widget to build for a node.
#[derive(Debug)]
pub enum WidgetPlan {
    Label { text: String, classes: Vec<String> },
    Button { text: String, classes: Vec<String>, on_click: Option<Action> },
    Box { orientation: Orientation, spacing: i32, classes: Vec<String>, children: Vec<WidgetPlan> },
    CenterBox {
        classes: Vec<String>,
        start: Option<Box<WidgetPlan>>,
        center: Option<Box<WidgetPlan>>,
        end: Option<Box<WidgetPlan>>,
    },
    /// A label whose text is read from `source` now and then `every` period.
    Polled { source: PollSource, classes: Vec<String>, every: PollInterval },
    /// A row of workspace buttons, rebuilt when a Hyprland event asks for
    /// it (events are collected every `event_poll`), or every
    /// `fallback_poll` when Hyprland's events cannot be followed.
    Workspaces {
        classes: Vec<String>,
        button_class: Vec<String>,
        count: i32,
        spacing: i32,
        event_poll: PollInterval,
        fallback_poll: PollInterval,
    },
}

/// The space between the children of a box, in pixels.
pub const BOX_SPACING: i32 = 4;

/// Whether a polled plan has the given source, classes and period.
pub open spec fn polled_as(p: WidgetPlan, src: PollSource, class: Seq<String>, every: PollInterval) -> bool {
    p matches WidgetPlan::Polled { source, classes, every: e } && source == src && classes_view(classes@)
        == classes_view(class) && e == every
}

/// Whether `p` is the plan of `n`: the same kind of widget with the same
/// texts, classes and action; boxes spaced by four pixels with their
/// children planned in order; clocks and processor labels refreshed every
/// second, the battery every ten, volume, memory and the window title every
/// 750 ms; workspace events collected every 50 ms, or the buttons rebuilt
/// every 250 ms without them.
pub open spec fn plans(n: WidgetNode, p: WidgetPlan) -> bool
    decreases n,
{
    match n {
        WidgetNode::Label(l) => p matches WidgetPlan::Label { text, classes } && text@ == l.text@
            && classes_view(classes@) == classes_view(l.class@),
        WidgetNode::Button(b) => p matches WidgetPlan::Button { text, classes, on_click } && text@
            == b.text@ && classes_view(classes@) == classes_view(b.class@) && opt_action_view(
            on_click,
        ) == opt_action_view(b.on_click),
        WidgetNode::Box(b) => p matches WidgetPlan::Box { orientation, spacing, classes, children }
            && orientation == b.orientation && spacing == BOX_SPACING && classes_view(classes@)
            == classes_view(b.class@) && children@.len() == b.children@.len() && forall|i: int|
            0 <= i < children@.len() ==> plans(b.children@[i], #[trigger] children@[i]),
        WidgetNode::CenterBox(c) => p matches WidgetPlan::CenterBox { classes, start, center, end }
            && classes_view(classes@) == classes_view(c.class@) && match (c.start, start) {
            (Some(x), Some(y)) => plans(*x, *y),
            (None, None) => true,
            _ => false,
        } && match (c.center, center) {
            (Some(x), Some(y)) => plans(*x, *y),
            (None, None) => true,
            _ => false,
        } && match (c.end, end) {
            (Some(x), Some(y)) => plans(*x, *y),
            (None, None) => true,
            _ => false,
        },
        WidgetNode::Clock(c) => p matches WidgetPlan::Polled {
            source: PollSource::Clock(f),
            classes,
            every,
        } && f@ == c.format@ && classes_view(classes@) == classes_view(c.class@) && every
            == PollInterval::Seconds(1),
        WidgetNode::Battery(x) => polled_as(p, PollSource::Battery, x.class@, PollInterval::Seconds(10)),
        WidgetNode::Cpu(x) => polled_as(p, PollSource::Cpu, x.class@, PollInterval::Seconds(1)),
        WidgetNode::Volume(x) => polled_as(p, PollSource::Volume, x.class@, PollInterval::Millis(750)),
        WidgetNode::Memory(x) => polled_as(p, PollSource::Memory, x.class@, PollInterval::Millis(750)),
        WidgetNode::ActiveWindow(x) => polled_as(
            p,
            PollSource::ActiveWindow,
            x.class@,
            PollInterval::Millis(750),
        ),
        WidgetNode::Workspaces(w) => p matches WidgetPlan::Workspaces {
            classes,
            button_class,
            count,
            spacing,
            event_poll,
            fallback_poll,
        } && classes_view(classes@) == classes_view(w.class@) && classes_view(button_class@)
            == classes_view(w.button_class@) && count == w.count && spacing == BOX_SPACING
            && event_poll == PollInterval::Millis(50) && fallback_poll == PollInterval::Millis(250),
    }
}

fn plan_slot(w: &Option<Box<WidgetNode>>) -> (r: Option<Box<WidgetPlan>>)
    ensures
        match (*w, r) {
            (Some(x), Some(y)) => plans(*x, *y),
            (None, None) => true,
            _ => false,
        },
    decreases *w,
{
    match w {
        Some(b) => Some(Box::new(plan_widget(&**b))),
        None => None,
    }
}

/// The plan of the toolkit widgets that show a node and its subtree.
pub fn plan_widget(node: &WidgetNode) -> (r: WidgetPlan)
    ensures
        plans(*node, r),
    decreases *node,
{
    match node {
        WidgetNode::Label(l) => WidgetPlan::Label { text: l.text.clone(), classes: copy_strings(&l.class) },
        WidgetNode::Button(b) => WidgetPlan::Button {
            text: b.text.clone(),
            classes: copy_strings(&b.class),
            on_click: match &b.on_click {
                Some(a) => Some(copy_action(a)),
                None => None,
            },
        },
        WidgetNode::Box(b) => {
            let mut children: Vec<WidgetPlan> = Vec::new();
            let mut i: usize = 0;
            while i < b.children.len()
                invariant
                    *node == WidgetNode::Box(*b),
                    i <= b.children@.len(),
                    children@.len() == i,
                    forall|j: int| 0 <= j < i ==> plans(b.children@[j], #[trigger] children@[j]),
                decreases b.children.len() - i,
            {
                proof {
                    assert(decreases_to!(*node => (*node)->Box_0));
                    assert((*node)->Box_0 == *b);
                    assert(decreases_to!(*b => b.children));
                    assert(decreases_to!(b.children => b.children@));
                    assert(decreases_to!(b.children@ => b.children@[i as int]));
                }
                let c = plan_widget(&b.children[i]);
                children.push(c);
                i = i + 1;
            }
            WidgetPlan::Box {
                orientation: b.orientation,
                spacing: BOX_SPACING,
                classes: copy_strings(&b.class),
                children,
            }
        },
        WidgetNode::CenterBox(c) => WidgetPlan::CenterBox {
            classes: copy_strings(&c.class),
            start: plan_slot(&c.start),
            center: plan_slot(&c.center),
            end: plan_slot(&c.end),
        },
        WidgetNode::Clock(c) => WidgetPlan::Polled {
            source: PollSource::Clock(c.format.clone()),
            classes: copy_strings(&c.class),
            every: PollInterval::Seconds(1),
        },
        WidgetNode::Battery(x) => WidgetPlan::Polled {
            source: PollSource::Battery,
            classes: copy_strings(&x.class),
            every: PollInterval::Seconds(10),
        },
        WidgetNode::Cpu(x) => WidgetPlan::Polled {
            source: PollSource::Cpu,
            classes: copy_strings(&x.class),
            every: PollInterval::Seconds(1),
        },
        WidgetNode::Volume(x) => WidgetPlan::Polled {
            source: PollSource::Volume,
            classes: copy_strings(&x.class),
            every: PollInterval::Millis(750),
        },
        WidgetNode::Memory(x) => WidgetPlan::Polled {
            source: PollSource::Memory,
            classes: copy_strings(&x.class),
            every: PollInterval::Millis(750),
        },
        WidgetNode::ActiveWindow(x) => WidgetPlan::Polled {
            source: PollSource::ActiveWindow,
            classes: copy_strings(&x.class),
            every: PollInterval::Millis(750),
        },
        WidgetNode::Workspaces(w) => WidgetPlan::Workspaces {
            classes: copy_strings(&w.class),
            button_class: copy_strings(&w.button_class),
            count: w.count,
            spacing: BOX_SPACING,
            event_poll: PollInterval::Millis(50),
            fallback_poll: PollInterval::Millis(250),
        },
    }
}

// ---------------------------------------------------------------------------
// Workspace buttons
// ---------------------------------------------------------------------------

/// The workspaces shown when Hyprland could not be asked: one to five.
pub open spec fn fallback_ids(x: i32) -> bool {
    1 <= x <= 5
}

/// Whether `x` is among the workspaces the bar starts from: the positive
/// ids Hyprland listed, or one to five when it could not be asked.
pub open spec fn in_base(fetched: Option<Seq<i32>>, x: i32) -> bool {
    match fetched {
        Some(ids) => x > 0 && ids.contains(x),
        None => fallback_ids(x),
    }
}

/// Whether the ids are in strictly increasing order.
pub open spec fn strictly_increasing(s: Seq<i32>) -> bool {
    forall|i: int, j: int| 0 <= i < j < s.len() ==> s[i] < s[j]
}

/// The ids of the workspace buttons: the base workspaces and one to `count`,
/// each once, in increasing order.
pub open spec fn spec_workspace_ids(fetched: Option<Seq<i32>>, count: i32, r: Seq<i32>) -> bool {
    &&& strictly_increasing(r)
    &&& forall|x: i32| #[trigger] r.contains(x) <==> (in_base(fetched, x) || 1 <= x <= count)
}

/// Adds `x` to a strictly increasing list, keeping it so.
fn insert_sorted_unique(v: &mut Vec<i32>, x: i32)
    requires
        strictly_increasing(old(v)@),
    ensures
        strictly_increasing(final(v)@),
        forall|y: i32| #[trigger] final(v)@.contains(y) <==> (old(v)@.contains(y) || y == x),
{
    let mut p: usize = 0;
    while p < v.len() && v[p] < x
        invariant
            p <= v@.len(),
            forall|j: int| 0 <= j < p ==> v@[j] < x,
        decreases v.len() - p,
    {
        p = p + 1;
    }
    if p < v.len() && v[p] == x {
        return;
    }
    let ghost before = v@;
    v.insert(p, x);
    proof {
        assert forall|i: int, j: int| 0 <= i < j < v@.len() implies v@[i] < v@[j] by {
            if j < p {
                assert(v@[i] == before[i] && v@[j] == before[j]);
            } else if j == p {
                assert(v@[i] == before[i]);
            } else if i < p {
                assert(v@[i] == before[i] && v@[j] == before[j - 1]);
                assert(before[p as int] > x);
                assert(before[p as int] <= before[j - 1]);
            } else if i == p {
                assert(v@[j] == before[j - 1]);
                assert(before[p as int] <= before[j - 1]);
            } else {
                assert(v@[i] == before[i - 1] && v@[j] == before[j - 1]);
            }
        }
        assert forall|y: i32| #[trigger] v@.contains(y) <==> (before.contains(y) || y == x) by {
            if v@.contains(y) {
                let k = choose|k: int| 0 <= k < v@.len() && v@[k] == y;
                if k < p {
                    assert(before[k] == y);
                } else if k > p {
                    assert(before[k - 1] == y);
                }
            }
            if before.contains(y) {
                let k = choose|k: int| 0 <= k < before.len() && before[k] == y;
                if k < p {
                    assert(v@[k] == y);
                } else {
                    assert(v@[k + 1] == y);
                }
            }
            if y == x {
                assert(v@[p as int] == x);
            }
        }
    }
}

/// The ids of the workspace buttons (see [`spec_workspace_ids`]).
pub fn workspace_ids(fetched: Option<Vec<i32>>, count: i32) -> (r: Vec<i32>)
    ensures
        spec_workspace_ids(
            match fetched {
                Some(v) => Some(v@),
                None => None,
            },
            count,
            r@,
        ),
{
    let ghost f = match &fetched {
        Some(v) => Some(v@),
        None => None::<Seq<i32>>,
    };
    let mut ids: Vec<i32> = Vec::new();
    match fetched {
        Some(v) => {
            let mut i: usize = 0;
            while i < v.len()
                invariant
                    i <= v@.len(),
                    f == Some(v@),
                    strictly_increasing(ids@),
                    forall|x: i32| #[trigger] ids@.contains(x) <==> (x > 0 && v@.take(i as int).contains(x)),
                decreases v.len() - i,
            {
                let x = v[i];
                let ghost prev = ids@;
                if x > 0 {
                    insert_sorted_unique(&mut ids, x);
                }
                proof {
                    assert(v@.take(i + 1) =~= v@.take(i as int).push(x));
                    assert forall|y: i32| #[trigger] ids@.contains(y) <==> (y > 0 && v@.take(i + 1).contains(y)) by {
                        if v@.take(i + 1).contains(y) && y != x {
                            let k = choose|k: int| 0 <= k < i + 1 && #[trigger] v@.take(i + 1)[k] == y;
                            assert(v@.take(i as int)[k] == y);
                        }
                        if v@.take(i as int).contains(y) {
                            let k = choose|k: int| 0 <= k < i && #[trigger] v@.take(i as int)[k] == y;
                            assert(v@.take(i + 1)[k] == y);
                        }
                        if y == x {
                            assert(v@.take(i + 1)[i as int] == y);
                        }
                    }
                }
                i = i + 1;
            }
            assert(v@.take(v@.len() as int) =~= v@);
        },
        None => {
            let mut x: i32 = 1;
            while x <= 5
                invariant
                    1 <= x <= 6,
                    f is None,
                    strictly_increasing(ids@),
                    forall|y: i32| #[trigger] ids@.contains(y) <==> (1 <= y < x),
                decreases 6 - x,
            {
                insert_sorted_unique(&mut ids, x);
                x = x + 1;
            }
        },
    }
    assert(forall|y: i32| #[trigger] ids@.contains(y) <==> in_base(f, y));
    if count >= 1 {
        let mut x: i32 = 1;
        loop
            invariant_except_break
                forall|y: i32| #[trigger] ids@.contains(y) <==> (in_base(f, y) || 1 <= y < x),
            invariant
                1 <= x <= count,
                strictly_increasing(ids@),
            ensures
                strictly_increasing(ids@),
                forall|y: i32| #[trigger] ids@.contains(y) <==> (in_base(f, y) || 1 <= y <= count),
            decreases count - x,
        {
            insert_sorted_unique(&mut ids, x);
            if x == count {
                break;
            }
            x = x + 1;
        }
    }
    ids
}

/// The buttons for the first `count` workspaces are always there, and no
/// workspace gets two buttons.
pub proof fn law_workspace_ids(fetched: Option<Seq<i32>>, count: i32, r: Seq<i32>)
    requires
        spec_workspace_ids(fetched, count, r),
    ensures
        forall|x: i32| 1 <= x <= count ==> #[trigger] r.contains(x),
        forall|i: int, j: int| 0 <= i < r.len() && 0 <= j < r.len() && i != j ==> r[i] != r[j],
{
    assert forall|i: int, j: int| 0 <= i < r.len() && 0 <= j < r.len() && i != j implies r[i] != r[j] by {
        if i < j {
            assert(r[i] < r[j]);
        } else {
            assert(r[j] < r[i]);
        }
    }
}

/// A button of the workspace row.
#[derive(Debug)]
pub struct WorkspaceButton {
    pub id: i32,
    /// The text on the button: the id.
    pub label: String,
    /// Its CSS classes.
    pub classes: Vec<String>,
    /// The arguments of `hyprctl dispatch` run on click.
    pub dispatch: String,
}

/// The classes of the button of workspace `id`: `workspace`, then
/// `workspace-active` for the active one, then the configured classes.
pub open spec fn spec_button_classes(id: i32, active_id: i32, extra: Seq<Seq<char>>) -> Seq<Seq<char>> {
    seq!["workspace"@] + (if id == active_id {
        seq!["workspace-active"@]
    } else {
        seq![]
    }) + extra
}

/// The active workspace: the one Hyprland names, or the first when it could
/// not be asked.
pub open spec fn spec_active_id(active: Option<i32>) -> i32 {
    match active {
        Some(a) => a,
        None => 1,
    }
}

/// Whether `b` is the button of workspace `id`.
pub open spec fn button_of(b: WorkspaceButton, id: i32, active_id: i32, extra: Seq<Seq<char>>) -> bool {
    &&& b.id == id
    &&& b.label@ == int_decimal(id as int)
    &&& classes_view(b.classes@) == spec_button_classes(id, active_id, extra)
    &&& b.dispatch@ == "workspace "@ + int_decimal(id as int)
}

/// The button of one workspace.
pub fn workspace_button(id: i32, active_id: i32, button_class: &Vec<String>) -> (r: WorkspaceButton)
    ensures
        button_of(r, id, active_id, classes_view(button_class@)),
{
    let mut classes: Vec<String> = Vec::new();
    classes.push("workspace".to_string());
    if id == active_id {
        classes.push("workspace-active".to_string());
    }
    let ghost head = classes@;
    let mut i: usize = 0;
    while i < button_class.len()
        invariant
            i <= button_class@.len(),
            classes@ == head + button_class@.take(i as int),
        decreases button_class.len() - i,
    {
        classes.push(button_class[i].clone());
        assert(classes@ =~= head + button_class@.take(i + 1));
        i = i + 1;
    }
    assert(button_class@.take(button_class@.len() as int) =~= button_class@);
    assert(classes_view(classes@) =~= spec_button_classes(id, active_id, classes_view(button_class@)));
    let label = i32_to_string(id);
    let dispatch = str_concat("workspace ", label.as_str());
    WorkspaceButton { id, label, classes, dispatch }
}

/// The ids of some buttons.
pub open spec fn button_ids(bs: Seq<WorkspaceButton>) -> Seq<i32> {
    bs.map_values(|b: WorkspaceButton| b.id)
}

/// The workspace buttons: one per id of [`workspace_ids`], in order.
pub fn workspace_buttons(fetched: Option<Vec<i32>>, active: Option<i32>, cfg: &WorkspacesNode) -> (r: Vec<
    WorkspaceButton,
>)
    ensures
        spec_workspace_ids(
            match fetched {
                Some(v) => Some(v@),
                None => None,
            },
            cfg.count,
            button_ids(r@),
        ),
        forall|i: int|
            0 <= i < r@.len() ==> button_of(
                #[trigger] r@[i],
                r@[i].id,
                spec_active_id(active),
                classes_view(cfg.button_class@),
            ),
{
    let active_id = match active {
        Some(a) => a,
        None => 1,
    };
    let ghost f = match &fetched {
        Some(v) => Some(v@),
        None => None::<Seq<i32>>,
    };
    let ids = workspace_ids(fetched, cfg.count);
    let mut out: Vec<WorkspaceButton> = Vec::new();
    let mut i: usize = 0;
    while i < ids.len()
        invariant
            i <= ids@.len(),
            out@.len() == i,
            button_ids(out@) == ids@.take(i as int),
            active_id == spec_active_id(active),
            forall|j: int|
                0 <= j < i ==> button_of(
                    #[trigger] out@[j],
                    ids@[j],
                    active_id,
                    classes_view(cfg.button_class@),
                ),
        decreases ids.len() - i,
    {
        let b = workspace_button(ids[i], active_id, &cfg.button_class);
        out.push(b);
        assert(button_ids(out@) =~= ids@.take(i + 1));
        i = i + 1;
    }
    assert(ids@.take(ids@.len() as int) =~= ids@);
    out
}

/// The button of the active workspace, and no other, carries
/// `workspace-active` (unless the configured classes name it themselves).
pub proof fn law_one_active_button(id: i32, active_id: i32, extra: Seq<Seq<char>>)
    requires
        !extra.contains("workspace-active"@),
    ensures
        spec_button_classes(id, active_id, extra).contains("workspace-active"@) <==> id == active_id,
{
    let c = spec_button_classes(id, active_id, extra);
    reveal_strlit("workspace");
    reveal_strlit("workspace-active");
    assert("workspace"@.len() == 9 && "workspace-active"@.len() == 16);
    assert("workspace"@ != "workspace-active"@);
    if id == active_id {
        assert(c[1] == "workspace-active"@);
    } else {
        assert(c =~= seq!["workspace"@] + extra);
        if c.contains("workspace-active"@) {
            let k = choose|k: int| 0 <= k < c.len() && c[k] == "workspace-active"@;
            if k > 0 {
                assert(extra[k - 1] == "workspace-active"@);
            }
        }
    }
}

// ---------------------------------------------------------------------------
// Live label texts
// ---------------------------------------------------------------------------

/// The memory label: `RAM: <used>/<total>`, or `RAM: ??` when memory could
/// not be read.
pub open spec fn spec_memory_label(info: Option<MemoryInfo>) -> Seq<char> {
    match info {
        Some(m) => "RAM: "@ + spec_format_kib(m.used_kib) + "/"@ + spec_format_kib(m.total_kib),
        None => "RAM: ??"@,
    }
}

/// The text of the memory label.
pub fn memory_label(info: Option<MemoryInfo>) -> (r: String)
    ensures
        r@ == spec_memory_label(info),
{
    match info {
        Some(m) => {
            let used = format_kib(m.used_kib);
            let total = format_kib(m.total_kib);
            let a = str_concat("RAM: ", used.as_str());
            let b = str_concat(a.as_str(), "/");
            str_concat(b.as_str(), total.as_str())
        },
        None => "RAM: ??".to_string(),
    }
}

/// What the processor label shows after a reading.
#[derive(Debug, Clone, Copy)]
pub enum CpuReading {
    /// The counters could not be read: `CPU: ??`.
    Unavailable,
    /// First reading, nothing to compare with yet: `CPU: --`.
    Warmup,
    /// The usage since the previous reading: `CPU: <percent>%`.
    Usage(CpuUsage),
}

/// One refresh of the processor label: from the previous snapshot and the
/// new one (none when it could not be read), the snapshot to keep and what
/// to show. A failed read keeps the previous snapshot.
pub fn cpu_step(prev: Option<CpuSnapshot>, next: Option<CpuSnapshot>) -> (r: (Option<CpuSnapshot>, CpuReading))
    ensures
        match next {
            None => r.0 == prev && r.1 is Unavailable,
            Some(n) => r.0 == Some(n) && match prev {
                None => r.1 is Warmup,
                Some(o) => r.1 matches CpuReading::Usage(u) && u.total == sat_sub(n.total, o.total)
                    && u.used == sat_sub(u.total, sat_sub(n.idle, o.idle)),
            },
        },
{
    match next {
        None => (prev, CpuReading::Unavailable),
        Some(n) => match prev {
            None => (Some(n), CpuReading::Warmup),
            Some(o) => (Some(n), CpuReading::Usage(cpu_usage(o, n))),
        },
    }
}

/// The active-window label: the title, or `??` when it could not be read.
pub fn active_window_label(title: Option<String>) -> (r: String)
    ensures
        r@ == match title {
            Some(t) => t@,
            None => "??"@,
        },
{
    match title {
        Some(t) => t,
        None => "??".to_string(),
    }
}

/// The volume as the volume command prints it: its trimmed output, none if
/// that is empty.
pub fn volume_text(output: &str) -> (r: Option<String>)
    ensures
        match r {
            Some(t) => trim(output@).len() > 0 && t@ == trim(output@),
            None => trim(output@).len() == 0,
        },
{
    let t = trim_str(output);
    if t.as_str().is_empty() {
        None
    } else {
        Some(t)
    }
}

/// A label with a prefix and a reading, `??` standing for a failed one.
pub open spec fn spec_prefixed(prefix: Seq<char>, reading: Option<Seq<char>>) -> Seq<char> {
    prefix + match reading {
        Some(t) => t,
        None => "??"@,
    }
}

fn prefixed(prefix: &str, reading: Option<String>) -> (r: String)
    ensures
        r@ == spec_prefixed(
            prefix@,
            match reading {
                Some(t) => Some(t@),
                None => None,
            },
        ),
{
    match reading {
        Some(t) => str_concat(prefix, t.as_str()),
        None => str_concat(prefix, "??"),
    }
}

/// The volume label: `VOL: <volume>` or `VOL: ??`.
pub fn volume_label(volume: Option<String>) -> (r: String)
    ensures
        r@ == spec_prefixed(
            "VOL: "@,
            match volume {
                Some(t) => Some(t@),
                None => None,
            },
        ),
{
    prefixed("VOL: ", volume)
}

/// The battery label: `BAT: <charge>` or `BAT: ??`.
pub fn battery_label(battery: Option<String>) -> (r: String)
    ensures
        r@ == spec_prefixed(
            "BAT: "@,
            match battery {
                Some(t) => Some(t@),
                None => None,
            },
        ),
{
    prefixed("BAT: ", battery)
}

/// The sign of a charging status: `+` charging, `-` discharging, `=` full,
/// nothing otherwise.
pub open spec fn spec_status_icon(status: Seq<char>) -> Seq<char> {
    if status == "Charging"@ {
        "+"@
    } else if status == "Discharging"@ {
        "-"@
    } else if status == "Full"@ {
        "="@
    } else {
        ""@
    }
}

/// The battery charge: the trimmed capacity, `%`, and the sign of the
/// trimmed status (an unreadable status reads as empty).
pub open spec fn spec_battery_text(capacity: Seq<char>, status: Seq<char>) -> Seq<char> {
    trim(capacity) + "%"@ + spec_status_icon(trim(status))
}

/// The battery charge from the `capacity` and `status` files.
pub fn battery_text(capacity: &str, status: Option<String>) -> (r: String)
    ensures
        r@ == spec_battery_text(
            capacity@,
            match status {
                Some(s) => s@,
                None => ""@,
            },
        ),
{
    let st = match status {
        Some(s) => trim_str(s.as_str()),
        None => trim_str(""),
    };
    let icon = if str_eq(st.as_str(), "Charging") {
        "+"
    } else if str_eq(st.as_str(), "Discharging") {
        "-"
    } else if str_eq(st.as_str(), "Full") {
        "="
    } else {
        ""
    };
    let cap = trim_str(capacity);
    let a = str_concat(cap.as_str(), "%");
    str_concat(a.as_str(), icon)
}

/// Whether a power supply's `type` file names a battery.
pub fn is_battery_type(kind: &str) -> (r: bool)
    ensures
        r == (trim(kind@) == "Battery"@),
{
    let t = trim_str(kind);
    str_eq(t.as_str(), "Battery")
}

/// What clicking a button runs: `sh -c <command>`, or `hyprctl` with the
/// dispatch arguments (nothing when they hold no word).
pub open spec fn spec_action_command(a: ActionView) -> Option<(Seq<char>, Seq<Seq<char>>)> {
    match a {
        ActionView::Command(c) => Some(("sh"@, seq!["-c"@, c])),
        ActionView::HyprDispatch(d) => match spec_dispatch_args(d) {
            Some(args) => Some(("hyprctl"@, args)),
            None => None,
        },
    }
}

/// The program and arguments that a button's action runs.
pub fn action_command(action: &Action) -> (r: Option<(String, Vec<String>)>)
    ensures
        match spec_action_command(action@) {
            Some((prog, args)) => r matches Some((p, a)) && p@ == prog && classes_view(a@) == args,
            None => r is None,
        },
{
    match action {
        Action::Command(c) => {
            let mut args: Vec<String> = Vec::new();
            args.push("-c".to_string());
            args.push(c.clone());
            assert(classes_view(args@) =~= seq!["-c"@, c@]);
            Some(("sh".to_string(), args))
        },
        Action::HyprDispatch(d) => match dispatch_args(d.as_str()) {
            Some(args) => {
                Some(("hyprctl".to_string(), args))
            },
            None => None,
        },
    }
}

/// Whether `wanted` is among the classes.
pub fn has_class(classes: &Vec<String>, wanted: &str) -> (r: bool)
    ensures
        r == classes_view(classes@).contains(wanted@),
{
    let mut i: usize = 0;
    while i < classes.len()
        invariant
            i <= classes@.len(),
            forall|j: int| 0 <= j < i ==> classes@[j]@ != wanted@,
        decreases classes.len() - i,
    {
        if str_eq(classes[i].as_str(), wanted) {
            assert(classes_view(classes@)[i as int] == wanted@);
            return true;
        }
        i = i + 1;
    }
    assert(!classes_view(classes@).contains(wanted@)) by {
        if classes_view(classes@).contains(wanted@) {
            let k = choose|k: int| 0 <= k < classes@.len() && classes_view(classes@)[k] == wanted@;
            assert(classes@[k]@ == wanted@);
        }
    }
    false
}

// ---------------------------------------------------------------------------
// Laws
// ---------------------------------------------------------------------------

/// Each node is shown by the toolkit widget of its kind, with its own
/// texts, classes and action: a label by a label, a button by a button; a
/// box keeps its orientation and its children, each in its place; a center
/// box puts the plan of each slot in the same slot; live labels are
/// refreshed at their period (clock and processor every second, battery
/// every ten, volume, memory and window title every 750 ms); workspace rows
/// keep their count and classes.
pub proof fn law_plan_shape(n: WidgetNode, p: WidgetPlan)
    requires
        plans(n, p),
    ensures
        n matches WidgetNode::Label(l) ==> (p matches WidgetPlan::Label { text, classes }
            && text@ == l.text@ && classes_view(classes@) == classes_view(l.class@)),
        n matches WidgetNode::Button(b) ==> (p matches WidgetPlan::Button { text, classes, on_click }
            && text@ == b.text@ && classes_view(classes@) == classes_view(b.class@)
            && opt_action_view(on_click) == opt_action_view(b.on_click)),
        n matches WidgetNode::Box(b) ==> (p matches WidgetPlan::Box {
            orientation,
            spacing,
            classes,
            children,
        } && orientation == b.orientation && spacing == 4 && classes_view(classes@) == classes_view(
            b.class@,
        ) && children@.len() == b.children@.len() && forall|i: int|
            0 <= i < children@.len() ==> plans(b.children@[i], #[trigger] children@[i])),
        n matches WidgetNode::CenterBox(c) ==> (p matches WidgetPlan::CenterBox {
            classes,
            start,
            center,
            end,
        } && classes_view(classes@) == classes_view(c.class@) && (c.start is None <==> start is None)
            && (c.center is None <==> center is None) && (c.end is None <==> end is None) && (c.start
            matches Some(x) ==> plans(*x, *start->0)) && (c.center matches Some(x) ==> plans(
            *x,
            *center->0,
        )) && (c.end matches Some(x) ==> plans(*x, *end->0))),
        n matches WidgetNode::Clock(c) ==> (p matches WidgetPlan::Polled {
            source: PollSource::Clock(f),
            classes,
            every,
        } && f@ == c.format@ && classes_view(classes@) == classes_view(c.class@) && every
            == PollInterval::Seconds(1)),
        n matches WidgetNode::Battery(x) ==> (p matches WidgetPlan::Polled { source, classes, every }
            && source is Battery && every == PollInterval::Seconds(10) && classes_view(classes@)
            == classes_view(x.class@)),
        n matches WidgetNode::Cpu(x) ==> (p matches WidgetPlan::Polled { source, classes, every }
            && source is Cpu && every == PollInterval::Seconds(1) && classes_view(classes@)
            == classes_view(x.class@)),
        n matches WidgetNode::Volume(x) ==> (p matches WidgetPlan::Polled { source, classes, every }
            && source is Volume && every == PollInterval::Millis(750) && classes_view(classes@)
            == classes_view(x.class@)),
        n matches WidgetNode::Memory(x) ==> (p matches WidgetPlan::Polled { source, classes, every }
            && source is Memory && every == PollInterval::Millis(750) && classes_view(classes@)
            == classes_view(x.class@)),
        n matches WidgetNode::ActiveWindow(x) ==> (p matches WidgetPlan::Polled {
            source,
            classes,
            every,
        } && source is ActiveWindow && every == PollInterval::Millis(750) && classes_view(classes@)
            == classes_view(x.class@)),
        n matches WidgetNode::Workspaces(w) ==> (p matches WidgetPlan::Workspaces {
            classes,
            button_class,
            count,
            spacing,
            event_poll,
            fallback_poll,
        } && count == w.count && spacing == 4 && classes_view(classes@) == classes_view(w.class@)
            && classes_view(button_class@) == classes_view(w.button_class@) && event_poll
            == PollInterval::Millis(50) && fallback_poll == PollInterval::Millis(250)),
{
}

/// A label placed in a slot of a center box is shown with its text in
/// that same slot.
pub proof fn law_center_box_label_slots(c: CenterBoxNode, p: WidgetPlan)
    requires
        plans(WidgetNode::CenterBox(c), p),
    ensures
        c.start matches Some(x) ==> (*x matches WidgetNode::Label(l) ==> (p matches WidgetPlan::CenterBox {
            start: Some(y),
            ..
        } && *y matches WidgetPlan::Label { text, .. } && text@ == l.text@)),
        c.end matches Some(x) ==> (*x matches WidgetNode::Label(l) ==> (p matches WidgetPlan::CenterBox {
            end: Some(y),
            ..
        } && *y matches WidgetPlan::Label { text, .. } && text@ == l.text@)),
        c.center matches Some(x) ==> (*x matches WidgetNode::Label(l) ==> (p matches WidgetPlan::CenterBox {
            center: Some(y),
            ..
        } && *y matches WidgetPlan::Label { text, .. } && text@ == l.text@)),
        c.start is None ==> p matches WidgetPlan::CenterBox { start: None, .. },
        c.end is None ==> p matches WidgetPlan::CenterBox { end: None, .. },
{
    law_plan_shape(WidgetNode::CenterBox(c), p);
    if let WidgetPlan::CenterBox { start, center, end, .. } = p {
        if let Some(x) = c.start {
            law_plan_shape(*x, *start->0);
        }
        if let Some(x) = c.center {
            law_plan_shape(*x, *center->0);
        }
        if let Some(x) = c.end {
            law_plan_shape(*x, *end->0);
        }
    }
}

/// The children of a box are shown in their order: a label at position `i`
/// is shown with its text at position `i`.
pub proof fn law_box_children_in_order(b: BoxNode, p: WidgetPlan, i: int)
    requires
        plans(WidgetNode::Box(b), p),
        0 <= i < b.children@.len(),
    ensures
        b.children@[i] matches WidgetNode::Label(l) ==> (p matches WidgetPlan::Box { children, .. }
            && children@[i] matches WidgetPlan::Label { text, .. } && text@ == l.text@),
{
    law_plan_shape(WidgetNode::Box(b), p);
    if let WidgetPlan::Box { children, .. } = p {
        law_plan_shape(b.children@[i], children@[i]);
    }
}

/// Without an answer from Hyprland the buttons start from workspaces one to
/// five; with one, from the positive ids it listed.
pub proof fn law_workspace_base(ids: Seq<i32>, x: i32)
    ensures
        in_base(None, x) <==> (1 <= x && x <= 5),
        in_base(Some(ids), x) <==> (x > 0 && ids.contains(x)),
{
}

/// A workspace button shows its id, dispatches `workspace <id>`, carries
/// the class `workspace` first, then `workspace-active` when it is the
/// active one, then the configured classes; the active workspace is the
/// first one when Hyprland could not say.
pub proof fn law_workspace_button(b: WorkspaceButton, id: i32, active_id: i32, extra: Seq<Seq<char>>)
    requires
        button_of(b, id, active_id, extra),
    ensures
        b.id == id,
        b.label@ == int_decimal(id as int),
        b.dispatch@ == "workspace "@ + b.label@,
        classes_view(b.classes@)[0] == "workspace"@,
        id == active_id ==> classes_view(b.classes@) == seq!["workspace"@, "workspace-active"@] + extra,
        id != active_id ==> classes_view(b.classes@) == seq!["workspace"@] + extra,
        spec_active_id(None) == 1,
        spec_active_id(Some(active_id)) == active_id,
{
    assert(seq!["workspace"@] + seq!["workspace-active"@] =~= seq!["workspace"@, "workspace-active"@]);
    assert(seq!["workspace"@] + Seq::<Seq<char>>::empty() =~= seq!["workspace"@]);
}

/// The memory label shows used then total memory; a failed read shows
/// `RAM: ??`. The other live labels show their prefix and reading, or `??`.
pub proof fn law_label_texts(m: MemoryInfo, prefix: Seq<char>, reading: Seq<char>)
    ensures
        spec_memory_label(Some(m)) == "RAM: "@ + spec_format_kib(m.used_kib) + "/"@
            + spec_format_kib(m.total_kib),
        spec_memory_label(None) == "RAM: ??"@,
        spec_prefixed(prefix, Some(reading)) == prefix + reading,
        spec_prefixed(prefix, None) == prefix + "??"@,
{
}

/// The battery shows its trimmed capacity, `%`, then `+` when charging,
/// `-` when discharging, `=` when full and nothing otherwise.
pub proof fn law_battery_text(capacity: Seq<char>, status: Seq<char>)
    ensures
        trim(status) == "Charging"@ ==> spec_battery_text(capacity, status) == trim(capacity) + "%"@
            + "+"@,
        trim(status) == "Discharging"@ ==> spec_battery_text(capacity, status) == trim(capacity)
            + "%"@ + "-"@,
        trim(status) == "Full"@ ==> spec_battery_text(capacity, status) == trim(capacity) + "%"@
            + "="@,
        trim(status) != "Charging"@ && trim(status) != "Discharging"@ && trim(status) != "Full"@
            ==> spec_battery_text(capacity, status) == trim(capacity) + "%"@,
{
    reveal_strlit("Charging");
    reveal_strlit("Discharging");
    reveal_strlit("Full");
    reveal_strlit("");
    assert("Charging"@.len() == 8 && "Discharging"@.len() == 11 && "Full"@.len() == 4);
    assert(""@ =~= Seq::<char>::empty());
    let t = trim(capacity) + "%"@;
    assert(t + ""@ =~= t);
}

/// A command button runs `sh -c <command>`; a dispatch button runs
/// `hyprctl dispatch` with the words of its arguments.
pub proof fn law_action_command(c: Seq<char>, d: Seq<char>)
    ensures
        spec_action_command(ActionView::Command(c)) == Some(("sh"@, seq!["-c"@, c])),
        spec_action_command(ActionView::HyprDispatch(d)) == match spec_dispatch_args(d) {
            Some(args) => Some(("hyprctl"@, args)),
            None => None::<(Seq<char>, Seq<Seq<char>>)>,
        },
{
}

} // verus!
