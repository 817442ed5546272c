//! What the bar reads from Hyprland: workspaces, the active window, and the
//! events of its event socket; and the arguments of `hyprctl dispatch`.

use vstd::prelude::*;
use crate::widget::classes_view;
use crate::text::{find, has_prefix, split_once, split_once_str, split_whitespace, str_eq, trim, trim_str, words};

verus! {

broadcast use vstd::string::group_string_axioms;

/// A workspace as `hyprctl workspaces -j` lists it.
#[derive(Debug)]
pub struct HyprWorkspace {
    pub id: i32,
    pub name: String,
    pub monitor: String,
    pub windows: i32,
}

/// The active workspace as `hyprctl activeworkspace -j` gives it.
#[derive(Debug)]
pub struct HyprActiveWorkspace {
    pub id: i32,
    pub name: String,
}

/// The focused window as `hyprctl activewindow -j` gives it.
#[derive(Debug)]
pub struct ActiveWindow {
    pub address: String,
    pub class: String,
    pub title: String,
    pub workspace: HyprActiveWorkspace,
}

/// One line of Hyprland's event socket.
#[derive(Debug)]
pub enum HyprlandEvent {
    Workspace(String),
    FocusedMonitor(String),
    ActiveWindow(String),
    CreateWorkspace(String),
    DestroyWorkspace(String),
    MoveWorkspace(String),
    OpenWindow(String),
    CloseWindow(String),
    Unknown(String),
}

/// An event with its text as a sequence of characters.
pub enum HyprlandEventView {
    Workspace(Seq<char>),
    FocusedMonitor(Seq<char>),
    ActiveWindow(Seq<char>),
    CreateWorkspace(Seq<char>),
    DestroyWorkspace(Seq<char>),
    MoveWorkspace(Seq<char>),
    OpenWindow(Seq<char>),
    CloseWindow(Seq<char>),
    Unknown(Seq<char>),
}

impl View for HyprlandEvent {
    type V = HyprlandEventView;

    open spec fn view(&self) -> HyprlandEventView {
        match self {
            HyprlandEvent::Workspace(s) => HyprlandEventView::Workspace(s@),
            HyprlandEvent::FocusedMonitor(s) => HyprlandEventView::FocusedMonitor(s@),
            HyprlandEvent::ActiveWindow(s) => HyprlandEventView::ActiveWindow(s@),
            HyprlandEvent::CreateWorkspace(s) => HyprlandEventView::CreateWorkspace(s@),
            HyprlandEvent::DestroyWorkspace(s) => HyprlandEventView::DestroyWorkspace(s@),
            HyprlandEvent::MoveWorkspace(s) => HyprlandEventView::MoveWorkspace(s@),
            HyprlandEvent::OpenWindow(s) => HyprlandEventView::OpenWindow(s@),
            HyprlandEvent::CloseWindow(s) => HyprlandEventView::CloseWindow(s@),
            HyprlandEvent::Unknown(s) => HyprlandEventView::Unknown(s@),
        }
    }
}

/// The event a line of the event socket announces: `NAME>>DATA` for one of
/// the known names, anything else unknown (with the whole line).
pub open spec fn spec_parse_event(line: Seq<char>) -> HyprlandEventView {
    match split_once(line, ">>"@) {
        None => HyprlandEventView::Unknown(line),
        Some((name, data)) => if name == "workspace"@ {
            HyprlandEventView::Workspace(data)
        } else if name == "focusedmon"@ {
            HyprlandEventView::FocusedMonitor(data)
        } else if name == "activewindow"@ {
            HyprlandEventView::ActiveWindow(data)
        } else if name == "createworkspace"@ {
            HyprlandEventView::CreateWorkspace(data)
        } else if name == "destroyworkspace"@ {
            HyprlandEventView::DestroyWorkspace(data)
        } else if name == "moveworkspace"@ {
            HyprlandEventView::MoveWorkspace(data)
        } else if name == "openwindow"@ {
            HyprlandEventView::OpenWindow(data)
        } else if name == "closewindow"@ {
            HyprlandEventView::CloseWindow(data)
        } else {
            HyprlandEventView::Unknown(line)
        },
    }
}

/// Parses one line of Hyprland's event socket.
pub fn parse_event(line: &str) -> (e: HyprlandEvent)
    ensures
        e@ == spec_parse_event(line@),
{
    match split_once_str(line, ">>") {
        None => HyprlandEvent::Unknown(line.to_string()),
        Some((name, data)) => {
            let n = name.as_str();
            if str_eq(n, "workspace") {
                HyprlandEvent::Workspace(data)
            } else if str_eq(n, "focusedmon") {
                HyprlandEvent::FocusedMonitor(data)
            } else if str_eq(n, "activewindow") {
                HyprlandEvent::ActiveWindow(data)
            } else if str_eq(n, "createworkspace") {
                HyprlandEvent::CreateWorkspace(data)
            } else if str_eq(n, "destroyworkspace") {
                HyprlandEvent::DestroyWorkspace(data)
            } else if str_eq(n, "moveworkspace") {
                HyprlandEvent::MoveWorkspace(data)
            } else if str_eq(n, "openwindow") {
                HyprlandEvent::OpenWindow(data)
            } else if str_eq(n, "closewindow") {
                HyprlandEvent::CloseWindow(data)
            } else {
                HyprlandEvent::Unknown(line.to_string())
            }
        },
    }
}

/// Whether an event changes what the workspace buttons show: every known
/// event but a change of the active window.
pub open spec fn spec_should_refresh(e: HyprlandEventView) -> bool {
    match e {
        HyprlandEventView::Workspace(_) => true,
        HyprlandEventView::FocusedMonitor(_) => true,
        HyprlandEventView::CreateWorkspace(_) => true,
        HyprlandEventView::DestroyWorkspace(_) => true,
        HyprlandEventView::MoveWorkspace(_) => true,
        HyprlandEventView::OpenWindow(_) => true,
        HyprlandEventView::CloseWindow(_) => true,
        HyprlandEventView::ActiveWindow(_) => false,
        HyprlandEventView::Unknown(_) => false,
    }
}

/// Whether the user interface should be refreshed after an event.
pub fn event_should_refresh_ui(event: &HyprlandEvent) -> (r: bool)
    ensures
        r == spec_should_refresh(event@),
{
    match event {
        HyprlandEvent::Workspace(_) => true,
        HyprlandEvent::FocusedMonitor(_) => true,
        HyprlandEvent::CreateWorkspace(_) => true,
        HyprlandEvent::DestroyWorkspace(_) => true,
        HyprlandEvent::MoveWorkspace(_) => true,
        HyprlandEvent::OpenWindow(_) => true,
        HyprlandEvent::CloseWindow(_) => true,
        HyprlandEvent::ActiveWindow(_) => false,
        HyprlandEvent::Unknown(_) => false,
    }
}

/// When `name` holds no `'>'`, the first `">>"` of `name >> data` is the one
/// after `name`.
proof fn lemma_find_after_name(name: Seq<char>, data: Seq<char>)
    requires
        forall|i: int| 0 <= i < name.len() ==> name[i] != '>',
    ensures
        split_once(name + ">>"@ + data, ">>"@) == Some((name, data)),
    decreases name.len(),
{
    let sep = ">>"@;
    assert(sep =~= seq!['>', '>']) by {
        reveal_strlit(">>");
    }
    let s = name + sep + data;
    if name.len() == 0 {
        assert(s.take(2) =~= sep);
        assert(s.take(0) =~= name);
        assert(s.skip(2) =~= data);
    } else {
        let t = name.drop_first();
        assert forall|i: int| 0 <= i < t.len() implies t[i] != '>' by {
            assert(t[i] == name[i + 1]);
        }
        lemma_find_after_name(t, data);
        lemma_find_bounds(t + sep + data, sep);
        assert(s[0] == name[0]);
        assert(!has_prefix(s, sep)) by {
            assert(s.take(2)[0] != sep[0]);
        }
        assert(s.drop_first() =~= t + sep + data);
        let i = find(t + sep + data, sep)->0;
        assert(i == t.len());
        assert(s.take(i + 1) =~= name);
        assert(s.skip(i + 1 + 2) =~= (t + sep + data).skip(i + 2));
    }
}

proof fn lemma_find_bounds(s: Seq<char>, p: Seq<char>)
    ensures
        find(s, p) matches Some(i) ==> 0 <= i && i + p.len() <= s.len() && has_prefix(s.skip(i), p),
    decreases s.len(),
{
    if has_prefix(s, p) {
        assert(s.skip(0) =~= s);
    } else if s.len() > 0 {
        lemma_find_bounds(s.drop_first(), p);
        if let Some(i) = find(s.drop_first(), p) {
            assert(s.drop_first().skip(i) =~= s.skip(i + 1));
        }
    }
}

/// A line `NAME>>DATA` with a known event name gives that event with `DATA`,
/// whatever `DATA` holds.
pub proof fn law_parse_event_known_names(data: Seq<char>)
    ensures
        spec_parse_event("workspace"@ + ">>"@ + data) == HyprlandEventView::Workspace(data),
        spec_parse_event("focusedmon"@ + ">>"@ + data) == HyprlandEventView::FocusedMonitor(data),
        spec_parse_event("activewindow"@ + ">>"@ + data) == HyprlandEventView::ActiveWindow(data),
        spec_parse_event("createworkspace"@ + ">>"@ + data)
            == HyprlandEventView::CreateWorkspace(data),
        spec_parse_event("destroyworkspace"@ + ">>"@ + data)
            == HyprlandEventView::DestroyWorkspace(data),
        spec_parse_event("moveworkspace"@ + ">>"@ + data) == HyprlandEventView::MoveWorkspace(
            data,
        ),
        spec_parse_event("openwindow"@ + ">>"@ + data) == HyprlandEventView::OpenWindow(data),
        spec_parse_event("closewindow"@ + ">>"@ + data) == HyprlandEventView::CloseWindow(data),
{
    reveal_strlit("workspace");
    reveal_strlit("focusedmon");
    reveal_strlit("activewindow");
    reveal_strlit("createworkspace");
    reveal_strlit("destroyworkspace");
    reveal_strlit("moveworkspace");
    reveal_strlit("openwindow");
    reveal_strlit("closewindow");
    assert("openwindow"@ != "focusedmon"@) by {
        assert("openwindow"@[0] != "focusedmon"@[0]);
    }
    lemma_find_after_name("workspace"@, data);
    lemma_find_after_name("focusedmon"@, data);
    lemma_find_after_name("activewindow"@, data);
    lemma_find_after_name("createworkspace"@, data);
    lemma_find_after_name("destroyworkspace"@, data);
    lemma_find_after_name("moveworkspace"@, data);
    lemma_find_after_name("openwindow"@, data);
    lemma_find_after_name("closewindow"@, data);
}

/// A line without `">>"` is an unknown event that keeps the whole line, and
/// no unknown event refreshes the interface.
pub proof fn law_parse_event_unknown(line: Seq<char>)
    ensures
        find(line, ">>"@) is None ==> spec_parse_event(line) == HyprlandEventView::Unknown(line),
        spec_parse_event(line) is Unknown ==> !spec_should_refresh(spec_parse_event(line)),
{
}

/// The title that the active-window label shows: the trimmed title, or
/// `"Desktop"` when nothing is left.
pub open spec fn spec_window_title(title: Seq<char>) -> Seq<char> {
    if trim(title).len() == 0 {
        "Desktop"@
    } else {
        trim(title)
    }
}

/// The title of the focused window, as the active-window label shows it.
pub fn active_window_title(window: &ActiveWindow) -> (r: String)
    ensures
        r@ == spec_window_title(window.title@),
{
    let t = trim_str(window.title.as_str());
    if t.as_str().is_empty() {
        "Desktop".to_string()
    } else {
        t
    }
}

/// The arguments of `hyprctl` that dispatch `args`: `dispatch` followed by
/// the words of `args`; none when `args` has no word.
pub open spec fn spec_dispatch_args(args: Seq<char>) -> Option<Seq<Seq<char>>> {
    if words(args).len() == 0 {
        None
    } else {
        Some(seq!["dispatch"@] + words(args))
    }
}


/// The `hyprctl` arguments of a dispatch (`hyprctl dispatch <words>`).
pub fn dispatch_args(args: &str) -> (r: Option<Vec<String>>)
    ensures
        match spec_dispatch_args(args@) {
            Some(a) => r matches Some(v) && classes_view(v@) == a,
            None => r is None,
        },
{
    let ws = split_whitespace(args);
    if ws.len() == 0 {
        return None;
    }
    let mut out: Vec<String> = Vec::new();
    out.push("dispatch".to_string());
    let mut i: usize = 0;
    while i < ws.len()
        invariant
            i <= ws.len(),
            ws@.len() == words(args@).len(),
            forall|k: int| 0 <= k < ws@.len() ==> #[trigger] ws@[k]@ == words(args@)[k],
            classes_view(out@) == seq!["dispatch"@] + words(args@).take(i as int),
        decreases ws.len() - i,
    {
        let w = ws[i].clone();
        let ghost prev = out@;
        out.push(w);
        assert(out@ == prev.push(w));
        assert(classes_view(out@) =~= classes_view(prev).push(w@));
        assert(words(args@).take(i + 1) =~= words(args@).take(i as int).push(words(args@)[i as int]));
        assert(classes_view(out@) =~= seq!["dispatch"@] + words(args@).take(i + 1));
        i = i + 1;
    }
    assert(words(args@).take(ws.len() as int) =~= words(args@));
    Some(out)
}

// ---------------------------------------------------------------------------
// Ordering of the workspace list
// ---------------------------------------------------------------------------

/// Whether the workspaces are in nondecreasing order of id.
pub open spec fn sorted_by_id(s: Seq<HyprWorkspace>) -> bool {
    forall|i: int, j: int| 0 <= i <= j < s.len() ==> s[i].id <= s[j].id
}

/// The workspaces with id `k`, in their order.
pub open spec fn with_id(s: Seq<HyprWorkspace>, k: i32) -> Seq<HyprWorkspace> {
    s.filter(id_is(k))
}

/// Whether a workspace has id `k`.
pub open spec fn id_is(k: i32) -> spec_fn(HyprWorkspace) -> bool {
    |w: HyprWorkspace| w.id == k
}

proof fn lemma_filter_none(s: Seq<HyprWorkspace>, k: i32)
    requires
        forall|i: int| 0 <= i < s.len() ==> s[i].id != k,
    ensures
        with_id(s, k) == Seq::<HyprWorkspace>::empty(),
{
    broadcast use vstd::seq_lib::group_filter_ensures;

    let f = with_id(s, k);
    if f.len() > 0 {
        s.lemma_filter_pred(id_is(k), 0);
        assert(s.filter(id_is(k)).contains(f[0]));
        s.lemma_filter_contains_rev(id_is(k), f[0]);
    }
    assert(f =~= Seq::<HyprWorkspace>::empty());
}

/// The workspaces in nondecreasing order of id, those with equal ids in
/// their given order (`sort_by_key` on the id, a stable sort).
pub fn sort_workspaces_by_id(workspaces: Vec<HyprWorkspace>) -> (r: Vec<HyprWorkspace>)
    ensures
        sorted_by_id(r@),
        forall|k: i32| #[trigger] with_id(r@, k) == with_id(workspaces@, k),
        r@.len() == workspaces@.len(),
{
    let ghost orig = workspaces@;
    let mut rest = workspaces;
    let mut out: Vec<HyprWorkspace> = Vec::new();
    let ghost mut done: int = 0;
    while rest.len() > 0
        invariant
            0 <= done <= orig.len(),
            rest@ == orig.skip(done),
            sorted_by_id(out@),
            out@.len() == done,
            forall|k: i32| #[trigger] with_id(out@, k) == with_id(orig.take(done), k),
        decreases rest.len(),
    {
        let e = rest.remove(0);
        assert(e == orig[done]);
        let mut p: usize = 0;
        while p < out.len() && out[p].id <= e.id
            invariant
                p <= out.len(),
                forall|j: int| 0 <= j < p ==> out@[j].id <= e.id,
            decreases out.len() - p,
        {
            p = p + 1;
        }
        let ghost before = out@;
        out.insert(p, e);
        proof {
            let n = before.len() as int;
            assert(p < n ==> before[p as int].id > e.id);
            assert forall|j: int| p <= j < n implies before[j].id > e.id by {
                assert(before[p as int].id <= before[j].id);
            }
            assert(out@ =~= before.take(p as int) + seq![e] + before.skip(p as int));
            assert(before =~= before.take(p as int) + before.skip(p as int));
            assert forall|k: i32| #[trigger] with_id(out@, k) == with_id(orig.take(done + 1), k) by {
                let pr = id_is(k);
                Seq::filter_distributes_over_add(before.take(p as int) + seq![e], before.skip(p as int), pr);
                Seq::filter_distributes_over_add(before.take(p as int), seq![e], pr);
                Seq::filter_distributes_over_add(before.take(p as int), before.skip(p as int), pr);
                assert(orig.take(done + 1) =~= orig.take(done).push(e));
                orig.take(done).lemma_filter_push(e, pr);
                Seq::<HyprWorkspace>::empty().lemma_filter_push(e, pr);
                assert(seq![e] =~= Seq::<HyprWorkspace>::empty().push(e));
                reveal(Seq::filter);
                assert(Seq::<HyprWorkspace>::empty().filter(pr) =~= Seq::<HyprWorkspace>::empty());
                if e.id == k {
                    assert forall|j: int| 0 <= j < before.skip(p as int).len() implies before.skip(p as int)[j].id != k by {
                        assert(before.skip(p as int)[j] == before[p + j]);
                    }
                    lemma_filter_none(before.skip(p as int), k);
                    assert(with_id(out@, k) =~= with_id(before.take(p as int), k).push(e));
                    assert(with_id(before, k) =~= with_id(before.take(p as int), k));
                } else {
                    assert(with_id(out@, k) =~= with_id(before, k));
                }
            }
            assert forall|i: int, j: int| 0 <= i <= j < out@.len() implies out@[i].id <= out@[j].id by {
                if i < p && j > p {
                    assert(out@[i] == before[i]);
                    assert(out@[j] == before[j - 1]);
                } else if i < p && j == p {
                    assert(out@[i] == before[i]);
                } else if i == p && j > p {
                    assert(out@[j] == before[j - 1]);
                } else if i > p {
                    assert(out@[i] == before[i - 1]);
                    assert(out@[j] == before[j - 1]);
                } else if j < p {
                    assert(out@[i] == before[i]);
                    assert(out@[j] == before[j]);
                }
            }
            assert(orig.skip(done + 1) =~= orig.skip(done).drop_first());
            done = done + 1;
        }
    }
    assert(orig.take(done) =~= orig);
    out
}

/// The order that sorting gives is the only one: a list sorted by id with
/// the same workspaces of each id, in the same order, as the input is the
/// input itself when that is sorted (so sorting a sorted list changes
/// nothing).
pub proof fn law_sort_unique(input: Seq<HyprWorkspace>, output: Seq<HyprWorkspace>)
    requires
        sorted_by_id(output),
        forall|k: i32| #[trigger] with_id(output, k) == with_id(input, k),
        sorted_by_id(input),
    ensures
        output == input,
{
    lemma_sorted_unique(input, output);
}

/// Two lists sorted by id with the same workspaces of each id are equal.
proof fn lemma_sorted_unique(a: Seq<HyprWorkspace>, b: Seq<HyprWorkspace>)
    requires
        sorted_by_id(a),
        sorted_by_id(b),
        forall|k: i32| #[trigger] with_id(a, k) == with_id(b, k),
    ensures
        a == b,
    decreases a.len() + b.len(),
{
    broadcast use vstd::seq_lib::group_filter_ensures;

    if a.len() == 0 && b.len() == 0 {
        assert(a =~= b);
    } else if a.len() == 0 || b.len() == 0 {
        let (x, y) = if a.len() == 0 { (b, a) } else { (a, b) };
        let k = x.last().id;
        let pr = id_is(k);
        x.lemma_filter_contains(pr, x.len() - 1);
        lemma_filter_none(y, k);
        assert(with_id(x, k).len() > 0);
        assert(with_id(x, k) == with_id(y, k));
    } else {
        let k = if a.last().id >= b.last().id { a.last().id } else { b.last().id };
        let pr = id_is(k);
        reveal(Seq::filter);
        // the last element of both lists has the largest id, k
        if a.last().id != b.last().id {
            let (x, y) = if a.last().id > b.last().id { (a, b) } else { (b, a) };
            assert forall|i: int| 0 <= i < y.len() implies y[i].id != k by {
                assert(y[i].id <= y.last().id);
            }
            lemma_filter_none(y, k);
            x.lemma_filter_contains(pr, x.len() - 1);
            assert(with_id(x, k).len() > 0);
            assert(with_id(x, k) == with_id(y, k));
        } else {
            assert(a.last() == with_id(a, k).last());
            assert(b.last() == with_id(b, k).last());
            assert(with_id(a, k) == with_id(b, k));
            let a2 = a.drop_last();
            let b2 = b.drop_last();
            assert forall|j: i32| #[trigger] with_id(a2, j) == with_id(b2, j) by {
                let pj = id_is(j);
                assert(a2.push(a.last()) =~= a);
                assert(b2.push(b.last()) =~= b);
                a2.lemma_filter_push(a.last(), pj);
                b2.lemma_filter_push(b.last(), pj);
                assert(with_id(a, j) == with_id(b, j));
                if j == k {
                    assert(with_id(a2, j) =~= with_id(a, j).drop_last());
                    assert(with_id(b2, j) =~= with_id(b, j).drop_last());
                }
            }
            lemma_sorted_unique(a2, b2);
            assert(a =~= a2.push(a.last()));
            assert(b =~= b2.push(b.last()));
        }
    }
}

/// Every known event but a change of the active window rebuilds the
/// workspace buttons, whatever its data; a change of the active window and
/// an unknown line do not.
pub proof fn law_refresh_events(data: Seq<char>, line: Seq<char>)
    ensures
        spec_should_refresh(spec_parse_event("workspace"@ + ">>"@ + data)),
        spec_should_refresh(spec_parse_event("focusedmon"@ + ">>"@ + data)),
        spec_should_refresh(spec_parse_event("createworkspace"@ + ">>"@ + data)),
        spec_should_refresh(spec_parse_event("destroyworkspace"@ + ">>"@ + data)),
        spec_should_refresh(spec_parse_event("moveworkspace"@ + ">>"@ + data)),
        spec_should_refresh(spec_parse_event("openwindow"@ + ">>"@ + data)),
        spec_should_refresh(spec_parse_event("closewindow"@ + ">>"@ + data)),
        !spec_should_refresh(spec_parse_event("activewindow"@ + ">>"@ + data)),
        !spec_should_refresh(HyprlandEventView::Unknown(line)),
{
    law_parse_event_known_names(data);
}

/// The title shown is the window's title without surrounding whitespace,
/// or `Desktop` when that leaves nothing.
pub proof fn law_window_title(title: Seq<char>)
    ensures
        trim(title).len() > 0 ==> spec_window_title(title) == trim(title),
        trim(title).len() == 0 ==> spec_window_title(title) == "Desktop"@,
{
}

/// A dispatch runs `hyprctl dispatch` followed by the words of its
/// arguments, in order; arguments without a word run nothing.
pub proof fn law_dispatch_args(args: Seq<char>)
    ensures
        words(args).len() == 0 ==> spec_dispatch_args(args) is None,
        words(args).len() > 0 ==> (spec_dispatch_args(args) matches Some(a) && a.len() == words(
            args,
        ).len() + 1 && a[0] == "dispatch"@ && forall|i: int|
            0 <= i < words(args).len() ==> #[trigger] a[i + 1] == words(args)[i]),
{
}

} // verus!
