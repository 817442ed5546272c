//! The running bar's bookkeeping: its windows by name, and what it does
//! for each control request.

use vstd::prelude::*;
use crate::ipc::{IpcEvent, IpcEventView};
use crate::text::{str_concat, str_eq};

verus! {

broadcast use vstd::string::group_string_axioms;

/// The bar's windows, by name (a window handle of type `W` each).
#[derive(Debug)]
pub struct Runtime<W> {
    windows: Vec<(String, W)>,
}

/// The window registered under `name` among the entries, if any.
pub open spec fn entry<W>(ws: Seq<(String, W)>, name: Seq<char>) -> Option<W>
    decreases ws.len(),
{
    if ws.len() == 0 {
        None
    } else if ws[0].0@ == name {
        Some(ws[0].1)
    } else {
        entry(ws.drop_first(), name)
    }
}

proof fn lemma_entry_at<W>(ws: Seq<(String, W)>, name: Seq<char>, i: int)
    requires
        0 <= i < ws.len(),
        ws[i].0@ == name,
        forall|j: int| 0 <= j < i ==> ws[j].0@ != name,
    ensures
        entry(ws, name) == Some(ws[i].1),
    decreases i,
{
    if i > 0 {
        lemma_entry_at(ws.drop_first(), name, i - 1);
    }
}

proof fn lemma_entry_none<W>(ws: Seq<(String, W)>, name: Seq<char>)
    requires
        forall|j: int| 0 <= j < ws.len() ==> ws[j].0@ != name,
    ensures
        entry(ws, name) is None,
    decreases ws.len(),
{
    if ws.len() > 0 {
        lemma_entry_none(ws.drop_first(), name);
    }
}

proof fn lemma_entry_update<W>(ws: Seq<(String, W)>, i: int, v: (String, W), k: Seq<char>)
    requires
        0 <= i < ws.len(),
        ws[i].0@ == v.0@,
        forall|j: int| 0 <= j < i ==> ws[j].0@ != v.0@,
    ensures
        entry(ws.update(i, v), k) == if k == v.0@ {
            Some(v.1)
        } else {
            entry(ws, k)
        },
    decreases i,
{
    if i > 0 {
        lemma_entry_update(ws.drop_first(), i - 1, v, k);
        assert(ws.update(i, v).drop_first() =~= ws.drop_first().update(i - 1, v));
    } else {
        assert(ws.update(0, v).drop_first() =~= ws.drop_first());
    }
}

proof fn lemma_entry_push<W>(ws: Seq<(String, W)>, v: (String, W), k: Seq<char>)
    requires
        forall|j: int| 0 <= j < ws.len() ==> ws[j].0@ != v.0@,
    ensures
        entry(ws.push(v), k) == if k == v.0@ {
            Some(v.1)
        } else {
            entry(ws, k)
        },
    decreases ws.len(),
{
    if ws.len() > 0 {
        assert(ws.push(v)[0] == ws[0]);
        assert forall|j: int| 0 <= j < ws.drop_first().len() implies ws.drop_first()[j].0@ != v.0@ by {
            assert(ws.drop_first()[j] == ws[j + 1]);
        }
        lemma_entry_push(ws.drop_first(), v, k);
        assert(ws.push(v).drop_first() =~= ws.drop_first().push(v));
    } else {
        assert(ws.push(v).drop_first() =~= Seq::<(String, W)>::empty());
        assert(ws.push(v)[0] == v);
        assert(entry(Seq::<(String, W)>::empty(), k) is None);
        assert(entry(ws, k) is None);
    }
}

impl<W> Runtime<W> {
    /// The window registered under `name`, if any.
    pub closed spec fn window(&self, name: Seq<char>) -> Option<W> {
        entry(self.windows@, name)
    }

    /// A runtime with no window.
    pub fn new() -> (r: Self)
        ensures
            forall|n: Seq<char>| #[trigger] r.window(n) is None,
    {
        Runtime { windows: Vec::new() }
    }

    fn index_of(&self, name: &str) -> (r: Option<usize>)
        ensures
            match r {
                Some(i) => i < self.windows@.len() && self.windows@[i as int].0@ == name@
                    && forall|j: int| 0 <= j < i ==> self.windows@[j].0@ != name@,
                None => forall|j: int| 0 <= j < self.windows@.len() ==> self.windows@[j].0@ != name@,
            },
    {
        let mut i: usize = 0;
        while i < self.windows.len()
            invariant
                i <= self.windows@.len(),
                forall|j: int| 0 <= j < i ==> self.windows@[j].0@ != name@,
            decreases self.windows.len() - i,
        {
            if str_eq(self.windows[i].0.as_str(), name) {
                return Some(i);
            }
            i = i + 1;
        }
        None
    }

    /// Registers `window` under `name`, replacing any window of that name.
    pub fn insert_window(&mut self, name: String, window: W)
        ensures
            final(self).window(name@) == Some(window),
            forall|n: Seq<char>| n != name@ ==> #[trigger] final(self).window(n) == old(self).window(n),
    {
        let ghost key = name@;
        match self.index_of(name.as_str()) {
            Some(i) => {
                let ghost before = self.windows@;
                self.windows.set(i, (name, window));
                proof {
                    assert forall|n: Seq<char>| #[trigger] entry(self.windows@, n) == if n == key {
                        Some(window)
                    } else {
                        entry(before, n)
                    } by {
                        lemma_entry_update(before, i as int, self.windows@[i as int], n);
                    }
                }
            },
            None => {
                let ghost before = self.windows@;
                self.windows.push((name, window));
                proof {
                    assert(self.windows@ == before.push(self.windows@.last()));
                    assert forall|n: Seq<char>| #[trigger] entry(self.windows@, n) == if n == key {
                        Some(window)
                    } else {
                        entry(before, n)
                    } by {
                        lemma_entry_push(before, self.windows@.last(), n);
                    }
                }
            },
        }
    }

    /// The window registered under `name`, if any.
    pub fn get(&self, name: &str) -> (r: Option<&W>)
        ensures
            match self.window(name@) {
                Some(w) => r matches Some(x) && *x == w,
                None => r is None,
            },
    {
        match self.index_of(name) {
            Some(i) => {
                proof {
                    lemma_entry_at(self.windows@, name@, i as int);
                }
                Some(&self.windows[i].1)
            },
            None => {
                proof {
                    lemma_entry_none(self.windows@, name@);
                }
                None
            },
        }
    }
}

/// What a control request makes the bar do.
#[derive(Debug)]
pub enum UiAction {
    /// Start the bar again (re-reading its configuration).
    Restart,
    /// Leave the application.
    Quit,
    /// Show, hide or toggle a window.
    Window(WindowRequest, String),
}

/// What is asked of a window.
#[derive(Debug, Clone, Copy, PartialEq, Eq, Structural)]
pub enum WindowRequest {
    Open,
    Close,
    Toggle,
}

/// What is done to a window.
#[derive(Debug, Clone, Copy, PartialEq, Eq, Structural)]
pub enum WindowOp {
    Present,
    Hide,
    /// No window has that name: the request is reported and ignored.
    ReportUnknown,
}

/// The action a control event asks for.
pub fn ui_action(event: IpcEvent) -> (r: UiAction)
    ensures
        match event@ {
            IpcEventView::Reload => r is Restart,
            IpcEventView::Quit => r is Quit,
            IpcEventView::Open(w) => r matches UiAction::Window(q, n) && q == WindowRequest::Open
                && n@ == w,
            IpcEventView::Close(w) => r matches UiAction::Window(q, n) && q == WindowRequest::Close
                && n@ == w,
            IpcEventView::Toggle(w) => r matches UiAction::Window(q, n) && q
                == WindowRequest::Toggle && n@ == w,
        },
{
    match event {
        IpcEvent::Reload => UiAction::Restart,
        IpcEvent::Quit => UiAction::Quit,
        IpcEvent::Open { window } => UiAction::Window(WindowRequest::Open, window),
        IpcEvent::Close { window } => UiAction::Window(WindowRequest::Close, window),
        IpcEvent::Toggle { window } => UiAction::Window(WindowRequest::Toggle, window),
    }
}

/// What is done for a window request: nothing but a report when the window
/// is unknown; opening presents it, closing hides it, toggling hides a
/// visible window and presents a hidden one.
pub open spec fn spec_window_op(req: WindowRequest, known: bool, visible: bool) -> WindowOp {
    if !known {
        WindowOp::ReportUnknown
    } else {
        match req {
            WindowRequest::Open => WindowOp::Present,
            WindowRequest::Close => WindowOp::Hide,
            WindowRequest::Toggle => if visible {
                WindowOp::Hide
            } else {
                WindowOp::Present
            },
        }
    }
}

/// What is done for a window request, given whether the window exists and
/// whether it is visible.
pub fn window_op(req: WindowRequest, known: bool, visible: bool) -> (r: WindowOp)
    ensures
        r == spec_window_op(req, known, visible),
        !known ==> r == WindowOp::ReportUnknown,
        known && req == WindowRequest::Open ==> r == WindowOp::Present,
        known && req == WindowRequest::Close ==> r == WindowOp::Hide,
        known && req == WindowRequest::Toggle ==> (r == WindowOp::Hide) == visible,
{
    if !known {
        WindowOp::ReportUnknown
    } else {
        match req {
            WindowRequest::Open => WindowOp::Present,
            WindowRequest::Close => WindowOp::Hide,
            WindowRequest::Toggle => if visible {
                WindowOp::Hide
            } else {
                WindowOp::Present
            },
        }
    }
}

/// Toggling a known window twice brings it back to its visibility.
pub proof fn law_toggle_twice(visible: bool)
    ensures
        spec_window_op(WindowRequest::Toggle, true, visible) == if visible {
            WindowOp::Hide
        } else {
            WindowOp::Present
        },
        spec_window_op(
            WindowRequest::Toggle,
            true,
            spec_window_op(WindowRequest::Toggle, true, visible) == WindowOp::Present,
        ) == if visible {
            WindowOp::Present
        } else {
            WindowOp::Hide
        },
{
}

/// A request about a known window never goes unanswered: opening always
/// presents it and closing always hides it, whatever it showed before, and
/// toggling hides exactly the visible ones and presents the hidden ones. A
/// request about an unknown window is only reported, whatever was asked.
pub proof fn law_window_ops(req: WindowRequest, visible: bool)
    ensures
        spec_window_op(WindowRequest::Open, true, visible) == WindowOp::Present,
        spec_window_op(WindowRequest::Close, true, visible) == WindowOp::Hide,
        spec_window_op(WindowRequest::Toggle, true, true) == WindowOp::Hide,
        spec_window_op(WindowRequest::Toggle, true, false) == WindowOp::Present,
        spec_window_op(req, false, visible) == WindowOp::ReportUnknown,
        spec_window_op(req, true, visible) != WindowOp::ReportUnknown,
{
}

/// Opening a known window and then closing it leaves it hidden; closing it
/// and then opening it leaves it shown: the later request decides.
pub proof fn law_open_close_last_wins(visible: bool)
    ensures
        spec_window_op(
            WindowRequest::Close,
            true,
            spec_window_op(WindowRequest::Open, true, visible) == WindowOp::Present,
        ) == WindowOp::Hide,
        spec_window_op(
            WindowRequest::Open,
            true,
            spec_window_op(WindowRequest::Close, true, visible) == WindowOp::Present,
        ) == WindowOp::Present,
{
}

/// The report for a request about a window that does not exist.
pub fn unknown_window_message(name: &str) -> (r: String)
    ensures
        r@ == "[sgs] unknown window: "@ + name@,
{
    str_concat("[sgs] unknown window: ", name)
}

} // verus!
