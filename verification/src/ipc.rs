//! The control socket's protocol: the requests a client sends, the events
//! they raise in the bar, and the responses it gets back.

use vstd::prelude::*;
use crate::text::{str_concat, trim, trim_str};

verus! {

broadcast use vstd::string::group_string_axioms;

/// Where the control socket is created when no other path is given.
pub const DEFAULT_SOCKET_PATH: &'static str = "/tmp/sgs.sock";

/// The control socket server: the path it listens on.
#[derive(Debug)]
pub struct IpcServer {
    socket_path: String,
}

/// What a request asks the bar to do.
#[derive(Debug)]
pub enum IpcEvent {
    Reload,
    Quit,
    Open { window: String },
    Close { window: String },
    Toggle { window: String },
}

/// A request of the control protocol (a JSON object tagged by `cmd`).
#[derive(Debug)]
pub enum IpcRequest {
    Ping,
    Reload,
    Quit,
    Open { window: String },
    Close { window: String },
    Toggle { window: String },
}

/// The answer to a request: whether it was accepted, and a message.
#[derive(Debug)]
pub struct IpcResponse {
    pub ok: bool,
    pub message: String,
}

impl IpcResponse {
    /// An accepting response with `message`.
    pub fn ok(message: String) -> (r: Self)
        ensures
            r.ok,
            r.message@ == message@,
    {
        IpcResponse { ok: true, message }
    }

    /// A refusing response with `message`.
    pub fn err(message: String) -> (r: Self)
        ensures
            !r.ok,
            r.message@ == message@,
    {
        IpcResponse { ok: false, message }
    }
}

impl IpcServer {
    /// The path this server listens on.
    pub closed spec fn path(&self) -> Seq<char> {
        self.socket_path@
    }

    /// A server on the default socket path, `/tmp/sgs.sock`.
    pub fn new() -> (r: Self)
        ensures
            r.path() == DEFAULT_SOCKET_PATH@,
    {
        IpcServer { socket_path: DEFAULT_SOCKET_PATH.to_string() }
    }

    /// A server on `path`.
    pub fn with_socket_path(path: String) -> (r: Self)
        ensures
            r.path() == path@,
    {
        IpcServer { socket_path: path }
    }

    /// The path this server listens on.
    pub fn socket_path(&self) -> (r: &str)
        ensures
            r@ == self.path(),
    {
        self.socket_path.as_str()
    }
}

/// The text of a request line that is decoded: the line without surrounding
/// whitespace; a line with nothing else is refused with `"empty request"`.
pub open spec fn spec_request_payload(line: Seq<char>) -> Option<Seq<char>> {
    if trim(line).len() == 0 {
        None
    } else {
        Some(trim(line))
    }
}

/// The part of a request line to decode, or the response that refuses an
/// empty line.
pub fn request_payload(line: &str) -> (r: Result<String, IpcResponse>)
    ensures
        match spec_request_payload(line@) {
            Some(p) => r matches Ok(t) && t@ == p,
            None => r matches Err(resp) && !resp.ok && resp.message@ == "empty request"@,
        },
{
    let t = trim_str(line);
    if t.as_str().is_empty() {
        Err(IpcResponse::err("empty request".to_string()))
    } else {
        Ok(t)
    }
}

/// The response to a line that is not a valid request; `detail` says why.
pub fn invalid_request_response(detail: &str) -> (r: IpcResponse)
    ensures
        !r.ok,
        r.message@ == "invalid JSON request: "@ + detail@,
{
    IpcResponse::err(str_concat("invalid JSON request: ", detail))
}

/// What the bar does for a request: the event it raises, if any, and the
/// response it gives, as message text.
pub open spec fn spec_handle(req: IpcRequest) -> (Option<IpcEventView>, Seq<char>) {
    match req {
        IpcRequest::Ping => (None, "pong"@),
        IpcRequest::Reload => (Some(IpcEventView::Reload), "reload requested"@),
        IpcRequest::Quit => (Some(IpcEventView::Quit), "quit requested"@),
        IpcRequest::Open { window } => (
            Some(IpcEventView::Open(window@)),
            "open requested: "@ + window@,
        ),
        IpcRequest::Close { window } => (
            Some(IpcEventView::Close(window@)),
            "close requested: "@ + window@,
        ),
        IpcRequest::Toggle { window } => (
            Some(IpcEventView::Toggle(window@)),
            "toggle requested: "@ + window@,
        ),
    }
}

/// An event with its window name as a sequence of characters.
pub enum IpcEventView {
    Reload,
    Quit,
    Open(Seq<char>),
    Close(Seq<char>),
    Toggle(Seq<char>),
}

impl View for IpcEvent {
    type V = IpcEventView;

    open spec fn view(&self) -> IpcEventView {
        match self {
            IpcEvent::Reload => IpcEventView::Reload,
            IpcEvent::Quit => IpcEventView::Quit,
            IpcEvent::Open { window } => IpcEventView::Open(window@),
            IpcEvent::Close { window } => IpcEventView::Close(window@),
            IpcEvent::Toggle { window } => IpcEventView::Toggle(window@),
        }
    }
}

/// The view of an optional event.
pub open spec fn opt_event_view(e: Option<IpcEvent>) -> Option<IpcEventView> {
    match e {
        Some(ev) => Some(ev@),
        None => None,
    }
}

/// Handles a decoded request: the event to raise (sent before the
/// response is written) and the accepting response.
pub fn handle_request(req: IpcRequest) -> (r: (Option<IpcEvent>, IpcResponse))
    ensures
        opt_event_view(r.0) == spec_handle(req).0,
        r.1.ok,
        r.1.message@ == spec_handle(req).1,
{
    match req {
        IpcRequest::Ping => (None, IpcResponse::ok("pong".to_string())),
        IpcRequest::Reload => (Some(IpcEvent::Reload), IpcResponse::ok("reload requested".to_string())),
        IpcRequest::Quit => (Some(IpcEvent::Quit), IpcResponse::ok("quit requested".to_string())),
        IpcRequest::Open { window } => {
            let msg = str_concat("open requested: ", window.as_str());
            (Some(IpcEvent::Open { window }), IpcResponse::ok(msg))
        },
        IpcRequest::Close { window } => {
            let msg = str_concat("close requested: ", window.as_str());
            (Some(IpcEvent::Close { window }), IpcResponse::ok(msg))
        },
        IpcRequest::Toggle { window } => {
            let msg = str_concat("toggle requested: ", window.as_str());
            (Some(IpcEvent::Toggle { window }), IpcResponse::ok(msg))
        },
    }
}

/// Every decoded request is accepted; a ping raises no event, every other
/// request raises exactly one, and a window request names the same window
/// in its event and at the end of its response.
pub proof fn law_requests_accepted(req: IpcRequest)
    ensures
        (spec_handle(req).0 is None) <==> (req is Ping),
        match req {
            IpcRequest::Open { window } => spec_handle(req).0 == Some(IpcEventView::Open(window@)),
            IpcRequest::Close { window } => spec_handle(req).0 == Some(IpcEventView::Close(window@)),
            IpcRequest::Toggle { window } => spec_handle(req).0 == Some(
                IpcEventView::Toggle(window@),
            ),
            _ => true,
        },
        match req {
            IpcRequest::Open { window } => has_suffix_chars(spec_handle(req).1, window@),
            IpcRequest::Close { window } => has_suffix_chars(spec_handle(req).1, window@),
            IpcRequest::Toggle { window } => has_suffix_chars(spec_handle(req).1, window@),
            _ => true,
        },
{
    match req {
        IpcRequest::Open { window } => {
            let m = spec_handle(req).1;
            assert(m.skip(m.len() - window@.len()) =~= window@);
        },
        IpcRequest::Close { window } => {
            let m = spec_handle(req).1;
            assert(m.skip(m.len() - window@.len()) =~= window@);
        },
        IpcRequest::Toggle { window } => {
            let m = spec_handle(req).1;
            assert(m.skip(m.len() - window@.len()) =~= window@);
        },
        _ => {},
    }
}

/// Whether `s` ends with `t`.
pub open spec fn has_suffix_chars(s: Seq<char>, t: Seq<char>) -> bool {
    t.len() <= s.len() && s.skip(s.len() - t.len()) == t
}

/// The bar answers a ping with `pong` and raises nothing; it answers reload
/// and quit with `reload requested` and `quit requested` and raises the
/// matching event; and it answers a window request with `open requested: `,
/// `close requested: ` or `toggle requested: ` and the window's name, raising
/// the event of the same kind for the same window.
pub proof fn law_request_answers(window: String)
    ensures
        spec_handle(IpcRequest::Ping) == (None::<IpcEventView>, "pong"@),
        spec_handle(IpcRequest::Reload) == (Some(IpcEventView::Reload), "reload requested"@),
        spec_handle(IpcRequest::Quit) == (Some(IpcEventView::Quit), "quit requested"@),
        spec_handle(IpcRequest::Open { window }) == (
            Some(IpcEventView::Open(window@)),
            "open requested: "@ + window@,
        ),
        spec_handle(IpcRequest::Close { window }) == (
            Some(IpcEventView::Close(window@)),
            "close requested: "@ + window@,
        ),
        spec_handle(IpcRequest::Toggle { window }) == (
            Some(IpcEventView::Toggle(window@)),
            "toggle requested: "@ + window@,
        ),
{
}

/// A request line is decoded without its surrounding whitespace, and only a
/// line with nothing else is refused.
pub proof fn law_request_payload(line: Seq<char>)
    ensures
        spec_request_payload(line) is None <==> trim(line).len() == 0,
        spec_request_payload(line) is Some ==> spec_request_payload(line)->Some_0 == trim(line),
{
}

} // verus!

