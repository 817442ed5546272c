use sgs::ctl::{command_or_default, request_line, socket_path};
use sgs::ipc::{
    handle_request, invalid_request_response, request_payload, IpcEvent, IpcRequest, IpcResponse,
    IpcServer, DEFAULT_SOCKET_PATH,
};

#[test]
fn responses_carry_their_message() {
    let ok = IpcResponse::ok("fine".to_string());
    assert!(ok.ok);
    assert_eq!(ok.message, "fine");
    let err = IpcResponse::err("bad".to_string());
    assert!(!err.ok);
    assert_eq!(err.message, "bad");
}

#[test]
fn server_socket_paths() {
    assert_eq!(IpcServer::new().socket_path(), "/tmp/sgs.sock");
    assert_eq!(DEFAULT_SOCKET_PATH, "/tmp/sgs.sock");
    assert_eq!(IpcServer::with_socket_path("/run/x.sock".to_string()).socket_path(), "/run/x.sock");
}

#[test]
fn every_request_is_answered() {
    let (ev, resp) = handle_request(IpcRequest::Ping);
    assert!(ev.is_none());
    assert!(resp.ok);
    assert_eq!(resp.message, "pong");

    let (ev, resp) = handle_request(IpcRequest::Reload);
    assert!(matches!(ev, Some(IpcEvent::Reload)));
    assert_eq!(resp.message, "reload requested");

    let (ev, resp) = handle_request(IpcRequest::Quit);
    assert!(matches!(ev, Some(IpcEvent::Quit)));
    assert_eq!(resp.message, "quit requested");

    let (ev, resp) = handle_request(IpcRequest::Open { window: "bar".into() });
    assert!(matches!(ev, Some(IpcEvent::Open { window }) if window == "bar"));
    assert_eq!(resp.message, "open requested: bar");

    let (ev, resp) = handle_request(IpcRequest::Close { window: "bar".into() });
    assert!(matches!(ev, Some(IpcEvent::Close { window }) if window == "bar"));
    assert_eq!(resp.message, "close requested: bar");

    let (ev, resp) = handle_request(IpcRequest::Toggle { window: "top".into() });
    assert!(matches!(ev, Some(IpcEvent::Toggle { window }) if window == "top"));
    assert!(resp.ok);
    assert_eq!(resp.message, "toggle requested: top");
}

#[test]
fn request_lines() {
    match request_payload("  {\"cmd\":\"ping\"}\n") {
        Ok(p) => assert_eq!(p, "{\"cmd\":\"ping\"}"),
        Err(_) => panic!("payload refused"),
    }
    match request_payload(" \r\n") {
        Ok(_) => panic!("empty line accepted"),
        Err(r) => {
            assert!(!r.ok);
            assert_eq!(r.message, "empty request");
        }
    }
    let r = invalid_request_response("expected value at line 1 column 1");
    assert!(!r.ok);
    assert_eq!(r.message, "invalid JSON request: expected value at line 1 column 1");
}

#[test]
fn control_client_commands() {
    assert_eq!(command_or_default(None), "ping");
    assert_eq!(command_or_default(Some("quit".into())), "quit");
    assert_eq!(request_line("ping"), Ok("{\"cmd\":\"ping\"}".to_string()));
    assert_eq!(request_line("reload"), Ok("{\"cmd\":\"reload\"}".to_string()));
    assert_eq!(request_line("quit"), Ok("{\"cmd\":\"quit\"}".to_string()));
    assert_eq!(request_line("open"), Err("unknown command: open".to_string()));
    assert_eq!(socket_path(), "/tmp/sgs.sock");
}
