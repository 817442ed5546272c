//! The control client (`sgsctl`): the command it sends and where.

use vstd::prelude::*;
use crate::text::{str_concat, str_eq};

verus! {

broadcast use vstd::string::group_string_axioms;

/// The command to send: the first argument, `ping` when there is none.
pub fn command_or_default(arg: Option<String>) -> (r: String)
    ensures
        r@ == match arg {
            Some(a) => a@,
            None => "ping"@,
        },
{
    match arg {
        Some(a) => a,
        None => "ping".to_string(),
    }
}

/// The request line for a command: `{"cmd":"<command>"}` for `ping`,
/// `reload` and `quit`; any other command is refused.
pub open spec fn spec_request_line(cmd: Seq<char>) -> Result<Seq<char>, Seq<char>> {
    if cmd == "ping"@ || cmd == "reload"@ || cmd == "quit"@ {
        Ok("{\"cmd\":\""@ + cmd + "\"}"@)
    } else {
        Err("unknown command: "@ + cmd)
    }
}

/// The request line for a command, or the message that refuses it.
pub fn request_line(cmd: &str) -> (r: Result<String, String>)
    ensures
        match spec_request_line(cmd@) {
            Ok(l) => r matches Ok(x) && x@ == l,
            Err(m) => r matches Err(x) && x@ == m,
        },
{
    if str_eq(cmd, "ping") || str_eq(cmd, "reload") || str_eq(cmd, "quit") {
        let a = str_concat("{\"cmd\":\"", cmd);
        Ok(str_concat(a.as_str(), "\"}"))
    } else {
        Err(str_concat("unknown command: ", cmd))
    }
}

/// The control socket the client connects to.
pub fn socket_path() -> (r: String)
    ensures
        r@ == "/tmp/sgs.sock"@,
{
    "/tmp/sgs.sock".to_string()
}

/// The client sends `{"cmd":"ping"}`, `{"cmd":"reload"}` and
/// `{"cmd":"quit"}` for its three commands, and refuses every other command
/// with `unknown command: ` and the command.
pub proof fn law_request_lines(cmd: Seq<char>)
    ensures
        spec_request_line("ping"@) == Ok::<Seq<char>, Seq<char>>("{\"cmd\":\"ping\"}"@),
        spec_request_line("reload"@) == Ok::<Seq<char>, Seq<char>>("{\"cmd\":\"reload\"}"@),
        spec_request_line("quit"@) == Ok::<Seq<char>, Seq<char>>("{\"cmd\":\"quit\"}"@),
        cmd != "ping"@ && cmd != "reload"@ && cmd != "quit"@ ==> spec_request_line(cmd) == Err::<
            Seq<char>,
            Seq<char>,
        >("unknown command: "@ + cmd),
{
    reveal_strlit("{\"cmd\":\"");
    reveal_strlit("\"}");
    reveal_strlit("ping");
    reveal_strlit("reload");
    reveal_strlit("quit");
    reveal_strlit("{\"cmd\":\"ping\"}");
    reveal_strlit("{\"cmd\":\"reload\"}");
    reveal_strlit("{\"cmd\":\"quit\"}");
    assert("{\"cmd\":\""@ + "ping"@ + "\"}"@ =~= "{\"cmd\":\"ping\"}"@);
    assert("{\"cmd\":\""@ + "reload"@ + "\"}"@ =~= "{\"cmd\":\"reload\"}"@);
    assert("{\"cmd\":\""@ + "quit"@ + "\"}"@ =~= "{\"cmd\":\"quit\"}"@);
}

} // verus!

