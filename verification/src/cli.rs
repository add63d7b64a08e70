//! Choosing the role of the program from its command line.

use vstd::prelude::*;

verus! {

/// The two roles the program can take.
#[derive(Debug, PartialEq, Eq, Structural)]
pub enum Mode {
    /// Serve the websocket for the helper process and forward to the local
    /// SSH port.
    SubprocessServer,
    /// Run the helper process and accept TCP visitors.
    SubprocessClient,
}

/// The role named by the command line: exactly one argument after the
/// program name, `subprocess_server` or `subprocess_client`. Anything else
/// names no role, and the program prints its usage.
pub fn select_mode(args: &Vec<String>) -> (m: Option<Mode>)
    ensures
        m == Some(Mode::SubprocessServer) <==> (args@.len() == 2 && args@[1]@
            == "subprocess_server"@),
        m == Some(Mode::SubprocessClient) <==> (args@.len() == 2 && args@[1]@
            == "subprocess_client"@),
{
    proof {
        reveal_strlit("subprocess_server");
        reveal_strlit("subprocess_client");
        assert("subprocess_server"@[11] != "subprocess_client"@[11]);
    }
    if args.len() != 2 {
        return None;
    }
    let server: String = "subprocess_server".to_owned();
    let client: String = "subprocess_client".to_owned();
    if args[1] == server {
        Some(Mode::SubprocessServer)
    } else if args[1] == client {
        Some(Mode::SubprocessClient)
    } else {
        None
    }
}

} // verus!
