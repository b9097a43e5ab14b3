//! The server's configuration: the registry it dispatches to and the two
//! socket paths it listens on.
use vstd::prelude::*;
use crate::decimal::{nat_text, push_decimal};
use crate::registry::Shell;

verus! {

/// The command socket's path for the process `pid`.
pub open spec fn cmd_path_text(pid: u64) -> Seq<char> {
    "/tmp/rust_shell_cmd_"@ + nat_text(pid as nat)
}

/// The output socket's path for the process `pid`.
pub open spec fn output_path_text(pid: u64) -> Seq<char> {
    "/tmp/rust_shell_output_"@ + nat_text(pid as nat)
}

/// The command and output socket paths of the process `pid`.
pub fn socket_paths(pid: u64) -> (r: (String, String))
    ensures
        r.0@ == cmd_path_text(pid),
        r.1@ == output_path_text(pid),
{
    let mut cmd = String::from_str("/tmp/rust_shell_cmd_");
    push_decimal(&mut cmd, pid);
    let mut output = String::from_str("/tmp/rust_shell_output_");
    push_decimal(&mut output, pid);
    (cmd, output)
}

/// A server: the registry that command lines are dispatched to, and the paths
/// of its command and output sockets.
pub struct Server {
    shell: Shell,
    uds_cmd_path: String,
    uds_output_path: String,
}

impl Server {
    /// A server for `shell_` on the two socket paths.
    pub fn new(shell_: Shell, uds_cmd_path_: String, uds_output_path_: String) -> (r: Server)
        ensures
            r.shell_spec() == shell_,
            r.cmd_path_spec()@ == uds_cmd_path_@,
            r.output_path_spec()@ == uds_output_path_@,
    {
        Server { shell: shell_, uds_cmd_path: uds_cmd_path_, uds_output_path: uds_output_path_ }
    }

    /// A server for `shell_` on the socket paths of the process `pid`.
    pub fn for_process(shell_: Shell, pid: u64) -> (r: Server)
        ensures
            r.shell_spec() == shell_,
            r.cmd_path_spec()@ == cmd_path_text(pid),
            r.output_path_spec()@ == output_path_text(pid),
    {
        let (cmd, output) = socket_paths(pid);
        Server::new(shell_, cmd, output)
    }

    pub closed spec fn shell_spec(&self) -> Shell {
        self.shell
    }

    /// The registry that command lines are dispatched to.
    pub fn shell(&self) -> (r: &Shell)
        ensures
            *r == self.shell_spec(),
    {
        &self.shell
    }

    pub closed spec fn cmd_path_spec(&self) -> String {
        self.uds_cmd_path
    }

    /// The command socket's path.
    pub fn cmd_path(&self) -> (r: &String)
        ensures
            *r == self.cmd_path_spec(),
    {
        &self.uds_cmd_path
    }

    pub closed spec fn output_path_spec(&self) -> String {
        self.uds_output_path
    }

    /// The output socket's path.
    pub fn output_path(&self) -> (r: &String)
        ensures
            *r == self.output_path_spec(),
    {
        &self.uds_output_path
    }
}

} // verus!
