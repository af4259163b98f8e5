use vstd::prelude::*;
use crate::drives::Platform;
use crate::text::{push_str, string_of};

verus! {

/// The generation of the next terminal session: one more, wrapping round.
pub fn next_generation(generation: u64) -> (r: u64)
    ensures
        r == (if generation == u64::MAX { 0 } else { generation + 1 }),
{
    if generation == u64::MAX {
        0
    } else {
        generation + 1
    }
}

/// What a chunk of a session's output does: an empty chunk marks the end
/// of the session.
#[derive(Clone, Copy, PartialEq, Eq, Debug, Structural)]
pub enum OutputStep {
    Feed,
    Ended,
}

/// Output goes to the terminal until the empty chunk that ends it.
pub fn output_step(chunk: &Vec<u8>) -> (r: OutputStep)
    ensures
        r == (if chunk@.len() == 0 { OutputStep::Ended } else { OutputStep::Feed }),
{
    if chunk.len() == 0 {
        OutputStep::Ended
    } else {
        OutputStep::Feed
    }
}

/// The line the terminal shows when its session ends.
pub fn session_ended_text() -> (r: Vec<u8>)
    ensures
        r@ == seq![13u8, 10u8] + seq![91u8, 83u8, 101u8, 115u8, 115u8, 105u8, 111u8, 110u8, 32u8, 69u8, 110u8, 100u8, 101u8, 100u8, 93u8]
            + seq![13u8, 10u8],
{
    let mut v: Vec<u8> = Vec::new();
    v.push(13);
    v.push(10);
    v.push(91);
    v.push(83);
    v.push(101);
    v.push(115);
    v.push(115);
    v.push(105);
    v.push(111);
    v.push(110);
    v.push(32);
    v.push(69);
    v.push(110);
    v.push(100);
    v.push(101);
    v.push(100);
    v.push(93);
    v.push(13);
    v.push(10);
    assert(v@ =~= seq![13u8, 10u8] + seq![91u8, 83u8, 101u8, 115u8, 115u8, 105u8, 111u8, 110u8, 32u8, 69u8, 110u8, 100u8, 101u8, 100u8, 93u8]
        + seq![13u8, 10u8]);
    v
}

/// The message the terminal shows when a session cannot start.
pub fn start_failure_text(error: &str) -> (r: String)
    ensures
        r@ == "Failed to start terminal: "@ + error@ + "\r\n"@,
{
    let mut v: Vec<char> = Vec::new();
    push_str(&mut v, "Failed to start terminal: ");
    push_str(&mut v, error);
    push_str(&mut v, "\r\n");
    string_of(v.as_slice())
}

/// The command of a local shell: the configured shell (`COMSPEC` on
/// Windows, `SHELL` elsewhere), else `cmd.exe` or `bash`; on macOS as a
/// login shell.
pub fn local_shell_command(configured: Option<String>, platform: Platform) -> (r: Vec<String>)
    ensures
        r@.len() == (if platform == Platform::MacOs { 2int } else { 1int }),
        r@[0]@ == match configured {
            Some(s) => s@,
            None => if platform == Platform::Windows { "cmd.exe"@ } else { "bash"@ },
        },
        platform == Platform::MacOs ==> r@[1]@ == "-l"@,
{
    let shell = match configured {
        Some(s) => s,
        None => if platform == Platform::Windows {
            "cmd.exe".to_owned()
        } else {
            "bash".to_owned()
        },
    };
    let mut argv: Vec<String> = Vec::new();
    argv.push(shell);
    if platform == Platform::MacOs {
        argv.push("-l".to_owned());
    }
    argv
}


/// How a terminal session is started.
pub enum ShellStart {
    /// The shell that the remote peer shares.
    Peer,
    /// The given command line (the provider's `ssh` command).
    Command(Vec<String>),
    /// A local shell in the given folder.
    Local(String),
}

/// The panel's terminal: the provider's `ssh` command when it has one,
/// else a local shell in `cwd`.
pub fn panel_shell(ssh_command: Option<Vec<String>>, cwd: String) -> (r: ShellStart)
    ensures
        match ssh_command {
            Some(a) => r matches ShellStart::Command(v) && v@ == a@,
            None => r matches ShellStart::Local(d) && d@ == cwd@,
        },
{
    match ssh_command {
        Some(a) => ShellStart::Command(a),
        None => ShellStart::Local(cwd),
    }
}

/// The console's terminal: the peer's shared shell when there is one, else
/// the provider's `ssh` command when it is not empty, else a local shell in
/// `cwd`.
pub fn console_shell(peer_shares_shell: bool, ssh_command: Option<Vec<String>>, cwd: String) -> (r: ShellStart)
    ensures
        peer_shares_shell ==> r is Peer,
        !peer_shares_shell ==> match ssh_command {
            Some(a) if a@.len() > 0 => r matches ShellStart::Command(v) && v@ == a@,
            _ => r matches ShellStart::Local(d) && d@ == cwd@,
        },
{
    if peer_shares_shell {
        return ShellStart::Peer;
    }
    match ssh_command {
        Some(a) => {
            if a.len() > 0 {
                ShellStart::Command(a)
            } else {
                ShellStart::Local(cwd)
            }
        },
        None => ShellStart::Local(cwd),
    }
}

} // verus!
