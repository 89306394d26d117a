//! The command dispatch table of the shell.
//!
//! The host GUI runtime binds operation names to handlers by
//! reflection; here the same binding is an explicit tagged union. A
//! [`Dispatcher`] handles one [`Command`] at a time and answers with a
//! [`Reply`] for the runtime to carry out. Handling [`Command::ExitApp`]
//! asks for a successful process exit and shuts the dispatcher: from
//! then on no command is processed any more.

use vstd::prelude::*;
use crate::window::WindowRect;
use crate::window::get_open_windows;

verus! {

/// The exit status that [`Command::ExitApp`] asks for: success.
pub const EXIT_SUCCESS: i32 = 0;

/// A remote-invocable operation of the shell, by name.
pub enum Command {
    /// List the open top-level windows.
    GetOpenWindows,
    /// Terminate the process, successfully and unconditionally.
    ExitApp,
}

/// What the runtime is to do with a handled command.
pub enum Reply {
    /// Hand this list of windows back to the caller.
    Windows(Vec<WindowRect>),
    /// Terminate the process with this status code. The runtime runs
    /// no shutdown hooks and takes no further commands.
    Exit(i32),
}

/// Whether a dispatcher that accepts commands still accepts them
/// after handling `cmd`: every command but [`Command::ExitApp`] leaves
/// it accepting.
pub open spec fn accepts_after(accepting: bool, cmd: Command) -> bool {
    accepting && !(cmd is ExitApp)
}

/// Whether a dispatcher still accepts commands after handling the
/// whole sequence `cmds`, in order, starting from `accepting`.
pub open spec fn accepts_after_all(accepting: bool, cmds: Seq<Command>) -> bool
    decreases cmds.len(),
{
    if cmds.len() == 0 {
        accepting
    } else {
        accepts_after_all(accepts_after(accepting, cmds[0]), cmds.subrange(1, cmds.len() as int))
    }
}

/// The dispatch table: the one piece of state of the shell.
///
/// It starts accepting commands and keeps accepting them until it
/// handles [`Command::ExitApp`]; after that every command is refused.
pub struct Dispatcher {
    /// Whether commands are still processed.
    pub accepting: bool,
}

impl Dispatcher {
    /// A fresh dispatcher, ready to process commands.
    pub fn new() -> (d: Dispatcher)
        ensures
            d.accepting,
    {
        Dispatcher { accepting: true }
    }

    /// Handle one remote command.
    ///
    /// A command is processed if and only if the dispatcher is still
    /// accepting. [`Command::GetOpenWindows`] answers with the empty
    /// window list and leaves the dispatcher accepting;
    /// [`Command::ExitApp`] answers with a successful exit request and
    /// shuts the dispatcher for good. Neither operation can fail.
    pub fn dispatch(&mut self, cmd: Command) -> (r: Option<Reply>)
        ensures
            (r is Some) == old(self).accepting,
            final(self).accepting == accepts_after(old(self).accepting, cmd),
            (old(self).accepting && cmd is GetOpenWindows)
                ==> (r matches Some(Reply::Windows(w)) && w@ == Seq::<WindowRect>::empty()),
            (old(self).accepting && cmd is ExitApp)
                ==> r == Some(Reply::Exit(EXIT_SUCCESS)),
    {
        if !self.accepting {
            return None;
        }
        match cmd {
            Command::GetOpenWindows => Some(Reply::Windows(get_open_windows())),
            Command::ExitApp => {
                self.accepting = false;
                Some(Reply::Exit(EXIT_SUCCESS))
            },
        }
    }
}

/// A shut dispatcher never opens again: from a non-accepting state, no
/// sequence of commands is processed.
pub proof fn lemma_shut_stays_shut(cmds: Seq<Command>)
    ensures
        !accepts_after_all(false, cmds),
    decreases cmds.len(),
{
    if cmds.len() > 0 {
        lemma_shut_stays_shut(cmds.subrange(1, cmds.len() as int));
    }
}

/// Exit is final: once [`Command::ExitApp`] stands anywhere in a
/// sequence of handled commands, the dispatcher accepts nothing after
/// the whole sequence, whatever commands follow it.
pub proof fn lemma_exit_is_final(accepting: bool, cmds: Seq<Command>, i: int)
    requires
        0 <= i < cmds.len(),
        cmds[i] is ExitApp,
    ensures
        !accepts_after_all(accepting, cmds),
    decreases cmds.len(),
{
    let rest = cmds.subrange(1, cmds.len() as int);
    if i == 0 {
        lemma_shut_stays_shut(rest);
    } else {
        assert(rest[i - 1] is ExitApp);
        lemma_exit_is_final(accepts_after(accepting, cmds[0]), rest, i - 1);
    }
}

} // verus!
