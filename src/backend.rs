use vstd::prelude::*;

use crate::output_log::OutputLogInternal;

verus! {

/// A rendering backend: paints a snapshot of the live entries.
///
/// `update` receives the entries in insertion order and must not call back
/// into the engine; `synchronous` declares whether every render request is
/// to be carried out at once, and `wants_synchronous` is that declaration.
/// Outside verified code `wants_synchronous` is an ordinary method, which an
/// implementation writes to return what `synchronous` returns.
pub trait Backend {
    /// The backend wants every render at once, with no debouncing.
    spec fn wants_synchronous(&self) -> bool;

    fn update(&mut self, jobs: &[OutputLogInternal]);

    fn synchronous(&self) -> (r: bool)
        ensures
            r == self.wants_synchronous(),
    ;
}

/// The kinds of backend a program can be attached to.
#[derive(Clone, Copy, Debug, PartialEq, Eq, Structural)]
pub enum BackendKind {
    RawConsole,
    Console,
    Pipe,
}

/// The backend for the given terminal situation: the raw console only when
/// asked for and all three standard streams are terminals, the line console
/// whenever standard error is a terminal, plain lines otherwise.
pub open spec fn backend_kind_for(
    raw: bool,
    stdin_is_tty: bool,
    stdout_is_tty: bool,
    stderr_is_tty: bool,
) -> BackendKind {
    if raw && stdin_is_tty && stdout_is_tty && stderr_is_tty {
        BackendKind::RawConsole
    } else if stderr_is_tty {
        BackendKind::Console
    } else {
        BackendKind::Pipe
    }
}

/// Picks the backend for a program from whether each standard stream is a
/// terminal.
pub fn open_backend(
    raw: bool,
    stdin_is_tty: bool,
    stdout_is_tty: bool,
    stderr_is_tty: bool,
) -> (r: BackendKind)
    ensures
        r == backend_kind_for(raw, stdin_is_tty, stdout_is_tty, stderr_is_tty),
{
    if stdin_is_tty && stdout_is_tty && stderr_is_tty && raw {
        BackendKind::RawConsole
    } else if stderr_is_tty {
        BackendKind::Console
    } else {
        BackendKind::Pipe
    }
}

} // verus!
