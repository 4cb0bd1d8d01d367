//! Whether a program started without a terminal should let go of its console
//! window.

use vstd::prelude::*;

verus! {

/// Relies on `atty::is`: whether standard output is a terminal. The answer
/// depends on how the process was started, so nothing is promised of it.
#[verifier::external_body]
fn stdout_is_terminal() -> bool {
    atty::is(atty::Stream::Stdout)
}

/// The console is released exactly when standard output is not a terminal,
/// so that a program started from a terminal keeps it.
pub fn console_to_release(stdout_is_terminal: bool) -> (release: bool)
    ensures
        release == !stdout_is_terminal,
{
    !stdout_is_terminal
}

/// Asks whether standard output is a terminal and decides, as
/// `console_to_release` does, whether the console window is to be released.
/// Releasing it is the environment's part (on Windows).
pub fn hide_console_window() -> (release: bool) {
    console_to_release(stdout_is_terminal())
}

} // verus!
