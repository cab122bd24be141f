//! Launch modes of the application around the library.

use vstd::prelude::*;

verus! {

/// How the application runs.
#[allow(non_camel_case_types)]
#[derive(Debug, Clone, Copy, PartialEq, Eq, Structural)]
pub enum AppLaunchMode {
    /// The user-facing editor.
    DEFAULT,
}

impl AppLaunchMode {
    /// The launch mode that a command-line value names. There is one mode so
    /// far, and every value selects it.
    pub fn match_launch_mode_str(arg_string: &String) -> (mode: AppLaunchMode)
        ensures
            mode == AppLaunchMode::DEFAULT,
    {
        AppLaunchMode::DEFAULT
    }
}

} // verus!
