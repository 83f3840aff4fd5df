//! Choosing what to launch for a runtime configuration.

use vstd::prelude::*;
use crate::config::{Frontend, RuntimeConfig};

verus! {

/// What the caller should start.
#[derive(Debug, Clone, Copy, PartialEq, Eq, Structural)]
pub enum Launch {
    /// The terminal UI.
    Tui,
}

/// A frontend that cannot be launched from this entry point.
#[derive(Debug, Clone, Copy, PartialEq, Eq, Structural)]
pub struct LaunchError {
    pub frontend: Frontend,
}

impl LaunchError {
    /// The text of the error.
    pub open spec fn spec_message(self) -> Seq<char> {
        "lemurclaw `"@ + self.frontend.spec_name() + "` frontend is not implemented yet"@
    }

    /// The text of the error, e.g. ``lemurclaw `gui` frontend is not
    /// implemented yet``.
    pub fn message(&self) -> (r: String)
        ensures
            r@ == self.spec_message(),
    {
        let mut s = String::from_str("lemurclaw `");
        s.append(self.frontend.name());
        s.append("` frontend is not implemented yet");
        s
    }
}

/// Decides what to launch: the terminal UI is started by the caller; the GUI
/// and WebUI frontends are refused from this entry point.
pub fn run(config: RuntimeConfig) -> (r: Result<Launch, LaunchError>)
    ensures
        config.frontend == Frontend::Tui ==> r == Ok::<Launch, LaunchError>(Launch::Tui),
        config.frontend != Frontend::Tui ==> r == Err::<Launch, LaunchError>(
            LaunchError { frontend: config.frontend },
        ),
{
    match config.frontend {
        Frontend::Tui => Ok(Launch::Tui),
        Frontend::Gui => Err(LaunchError { frontend: Frontend::Gui }),
        Frontend::Webui => Err(LaunchError { frontend: Frontend::Webui }),
    }
}

} // verus!
