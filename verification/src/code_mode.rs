//! Session providers for builds without the code-mode runtime: they keep the
//! constructor surface of the real providers and refuse every session.

use vstd::prelude::*;

verus! {

/// The error every session request gets.
pub const UNAVAILABLE: &'static str = "code-mode V8 runtime is excluded from this build";

/// What every `create_session` call returns: the [`UNAVAILABLE`] error.
pub open spec fn refused(r: Result<(), String>) -> bool {
    r matches Err(e) && e@ == UNAVAILABLE@
}

fn unavailable() -> (r: Result<(), String>)
    ensures
        refused(r),
{
    Err(String::from_str(UNAVAILABLE))
}

/// In-process provider: refuses every session.
pub struct InProcessCodeModeSessionProvider;

impl InProcessCodeModeSessionProvider {
    pub fn create_session(&self) -> (r: Result<(), String>)
        ensures
            refused(r),
    {
        unavailable()
    }
}

impl Default for InProcessCodeModeSessionProvider {
    fn default() -> (r: Self) {
        InProcessCodeModeSessionProvider
    }
}

/// Process-owned provider: keeps the constructor surface and refuses every
/// session.
pub struct ProcessOwnedCodeModeSessionProvider;

impl ProcessOwnedCodeModeSessionProvider {
    /// The host program is not used.
    pub fn with_host_program(_host_program: String) -> (r: Self) {
        ProcessOwnedCodeModeSessionProvider
    }

    /// Returns the provider unchanged.
    pub fn without_in_process_fallback(self) -> (r: Self)
        ensures
            r == self,
    {
        self
    }

    pub fn create_session(&self) -> (r: Result<(), String>)
        ensures
            refused(r),
    {
        unavailable()
    }
}

impl Default for ProcessOwnedCodeModeSessionProvider {
    fn default() -> (r: Self) {
        ProcessOwnedCodeModeSessionProvider
    }
}

/// WebSocket provider: keeps the constructor surface and refuses every
/// session.
pub struct WebSocketCodeModeSessionProvider;

impl WebSocketCodeModeSessionProvider {
    /// The URL is not used.
    pub fn with_websocket_url(_websocket_url: String) -> (r: Self) {
        WebSocketCodeModeSessionProvider
    }

    pub fn create_session(&self) -> (r: Result<(), String>)
        ensures
            refused(r),
    {
        unavailable()
    }
}

} // verus!
