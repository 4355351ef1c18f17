//! Global hotkeys of the standalone application. Registration is done by
//! the platform code; these are the portable entry points.

use vstd::prelude::*;

verus! {

/// A registered hotkey.
#[derive(Debug, Clone, Copy, PartialEq, Eq, Structural)]
pub struct HotkeyId(pub u32);

/// Registering a hotkey here is not supported: it always fails with
/// `Not implemented`.
pub fn register_hotkey(_key: &str, _modifiers: &[&str]) -> (r: Result<HotkeyId, String>)
    ensures
        r matches Err(e) && e@ == "Not implemented"@,
{
    Err("Not implemented".to_owned())
}

/// Unregistering a hotkey here does nothing and succeeds.
pub fn unregister_hotkey(_id: HotkeyId) -> (r: Result<(), String>)
    ensures
        r is Ok,
{
    Ok(())
}

} // verus!
