//! Tray behaviour settings: whether minimizing and closing send the window
//! to the tray.
use vstd::prelude::*;

verus! {

/// The tray settings; minimizing goes to the tray and closing does not,
/// until set otherwise.
#[derive(Clone, Copy, Debug, PartialEq, Eq)]
pub struct TraySettings {
    pub minimize_to_tray: bool,
    pub close_to_tray: bool,
}

impl Default for TraySettings {
    fn default() -> (r: TraySettings)
        ensures
            r.minimize_to_tray,
            !r.close_to_tray,
    {
        TraySettings { minimize_to_tray: true, close_to_tray: false }
    }
}

/// Sets whether minimizing sends the window to the tray.
pub fn set_minimize_to_tray(settings: &mut TraySettings, minimize_to_tray: bool)
    ensures
        *final(settings) == (TraySettings { minimize_to_tray, ..*old(settings) }),
{
    settings.minimize_to_tray = minimize_to_tray;
}

/// Sets whether closing sends the window to the tray.
pub fn set_close_to_tray(settings: &mut TraySettings, close_to_tray: bool)
    ensures
        *final(settings) == (TraySettings { close_to_tray, ..*old(settings) }),
{
    settings.close_to_tray = close_to_tray;
}

/// Whether minimizing sends the window to the tray.
pub fn minimize_to_tray_enabled(settings: &TraySettings) -> (b: bool)
    ensures
        b == settings.minimize_to_tray,
{
    settings.minimize_to_tray
}

/// Whether closing sends the window to the tray.
pub fn close_to_tray_enabled(settings: &TraySettings) -> (b: bool)
    ensures
        b == settings.close_to_tray,
{
    settings.close_to_tray
}

/// A setting reads back as last set, and setting one leaves the other as
/// it was.
pub proof fn lemma_tray_settings_roundtrip(s: TraySettings, m: bool, c: bool)
    ensures
        (TraySettings { minimize_to_tray: m, ..s }).minimize_to_tray == m,
        (TraySettings { minimize_to_tray: m, ..s }).close_to_tray == s.close_to_tray,
        (TraySettings { close_to_tray: c, ..s }).close_to_tray == c,
        (TraySettings { close_to_tray: c, ..s }).minimize_to_tray == s.minimize_to_tray,
{
}

} // verus!
