use aurelia::tray_settings::{
    close_to_tray_enabled, minimize_to_tray_enabled, set_close_to_tray, set_minimize_to_tray,
    TraySettings,
};

#[test]
fn tray_settings_default_and_roundtrip() {
    let mut s = TraySettings::default();
    assert!(minimize_to_tray_enabled(&s));
    assert!(!close_to_tray_enabled(&s));
    set_close_to_tray(&mut s, true);
    assert!(close_to_tray_enabled(&s));
    assert!(minimize_to_tray_enabled(&s));
    set_minimize_to_tray(&mut s, false);
    assert!(!minimize_to_tray_enabled(&s));
    assert!(close_to_tray_enabled(&s));
}
