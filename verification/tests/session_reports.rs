use aurelia::session_reports::{
    playback_progress_fields, playback_start_fields, playback_stop_fields, ReportField, ReportValue,
};

fn text(name: &str, value: &str) -> ReportField {
    ReportField { name: name.to_string(), value: ReportValue::Text(value.to_string()) }
}

fn flag(name: &str, b: bool) -> ReportField {
    ReportField { name: name.to_string(), value: ReportValue::Flag(b) }
}

fn ticks(name: &str, t: i64) -> ReportField {
    ReportField { name: name.to_string(), value: ReportValue::Ticks(t) }
}

#[test]
fn start_report_without_position() {
    let r = playback_start_fields("item-1", None);
    assert_eq!(
        r,
        vec![text("ItemId", "item-1"), flag("CanSeek", true), flag("IsPaused", false), flag("IsMuted", false)]
    );
}

#[test]
fn start_report_with_position() {
    let r = playback_start_fields("item-1", Some(42_000_000));
    assert_eq!(r.len(), 5);
    assert_eq!(r[4], ticks("PositionTicks", 42_000_000));
}

#[test]
fn progress_report_defaults_to_not_paused() {
    let r = playback_progress_fields("a", None, None, None);
    assert_eq!(r, vec![text("ItemId", "a"), flag("IsMuted", false), flag("IsPaused", false)]);
}

#[test]
fn progress_report_with_every_field() {
    let r = playback_progress_fields("a", Some(7), Some("TimeUpdate"), Some(true));
    assert_eq!(
        r,
        vec![
            text("ItemId", "a"),
            flag("IsMuted", false),
            ticks("PositionTicks", 7),
            text("EventName", "TimeUpdate"),
            flag("IsPaused", true),
        ]
    );
}

#[test]
fn stop_report_with_position() {
    let r = playback_stop_fields("z", Some(-1));
    assert_eq!(
        r,
        vec![text("ItemId", "z"), flag("IsPaused", false), flag("IsMuted", false), ticks("PositionTicks", -1)]
    );
}
