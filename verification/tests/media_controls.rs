use aurelia::media_controls::{media_button, MediaButtonKind};

#[test]
fn media_buttons_by_name() {
    assert_eq!(media_button("play"), Ok(MediaButtonKind::Play));
    assert_eq!(media_button("seek"), Ok(MediaButtonKind::Seek));
    assert_eq!(media_button("previous"), Ok(MediaButtonKind::Previous));
    assert_eq!(media_button("rewind"), Err("Unknown button: rewind".to_string()));
}
