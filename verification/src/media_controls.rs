//! The buttons of the operating system's media controls, by name.
use vstd::prelude::*;
use crate::text::{owned, push_str, str_eq};

verus! {

/// A button of the media controls.
#[derive(Clone, Copy, Debug, PartialEq, Eq, Structural)]
pub enum MediaButtonKind {
    Play,
    Pause,
    Stop,
    Next,
    Previous,
    Seek,
}

/// The button a name stands for.
pub open spec fn button_named(name: Seq<char>) -> Option<MediaButtonKind> {
    if name == "play"@ {
        Some(MediaButtonKind::Play)
    } else if name == "pause"@ {
        Some(MediaButtonKind::Pause)
    } else if name == "stop"@ {
        Some(MediaButtonKind::Stop)
    } else if name == "next"@ {
        Some(MediaButtonKind::Next)
    } else if name == "previous"@ {
        Some(MediaButtonKind::Previous)
    } else if name == "seek"@ {
        Some(MediaButtonKind::Seek)
    } else {
        None
    }
}

/// The button named `name`; an unknown name is refused with the message
/// "Unknown button: " and the name.
pub fn media_button(name: &str) -> (r: Result<MediaButtonKind, String>)
    ensures
        match button_named(name@) {
            Some(b) => r == Ok::<MediaButtonKind, String>(b),
            None => r matches Err(m) && m@ == "Unknown button: "@ + name@,
        },
{
    if str_eq(name, "play") {
        Ok(MediaButtonKind::Play)
    } else if str_eq(name, "pause") {
        Ok(MediaButtonKind::Pause)
    } else if str_eq(name, "stop") {
        Ok(MediaButtonKind::Stop)
    } else if str_eq(name, "next") {
        Ok(MediaButtonKind::Next)
    } else if str_eq(name, "previous") {
        Ok(MediaButtonKind::Previous)
    } else if str_eq(name, "seek") {
        Ok(MediaButtonKind::Seek)
    } else {
        let mut m = owned("Unknown button: ");
        push_str(&mut m, name);
        Err(m)
    }
}

} // verus!
