//! The bodies of the playback reports a client sends to a Jellyfin server
//! when a track starts, progresses and stops: named fields, in order.
use vstd::prelude::*;
use crate::text::owned;

verus! {

/// The value of a report field.
#[derive(Clone, Debug, PartialEq)]
pub enum ReportValue {
    Text(String),
    Flag(bool),
    Ticks(i64),
}

/// A named field of a report body.
#[derive(Clone, Debug, PartialEq)]
pub struct ReportField {
    pub name: String,
    pub value: ReportValue,
}

/// `f` is the field `name` holding the text `text`.
pub open spec fn text_field(f: ReportField, name: Seq<char>, text: Seq<char>) -> bool {
    &&& f.name@ == name
    &&& f.value matches ReportValue::Text(s) && s@ == text
}

/// `f` is the field `name` holding the flag `b`.
pub open spec fn flag_field(f: ReportField, name: Seq<char>, b: bool) -> bool {
    f.name@ == name && f.value == ReportValue::Flag(b)
}

/// `f` is the field `name` holding the position `t`.
pub open spec fn ticks_field(f: ReportField, name: Seq<char>, t: i64) -> bool {
    f.name@ == name && f.value == ReportValue::Ticks(t)
}

fn text(name: &str, value: &str) -> (f: ReportField)
    ensures
        text_field(f, name@, value@),
{
    ReportField { name: owned(name), value: ReportValue::Text(owned(value)) }
}

fn flag(name: &str, b: bool) -> (f: ReportField)
    ensures
        flag_field(f, name@, b),
{
    ReportField { name: owned(name), value: ReportValue::Flag(b) }
}

fn ticks(name: &str, t: i64) -> (f: ReportField)
    ensures
        ticks_field(f, name@, t),
{
    ReportField { name: owned(name), value: ReportValue::Ticks(t) }
}

/// The number of fields that an optional value adds.
pub open spec fn opt_count<T>(o: Option<T>) -> int {
    if o is Some { 1 } else { 0 }
}

/// The body of a "playback started" report for `item_id`: the item, that
/// it can seek, is neither paused nor muted, and then the position when
/// one is given.
pub fn playback_start_fields(item_id: &str, position_ticks: Option<i64>) -> (r: Vec<ReportField>)
    ensures
        r@.len() == 4 + opt_count(position_ticks),
        text_field(r@[0], "ItemId"@, item_id@),
        flag_field(r@[1], "CanSeek"@, true),
        flag_field(r@[2], "IsPaused"@, false),
        flag_field(r@[3], "IsMuted"@, false),
        position_ticks matches Some(p) ==> ticks_field(r@[4], "PositionTicks"@, p),
{
    let mut r: Vec<ReportField> = Vec::new();
    r.push(text("ItemId", item_id));
    r.push(flag("CanSeek", true));
    r.push(flag("IsPaused", false));
    r.push(flag("IsMuted", false));
    if let Some(p) = position_ticks {
        r.push(ticks("PositionTicks", p));
    }
    r
}

/// The body of a progress report for `item_id`: the item, not muted, the
/// position and the event name when given, and whether it is paused
/// (not paused when that is not given).
pub fn playback_progress_fields(
    item_id: &str,
    position_ticks: Option<i64>,
    event_name: Option<&str>,
    is_paused: Option<bool>,
) -> (r: Vec<ReportField>)
    ensures
        r@.len() == 3 + opt_count(position_ticks) + opt_count(event_name),
        text_field(r@[0], "ItemId"@, item_id@),
        flag_field(r@[1], "IsMuted"@, false),
        position_ticks matches Some(p) ==> ticks_field(r@[2], "PositionTicks"@, p),
        event_name matches Some(e) ==> text_field(
            r@[2 + opt_count(position_ticks)],
            "EventName"@,
            e@,
        ),
        flag_field(
            r@[r@.len() - 1],
            "IsPaused"@,
            match is_paused {
                Some(b) => b,
                None => false,
            },
        ),
{
    let mut r: Vec<ReportField> = Vec::new();
    r.push(text("ItemId", item_id));
    r.push(flag("IsMuted", false));
    if let Some(p) = position_ticks {
        r.push(ticks("PositionTicks", p));
    }
    if let Some(e) = event_name {
        r.push(text("EventName", e));
    }
    let paused: bool = match is_paused {
        Some(b) => b,
        None => false,
    };
    r.push(flag("IsPaused", paused));
    r
}

/// The body of a "playback stopped" report for `item_id`: the item, neither
/// paused nor muted, and then the position when one is given.
pub fn playback_stop_fields(item_id: &str, position_ticks: Option<i64>) -> (r: Vec<ReportField>)
    ensures
        r@.len() == 3 + opt_count(position_ticks),
        text_field(r@[0], "ItemId"@, item_id@),
        flag_field(r@[1], "IsPaused"@, false),
        flag_field(r@[2], "IsMuted"@, false),
        position_ticks matches Some(p) ==> ticks_field(r@[3], "PositionTicks"@, p),
{
    let mut r: Vec<ReportField> = Vec::new();
    r.push(text("ItemId", item_id));
    r.push(flag("IsPaused", false));
    r.push(flag("IsMuted", false));
    if let Some(p) = position_ticks {
        r.push(ticks("PositionTicks", p));
    }
    r
}

} // verus!
