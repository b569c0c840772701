//! The conversion of a tenhou/6 log.

use crate::error::ConvertError;
use crate::event::{event_views, Event, EventView};
use crate::tenhou::log::Log;
use crate::tenhou::play::log_events;
pub use crate::tenhou::play::tenhou_to_mjai;
use crate::tenhou::scheme::log_of_text;
use vstd::prelude::*;

verus! {

/// The events of the tenhou/6 log that a text holds: the log must have the
/// shape of such a log, and each of its rounds must play out. A log that
/// fails anywhere fails as a whole.
pub open spec fn tenhou6_events(text: Seq<char>) -> Result<Seq<EventView>, ConvertError> {
    match log_of_text(text) {
        Err(x) => Err(x),
        Ok(log) => log_events(log),
    }
}

/// Converts a tenhou/6 log to its events.
pub fn decode_tenhou6(text: &str) -> (r: Result<Vec<Event>, ConvertError>)
    ensures
        match tenhou6_events(text@) {
            Ok(events) => r is Ok && event_views(r.unwrap()@) == events,
            Err(x) => r == Err::<Vec<Event>, ConvertError>(x),
        },
{
    match Log::from_json_str(text) {
        Err(x) => Err(x),
        Ok(log) => tenhou_to_mjai(&log),
    }
}

} // verus!
