//! The two capability queries: what each one sends, what its replies
//! match, and how a claimed reply is classified.

use vstd::prelude::*;

pub mod desktop_notifications;
pub mod keyboard_enhancement;

use crate::event::{Event, EventView};
use crate::event::read::Filter;

verus! {

/// Matches only the generic primary-device-attributes acknowledgment;
/// used to drain a still-pending acknowledgment after a capability reply.
pub struct PrimaryDeviceAttributesFilter;

impl Filter for PrimaryDeviceAttributesFilter {
    open spec fn spec_eval(&self, event: EventView) -> bool {
        event is Ack
    }

    fn eval(&self, event: &Event) -> (r: bool) {
        matches!(event, Event::PrimaryDeviceAttributes)
    }
}

} // verus!
