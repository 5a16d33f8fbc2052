//! The progressive keyboard-enhancement query.
//!
//! The query sends `ESC [ ? u` followed by the primary-device-attributes
//! query `ESC [ 0 c` as a synchronization fallback: a terminal that
//! supports the protocol answers the first, every live terminal answers
//! the second.  A flags reply therefore means "supported", a bare
//! acknowledgment means "not supported", and silence past the deadline
//! is inconclusive.

use vstd::prelude::*;

use crate::event::{Event, EventView, KeyboardEnhancementFlags};
use crate::event::read::Filter;

verus! {

/// Matches what the keyboard-enhancement query waits for: its own flags
/// reply, or the generic acknowledgment that closes the query.
pub struct KeyboardEnchancementFlagsFilter;

impl Filter for KeyboardEnchancementFlagsFilter {
    open spec fn spec_eval(&self, event: EventView) -> bool {
        event is Flags || event is Ack
    }

    fn eval(&self, event: &Event) -> (r: bool) {
        matches!(event, Event::KeyboardEnhancmentFlags(_) | Event::PrimaryDeviceAttributes)
    }
}

/// The bytes of the keyboard-enhancement request: the flags query,
/// followed by the primary-device-attributes query.
pub open spec fn spec_query_bytes() -> Seq<u8> {
    seq![0x1bu8, 0x5bu8, 0x3fu8, 0x75u8, 0x1bu8, 0x5bu8, 0x30u8, 0x63u8]
}

/// Builds the request bytes to write to the terminal.
pub fn query_bytes() -> (r: Vec<u8>)
    ensures
        r@ == spec_query_bytes(),
{
    let mut r: Vec<u8> = Vec::with_capacity(8);
    r.push(0x1b);
    r.push(0x5b);
    r.push(0x3f);
    r.push(0x75);
    r.push(0x1b);
    r.push(0x5b);
    r.push(0x30);
    r.push(0x63);
    proof {
        assert(r@ =~= spec_query_bytes());
    }
    r
}

/// Classifies the event the wait claimed: a flags reply means the
/// protocol is supported with exactly those flags, anything else — in
/// practice the bare acknowledgment — means it is not.
pub fn classify_reply(event: Event) -> (r: Option<KeyboardEnhancementFlags>)
    ensures
        match event@ {
            EventView::Flags { bits } => r == Some(KeyboardEnhancementFlags { bits }),
            _ => r is None,
        },
{
    match event {
        Event::KeyboardEnhancmentFlags(flags) => Some(flags),
        _ => Option::None,
    }
}

} // verus!
