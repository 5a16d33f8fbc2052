//! The desktop-notification support query.
//!
//! The query sends `ESC ] 99 ; i=<id> : p=? ; ESC \` with a freshly
//! generated correlation identifier, followed by the primary-device-
//! attributes query as a synchronization fallback.  Only a notification
//! reply that echoes the same identifier counts as this query's answer;
//! replies carrying any other identifier are left queued for whoever they
//! belong to.

use vstd::prelude::*;

use crate::event::{DesktopNotificationsSupport, Event, EventView};
use crate::event::read::Filter;

verus! {

/// Matches what the notification query waits for: a notification reply
/// echoing this query's correlation identifier, or the generic
/// acknowledgment that closes the query.
pub struct DesktopNotificationsFilter {
    pub identifier: String,
}

impl Filter for DesktopNotificationsFilter {
    open spec fn spec_eval(&self, event: EventView) -> bool {
        match event {
            EventView::Notify { identifier } => identifier == self.identifier@,
            EventView::Ack => true,
            _ => false,
        }
    }

    fn eval(&self, event: &Event) -> (r: bool) {
        match event {
            Event::DesktopNotifications(e) => e.identifier == self.identifier,
            Event::PrimaryDeviceAttributes => true,
            _ => false,
        }
    }
}

/// Correlation filtering: a notification reply matches the query's
/// filter exactly when it echoes the query's own identifier.  One that
/// carries any other identifier never matches, so the wait defers it to
/// the side buffer — where it stays available — and keeps waiting.
pub proof fn lemma_correlation_filtering(filter: &DesktopNotificationsFilter, id: Seq<char>)
    ensures
        filter.spec_eval(EventView::Notify { identifier: id }) <==> id == filter.identifier@,
{
}

/// The bytes of the notification request carrying `id`: the notification
/// support query, then the primary-device-attributes query.
pub open spec fn spec_query_bytes(id: Seq<char>) -> Seq<u8> {
    seq![0x1bu8, 0x5du8, 0x39u8, 0x39u8, 0x3bu8, 0x69u8, 0x3du8] + vstd::utf8::encode_utf8(id)
        + seq![0x3au8, 0x70u8, 0x3du8, 0x3fu8, 0x3bu8, 0x1bu8, 0x5cu8, 0x1bu8, 0x5bu8, 0x30u8, 0x63u8]
}

/// Builds the request bytes for the correlation identifier `identifier`.
pub fn query_bytes(identifier: &str) -> (r: Vec<u8>)
    ensures
        r@ == spec_query_bytes(identifier@),
{
    let mut r: Vec<u8> = Vec::new();
    r.push(0x1b);
    r.push(0x5d);
    r.push(0x39);
    r.push(0x39);
    r.push(0x3b);
    r.push(0x69);
    r.push(0x3d);
    r.extend_from_slice(identifier.as_bytes());
    r.push(0x3a);
    r.push(0x70);
    r.push(0x3d);
    r.push(0x3f);
    r.push(0x3b);
    r.push(0x1b);
    r.push(0x5c);
    r.push(0x1b);
    r.push(0x5b);
    r.push(0x30);
    r.push(0x63);
    proof {
        assert(r@ =~= spec_query_bytes(identifier@));
    }
    r
}

/// Classifies the event the wait claimed: a notification reply means
/// support is confirmed, with the echoed identifier; anything else — in
/// practice the bare acknowledgment — means it is not supported.
pub fn classify_reply(event: Event) -> (r: Option<DesktopNotificationsSupport>)
    ensures
        match event@ {
            EventView::Notify { identifier } => r matches Some(d) && d@ == identifier,
            _ => r is None,
        },
{
    match event {
        Event::DesktopNotifications(support) => Some(support),
        _ => Option::None,
    }
}

} // verus!
