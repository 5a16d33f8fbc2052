use termi::event::read::{EventLoop, Filter};
use termi::event::{
    DesktopNotificationsSupport, Event, KeyboardEnhancementFlags, ALL_KEYBOARD_ENHANCEMENT_FLAGS,
    DISAMBIGUATE_ESCAPE_CODES, REPORT_ALL_KEYS_AS_ESCAPE_CODES, REPORT_ALTERNATE_KEYS,
    REPORT_ASSOCIATED_TEXT, REPORT_EVENT_TYPES,
};
use termi::feature::desktop_notifications;
use termi::feature::desktop_notifications::DesktopNotificationsFilter;
use termi::feature::keyboard_enhancement;
use termi::feature::keyboard_enhancement::KeyboardEnchancementFlagsFilter;
use termi::feature::PrimaryDeviceAttributesFilter;

fn poll_decoded<F: Filter>(el: &mut EventLoop, filter: &F) -> bool {
    if el.queued_match(filter) {
        return true;
    }
    loop {
        match el.next_decoded() {
            Some(event) => {
                if let Some(m) = el.screen(event, filter) {
                    return el.conclude(Some(m));
                }
            }
            None => return el.conclude(None),
        }
    }
}

#[test]
fn keyboard_request_bytes_are_exact() {
    assert_eq!(keyboard_enhancement::query_bytes(), b"\x1b[?u\x1b[0c".to_vec());
}

#[test]
fn notification_request_bytes_are_exact() {
    assert_eq!(
        desktop_notifications::query_bytes("abc123"),
        b"\x1b]99;i=abc123:p=?;\x1b\\\x1b[0c".to_vec()
    );
}

#[test]
fn keyboard_reply_classification() {
    let f = KeyboardEnhancementFlags::from_bits_truncate(5);
    assert_eq!(
        keyboard_enhancement::classify_reply(Event::KeyboardEnhancmentFlags(f)),
        Some(f)
    );
    assert_eq!(keyboard_enhancement::classify_reply(Event::PrimaryDeviceAttributes), None);
}

#[test]
fn notification_reply_classification() {
    let support = DesktopNotificationsSupport { identifier: "abc123".to_string() };
    assert_eq!(
        desktop_notifications::classify_reply(Event::DesktopNotifications(support.clone())),
        Some(support)
    );
    assert_eq!(desktop_notifications::classify_reply(Event::PrimaryDeviceAttributes), None);
}

// The keyboard-enhancement query receives only the generic
// acknowledgment within the deadline: a definitive "not supported",
// not an error.
#[test]
fn keyboard_query_with_only_ack_is_not_supported() {
    let mut el = EventLoop::new();
    el.feed(b"\x1b[?62;4c");
    let filter = KeyboardEnchancementFlagsFilter;
    assert!(poll_decoded(&mut el, &filter));
    let event = el.claim(&filter).expect("a queued event matched");
    assert_eq!(keyboard_enhancement::classify_reply(event), None);
}

#[test]
fn keyboard_query_with_flags_reply_is_supported() {
    let mut el = EventLoop::new();
    el.feed(b"\x1b[?13u\x1b[?62;4c");
    let filter = KeyboardEnchancementFlagsFilter;
    assert!(poll_decoded(&mut el, &filter));
    let event = el.claim(&filter).expect("a queued event matched");
    assert_eq!(
        keyboard_enhancement::classify_reply(event),
        Some(KeyboardEnhancementFlags::from_bits_truncate(13))
    );
    // The still-pending acknowledgment is drained so no stale state is
    // left for a later probe.
    let pda = PrimaryDeviceAttributesFilter;
    assert!(poll_decoded(&mut el, &pda));
    assert_eq!(el.claim(&pda), Some(Event::PrimaryDeviceAttributes));
}

// The notification query's reply is matched by its correlation
// identifier: a reply carrying someone else's identifier is passed
// over — but kept — and the query's own reply is the one claimed.
#[test]
fn notification_query_matches_by_identifier() {
    let mut el = EventLoop::new();
    el.feed(b"\x1b]99;i=other0:p=?;\x1b\\\x1b]99;i=abc123:p=?;\x1b\\\x1b[?0c");
    let filter = DesktopNotificationsFilter { identifier: "abc123".to_string() };
    assert!(poll_decoded(&mut el, &filter));
    let event = el.claim(&filter).expect("a queued event matched");
    let support = desktop_notifications::classify_reply(event).expect("support confirmed");
    assert_eq!(support.identifier, "abc123");

    // The mismatched reply was deferred, not dropped.
    let other = DesktopNotificationsFilter { identifier: "other0".to_string() };
    assert!(el.queued_match(&other) || poll_decoded(&mut el, &other));
    let stale = el.claim(&other).expect("the mismatched reply is still queued");
    assert_eq!(
        desktop_notifications::classify_reply(stale).map(|s| s.identifier),
        Some("other0".to_string())
    );
}

// A lone mismatched reply never satisfies the query's filter: the wait
// finds nothing and the event stays buffered.
#[test]
fn mismatched_identifier_never_matches() {
    let mut el = EventLoop::new();
    el.feed(b"\x1b]99;i=other0:p=?;\x1b\\");
    let filter = DesktopNotificationsFilter { identifier: "abc123".to_string() };
    assert!(!poll_decoded(&mut el, &filter));
    assert_eq!(el.claim(&filter), None);
    // The claim deferred the reply to the side buffer; the next wait
    // merges it back, and then it is there for the filter it belongs to.
    let other = DesktopNotificationsFilter { identifier: "other0".to_string() };
    assert!(!poll_decoded(&mut el, &other));
    assert!(el.queued_match(&other));
    let stale = el.claim(&other).expect("the mismatched reply was never lost");
    assert_eq!(
        desktop_notifications::classify_reply(stale).map(|s| s.identifier),
        Some("other0".to_string())
    );
}

// A silent terminal: nothing arrives, so a wait concludes with no
// match, and the query's two-second budget runs out — the distinct,
// surfaced timeout outcome rather than a definitive negative.
#[test]
fn silent_terminal_exhausts_the_deadline() {
    let mut el = EventLoop::new();
    let kb = KeyboardEnchancementFlagsFilter;
    assert!(!poll_decoded(&mut el, &kb));
    assert_eq!(el.claim(&kb), None);
    let deadline = termi::event::read::PollTimeout::new(Some(2_000_000_000), 0);
    assert_eq!(deadline.leftover(1_999_999_999), Some(1));
    assert_eq!(deadline.leftover(2_000_000_000), Some(0));
}

#[test]
fn flag_constants_cover_the_mask() {
    assert_eq!(
        DISAMBIGUATE_ESCAPE_CODES
            | REPORT_EVENT_TYPES
            | REPORT_ALTERNATE_KEYS
            | REPORT_ALL_KEYS_AS_ESCAPE_CODES
            | REPORT_ASSOCIATED_TEXT,
        ALL_KEYBOARD_ENHANCEMENT_FLAGS
    );
    let all = KeyboardEnhancementFlags::from_bits_truncate(0xff);
    assert_eq!(all.bits(), ALL_KEYBOARD_ENHANCEMENT_FLAGS);
    let a = KeyboardEnhancementFlags::from_bits_truncate(DISAMBIGUATE_ESCAPE_CODES);
    let b = KeyboardEnhancementFlags::from_bits_truncate(REPORT_EVENT_TYPES);
    assert_eq!(a.union(b).bits(), 0b11);
    assert_eq!(a.intersection(b).bits(), 0);
    assert!(all.contains(a));
    assert!(!a.contains(b));
    assert_eq!(KeyboardEnhancementFlags::empty().bits(), 0);
}
