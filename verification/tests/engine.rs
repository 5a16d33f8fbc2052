use termi::event::read::{EventLoop, Filter};
use termi::event::{DesktopNotificationsSupport, Event, KeyboardEnhancementFlags};
use termi::feature::desktop_notifications::DesktopNotificationsFilter;
use termi::feature::keyboard_enhancement::KeyboardEnchancementFlagsFilter;
use termi::feature::PrimaryDeviceAttributesFilter;

fn flags(bits: u8) -> Event {
    Event::KeyboardEnhancmentFlags(KeyboardEnhancementFlags::from_bits_truncate(bits))
}

fn notify(id: &str) -> Event {
    Event::DesktopNotifications(DesktopNotificationsSupport { identifier: id.to_string() })
}

fn notify_filter(id: &str) -> DesktopNotificationsFilter {
    DesktopNotificationsFilter { identifier: id.to_string() }
}

// The decision half of a wait, as the outer loop drives it when data has
// already arrived: scan the queue, then screen freshly decoded events
// until one matches or none are left, and conclude the wait.
fn poll_decoded<F: Filter>(el: &mut EventLoop, filter: &F) -> bool {
    if el.queued_match(filter) {
        return true;
    }
    loop {
        match el.next_decoded() {
            Some(event) => {
                if let Some(m) = el.screen(event, filter) {
                    return el.conclude(Some(m));
                }
            }
            None => return el.conclude(None),
        }
    }
}

#[test]
fn no_loss_three_events_three_filters() {
    let mut el = EventLoop::new();
    el.feed(b"\x1b]99;i=aaa:p=?;\x1b\\\x1b]99;i=bbb:p=?;\x1b\\\x1b[?5u");

    // The wait for "bbb" skips the "aaa" reply and promotes its own.
    assert!(poll_decoded(&mut el, &notify_filter("bbb")));
    assert_eq!(el.claim(&notify_filter("bbb")), Some(notify("bbb")));

    // The skipped "aaa" reply is still available to its own filter.
    assert_eq!(el.claim(&notify_filter("aaa")), Some(notify("aaa")));

    // The flags reply was never examined; a fresh wait finds it.
    let kb = KeyboardEnchancementFlagsFilter;
    assert!(poll_decoded(&mut el, &kb));
    assert_eq!(el.claim(&kb), Some(flags(5)));

    // Exactly three events existed; nothing else is left.
    assert!(!poll_decoded(&mut el, &kb));
    assert_eq!(el.claim(&kb), None);
    assert_eq!(el.claim(&notify_filter("aaa")), None);
}

#[test]
fn concluded_match_stands_at_the_front() {
    let mut el = EventLoop::new();
    el.feed(b"\x1b]99;i=x:p=?;\x07\x1b[?0c\x1b[?3u");
    // The wait skips the notification; the acknowledgment matches first
    // and is promoted to the front of the queue.
    let kb = KeyboardEnchancementFlagsFilter;
    assert!(poll_decoded(&mut el, &kb));
    assert_eq!(el.claim(&kb), Some(Event::PrimaryDeviceAttributes));
    // The skipped notification is back in the queue behind it.
    assert_eq!(el.claim(&notify_filter("x")), Some(notify("x")));
    // The flags reply was decoded later and never examined until now.
    assert!(poll_decoded(&mut el, &kb));
    assert_eq!(el.claim(&kb), Some(flags(3)));
}

#[test]
fn skipped_events_return_in_original_order() {
    let mut el = EventLoop::new();
    el.feed(b"\x1b[?1u\x1b[?2u\x1b]99;i=q:p=?;\x07");
    assert!(poll_decoded(&mut el, &notify_filter("q")));
    // Queue now: the match first, then the two skipped flags in order.
    assert_eq!(el.claim(&notify_filter("q")), Some(notify("q")));
    let kb = KeyboardEnchancementFlagsFilter;
    assert_eq!(el.claim(&kb), Some(flags(1)));
    assert_eq!(el.claim(&kb), Some(flags(2)));
}

#[test]
fn wait_without_match_keeps_everything() {
    let mut el = EventLoop::new();
    el.feed(b"\x1b[?7u");
    assert!(!poll_decoded(&mut el, &notify_filter("nope")));
    // The examined event went to the side buffer and was merged back.
    let kb = KeyboardEnchancementFlagsFilter;
    assert!(el.queued_match(&kb));
    assert_eq!(el.claim(&kb), Some(flags(7)));
}

#[test]
fn queued_match_sees_only_the_queue() {
    let mut el = EventLoop::new();
    let kb = KeyboardEnchancementFlagsFilter;
    assert!(!el.queued_match(&kb));
    el.feed(b"\x1b[?5u");
    // Decoded but not yet examined: the queue itself is still empty.
    assert!(!el.queued_match(&kb));
    assert!(poll_decoded(&mut el, &kb));
    assert!(el.queued_match(&kb));
}

#[test]
fn drain_acknowledgment_after_reply() {
    let mut el = EventLoop::new();
    el.feed(b"\x1b[?13u\x1b[?62;4c");
    let kb = KeyboardEnchancementFlagsFilter;
    assert!(poll_decoded(&mut el, &kb));
    assert_eq!(el.claim(&kb), Some(flags(13)));
    let pda = PrimaryDeviceAttributesFilter;
    assert!(poll_decoded(&mut el, &pda));
    assert_eq!(el.claim(&pda), Some(Event::PrimaryDeviceAttributes));
    assert!(!poll_decoded(&mut el, &pda));
}
