//! The events a terminal reply can decode into.

use vstd::prelude::*;

pub mod parser;
pub mod read;

verus! {

/// Bit for the "disambiguate escape codes" keyboard enhancement.
pub const DISAMBIGUATE_ESCAPE_CODES: u8 = 0x01;

/// Bit for the "report event types" keyboard enhancement.
pub const REPORT_EVENT_TYPES: u8 = 0x02;

/// Bit for the "report alternate keys" keyboard enhancement.
pub const REPORT_ALTERNATE_KEYS: u8 = 0x04;

/// Bit for the "report all keys as escape codes" keyboard enhancement.
pub const REPORT_ALL_KEYS_AS_ESCAPE_CODES: u8 = 0x08;

/// Bit for the "report associated text" keyboard enhancement.
pub const REPORT_ASSOCIATED_TEXT: u8 = 0x10;

/// Mask of every keyboard enhancement bit a terminal can advertise.
pub const ALL_KEYBOARD_ENHANCEMENT_FLAGS: u8 = 0x1f;

/// The set of progressive keyboard enhancements a terminal advertises,
/// as a fixed-width set of named boolean flags over a small integer.
#[derive(Clone, Copy, Debug, PartialEq, Eq, Structural)]
pub struct KeyboardEnhancementFlags {
    pub bits: u8,
}

impl KeyboardEnhancementFlags {
    /// The empty flag set.
    pub fn empty() -> (r: Self)
        ensures
            r.bits == 0,
    {
        KeyboardEnhancementFlags { bits: 0 }
    }

    /// Keeps the defined flag bits of `bits` and discards the rest.
    pub fn from_bits_truncate(bits: u8) -> (r: Self)
        ensures
            r.bits == bits & ALL_KEYBOARD_ENHANCEMENT_FLAGS,
    {
        KeyboardEnhancementFlags { bits: bits & ALL_KEYBOARD_ENHANCEMENT_FLAGS }
    }

    /// The raw bit pattern.
    pub fn bits(&self) -> (r: u8)
        ensures
            r == self.bits,
    {
        self.bits
    }

    /// The set of flags present in `self` or in `other`.
    pub fn union(self, other: Self) -> (r: Self)
        ensures
            r.bits == self.bits | other.bits,
    {
        KeyboardEnhancementFlags { bits: self.bits | other.bits }
    }

    /// The set of flags present both in `self` and in `other`.
    pub fn intersection(self, other: Self) -> (r: Self)
        ensures
            r.bits == self.bits & other.bits,
    {
        KeyboardEnhancementFlags { bits: self.bits & other.bits }
    }

    /// Whether every flag of `other` is present in `self`.
    pub fn contains(self, other: Self) -> (r: bool)
        ensures
            r == (self.bits & other.bits == other.bits),
    {
        self.bits & other.bits == other.bits
    }
}

/// The correlated confirmation that the terminal supports desktop
/// notifications: carries back the identifier from the matching request.
#[derive(Clone, Debug)]
pub struct DesktopNotificationsSupport {
    pub identifier: String,
}

impl View for DesktopNotificationsSupport {
    type V = Seq<char>;

    open spec fn view(&self) -> Seq<char> {
        self.identifier@
    }
}

impl PartialEq for DesktopNotificationsSupport {
    fn eq(&self, other: &Self) -> (r: bool) {
        self.identifier == other.identifier
    }
}

impl vstd::std_specs::cmp::PartialEqSpecImpl for DesktopNotificationsSupport {
    open spec fn obeys_eq_spec() -> bool {
        true
    }

    open spec fn eq_spec(&self, other: &Self) -> bool {
        self.identifier@ == other.identifier@
    }
}

/// A decoded terminal reply.
#[derive(Clone, Debug)]
pub enum Event {
    KeyboardEnhancmentFlags(KeyboardEnhancementFlags),
    PrimaryDeviceAttributes,
    DesktopNotifications(DesktopNotificationsSupport),
}

/// The mathematical value of an [`Event`]: what the contracts speak of.
pub enum EventView {
    Flags { bits: u8 },
    Ack,
    Notify { identifier: Seq<char> },
}

impl View for Event {
    type V = EventView;

    open spec fn view(&self) -> EventView {
        match self {
            Event::KeyboardEnhancmentFlags(f) => EventView::Flags { bits: f.bits },
            Event::PrimaryDeviceAttributes => EventView::Ack,
            Event::DesktopNotifications(d) => EventView::Notify { identifier: d.identifier@ },
        }
    }
}

impl PartialEq for Event {
    fn eq(&self, other: &Self) -> (r: bool) {
        match (self, other) {
            (Event::KeyboardEnhancmentFlags(a), Event::KeyboardEnhancmentFlags(b)) => a == b,
            (Event::PrimaryDeviceAttributes, Event::PrimaryDeviceAttributes) => true,
            (Event::DesktopNotifications(a), Event::DesktopNotifications(b)) => a == b,
            _ => false,
        }
    }
}

impl vstd::std_specs::cmp::PartialEqSpecImpl for Event {
    open spec fn obeys_eq_spec() -> bool {
        true
    }

    open spec fn eq_spec(&self, other: &Self) -> bool {
        self@ == other@
    }
}

} // verus!
