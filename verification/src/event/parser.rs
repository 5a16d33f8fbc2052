//! Incremental escape-sequence decoder.
//!
//! Bytes go in through [`Parser::advance`], in chunks of any size and split
//! at any boundary; decoded [`Event`]s come out of [`Parser::next`].  The
//! decoder recognises three reply sequences — the keyboard-enhancement
//! flags report `ESC [ ? <n> u`, the primary-device-attributes
//! acknowledgment `ESC [ ? ... c`, and the desktop-notification report
//! `ESC ] 99 ; i=<id>:p=? ; ... ST` — and consumes every other control
//! sequence, control character and printable byte silently: malformed or
//! unrelated input never raises an error and never produces an event.
//!
//! The whole decoder is specified by the pure transition function
//! [`spec_step`], folded over the input by [`spec_run`]; the executable
//! state machine is proved to follow it byte for byte, which is what makes
//! the chunking-invariance law [`lemma_run_append`] carry over to the
//! executable decoder.

use vstd::prelude::*;

use std::collections::VecDeque;

use crate::event::{DesktopNotificationsSupport, Event, EventView, KeyboardEnhancementFlags};
use crate::event::ALL_KEYBOARD_ENHANCEMENT_FLAGS;

verus! {

/// Where inside a control sequence (`ESC [ ...`) the decoder stands.
#[derive(Clone, Copy, Debug, PartialEq, Eq, Structural)]
pub enum CsiPhase {
    /// Right after `ESC [`: nothing collected yet.
    Entry,
    /// Collecting parameter bytes.
    Args,
    /// Collecting intermediate bytes (0x20-0x2f) after the parameters.
    Inter,
    /// The sequence can no longer match a recognised shape; consume it.
    Skip,
}

/// The shape of the parameter list collected after an optional private
/// marker: nothing, exactly one unsigned decimal number, or anything else.
#[derive(Clone, Copy, Debug, PartialEq, Eq, Structural)]
pub enum CsiShape {
    NoArgs,
    OneInt { value: i64 },
    Odd,
}

/// The decoder state, at the level the contracts speak of.  The
/// operating-system-command text is abstracted to its semicolon-separated
/// parameter fields: the completed ones and the one still being collected.
pub enum StateView {
    Ground,
    Escape,
    EscapeInter,
    Csi { phase: CsiPhase, lead_q: bool, shape: CsiShape },
    Osc { started: bool, parts: Seq<Seq<u8>>, cur: Seq<u8> },
    Str,
}

/// One decimal digit appended to an accumulating parameter value,
/// saturating at the largest representable value.
pub open spec fn sat_acc(value: i64, digit: i64) -> i64 {
    if value < 0 || 10 * value + digit > i64::MAX {
        i64::MAX
    } else {
        (10 * value + digit) as i64
    }
}

/// The events a flags report with numeric field `bits` decodes into:
/// a negative-coded field is dropped entirely, anything else is truncated
/// to the defined flag bits.
pub open spec fn flags_events(bits: i64) -> Seq<EventView> {
    if bits < 0 {
        seq![]
    } else {
        seq![EventView::Flags { bits: (bits & (ALL_KEYBOARD_ENHANCEMENT_FLAGS as i64)) as u8 }]
    }
}

/// The correlation identifier of a notification reply field, if the field
/// has the literal shape `i=<id>:p=?` with `<id>` valid UTF-8.
pub open spec fn notification_id(p: Seq<u8>) -> Option<Seq<char>> {
    if p.len() >= 6 && p.subrange(0, 2) == seq![0x69u8, 0x3du8] && p.subrange(
        p.len() - 4,
        p.len() as int,
    ) == seq![0x3au8, 0x70u8, 0x3du8, 0x3fu8] {
        let id = p.subrange(2, p.len() - 4);
        if vstd::utf8::valid_utf8(id) {
            Some(vstd::utf8::decode_utf8(id))
        } else {
            Option::None
        }
    } else {
        Option::None
    }
}

/// The events a notification reply field decodes into.
pub open spec fn notification_events(p: Seq<u8>) -> Seq<EventView> {
    match notification_id(p) {
        Some(id) => seq![EventView::Notify { identifier: id }],
        Option::None => seq![],
    }
}

/// The parameter fields of an operating-system command at dispatch time.
pub open spec fn osc_params(started: bool, parts: Seq<Seq<u8>>, cur: Seq<u8>) -> Seq<Seq<u8>> {
    if !started {
        seq![]
    } else {
        parts.push(cur)
    }
}

/// The events a dispatched operating-system command decodes into: only a
/// three-field command tagged `99` can produce one.
pub open spec fn osc_events(started: bool, parts: Seq<Seq<u8>>, cur: Seq<u8>) -> Seq<EventView> {
    let ps = osc_params(started, parts, cur);
    if ps.len() == 3 && ps[0] == seq![0x39u8, 0x39u8] {
        notification_events(ps[1])
    } else {
        seq![]
    }
}

/// The events a dispatched control sequence with final byte `f` decodes
/// into: `c` after a leading `?` acknowledges device attributes, `u` after
/// a leading `?` with exactly one numeric parameter reports flags.
pub open spec fn csi_events(phase: CsiPhase, lead_q: bool, shape: CsiShape, f: u8) -> Seq<
    EventView,
> {
    if phase is Skip {
        seq![]
    } else if f == 0x63 && lead_q {
        seq![EventView::Ack]
    } else if f == 0x75 && lead_q && phase is Args {
        match shape {
            CsiShape::OneInt { value } => flags_events(value),
            _ => seq![],
        }
    } else {
        seq![]
    }
}

/// Where an 8-bit control byte (0x80-0x9f) sends the decoder.
pub open spec fn c1_target(b: u8) -> StateView {
    if b == 0x90 || b == 0x98 || b == 0x9e || b == 0x9f {
        StateView::Str
    } else if b == 0x9b {
        StateView::Csi { phase: CsiPhase::Entry, lead_q: false, shape: CsiShape::NoArgs }
    } else if b == 0x9d {
        StateView::Osc { started: false, parts: seq![], cur: seq![] }
    } else {
        StateView::Ground
    }
}

/// One byte fed to the decoder in escape state.
pub open spec fn spec_step_escape(b: u8) -> StateView {
    if b == 0x5b {
        StateView::Csi { phase: CsiPhase::Entry, lead_q: false, shape: CsiShape::NoArgs }
    } else if b == 0x5d {
        StateView::Osc { started: false, parts: seq![], cur: seq![] }
    } else if b == 0x50 || b == 0x58 || b == 0x5e || b == 0x5f {
        StateView::Str
    } else if 0x20 <= b && b <= 0x2f {
        StateView::EscapeInter
    } else if b <= 0x1f || b == 0x7f {
        StateView::Escape
    } else {
        StateView::Ground
    }
}

/// One byte fed to the decoder inside a control sequence.
pub open spec fn spec_step_csi(phase: CsiPhase, lead_q: bool, shape: CsiShape, b: u8) -> (
    StateView,
    Seq<EventView>,
) {
    if b <= 0x1f || b == 0x7f {
        (StateView::Csi { phase, lead_q, shape }, seq![])
    } else if 0x40 <= b && b <= 0x7e {
        (StateView::Ground, csi_events(phase, lead_q, shape, b))
    } else {
        match phase {
            CsiPhase::Entry => {
                if b == 0x3a {
                    (StateView::Csi { phase: CsiPhase::Skip, lead_q, shape }, seq![])
                } else if 0x30 <= b && b <= 0x39 {
                    (
                        StateView::Csi {
                            phase: CsiPhase::Args,
                            lead_q: false,
                            shape: CsiShape::OneInt { value: (b - 0x30) as i64 },
                        },
                        seq![],
                    )
                } else if b == 0x3b {
                    (
                        StateView::Csi {
                            phase: CsiPhase::Args,
                            lead_q: false,
                            shape: CsiShape::Odd,
                        },
                        seq![],
                    )
                } else if 0x3c <= b && b <= 0x3f {
                    (
                        StateView::Csi {
                            phase: CsiPhase::Args,
                            lead_q: b == 0x3f,
                            shape: CsiShape::NoArgs,
                        },
                        seq![],
                    )
                } else {
                    (
                        StateView::Csi {
                            phase: CsiPhase::Inter,
                            lead_q: false,
                            shape: CsiShape::Odd,
                        },
                        seq![],
                    )
                }
            },
            CsiPhase::Args => {
                if 0x30 <= b && b <= 0x39 {
                    let next = match shape {
                        CsiShape::NoArgs => CsiShape::OneInt { value: (b - 0x30) as i64 },
                        CsiShape::OneInt { value } => CsiShape::OneInt {
                            value: sat_acc(value, (b - 0x30) as i64),
                        },
                        CsiShape::Odd => CsiShape::Odd,
                    };
                    (StateView::Csi { phase: CsiPhase::Args, lead_q, shape: next }, seq![])
                } else if b == 0x3a || b == 0x3b {
                    (
                        StateView::Csi { phase: CsiPhase::Args, lead_q, shape: CsiShape::Odd },
                        seq![],
                    )
                } else if 0x3c <= b && b <= 0x3f {
                    (StateView::Csi { phase: CsiPhase::Skip, lead_q, shape }, seq![])
                } else {
                    (StateView::Csi { phase: CsiPhase::Inter, lead_q, shape }, seq![])
                }
            },
            CsiPhase::Inter => {
                if 0x30 <= b && b <= 0x3f {
                    (StateView::Csi { phase: CsiPhase::Skip, lead_q, shape }, seq![])
                } else {
                    (StateView::Csi { phase: CsiPhase::Inter, lead_q, shape }, seq![])
                }
            },
            CsiPhase::Skip => (StateView::Csi { phase: CsiPhase::Skip, lead_q, shape }, seq![]),
        }
    }
}

/// One byte fed to the decoder inside an operating-system command.
pub open spec fn spec_step_osc(started: bool, parts: Seq<Seq<u8>>, cur: Seq<u8>, b: u8) -> (
    StateView,
    Seq<EventView>,
) {
    if b == 0x07 {
        (StateView::Ground, osc_events(started, parts, cur))
    } else if b == 0x3b {
        if !started {
            (StateView::Osc { started: true, parts, cur }, seq![])
        } else {
            (StateView::Osc { started: true, parts: parts.push(cur), cur: seq![] }, seq![])
        }
    } else if b <= 0x1f {
        (StateView::Osc { started, parts, cur }, seq![])
    } else {
        (StateView::Osc { started: true, parts, cur: cur.push(b) }, seq![])
    }
}

/// One byte fed to the decoder: the next state and the events emitted.
pub open spec fn spec_step(s: StateView, b: u8) -> (StateView, Seq<EventView>) {
    if b == 0x1b {
        match s {
            StateView::Osc { started, parts, cur } => (
                StateView::Escape,
                osc_events(started, parts, cur),
            ),
            _ => (StateView::Escape, seq![]),
        }
    } else if b == 0x18 || b == 0x1a {
        match s {
            StateView::Osc { started, parts, cur } => (
                StateView::Ground,
                osc_events(started, parts, cur),
            ),
            _ => (StateView::Ground, seq![]),
        }
    } else if 0x80 <= b && b <= 0x9f {
        match s {
            StateView::Osc { started, parts, cur } => (
                c1_target(b),
                osc_events(started, parts, cur),
            ),
            _ => (c1_target(b), seq![]),
        }
    } else {
        match s {
            StateView::Ground => (StateView::Ground, seq![]),
            StateView::Escape => (spec_step_escape(b), seq![]),
            StateView::EscapeInter => {
                if 0x30 <= b && b <= 0x7e {
                    (StateView::Ground, seq![])
                } else {
                    (StateView::EscapeInter, seq![])
                }
            },
            StateView::Csi { phase, lead_q, shape } => spec_step_csi(phase, lead_q, shape, b),
            StateView::Osc { started, parts, cur } => spec_step_osc(started, parts, cur, b),
            StateView::Str => (StateView::Str, seq![]),
        }
    }
}

/// A whole byte chunk fed to the decoder: the final state and every event
/// emitted along the way, in order.
pub open spec fn spec_run(s: StateView, bytes: Seq<u8>) -> (StateView, Seq<EventView>)
    decreases bytes.len(),
{
    if bytes.len() == 0 {
        (s, seq![])
    } else {
        let first = spec_step(s, bytes[0]);
        let rest = spec_run(first.0, bytes.drop_first());
        (rest.0, first.1 + rest.1)
    }
}

/// Chunking invariance: feeding two chunks one after the other leaves the
/// decoder in the same state, and emits the same events in the same order,
/// as feeding their concatenation in one call.
pub proof fn lemma_run_append(s: StateView, a: Seq<u8>, b: Seq<u8>)
    ensures
        spec_run(s, a + b).0 == spec_run(spec_run(s, a).0, b).0,
        spec_run(s, a + b).1 == spec_run(s, a).1 + spec_run(spec_run(s, a).0, b).1,
    decreases a.len(),
{
    if a.len() == 0 {
        assert(a + b =~= b);
        assert(spec_run(s, a).1 + spec_run(spec_run(s, a).0, b).1 =~= spec_run(s, b).1);
    } else {
        let first = spec_step(s, a[0]);
        lemma_run_append(first.0, a.drop_first(), b);
        assert((a + b)[0] == a[0]);
        assert((a + b).drop_first() =~= a.drop_first() + b);
        assert(first.1 + (spec_run(first.0, a.drop_first()).1 + spec_run(
            spec_run(s, a).0,
            b,
        ).1) =~= (first.1 + spec_run(first.0, a.drop_first()).1) + spec_run(spec_run(s, a).0, b).1);
    }
}

/// A whole sequence of chunks fed one after the other: the final state
/// and every event emitted, in order.
pub open spec fn spec_run_chunks(s: StateView, chunks: Seq<Seq<u8>>) -> (StateView, Seq<EventView>)
    decreases chunks.len(),
{
    if chunks.len() == 0 {
        (s, seq![])
    } else {
        let first = spec_run(s, chunks[0]);
        let rest = spec_run_chunks(first.0, chunks.drop_first());
        (rest.0, first.1 + rest.1)
    }
}

/// Chunking invariance in full: feeding a byte sequence split across
/// arbitrarily many chunks, at any byte boundaries, leaves the decoder
/// in the same state and yields the identical event sequence as feeding
/// the whole concatenation in one call.
pub proof fn lemma_chunking_invariance(s: StateView, chunks: Seq<Seq<u8>>)
    ensures
        spec_run_chunks(s, chunks).0 == spec_run(s, chunks.flatten()).0,
        spec_run_chunks(s, chunks).1 == spec_run(s, chunks.flatten()).1,
    decreases chunks.len(),
{
    if chunks.len() == 0 {
        assert(chunks.flatten() =~= Seq::<u8>::empty());
    } else {
        let mid = spec_run(s, chunks[0]).0;
        lemma_run_append(s, chunks[0], chunks.drop_first().flatten());
        lemma_chunking_invariance(mid, chunks.drop_first());
        assert(chunks.flatten() =~= chunks[0] + chunks.drop_first().flatten());
    }
}

/// Feeding one more byte after a chunk.
pub proof fn lemma_run_snoc(s: StateView, a: Seq<u8>, b: u8)
    ensures
        spec_run(s, a.push(b)).0 == spec_step(spec_run(s, a).0, b).0,
        spec_run(s, a.push(b)).1 == spec_run(s, a).1 + spec_step(spec_run(s, a).0, b).1,
{
    lemma_run_append(s, a, seq![b]);
    assert(a.push(b) =~= a + seq![b]);
    let m = spec_run(s, a).0;
    let one = seq![b];
    assert(one.len() == 1 && one[0] == b);
    let rest = one.drop_first();
    assert(rest.len() == 0);
    assert(spec_run(spec_step(m, b).0, rest) == (spec_step(m, b).0, Seq::<EventView>::empty()));
    assert(spec_run(m, one).0 == spec_step(m, b).0);
    assert(spec_run(m, one).1 =~= spec_step(m, b).1);
}

/// The executable decoder state; [`abs_state`] maps it to [`StateView`].
enum DecodeState {
    Ground,
    Escape,
    EscapeInter,
    Csi { phase: CsiPhase, lead_q: bool, shape: CsiShape },
    Osc { started: bool, parts: Vec<Vec<u8>>, cur: Vec<u8> },
    Str,
}

spec fn abs_state(s: &DecodeState) -> StateView {
    match s {
        DecodeState::Ground => StateView::Ground,
        DecodeState::Escape => StateView::Escape,
        DecodeState::EscapeInter => StateView::EscapeInter,
        DecodeState::Csi { phase, lead_q, shape } => StateView::Csi {
            phase: *phase,
            lead_q: *lead_q,
            shape: *shape,
        },
        DecodeState::Osc { started, parts, cur } => StateView::Osc {
            started: *started,
            parts: parts.deep_view(),
            cur: cur@,
        },
        DecodeState::Str => StateView::Str,
    }
}

/// Turns dispatched reply sequences into queued [`Event`]s.
pub struct EventVTActor {
    events: VecDeque<Event>,
}

impl EventVTActor {
    /// The queued events, as the values the contracts speak of.
    pub closed spec fn events_view(&self) -> Seq<EventView> {
        self.events@.map_values(|e: Event| e@)
    }

    /// An actor with nothing queued.
    pub fn new() -> (r: Self)
        ensures
            r.events_view() == Seq::<EventView>::empty(),
    {
        let r = EventVTActor { events: VecDeque::with_capacity(32) };
        proof {
            assert(r.events_view() =~= Seq::<EventView>::empty());
        }
        r
    }

    /// Pulls the oldest queued event, if one is queued.
    pub fn next(&mut self) -> (r: Option<Event>)
        ensures
            match r {
                Some(e) => old(self).events_view().len() > 0 && e@ == old(self).events_view()[0]
                    && final(self).events_view() == old(self).events_view().drop_first(),
                Option::None => old(self).events_view().len() == 0 && final(self).events_view()
                    == old(self).events_view(),
            },
    {
        let r = self.events.pop_front();
        proof {
            if r is Some {
                assert(self.events_view() =~= old(self).events_view().drop_first());
            }
        }
        r
    }

    /// Queues the acknowledgment of a primary-device-attributes query.
    pub fn primary_device_attributes(&mut self)
        ensures
            final(self).events_view() == old(self).events_view().push(EventView::Ack),
    {
        self.events.push_back(Event::PrimaryDeviceAttributes);
        proof {
            assert(self.events_view() =~= old(self).events_view().push(EventView::Ack));
        }
    }

    /// Queues a keyboard-enhancement flags report with numeric field
    /// `bits`: a negative-coded field is dropped, anything else is
    /// truncated to the defined flag bits.
    pub fn keyboard_enhancement_flags(&mut self, bits: i64)
        ensures
            final(self).events_view() == old(self).events_view() + flags_events(bits),
    {
        if bits < 0 {
            proof {
                assert(self.events_view() =~= old(self).events_view() + flags_events(bits));
            }
            return ;
        }
        assert(0 <= bits & (ALL_KEYBOARD_ENHANCEMENT_FLAGS as i64) < 256) by (bit_vector);
        let low: u8 = (bits & (ALL_KEYBOARD_ENHANCEMENT_FLAGS as i64)) as u8;
        assert(low & ALL_KEYBOARD_ENHANCEMENT_FLAGS == low) by (bit_vector)
            requires
                low == (bits & (ALL_KEYBOARD_ENHANCEMENT_FLAGS as i64)) as u8,
        ;
        self.events.push_back(
            Event::KeyboardEnhancmentFlags(KeyboardEnhancementFlags::from_bits_truncate(low)),
        );
        proof {
            assert(self.events_view() =~= old(self).events_view() + flags_events(bits));
        }
    }

    /// Queues a desktop-notification reply whose first parameter field is
    /// `param1`, if that field has the shape `i=<id>:p=?`; any other shape
    /// is dropped.  The second field is not interpreted.
    pub fn desktop_notifications_support(&mut self, param1: &[u8], _param2: &[u8])
        ensures
            final(self).events_view() == old(self).events_view() + notification_events(param1@),
    {
        let n = param1.len();
        if n < 6 || param1[0] != 0x69 || param1[1] != 0x3d || param1[n - 4] != 0x3a || param1[n
            - 3] != 0x70 || param1[n - 2] != 0x3d || param1[n - 1] != 0x3f {
            proof {
                assert(notification_id(param1@) is None) by {
                    if param1@.len() >= 6 {
                        let pre = param1@.subrange(0, 2);
                        let suf = param1@.subrange(param1@.len() - 4, param1@.len() as int);
                        assert(pre[0] == param1@[0] && pre[1] == param1@[1]);
                        assert(suf[0] == param1@[param1@.len() - 4]);
                        assert(suf[1] == param1@[param1@.len() - 3]);
                        assert(suf[2] == param1@[param1@.len() - 2]);
                        assert(suf[3] == param1@[param1@.len() - 1]);
                        assert(seq![0x69u8, 0x3du8][0] == 0x69u8);
                        assert(seq![0x69u8, 0x3du8][1] == 0x3du8);
                        assert(seq![0x3au8, 0x70u8, 0x3du8, 0x3fu8][0] == 0x3au8);
                        assert(seq![0x3au8, 0x70u8, 0x3du8, 0x3fu8][1] == 0x70u8);
                        assert(seq![0x3au8, 0x70u8, 0x3du8, 0x3fu8][2] == 0x3du8);
                        assert(seq![0x3au8, 0x70u8, 0x3du8, 0x3fu8][3] == 0x3fu8);
                    }
                }
                assert(self.events_view() =~= old(self).events_view() + notification_events(
                    param1@,
                ));
            }
            return ;
        }
        proof {
            assert(param1@.subrange(0, 2) =~= seq![0x69u8, 0x3du8]);
            assert(param1@.subrange(param1@.len() - 4, param1@.len() as int) =~= seq![0x3au8, 0x70u8, 0x3du8, 0x3fu8]);
        }
        let mut id: Vec<u8> = Vec::new();
        let mut i: usize = 2;
        while i < n - 4
            invariant
                2 <= i <= n - 4,
                6 <= n == param1@.len(),
                id@ == param1@.subrange(2, i as int),
            decreases n - 4 - i,
        {
            id.push(param1[i]);
            i += 1;
            proof {
                assert(id@ =~= param1@.subrange(2, i as int));
            }
        }
        proof {
            assert(id@ =~= param1@.subrange(2, param1@.len() - 4));
        }
        match bytes_as_str(id.as_slice()) {
            Some(s) => {
                self.events.push_back(
                    Event::DesktopNotifications(
                        DesktopNotificationsSupport { identifier: s.to_owned() },
                    ),
                );
                proof {
                    assert(self.events_view() =~= old(self).events_view() + notification_events(
                        param1@,
                    ));
                }
            },
            Option::None => {
                proof {
                    assert(self.events_view() =~= old(self).events_view() + notification_events(
                        param1@,
                    ));
                }
            },
        }
    }
}

/// Relies on `str::from_utf8` from std: it accepts exactly the byte
/// sequences that are valid UTF-8 and decodes them, as vstd's UTF-8 model
/// states.
#[verifier::external_body]
fn bytes_as_str(bytes: &[u8]) -> (r: Option<&str>)
    ensures
        r is Some <==> vstd::utf8::valid_utf8(bytes@),
        r matches Some(s) ==> s@ == vstd::utf8::decode_utf8(bytes@),
{
    core::str::from_utf8(bytes).ok()
}

/// The incremental decoder: feed byte chunks with [`Parser::advance`],
/// pull decoded events with [`Parser::next`].
pub struct Parser {
    state: DecodeState,
    actor: EventVTActor,
}

impl Parser {
    /// The decoder state the parser stands in.
    pub closed spec fn decode_state(&self) -> StateView {
        abs_state(&self.state)
    }

    /// The decoded events not yet pulled, in decoding order.
    pub closed spec fn pending(&self) -> Seq<EventView> {
        self.actor.events_view()
    }

    /// A decoder in the ground state with nothing pending.
    pub fn new() -> (r: Self)
        ensures
            r.decode_state() == StateView::Ground,
            r.pending() == Seq::<EventView>::empty(),
    {
        Parser { state: DecodeState::Ground, actor: EventVTActor::new() }
    }

    /// Feeds one chunk of bytes, of any size and split at any boundary.
    pub fn advance(&mut self, buffer: &[u8])
        ensures
            final(self).decode_state() == spec_run(old(self).decode_state(), buffer@).0,
            final(self).pending() == old(self).pending() + spec_run(old(self).decode_state(), buffer@).1,
    {
        let ghost s0 = self.decode_state();
        let ghost p0 = self.pending();
        let mut i: usize = 0;
        proof {
            assert(buffer@.take(0) =~= Seq::<u8>::empty());
            assert(p0 + spec_run(s0, buffer@.take(0)).1 =~= p0);
        }
        while i < buffer.len()
            invariant
                i <= buffer@.len(),
                self.decode_state() == spec_run(s0, buffer@.take(i as int)).0,
                self.pending() == p0 + spec_run(s0, buffer@.take(i as int)).1,
            decreases buffer@.len() - i,
        {
            let b = buffer[i];
            let mut st = DecodeState::Ground;
            core::mem::swap(&mut st, &mut self.state);
            let next = step_byte(st, b, &mut self.actor);
            self.state = next;
            proof {
                lemma_run_snoc(s0, buffer@.take(i as int), b);
                assert(buffer@.take(i as int).push(b) =~= buffer@.take(i + 1));
                assert(self.pending() =~= p0 + spec_run(s0, buffer@.take(i + 1)).1);
            }
            i += 1;
        }
        proof {
            assert(buffer@.take(buffer@.len() as int) =~= buffer@);
        }
    }

    /// Pulls the next decoded event, oldest first, if one is pending.
    pub fn next(&mut self) -> (r: Option<Event>)
        ensures
            final(self).decode_state() == old(self).decode_state(),
            match r {
                Some(e) => old(self).pending().len() > 0 && e@ == old(self).pending()[0]
                    && final(self).pending() == old(self).pending().drop_first(),
                Option::None => old(self).pending().len() == 0 && final(self).pending() == old(
                    self,
                ).pending(),
            },
    {
        self.actor.next()
    }
}

/// One byte through the executable state machine, mirroring [`spec_step`].
fn step_byte(s: DecodeState, b: u8, actor: &mut EventVTActor) -> (r: DecodeState)
    ensures
        abs_state(&r) == spec_step(abs_state(&s), b).0,
        final(actor).events_view() == old(actor).events_view() + spec_step(abs_state(&s), b).1,
{
    let ghost sv = abs_state(&s);
    if b == 0x1b || b == 0x18 || b == 0x1a || (0x80 <= b && b <= 0x9f) {
        let r = match s {
            DecodeState::Osc { started, parts, cur } => {
                dispatch_osc(started, &parts, &cur, actor);
                interrupt_target(b)
            },
            _ => interrupt_target(b),
        };
        proof {
            assert(actor.events_view() =~= old(actor).events_view() + spec_step(sv, b).1);
        }
        r
    } else {
        match s {
            DecodeState::Ground => {
                proof {
                    assert(actor.events_view() =~= old(actor).events_view() + spec_step(sv, b).1);
                }
                DecodeState::Ground
            },
            DecodeState::Escape => {
                let r = if b == 0x5b {
                    DecodeState::Csi {
                        phase: CsiPhase::Entry,
                        lead_q: false,
                        shape: CsiShape::NoArgs,
                    }
                } else if b == 0x5d {
                    fresh_osc()
                } else if b == 0x50 || b == 0x58 || b == 0x5e || b == 0x5f {
                    DecodeState::Str
                } else if 0x20 <= b && b <= 0x2f {
                    DecodeState::EscapeInter
                } else if b <= 0x1f || b == 0x7f {
                    DecodeState::Escape
                } else {
                    DecodeState::Ground
                };
                proof {
                    assert(actor.events_view() =~= old(actor).events_view() + spec_step(sv, b).1);
                }
                r
            },
            DecodeState::EscapeInter => {
                let r = if 0x30 <= b && b <= 0x7e {
                    DecodeState::Ground
                } else {
                    DecodeState::EscapeInter
                };
                proof {
                    assert(actor.events_view() =~= old(actor).events_view() + spec_step(sv, b).1);
                }
                r
            },
            DecodeState::Csi { phase, lead_q, shape } => step_csi(phase, lead_q, shape, b, actor),
            DecodeState::Osc { started, parts, cur } => step_osc(started, parts, cur, b, actor),
            DecodeState::Str => {
                proof {
                    assert(actor.events_view() =~= old(actor).events_view() + spec_step(sv, b).1);
                }
                DecodeState::Str
            },
        }
    }
}

/// A fresh operating-system-command state with nothing collected.
fn fresh_osc() -> (r: DecodeState)
    ensures
        abs_state(&r) == (StateView::Osc { started: false, parts: seq![], cur: seq![] }),
{
    let parts: Vec<Vec<u8>> = Vec::new();
    let cur: Vec<u8> = Vec::new();
    proof {
        assert(parts.deep_view() =~~= Seq::<Seq<u8>>::empty());
        assert(Seq::<Seq<u8>>::empty() =~= seq![]);
        assert(cur@ =~= seq![]);
    }
    DecodeState::Osc { started: false, parts, cur }
}

/// Where an interrupting byte (ESC, CAN, SUB or an 8-bit control) sends
/// the executable machine.
fn interrupt_target(b: u8) -> (r: DecodeState)
    requires
        b == 0x1b || b == 0x18 || b == 0x1a || (0x80 <= b && b <= 0x9f),
    ensures
        b == 0x1b ==> abs_state(&r) == StateView::Escape,
        b == 0x18 || b == 0x1a ==> abs_state(&r) == StateView::Ground,
        0x80 <= b && b <= 0x9f ==> abs_state(&r) == c1_target(b),
{
    if b == 0x1b {
        DecodeState::Escape
    } else if b == 0x18 || b == 0x1a {
        DecodeState::Ground
    } else if b == 0x90 || b == 0x98 || b == 0x9e || b == 0x9f {
        DecodeState::Str
    } else if b == 0x9b {
        DecodeState::Csi { phase: CsiPhase::Entry, lead_q: false, shape: CsiShape::NoArgs }
    } else if b == 0x9d {
        fresh_osc()
    } else {
        DecodeState::Ground
    }
}

/// Dispatches an operating-system command to the actor.
fn dispatch_osc(started: bool, parts: &Vec<Vec<u8>>, cur: &Vec<u8>, actor: &mut EventVTActor)
    ensures
        final(actor).events_view() == old(actor).events_view() + osc_events(
            started,
            parts.deep_view(),
            cur@,
        ),
{
    if started && parts.len() == 2 && parts[0].len() == 2 && parts[0][0] == 0x39 && parts[0][1]
        == 0x39 {
        proof {
            let ps = osc_params(started, parts.deep_view(), cur@);
            assert(ps[0] =~= seq![0x39u8, 0x39u8]);
            assert(ps[1] == parts.deep_view()[1]);
            assert(parts.deep_view()[1] == parts@[1]@);
        }
        actor.desktop_notifications_support(parts[1].as_slice(), cur.as_slice());
    } else {
        proof {
            let ps = osc_params(started, parts.deep_view(), cur@);
            if started && ps.len() == 3 && ps[0] == seq![0x39u8, 0x39u8] {
                assert(parts.deep_view().len() == 2);
                assert(parts.deep_view()[0] == parts@[0]@);
                assert(parts@[0]@.len() == 2);
                assert(parts@[0]@[0] == 0x39u8 && parts@[0]@[1] == 0x39u8);
            }
            assert(actor.events_view() =~= old(actor).events_view() + osc_events(
                started,
                parts.deep_view(),
                cur@,
            ));
        }
    }
}

/// One byte inside a control sequence, mirroring [`spec_step_csi`].
fn step_csi(phase: CsiPhase, lead_q: bool, shape: CsiShape, b: u8, actor: &mut EventVTActor) -> (r:
    DecodeState)
    requires
        !(b == 0x1b || b == 0x18 || b == 0x1a || (0x80 <= b && b <= 0x9f)),
    ensures
        abs_state(&r) == spec_step_csi(phase, lead_q, shape, b).0,
        final(actor).events_view() == old(actor).events_view() + spec_step_csi(phase, lead_q, shape, b).1,
{
    if b <= 0x1f || b == 0x7f {
        proof {
            assert(actor.events_view() =~= old(actor).events_view() + spec_step_csi(
                phase,
                lead_q,
                shape,
                b,
            ).1);
        }
        DecodeState::Csi { phase, lead_q, shape }
    } else if 0x40 <= b && b <= 0x7e {
        if !matches!(phase, CsiPhase::Skip) {
            if b == 0x63 && lead_q {
                actor.primary_device_attributes();
                proof {
                    assert(actor.events_view() =~= old(actor).events_view() + csi_events(
                        phase,
                        lead_q,
                        shape,
                        b,
                    ));
                }
            } else if b == 0x75 && lead_q && matches!(phase, CsiPhase::Args) {
                match shape {
                    CsiShape::OneInt { value } => {
                        actor.keyboard_enhancement_flags(value);
                    },
                    _ => {
                        proof {
                            assert(actor.events_view() =~= old(actor).events_view() + csi_events(
                                phase,
                                lead_q,
                                shape,
                                b,
                            ));
                        }
                    },
                }
            } else {
                proof {
                    assert(actor.events_view() =~= old(actor).events_view() + csi_events(
                        phase,
                        lead_q,
                        shape,
                        b,
                    ));
                }
            }
        } else {
            proof {
                assert(actor.events_view() =~= old(actor).events_view() + csi_events(
                    phase,
                    lead_q,
                    shape,
                    b,
                ));
            }
        }
        DecodeState::Ground
    } else {
        let r = match phase {
            CsiPhase::Entry => {
                if b == 0x3a {
                    DecodeState::Csi { phase: CsiPhase::Skip, lead_q, shape }
                } else if 0x30 <= b && b <= 0x39 {
                    DecodeState::Csi {
                        phase: CsiPhase::Args,
                        lead_q: false,
                        shape: CsiShape::OneInt { value: (b - 0x30) as i64 },
                    }
                } else if b == 0x3b {
                    DecodeState::Csi { phase: CsiPhase::Args, lead_q: false, shape: CsiShape::Odd }
                } else if 0x3c <= b && b <= 0x3f {
                    DecodeState::Csi {
                        phase: CsiPhase::Args,
                        lead_q: b == 0x3f,
                        shape: CsiShape::NoArgs,
                    }
                } else {
                    DecodeState::Csi { phase: CsiPhase::Inter, lead_q: false, shape: CsiShape::Odd }
                }
            },
            CsiPhase::Args => {
                if 0x30 <= b && b <= 0x39 {
                    let next = match shape {
                        CsiShape::NoArgs => CsiShape::OneInt { value: (b - 0x30) as i64 },
                        CsiShape::OneInt { value } => CsiShape::OneInt {
                            value: sat_acc_exec(value, (b - 0x30) as i64),
                        },
                        CsiShape::Odd => CsiShape::Odd,
                    };
                    DecodeState::Csi { phase: CsiPhase::Args, lead_q, shape: next }
                } else if b == 0x3a || b == 0x3b {
                    DecodeState::Csi { phase: CsiPhase::Args, lead_q, shape: CsiShape::Odd }
                } else if 0x3c <= b && b <= 0x3f {
                    DecodeState::Csi { phase: CsiPhase::Skip, lead_q, shape }
                } else {
                    DecodeState::Csi { phase: CsiPhase::Inter, lead_q, shape }
                }
            },
            CsiPhase::Inter => {
                if 0x30 <= b && b <= 0x3f {
                    DecodeState::Csi { phase: CsiPhase::Skip, lead_q, shape }
                } else {
                    DecodeState::Csi { phase: CsiPhase::Inter, lead_q, shape }
                }
            },
            CsiPhase::Skip => DecodeState::Csi { phase: CsiPhase::Skip, lead_q, shape },
        };
        proof {
            assert(actor.events_view() =~= old(actor).events_view() + spec_step_csi(
                phase,
                lead_q,
                shape,
                b,
            ).1);
        }
        r
    }
}

/// The saturating decimal accumulation, executable form.
fn sat_acc_exec(value: i64, digit: i64) -> (r: i64)
    requires
        0 <= digit <= 9,
    ensures
        r == sat_acc(value, digit),
{
    if value < 0 {
        return i64::MAX;
    }
    match value.checked_mul(10) {
        Some(m) => match m.checked_add(digit) {
            Some(r) => r,
            Option::None => i64::MAX,
        },
        Option::None => i64::MAX,
    }
}

/// One byte inside an operating-system command, mirroring
/// [`spec_step_osc`].
fn step_osc(started: bool, parts: Vec<Vec<u8>>, cur: Vec<u8>, b: u8, actor: &mut EventVTActor) -> (
    r: DecodeState)
    requires
        !(b == 0x1b || b == 0x18 || b == 0x1a || (0x80 <= b && b <= 0x9f)),
    ensures
        abs_state(&r) == spec_step_osc(started, parts.deep_view(), cur@, b).0,
        final(actor).events_view() == old(actor).events_view() + spec_step_osc(
            started,
            parts.deep_view(),
            cur@,
            b,
        ).1,
{
    if b == 0x07 {
        dispatch_osc(started, &parts, &cur, actor);
        DecodeState::Ground
    } else if b == 0x3b {
        if !started {
            proof {
                assert(actor.events_view() =~= old(actor).events_view() + spec_step_osc(
                    started,
                    parts.deep_view(),
                    cur@,
                    b,
                ).1);
            }
            DecodeState::Osc { started: true, parts, cur }
        } else {
            let mut parts = parts;
            let ghost parts0 = parts.deep_view();
            parts.push(cur);
            proof {
                assert(parts.deep_view() =~~= parts0.push(cur@));
                assert(actor.events_view() =~= old(actor).events_view() + spec_step_osc(
                    started,
                    parts0,
                    cur@,
                    b,
                ).1);
            }
            DecodeState::Osc { started: true, parts, cur: Vec::new() }
        }
    } else if b <= 0x1f {
        proof {
            assert(actor.events_view() =~= old(actor).events_view() + spec_step_osc(
                started,
                parts.deep_view(),
                cur@,
                b,
            ).1);
        }
        DecodeState::Osc { started, parts, cur }
    } else {
        let mut cur = cur;
        let ghost cur0 = cur@;
        cur.push(b);
        proof {
            assert(actor.events_view() =~= old(actor).events_view() + spec_step_osc(
                started,
                parts.deep_view(),
                cur0,
                b,
            ).1);
        }
        DecodeState::Osc { started: true, parts, cur }
    }
}

} // verus!
