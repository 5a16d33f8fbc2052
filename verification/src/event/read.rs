//! The deadline-bounded event engine.
//!
//! [`EventLoop`] owns the decoder, the queue of decoded-but-unconsumed
//! events, and the side buffer of events examined and found non-matching
//! during the current wait.  Everything that decides — which queued event
//! matches a filter, where a skipped event goes, how a matching event is
//! promoted, how much time is left of a deadline — is verified here.  The
//! thin outer layer reads the descriptor, obtains the clock, and hands
//! bytes and timestamps in; it never touches the queues itself, so the
//! ordering and no-loss guarantees proved here carry over to it.

use vstd::prelude::*;
use vstd::multiset::Multiset;

use std::collections::VecDeque;

use crate::event::{Event, EventView};
use crate::event::parser::{Parser, StateView, spec_run};

verus! {

broadcast use vstd::seq_lib::group_to_multiset_ensures;

/// A predicate over decoded events, supplied by a query driver.
pub trait Filter {
    /// What the predicate holds of, at the level the contracts speak of.
    spec fn spec_eval(&self, event: EventView) -> bool;

    /// Whether `event` matches.
    fn eval(&self, event: &Event) -> (r: bool)
        ensures
            r == self.spec_eval(event@),
    ;
}

/// The index of the first event of `q` matching `filter`, if any does.
pub open spec fn first_match<F: Filter>(filter: &F, q: Seq<EventView>) -> Option<int>
    decreases q.len(),
{
    if q.len() == 0 {
        Option::None
    } else if filter.spec_eval(q[0]) {
        Some(0int)
    } else {
        match first_match(filter, q.drop_first()) {
            Some(i) => Some(i + 1),
            Option::None => Option::None,
        }
    }
}

/// What `first_match` finds: a matching index with no match before it.
pub proof fn lemma_first_match_is_first<F: Filter>(filter: &F, q: Seq<EventView>)
    ensures
        match first_match(filter, q) {
            Some(i) => 0 <= i < q.len() && filter.spec_eval(q[i]) && forall|j: int|
                0 <= j < i ==> !filter.spec_eval(q[j]),
            Option::None => forall|j: int| 0 <= j < q.len() ==> !filter.spec_eval(q[j]),
        },
    decreases q.len(),
{
    if q.len() > 0 && !filter.spec_eval(q[0]) {
        lemma_first_match_is_first(filter, q.drop_first());
        assert forall|j: int| 1 <= j < q.len() implies q.drop_first()[j - 1] == q[j] by {}
    }
}

/// Dropping a prefix of non-matching events shifts `first_match`.
proof fn lemma_first_match_skip<F: Filter>(filter: &F, q: Seq<EventView>, k: int)
    requires
        0 <= k <= q.len(),
        forall|j: int| 0 <= j < k ==> !filter.spec_eval(q[j]),
    ensures
        first_match(filter, q) == match first_match(filter, q.skip(k)) {
            Some(i) => Some(i + k),
            Option::None => Option::None::<int>,
        },
    decreases k,
{
    if k == 0 {
        assert(q.skip(0) =~= q);
    } else {
        assert(q.len() > 0 && !filter.spec_eval(q[0]));
        assert forall|j: int| 0 <= j < k - 1 implies !filter.spec_eval(q.drop_first()[j]) by {
            assert(q.drop_first()[j] == q[j + 1]);
        }
        lemma_first_match_skip(filter, q.drop_first(), k - 1);
        assert(q.drop_first().skip(k - 1) =~= q.skip(k));
    }
}

/// The engine: decoder, queue of decoded events, and the side buffer of
/// events skipped during the current wait.
pub struct EventLoop {
    parser: Parser,
    events: VecDeque<Event>,
    skipped_events: Vec<Event>,
}

impl EventLoop {
    /// The decoder state.
    pub closed spec fn decode_state(&self) -> StateView {
        self.parser.decode_state()
    }

    /// Events decoded but not yet examined, in decoding order.
    pub closed spec fn pending(&self) -> Seq<EventView> {
        self.parser.pending()
    }

    /// The queue of events available to be claimed, front first.
    pub closed spec fn queue(&self) -> Seq<EventView> {
        self.events@.map_values(|e: Event| e@)
    }

    /// Events examined and found non-matching during the current wait.
    pub closed spec fn skipped(&self) -> Seq<EventView> {
        self.skipped_events@.map_values(|e: Event| e@)
    }

    /// An engine with a fresh decoder and nothing queued.
    pub fn new() -> (r: Self)
        ensures
            r.decode_state() == StateView::Ground,
            r.pending() == Seq::<EventView>::empty(),
            r.queue() == Seq::<EventView>::empty(),
            r.skipped() == Seq::<EventView>::empty(),
    {
        let r = EventLoop {
            parser: Parser::new(),
            events: VecDeque::with_capacity(32),
            skipped_events: Vec::with_capacity(32),
        };
        proof {
            assert(r.queue() =~= Seq::<EventView>::empty());
            assert(r.skipped() =~= Seq::<EventView>::empty());
        }
        r
    }

    /// Feeds a chunk of raw bytes to the decoder.
    pub fn feed(&mut self, buffer: &[u8])
        ensures
            final(self).decode_state() == spec_run(old(self).decode_state(), buffer@).0,
            final(self).pending() == old(self).pending() + spec_run(
                old(self).decode_state(),
                buffer@,
            ).1,
            final(self).queue() == old(self).queue(),
            final(self).skipped() == old(self).skipped(),
    {
        self.parser.advance(buffer);
    }

    /// Pulls the next decoded event, oldest first, if one is pending.
    pub fn next_decoded(&mut self) -> (r: Option<Event>)
        ensures
            final(self).decode_state() == old(self).decode_state(),
            final(self).queue() == old(self).queue(),
            final(self).skipped() == old(self).skipped(),
            match r {
                Some(e) => old(self).pending().len() > 0 && e@ == old(self).pending()[0]
                    && final(self).pending() == old(self).pending().drop_first(),
                Option::None => old(self).pending().len() == 0 && final(self).pending() == old(
                    self,
                ).pending(),
            },
    {
        self.parser.next()
    }

    /// Whether some already-queued event matches `filter`.
    pub fn queued_match<F: Filter>(&self, filter: &F) -> (r: bool)
        ensures
            r == exists|i: int|
                0 <= i < self.queue().len() && filter.spec_eval(self.queue()[i]),
    {
        let n = self.events.len();
        let mut i: usize = 0;
        while i < n
            invariant
                i <= n == self.events@.len(),
                forall|j: int| 0 <= j < i ==> !filter.spec_eval(self.queue()[j]),
            decreases n - i,
        {
            if filter.eval(&self.events[i]) {
                proof {
                    assert(filter.spec_eval(self.queue()[i as int]));
                }
                return true;
            }
            i += 1;
        }
        false
    }

    /// Decides the fate of one freshly decoded event: a matching event is
    /// handed back to be promoted, a non-matching one goes to the side
    /// buffer — it is deferred, never dropped.
    pub fn screen<F: Filter>(&mut self, event: Event, filter: &F) -> (r: Option<Event>)
        ensures
            final(self).decode_state() == old(self).decode_state(),
            final(self).pending() == old(self).pending(),
            final(self).queue() == old(self).queue(),
            filter.spec_eval(event@) ==> r == Some(event) && final(self).skipped() == old(
                self,
            ).skipped(),
            !filter.spec_eval(event@) ==> r is None && final(self).skipped() == old(
                self,
            ).skipped().push(event@),
    {
        if filter.eval(&event) {
            Some(event)
        } else {
            self.skipped_events.push(event);
            proof {
                assert(self.skipped() =~= old(self).skipped().push(event@));
            }
            Option::None
        }
    }

    /// Moves every side-buffered event back to the end of the queue, in
    /// its original relative order.
    fn merge_skipped(&mut self)
        ensures
            final(self).decode_state() == old(self).decode_state(),
            final(self).pending() == old(self).pending(),
            final(self).queue() == old(self).queue() + old(self).skipped(),
            final(self).skipped() == Seq::<EventView>::empty(),
    {
        let ghost q0 = self.queue();
        let ghost s0 = self.skipped();
        while self.skipped_events.len() > 0
            invariant
                self.queue() + self.skipped() == q0 + s0,
                self.decode_state() == old(self).decode_state(),
                self.pending() == old(self).pending(),
            decreases self.skipped_events@.len(),
        {
            let ghost qk = self.queue();
            let ghost sk = self.skipped();
            let e = self.skipped_events.remove(0);
            self.events.push_back(e);
            proof {
                assert(self.skipped() =~= sk.drop_first());
                assert(self.queue() =~= qk.push(sk[0]));
                assert(qk.push(sk[0]) + sk.drop_first() =~= qk + sk);
            }
        }
        proof {
            assert(self.skipped() =~= Seq::<EventView>::empty());
            assert(self.queue() =~= q0 + s0);
        }
    }

    /// Ends a wait: the side buffer is merged back into the queue in
    /// arrival order and, if the wait found a matching event, that event
    /// is placed at the front of the queue.  Returns whether it was.
    pub fn conclude(&mut self, matched: Option<Event>) -> (r: bool)
        ensures
            final(self).decode_state() == old(self).decode_state(),
            final(self).pending() == old(self).pending(),
            final(self).skipped() == Seq::<EventView>::empty(),
            match matched {
                Some(e) => r && final(self).queue() == seq![e@] + old(self).queue() + old(
                    self,
                ).skipped(),
                Option::None => !r && final(self).queue() == old(self).queue() + old(
                    self,
                ).skipped(),
            },
    {
        self.merge_skipped();
        match matched {
            Some(e) => {
                let ghost qm = self.queue();
                let ghost ev = e@;
                self.events.push_front(e);
                proof {
                    assert(self.queue() =~= seq![ev] + qm);
                    assert(seq![ev] + (old(self).queue() + old(self).skipped()) =~= seq![ev] + old(
                        self,
                    ).queue() + old(self).skipped());
                }
                true
            },
            Option::None => false,
        }
    }

    /// Claims the first queued event matching `filter`, if any: it is
    /// removed and returned, the events examined before it join the side
    /// buffer's events at the back of the queue, and nothing is lost.  If
    /// nothing queued matches, every queued event moves to the side
    /// buffer, to be merged back when the surrounding wait concludes.
    pub fn claim<F: Filter>(&mut self, filter: &F) -> (r: Option<Event>)
        ensures
            final(self).decode_state() == old(self).decode_state(),
            final(self).pending() == old(self).pending(),
            match first_match(filter, old(self).queue()) {
                Some(i) => {
                    &&& r matches Some(e) && e@ == old(self).queue()[i]
                    &&& final(self).queue() == old(self).queue().skip(i + 1) + old(self).skipped()
                        + old(self).queue().take(i)
                    &&& final(self).skipped() == Seq::<EventView>::empty()
                },
                Option::None => {
                    &&& r is None
                    &&& final(self).queue() == Seq::<EventView>::empty()
                    &&& final(self).skipped() == old(self).skipped() + old(self).queue()
                },
            },
    {
        let ghost q0 = self.queue();
        let ghost s0 = self.skipped();
        let ghost mut k: int = 0;
        loop
            invariant
                q0 == old(self).queue(),
                s0 == old(self).skipped(),
                0 <= k <= q0.len(),
                self.queue() == q0.skip(k),
                self.skipped() == s0 + q0.take(k),
                forall|j: int| 0 <= j < k ==> !filter.spec_eval(q0[j]),
                self.decode_state() == old(self).decode_state(),
                self.pending() == old(self).pending(),
            decreases q0.len() - k,
        {
            let ghost qk = self.queue();
            let ghost sk = self.skipped();
            match self.events.pop_front() {
                Some(event) => {
                    proof {
                        assert(self.queue() =~= qk.drop_first());
                        assert(event@ == qk[0]);
                        assert(qk[0] == q0[k]);
                    }
                    if filter.eval(&event) {
                        proof {
                            lemma_first_match_skip(filter, q0, k);
                            assert(q0.skip(k)[0] == q0[k]);
                            assert(first_match(filter, q0.skip(k)) == Some(0int));
                            assert(first_match(filter, q0) == Some(k));
                        }
                        self.merge_skipped();
                        proof {
                            assert(self.queue() =~= q0.skip(k + 1) + s0 + q0.take(k));
                        }
                        return Some(event);
                    } else {
                        self.skipped_events.push(event);
                        proof {
                            assert(self.skipped() =~= sk.push(q0[k]));
                            assert(sk.push(q0[k]) =~= s0 + q0.take(k + 1));
                            assert(self.queue() =~= q0.skip(k + 1));
                            k = k + 1;
                        }
                    }
                },
                Option::None => {
                    proof {
                        assert(k == q0.len());
                        lemma_first_match_skip(filter, q0, k);
                        assert(q0.skip(k).len() == 0);
                        assert(first_match(filter, q0) is None);
                        assert(self.queue() =~= Seq::<EventView>::empty());
                        assert(self.skipped() =~= s0 + q0);
                    }
                    return Option::None;
                },
            }
        }
    }
}

/// No-loss filtering, one claim: whatever the filter, the multiset of
/// events held by the engine after a claim — the claimed event included —
/// is exactly the multiset it held before.  Nothing is dropped and
/// nothing is duplicated; only the split between "consumed now" and
/// "still available" changes.
pub proof fn lemma_claim_no_loss<F: Filter>(filter: &F, q: Seq<EventView>, sk: Seq<EventView>)
    ensures
        match first_match(filter, q) {
            Some(i) => (q.skip(i + 1) + sk + q.take(i)).to_multiset().insert(q[i]) == (q
                + sk).to_multiset(),
            Option::None => (sk + q).to_multiset() == (q + sk).to_multiset(),
        },
{
    vstd::seq_lib::lemma_multiset_commutative(q, sk);
    vstd::seq_lib::lemma_multiset_commutative(sk, q);
    match first_match(filter, q) {
        Some(i) => {
            lemma_first_match_is_first(filter, q);
            let l = q.skip(i + 1) + sk + q.take(i);
            vstd::seq_lib::lemma_multiset_commutative(q.skip(i + 1) + sk, q.take(i));
            vstd::seq_lib::lemma_multiset_commutative(q.skip(i + 1), sk);
            assert(q =~= q.take(i) + seq![q[i]] + q.skip(i + 1));
            vstd::seq_lib::lemma_multiset_commutative(q.take(i) + seq![q[i]], q.skip(i + 1));
            vstd::seq_lib::lemma_multiset_commutative(q.take(i), seq![q[i]]);
            assert(seq![q[i]].to_multiset() =~= Multiset::<EventView>::empty().insert(q[i]));
            assert(l.to_multiset().insert(q[i]) =~= (q + sk).to_multiset());
        },
        Option::None => {},
    }
}

/// Each claim targets exactly the event its filter selects: if a single
/// queued event matches, that event — not any other — is the one found.
pub proof fn lemma_claim_targets_unique_match<F: Filter>(filter: &F, q: Seq<EventView>, i: int)
    requires
        0 <= i < q.len(),
        filter.spec_eval(q[i]),
        forall|j: int| 0 <= j < q.len() && j != i ==> !filter.spec_eval(q[j]),
    ensures
        first_match(filter, q) == Some(i),
{
    lemma_first_match_is_first(filter, q);
    match first_match(filter, q) {
        Some(m) => {
            if m < i {
                assert(!filter.spec_eval(q[m]));
            }
            if m > i {
                assert(!filter.spec_eval(q[i]));
            }
        },
        Option::None => {
            assert(!filter.spec_eval(q[i]));
        },
    }
}

/// A deadline, tracked as "time leftover from a fixed budget".  Time is a
/// monotonic-clock reading in nanoseconds, handed in by the caller at
/// construction and at each query, so that repeated retries never extend
/// the original budget.
#[derive(Clone, Copy, Debug, PartialEq, Eq, Structural)]
pub enum PollTimeout {
    /// A positive budget, counting from the clock reading at creation.
    Bounded { timeout_ns: u64, start_ns: u64 },
    /// A caller-requested zero budget: probe once, never block.
    Immediate,
    /// No deadline at all.
    Unbounded,
}

impl PollTimeout {
    /// What [`PollTimeout::new`] builds.
    pub open spec fn spec_new(timeout_ns: Option<u64>, now_ns: u64) -> PollTimeout {
        match timeout_ns {
            Some(t) => if t == 0 {
                PollTimeout::Immediate
            } else {
                PollTimeout::Bounded { timeout_ns: t, start_ns: now_ns }
            },
            Option::None => PollTimeout::Unbounded,
        }
    }

    /// A deadline of `timeout_ns` counted from the clock reading
    /// `now_ns`; `None` means no deadline, zero means "do not block".
    pub fn new(timeout_ns: Option<u64>, now_ns: u64) -> (r: Self)
        ensures
            r == Self::spec_new(timeout_ns, now_ns),
    {
        match timeout_ns {
            Some(t) => if t == 0 {
                PollTimeout::Immediate
            } else {
                PollTimeout::Bounded { timeout_ns: t, start_ns: now_ns }
            },
            Option::None => PollTimeout::Unbounded,
        }
    }

    /// What [`PollTimeout::leftover`] returns: the part of the budget not
    /// yet elapsed at clock reading `now_ns`, never negative; `None` when
    /// there is no deadline.
    pub open spec fn spec_leftover(self, now_ns: u64) -> Option<u64> {
        match self {
            PollTimeout::Bounded { timeout_ns, start_ns } => {
                let elapsed = if now_ns >= start_ns {
                    now_ns - start_ns
                } else {
                    0
                };
                if elapsed >= timeout_ns {
                    Some(0u64)
                } else {
                    Some((timeout_ns - elapsed) as u64)
                }
            },
            PollTimeout::Immediate => Some(0u64),
            PollTimeout::Unbounded => Option::None,
        }
    }

    /// The budget left at clock reading `now_ns`.
    pub fn leftover(&self, now_ns: u64) -> (r: Option<u64>)
        ensures
            r == self.spec_leftover(now_ns),
    {
        match self {
            PollTimeout::Bounded { timeout_ns, start_ns } => {
                let elapsed = if now_ns >= *start_ns {
                    now_ns - *start_ns
                } else {
                    0
                };
                if elapsed >= *timeout_ns {
                    Some(0)
                } else {
                    Some(*timeout_ns - elapsed)
                }
            },
            PollTimeout::Immediate => Some(0),
            PollTimeout::Unbounded => Option::None,
        }
    }
}

/// A zero-duration probe never acquires budget: whatever clock readings
/// the wait loop takes, the leftover is zero, so the loop's exit test
/// holds after its very first readiness check and the wait returns
/// without blocking again.
pub proof fn lemma_zero_timeout_probes_once(creation_ns: u64, now_ns: u64)
    ensures
        PollTimeout::spec_new(Some(0u64), creation_ns).spec_leftover(now_ns) == Some(0u64),
{
}

/// A bounded wait never acquires budget: at any clock reading, what is
/// left of the deadline is at most the budget it started with.
pub proof fn lemma_leftover_within_budget(timeout_ns: u64, creation_ns: u64, now_ns: u64)
    ensures
        match PollTimeout::spec_new(Some(timeout_ns), creation_ns).spec_leftover(now_ns) {
            Some(l) => l <= timeout_ns,
            Option::None => false,
        },
{
}

/// Leftover only shrinks as the clock advances: recomputing it after a
/// wake — spurious or not — can never extend the deadline.
pub proof fn lemma_leftover_decreasing(t: PollTimeout, now1_ns: u64, now2_ns: u64)
    requires
        now1_ns <= now2_ns,
    ensures
        match (t.spec_leftover(now1_ns), t.spec_leftover(now2_ns)) {
            (Some(l1), Some(l2)) => l2 <= l1,
            (Option::None, Option::None) => true,
            _ => false,
        },
{
}

/// The largest wait the readiness primitive is handed, in milliseconds;
/// anything larger is clamped to avoid the kernel treating an oversized
/// timeout as infinite.
pub const MAX_SAFE_TIMEOUT_MS: i32 = i32::MAX;

/// What [`poll_wait_millis`] computes: the leftover rounded *up* to whole
/// milliseconds — so a tiny positive leftover stays a positive wait
/// rather than an instantly-expiring one, while an explicit zero stays
/// zero — then clamped to [`MAX_SAFE_TIMEOUT_MS`]; no deadline becomes
/// the negative value that means "wait forever".
pub open spec fn spec_poll_wait_millis(leftover_ns: Option<u64>) -> i32 {
    match leftover_ns {
        Some(n) => {
            let rounded = if n + 999_999 <= u64::MAX {
                (n + 999_999) / 1_000_000
            } else {
                n as int / 1_000_000
            };
            if rounded > MAX_SAFE_TIMEOUT_MS {
                MAX_SAFE_TIMEOUT_MS
            } else {
                rounded as i32
            }
        },
        Option::None => -1i32,
    }
}

/// The argument to hand the millisecond-based readiness wait for a given
/// leftover.
pub fn poll_wait_millis(leftover_ns: Option<u64>) -> (r: i32)
    ensures
        r == spec_poll_wait_millis(leftover_ns),
{
    match leftover_ns {
        Some(n) => {
            let rounded: u64 = match n.checked_add(999_999) {
                Some(m) => m / 1_000_000,
                Option::None => n / 1_000_000,
            };
            if rounded > MAX_SAFE_TIMEOUT_MS as u64 {
                MAX_SAFE_TIMEOUT_MS
            } else {
                rounded as i32
            }
        },
        Option::None => -1,
    }
}

} // verus!
