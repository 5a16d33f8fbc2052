//! Runtime detection of optional terminal capabilities.
//!
//! The library decodes the escape-sequence replies a terminal sends after a
//! capability query, and drives the deadline-bounded filtering of those
//! replies.  All byte-level decoding, event bookkeeping and timeout
//! arithmetic lives here, with contracts; the thin layer that talks to the
//! actual terminal descriptor sits outside the library.

pub mod event;
pub mod feature;
