//! A span of time held as whole seconds and sub-second nanoseconds.
use crate::text::{concat_str, decimal_string, decimal_text, fraction_digits, fraction_string};
use vstd::prelude::*;

verus! {

/// A whole amount and a fraction over `width` decimal places, then the unit: the
/// fraction, when not zero, follows a point without its trailing zeros.
pub open spec fn amount_text(whole: nat, frac: nat, width: nat, unit: Seq<char>) -> Seq<char> {
    decimal_text(whole) + (if frac == 0 {
        Seq::<char>::empty()
    } else {
        seq!['.'] + fraction_digits(frac, width)
    }) + unit
}

/// The text std's `Debug` gives a duration: in seconds when it is at least one second,
/// else in milliseconds, microseconds or nanoseconds, the largest unit of which it holds
/// at least one (for example `5s`, `1.5s`, `250ms`, `0ns`).
pub open spec fn duration_debug_text(d: Duration) -> Seq<char> {
    let s = d.spec_secs();
    let n = d.spec_subsec_nanos();
    if s > 0 {
        amount_text(s as nat, n as nat, 9, "s"@)
    } else if n >= 1_000_000 {
        amount_text((n / 1_000_000) as nat, (n % 1_000_000) as nat, 6, "ms"@)
    } else if n >= 1000 {
        amount_text((n / 1000) as nat, (n % 1000) as nat, 3, "\u{b5}s"@)
    } else {
        amount_text(n as nat, 0, 0, "ns"@)
    }
}

fn amount_string(whole: u64, frac: u32, width: u32, unit: &str) -> (t: String)
    ensures
        t@ == amount_text(whole as nat, frac as nat, width as nat, unit@),
{
    let w = decimal_string(whole as u128);
    if frac == 0 {
        let t = concat_str(w.as_str(), unit);
        assert(t@ =~= amount_text(whole as nat, frac as nat, width as nat, unit@));
        t
    } else {
        let a = concat_str(w.as_str(), ".");
        let f = fraction_string(frac as u128, width);
        let b = concat_str(a.as_str(), f.as_str());
        let t = concat_str(b.as_str(), unit);
        proof {
            reveal_strlit(".");
        }
        assert(t@ =~= amount_text(whole as nat, frac as nat, width as nat, unit@));
        t
    }
}

/// Nanoseconds in one second.
pub const NANOS_PER_SEC: u32 = 1_000_000_000;

/// A non-negative span of time, normalized so that `nanos < 1_000_000_000`.
#[derive(Clone, Copy, Debug, PartialEq, Eq, Structural)]
pub struct Duration {
    secs: u64,
    nanos: u32,
}

impl Duration {
    /// Whether the representation is normalized.
    pub open spec fn wf(self) -> bool {
        self.spec_subsec_nanos() < NANOS_PER_SEC
    }

    /// Total length of the span in nanoseconds.
    pub open spec fn total_nanos(self) -> int {
        self.spec_secs() * 1_000_000_000int + self.spec_subsec_nanos()
    }

    pub closed spec fn spec_secs(self) -> u64 {
        self.secs
    }

    pub closed spec fn spec_subsec_nanos(self) -> u32 {
        self.nanos
    }

    /// The span of `secs` seconds and `nanos` nanoseconds.
    pub closed spec fn spec_new(secs: u64, nanos: u32) -> Duration {
        Duration { secs, nanos }
    }

    /// The empty span.
    pub fn zero() -> (d: Duration)
        ensures
            d.wf(),
            d.total_nanos() == 0,
    {
        Duration { secs: 0, nanos: 0 }
    }

    /// A span of whole seconds.
    pub fn from_secs(secs: u64) -> (d: Duration)
        ensures
            d.wf(),
            d.spec_secs() == secs,
            d.spec_subsec_nanos() == 0,
            d.total_nanos() == secs * 1_000_000_000,
            d == Duration::spec_new(secs, 0),
    {
        Duration { secs, nanos: 0 }
    }

    /// A span of whole milliseconds.
    pub fn from_millis(millis: u64) -> (d: Duration)
        ensures
            d.wf(),
            d.total_nanos() == millis * 1_000_000,
    {
        let secs = millis / 1000;
        let rem = millis % 1000;
        let nanos: u32 = (rem * 1_000_000) as u32;
        assert(secs * 1_000_000_000int + rem * 1_000_000 == millis * 1_000_000) by (nonlinear_arith)
            requires secs == millis / 1000, rem == millis % 1000;
        Duration { secs, nanos }
    }

    /// Whether the span is empty.
    pub fn is_zero(&self) -> (b: bool)
        requires
            self.wf(),
        ensures
            b == (self.total_nanos() == 0),
    {
        self.secs == 0 && self.nanos == 0
    }

    /// Whole seconds, discarding the sub-second part.
    pub fn as_secs(&self) -> (s: u64)
        ensures
            s == self.spec_secs(),
    {
        self.secs
    }

    /// The nanoseconds beyond the whole seconds.
    pub fn subsec_nanos(&self) -> (n: u32)
        ensures
            n == self.spec_subsec_nanos(),
    {
        self.nanos
    }

    /// The duration as std's `Debug` writes it (see `duration_debug_text`).
    pub fn debug_text(&self) -> (t: String)
        ensures
            t@ == duration_debug_text(*self),
    {
        if self.secs > 0 {
            amount_string(self.secs, self.nanos, 9, "s")
        } else if self.nanos >= 1_000_000 {
            amount_string((self.nanos / 1_000_000) as u64, self.nanos % 1_000_000, 6, "ms")
        } else if self.nanos >= 1000 {
            amount_string((self.nanos / 1000) as u64, self.nanos % 1000, 3, "\u{b5}s")
        } else {
            amount_string(self.nanos as u64, 0, 0, "ns")
        }
    }

    /// Whole milliseconds, discarding the sub-millisecond part.
    pub fn as_millis(&self) -> (m: u128)
        requires
            self.wf(),
        ensures
            m == self.total_nanos() / 1_000_000,
    {
        let m = (self.secs as u128) * 1000 + (self.nanos / 1_000_000) as u128;
        assert(m == self.total_nanos() / 1_000_000) by (nonlinear_arith)
            requires
                m == self.secs * 1000 + self.nanos / 1_000_000,
                self.nanos < 1_000_000_000,
                self.total_nanos() == self.secs * 1_000_000_000int + self.nanos,
        ;
        m
    }
}

} // verus!
