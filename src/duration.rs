use vstd::arithmetic::div_mod::{
    lemma_fundamental_div_mod, lemma_fundamental_div_mod_converse_div,
    lemma_fundamental_div_mod_converse_mod,
};
use vstd::prelude::*;

verus! {

/// Number of nanoseconds in one second.
pub const NANOS_PER_SEC: u32 = 1_000_000_000;

/// The largest number of nanoseconds that a `Duration` can hold.
pub open spec fn max_total() -> int {
    u64::MAX as int * NANOS_PER_SEC as int + (NANOS_PER_SEC as int - 1)
}

/// A nonnegative span of time: a count of whole seconds and a fraction of a
/// second in nanoseconds, always kept below one second.
#[derive(Clone, Copy, Debug, PartialEq, Eq, Structural)]
pub struct Duration {
    secs: u64,
    nanos: u32,
}

impl Duration {
    /// The whole seconds of the span.
    pub closed spec fn spec_secs(self) -> u64 {
        self.secs
    }

    /// The sub-second part of the span, in nanoseconds.
    pub closed spec fn spec_nanos(self) -> u32 {
        self.nanos
    }

    /// The fraction is normalized below one second.
    pub open spec fn wf(self) -> bool {
        self.spec_nanos() < NANOS_PER_SEC
    }

    /// The length of the span in nanoseconds.
    pub open spec fn total(self) -> int {
        self.spec_secs() as int * NANOS_PER_SEC as int + self.spec_nanos() as int
    }

    /// The normalized span of `n` nanoseconds.
    pub closed spec fn from_total(n: int) -> Duration {
        Duration {
            secs: (n / NANOS_PER_SEC as int) as u64,
            nanos: (n % NANOS_PER_SEC as int) as u32,
        }
    }

    /// `from_total` gives a normalized span of exactly `n` nanoseconds.
    pub proof fn lemma_from_total(n: int)
        requires
            0 <= n <= max_total(),
        ensures
            Self::from_total(n).wf(),
            Self::from_total(n).total() == n,
            Self::from_total(n).spec_secs() == n / NANOS_PER_SEC as int,
            Self::from_total(n).spec_nanos() == n % NANOS_PER_SEC as int,
    {
        let d = NANOS_PER_SEC as int;
        lemma_fundamental_div_mod(n, d);
        assert(n / d <= u64::MAX) by (nonlinear_arith)
            requires
                n <= u64::MAX as int * d + (d - 1),
                n == d * (n / d) + n % d,
                0 <= n % d < d,
                d > 0,
        ;
        assert(0 <= n / d) by (nonlinear_arith)
            requires
                0 <= n,
                n == d * (n / d) + n % d,
                0 <= n % d < d,
                d > 0,
        ;
    }

    /// A normalized span is determined by its length.
    pub proof fn lemma_unique(a: Duration, b: Duration)
        requires
            a.wf(),
            b.wf(),
            a.total() == b.total(),
        ensures
            a == b,
    {
        let d = NANOS_PER_SEC as int;
        lemma_fundamental_div_mod_converse_div(a.total(), d, a.secs as int, a.nanos as int);
        lemma_fundamental_div_mod_converse_div(b.total(), d, b.secs as int, b.nanos as int);
        lemma_fundamental_div_mod_converse_mod(a.total(), d, a.secs as int, a.nanos as int);
        lemma_fundamental_div_mod_converse_mod(b.total(), d, b.secs as int, b.nanos as int);
    }

    /// Every normalized span is `from_total` of its length.
    pub proof fn lemma_of_total(a: Duration)
        requires
            a.wf(),
        ensures
            Self::from_total(a.total()) == a,
            0 <= a.total() <= max_total(),
    {
        assert(0 <= a.total() <= max_total()) by (nonlinear_arith)
            requires
                a.total() == a.secs as int * NANOS_PER_SEC as int + a.nanos as int,
                a.secs <= u64::MAX,
                a.nanos < NANOS_PER_SEC,
        ;
        Self::lemma_from_total(a.total());
        Self::lemma_unique(Self::from_total(a.total()), a);
    }

    /// Builds a span from whole seconds and nanoseconds, carrying whole
    /// seconds out of `nanos`.
    pub fn new(secs: u64, nanos: u32) -> (r: Duration)
        requires
            secs as int + nanos as int / NANOS_PER_SEC as int <= u64::MAX,
        ensures
            r.wf(),
            r.total() == secs as int * NANOS_PER_SEC as int + nanos as int,
    {
        let extra: u64 = (nanos / NANOS_PER_SEC) as u64;
        let r = Duration { secs: secs + extra, nanos: nanos % NANOS_PER_SEC };
        proof {
            lemma_fundamental_div_mod(nanos as int, NANOS_PER_SEC as int);
            assert(r.total() == secs as int * NANOS_PER_SEC as int + nanos as int) by (nonlinear_arith)
                requires
                    r.secs == secs + extra,
                    r.total() == r.secs as int * NANOS_PER_SEC as int + r.nanos as int,
                    nanos as int == NANOS_PER_SEC as int * extra + r.nanos as int,
            ;
        }
        r
    }

    /// Whole seconds of the span.
    pub fn as_secs(&self) -> (r: u64)
        ensures
            r == self.spec_secs(),
    {
        self.secs
    }

    /// Nanoseconds of the span beyond its whole seconds.
    pub fn subsec_nanos(&self) -> (r: u32)
        ensures
            r == self.spec_nanos(),
    {
        self.nanos
    }

    /// Whether the span has length zero.
    pub fn is_zero(&self) -> (r: bool)
        ensures
            r == (self.total() == 0),
    {
        self.secs == 0 && self.nanos == 0
    }

    /// Whether this span is at least as long as `other`.
    pub fn covers(&self, other: &Duration) -> (r: bool)
        requires
            self.wf(),
            other.wf(),
        ensures
            r == (self.total() >= other.total()),
    {
        proof {
            let d = NANOS_PER_SEC as int;
            if self.secs > other.secs {
                assert(self.total() > other.total()) by (nonlinear_arith)
                    requires
                        self.secs as int >= other.secs as int + 1,
                        self.total() == self.secs as int * d + self.nanos as int,
                        other.total() == other.secs as int * d + other.nanos as int,
                        other.nanos < d,
                        d > 0,
                ;
            } else if self.secs < other.secs {
                assert(self.total() < other.total()) by (nonlinear_arith)
                    requires
                        other.secs as int >= self.secs as int + 1,
                        self.total() == self.secs as int * d + self.nanos as int,
                        other.total() == other.secs as int * d + other.nanos as int,
                        self.nanos < d,
                        d > 0,
                ;
            }
        }
        self.secs > other.secs || (self.secs == other.secs && self.nanos >= other.nanos)
    }
}

impl vstd::std_specs::ops::AddSpecImpl for Duration {
    open spec fn obeys_add_spec() -> bool {
        true
    }

    /// Both spans are normalized and their sum fits in a `Duration`.
    open spec fn add_req(self, rhs: Duration) -> bool {
        self.wf() && rhs.wf() && self.total() + rhs.total() <= max_total()
    }

    open spec fn add_spec(self, rhs: Duration) -> Duration {
        Duration::from_total(self.total() + rhs.total())
    }
}

impl std::ops::Add for Duration {
    type Output = Duration;

    fn add(self, rhs: Duration) -> (r: Duration) {
        let d = NANOS_PER_SEC;
        proof {
            assert(self.secs as int + rhs.secs as int <= u64::MAX) by (nonlinear_arith)
                requires
                    self.total() + rhs.total() <= max_total(),
                    self.total() == self.secs as int * d as int + self.nanos as int,
                    rhs.total() == rhs.secs as int * d as int + rhs.nanos as int,
                    self.nanos >= 0,
                    rhs.nanos >= 0,
                    d > 0,
            ;
        }
        let mut secs: u64 = self.secs + rhs.secs;
        let mut nanos: u32 = self.nanos + rhs.nanos;
        if nanos >= d {
            proof {
                let m = u64::MAX as int;
                assert((secs as int + 1) * d as int <= m * d as int + (d as int - 1));
                assert(secs as int + 1 <= m) by (nonlinear_arith)
                    requires
                        (secs as int + 1) * d as int <= m * d as int + (d as int - 1),
                        d > 0,
                ;
            }
            nanos = nanos - d;
            secs = secs + 1;
        }
        let r = Duration { secs, nanos };
        proof {
            assert(r.total() == self.total() + rhs.total()) by (nonlinear_arith)
                requires
                    r.total() == r.secs as int * d as int + r.nanos as int,
                    self.total() + rhs.total() == (self.secs as int + rhs.secs as int) * d as int
                        + self.nanos as int + rhs.nanos as int,
                    (r.secs == self.secs + rhs.secs && r.nanos == self.nanos + rhs.nanos) || (
                    r.secs == self.secs + rhs.secs + 1 && r.nanos + d == self.nanos + rhs.nanos),
            ;
            Self::lemma_of_total(r);
        }
        r
    }
}

impl vstd::std_specs::ops::SubSpecImpl for Duration {
    open spec fn obeys_sub_spec() -> bool {
        true
    }

    /// Both spans are normalized and `rhs` is no longer than `self`.
    open spec fn sub_req(self, rhs: Duration) -> bool {
        self.wf() && rhs.wf() && rhs.total() <= self.total()
    }

    open spec fn sub_spec(self, rhs: Duration) -> Duration {
        Duration::from_total(self.total() - rhs.total())
    }
}

impl std::ops::Sub for Duration {
    type Output = Duration;

    fn sub(self, rhs: Duration) -> (r: Duration) {
        let d = NANOS_PER_SEC;
        proof {
            if self.secs < rhs.secs {
                assert(self.total() < rhs.total()) by (nonlinear_arith)
                    requires
                        rhs.secs as int >= self.secs as int + 1,
                        self.total() == self.secs as int * d as int + self.nanos as int,
                        rhs.total() == rhs.secs as int * d as int + rhs.nanos as int,
                        self.nanos < d,
                        d > 0,
                ;
            }
        }
        let mut secs: u64 = self.secs - rhs.secs;
        let nanos: u32;
        if self.nanos >= rhs.nanos {
            nanos = self.nanos - rhs.nanos;
        } else {
            proof {
                assert(secs >= 1) by (nonlinear_arith)
                    requires
                        rhs.total() <= self.total(),
                        self.total() == self.secs as int * d as int + self.nanos as int,
                        rhs.total() == rhs.secs as int * d as int + rhs.nanos as int,
                        secs == self.secs - rhs.secs,
                        self.nanos < rhs.nanos,
                        d > 0,
                ;
            }
            nanos = (self.nanos + d) - rhs.nanos;
            secs = secs - 1;
        }
        let r = Duration { secs, nanos };
        proof {
            assert(r.total() == self.total() - rhs.total()) by (nonlinear_arith)
                requires
                    r.total() == r.secs as int * d as int + r.nanos as int,
                    self.total() - rhs.total() == (self.secs as int - rhs.secs as int) * d as int
                        + self.nanos as int - rhs.nanos as int,
                    (r.secs == self.secs - rhs.secs && r.nanos == self.nanos - rhs.nanos) || (
                    r.secs == self.secs - rhs.secs - 1 && r.nanos == self.nanos + d - rhs.nanos),
            ;
            Self::lemma_of_total(r);
        }
        r
    }
}

} // verus!
