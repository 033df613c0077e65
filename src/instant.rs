//! Instants measured from the epoch, 01 Jan 1900 at midnight (TAI), on either
//! side of it: a nonnegative `Duration` together with an `Era`.

pub use crate::duration::Duration;
use crate::duration::{max_total, NANOS_PER_SEC};
use vstd::prelude::*;

verus! {

/// Whether an `Instant` lies before the epoch (`Past`) or at or after it
/// (`Present`). `Past` orders before `Present`.
#[derive(Clone, Copy, Debug, PartialEq, Eq, Structural, PartialOrd)]
pub enum Era {
    Past,
    Present,
}

impl Era {
    /// The name of the era.
    pub fn to_string(&self) -> (r: String)
        ensures
            r@ == (match self {
                Era::Past => "Past"@,
                Era::Present => "Present"@,
            }),
    {
        match self {
            Era::Past => "Past".to_owned(),
            Era::Present => "Present".to_owned(),
        }
    }
}

/// Sign and order of two integers, as `cmp` gives it.
pub open spec fn order_of(a: int, b: int) -> std::cmp::Ordering {
    if a < b {
        std::cmp::Ordering::Less
    } else if a == b {
        std::cmp::Ordering::Equal
    } else {
        std::cmp::Ordering::Greater
    }
}

/// A point in time: `duration` before the epoch in the `Past` era, or
/// `duration` after it in the `Present` era. A zero duration is the epoch
/// itself, whatever its era.
#[derive(Clone, Copy, Debug)]
pub struct Instant {
    era: Era,
    duration: Duration,
}

impl Instant {
    #[verifier::type_invariant]
    spec fn inv(self) -> bool {
        self.duration.wf()
    }

    /// The era of the instant, as stored.
    pub closed spec fn spec_era(self) -> Era {
        self.era
    }

    /// The distance from the epoch, as stored.
    pub closed spec fn magnitude(self) -> Duration {
        self.duration
    }

    /// The instant with the given era and distance from the epoch.
    pub closed spec fn from_parts(era: Era, d: Duration) -> Instant {
        Instant { era, duration: d }
    }

    /// What `from_parts` builds, and that an instant is its two parts.
    pub proof fn lemma_parts(era: Era, d: Duration, i: Instant)
        ensures
            Self::from_parts(era, d).spec_era() == era,
            Self::from_parts(era, d).magnitude() == d,
            Self::from_parts(i.spec_era(), i.magnitude()) == i,
    {
    }

    /// The distance from the epoch is normalized.
    pub open spec fn wf(self) -> bool {
        self.magnitude().wf()
    }

    /// The signed offset from the epoch in nanoseconds: negative in the past.
    pub open spec fn offset(self) -> int {
        match self.spec_era() {
            Era::Past => -self.magnitude().total(),
            Era::Present => self.magnitude().total(),
        }
    }

    /// Whether moving `self` later by `delta` stays within what a
    /// `Duration` can hold.
    pub open spec fn add_fits(self, delta: Duration) -> bool {
        self.spec_era() == Era::Past || self.magnitude().total() + delta.total() <= max_total()
    }

    /// Whether moving `self` earlier by `delta` stays within what a
    /// `Duration` can hold.
    pub open spec fn sub_fits(self, delta: Duration) -> bool {
        self.spec_era() == Era::Present || self.magnitude().total() + delta.total() <= max_total()
    }

    /// `self` moved later by `delta`. A zero delta leaves the instant as it
    /// is; reaching or crossing the epoch from the past lands in `Present`.
    pub open spec fn spec_add(self, delta: Duration) -> Instant {
        let m = self.magnitude().total();
        let t = delta.total();
        if t == 0 {
            self
        } else {
            match self.spec_era() {
                Era::Present => Self::from_parts(Era::Present, Duration::from_total(m + t)),
                Era::Past => if t >= m {
                    Self::from_parts(Era::Present, Duration::from_total(t - m))
                } else {
                    Self::from_parts(Era::Past, Duration::from_total(m - t))
                },
            }
        }
    }

    /// `self` moved earlier by `delta`. A zero delta leaves the instant as
    /// it is; reaching or crossing the epoch from the present lands in `Past`.
    pub open spec fn spec_sub(self, delta: Duration) -> Instant {
        let m = self.magnitude().total();
        let t = delta.total();
        if t == 0 {
            self
        } else {
            match self.spec_era() {
                Era::Past => Self::from_parts(Era::Past, Duration::from_total(m + t)),
                Era::Present => if t >= m {
                    Self::from_parts(Era::Past, Duration::from_total(t - m))
                } else {
                    Self::from_parts(Era::Present, Duration::from_total(m - t))
                },
            }
        }
    }

    /// Builds the instant `seconds` and `nanos` away from the epoch in the
    /// given era; whole seconds in `nanos` are carried into the seconds.
    pub fn new(seconds: u64, nanos: u32, era: Era) -> (r: Instant)
        requires
            seconds as int + nanos as int / NANOS_PER_SEC as int <= u64::MAX,
        ensures
            r.wf(),
            r.spec_era() == era,
            r.magnitude().total() == seconds as int * NANOS_PER_SEC as int + nanos as int,
    {
        Instant { duration: Duration::new(seconds, nanos), era: era }
    }

    /// The distance from the epoch, in the instant's era.
    pub fn duration(self) -> (r: Duration)
        ensures
            r == self.magnitude(),
            r.wf(),
    {
        proof {
            use_type_invariant(&self);
        }
        self.duration
    }

    /// Whole seconds from the epoch.
    pub fn secs(self) -> (r: u64)
        ensures
            r == self.magnitude().spec_secs(),
    {
        self.duration.as_secs()
    }

    /// Nanoseconds beyond the whole seconds from the epoch.
    pub fn nanos(self) -> (r: u32)
        ensures
            r == self.magnitude().spec_nanos(),
    {
        self.duration.subsec_nanos()
    }

    /// Whether the instant lies before the epoch or not.
    pub fn era(self) -> (r: Era)
        ensures
            r == self.spec_era(),
    {
        self.era
    }
}

impl PartialEq for Instant {
    fn eq(&self, other: &Instant) -> (r: bool) {
        proof {
            use_type_invariant(self);
            use_type_invariant(other);
            if self.duration == other.duration {
                assert(self.duration.total() == other.duration.total());
            }
            if self.duration.total() == other.duration.total() {
                Duration::lemma_unique(self.duration, other.duration);
            }
        }
        let spans_eq = self.duration == other.duration;
        if spans_eq && self.duration.is_zero() {
            // At the epoch itself the era does not matter.
            true
        } else {
            spans_eq && self.era == other.era
        }
    }
}

impl vstd::std_specs::cmp::PartialEqSpecImpl for Instant {
    open spec fn obeys_eq_spec() -> bool {
        true
    }

    /// Two instants are equal when they lie at the same offset from the epoch.
    open spec fn eq_spec(&self, other: &Instant) -> bool {
        self.offset() == other.offset()
    }
}

impl vstd::std_specs::ops::AddSpecImpl<Duration> for Instant {
    open spec fn obeys_add_spec() -> bool {
        true
    }

    /// The delta is normalized and the result fits in a `Duration`.
    open spec fn add_req(self, delta: Duration) -> bool {
        delta.wf() && self.add_fits(delta)
    }

    open spec fn add_spec(self, delta: Duration) -> Instant {
        self.spec_add(delta)
    }
}

impl std::ops::Add<Duration> for Instant {
    type Output = Instant;

    /// Moves the instant later by `delta`, switching to `Present` when the
    /// epoch is reached or crossed from the past.
    fn add(self, delta: Duration) -> (r: Instant) {
        proof {
            use_type_invariant(&self);
            let m = self.duration.total();
            let t = delta.total();
            Duration::lemma_of_total(self.duration);
            Duration::lemma_of_total(delta);
            if m + t <= max_total() {
                Duration::lemma_from_total(m + t);
            }
            if t >= m {
                Duration::lemma_from_total(t - m);
            } else {
                Duration::lemma_from_total(m - t);
            }
        }
        if delta.is_zero() {
            self
        } else {
            match self.era {
                Era::Past => {
                    if delta.covers(&self.duration) {
                        Instant { era: Era::Present, duration: delta - self.duration }
                    } else {
                        Instant { era: Era::Past, duration: self.duration - delta }
                    }
                },
                Era::Present => Instant { era: Era::Present, duration: self.duration + delta },
            }
        }
    }
}

impl vstd::std_specs::ops::SubSpecImpl<Duration> for Instant {
    open spec fn obeys_sub_spec() -> bool {
        true
    }

    /// The delta is normalized and the result fits in a `Duration`.
    open spec fn sub_req(self, delta: Duration) -> bool {
        delta.wf() && self.sub_fits(delta)
    }

    open spec fn sub_spec(self, delta: Duration) -> Instant {
        self.spec_sub(delta)
    }
}

impl std::ops::Sub<Duration> for Instant {
    type Output = Instant;

    /// Moves the instant earlier by `delta`, switching to `Past` when the
    /// epoch is reached or crossed from the present.
    fn sub(self, delta: Duration) -> (r: Instant) {
        proof {
            use_type_invariant(&self);
            let m = self.duration.total();
            let t = delta.total();
            Duration::lemma_of_total(self.duration);
            Duration::lemma_of_total(delta);
            if m + t <= max_total() {
                Duration::lemma_from_total(m + t);
            }
            if t >= m {
                Duration::lemma_from_total(t - m);
            } else {
                Duration::lemma_from_total(m - t);
            }
        }
        if delta.is_zero() {
            self
        } else {
            match self.era {
                Era::Past => Instant { era: Era::Past, duration: self.duration + delta },
                Era::Present => {
                    if delta.covers(&self.duration) {
                        Instant { era: Era::Past, duration: delta - self.duration }
                    } else {
                        Instant { era: Era::Present, duration: self.duration - delta }
                    }
                },
            }
        }
    }
}

impl PartialOrd for Instant {
    /// Orders instants chronologically: every instant before the epoch comes
    /// first, the one furthest before it earliest.
    fn partial_cmp(&self, other: &Instant) -> (r: Option<std::cmp::Ordering>) {
        proof {
            use_type_invariant(self);
            use_type_invariant(other);
        }
        if self.eq(other) {
            Some(std::cmp::Ordering::Equal)
        } else {
            match (self.era, other.era) {
                (Era::Past, Era::Present) => Some(std::cmp::Ordering::Less),
                (Era::Present, Era::Past) => Some(std::cmp::Ordering::Greater),
                (Era::Present, Era::Present) => {
                    if self.duration.covers(&other.duration) {
                        Some(std::cmp::Ordering::Greater)
                    } else {
                        Some(std::cmp::Ordering::Less)
                    }
                },
                (Era::Past, Era::Past) => {
                    if self.duration.covers(&other.duration) {
                        Some(std::cmp::Ordering::Less)
                    } else {
                        Some(std::cmp::Ordering::Greater)
                    }
                },
            }
        }
    }
}

impl vstd::std_specs::cmp::PartialOrdSpecImpl for Instant {
    open spec fn obeys_partial_cmp_spec() -> bool {
        true
    }

    /// Instants compare as their offsets from the epoch do.
    open spec fn partial_cmp_spec(&self, other: &Instant) -> Option<std::cmp::Ordering> {
        Some(order_of(self.offset(), other.offset()))
    }
}

/// A signed span of time: `magnitude` counted backwards when `negative`.
#[derive(Clone, Copy, Debug, PartialEq, Eq, Structural)]
pub struct Delta {
    pub negative: bool,
    pub magnitude: Duration,
}

impl Delta {
    /// The signed length in nanoseconds.
    pub open spec fn value(self) -> int {
        if self.negative {
            -self.magnitude.total()
        } else {
            self.magnitude.total()
        }
    }

    /// The magnitude is normalized and a zero span is never negative.
    pub open spec fn wf(self) -> bool {
        self.magnitude.wf() && (self.magnitude.total() == 0 ==> !self.negative)
    }

    /// The signed span of `n` nanoseconds.
    pub open spec fn of_nanos(n: int) -> Delta {
        Delta {
            negative: n < 0,
            magnitude: Duration::from_total(if n < 0 { -n } else { n }),
        }
    }
}

impl Instant {
    /// Whether the span between `self` and `other` fits in a `Duration`.
    pub open spec fn elapsed_fits(self, other: Instant) -> bool {
        self.spec_era() == other.spec_era() || self.magnitude().total()
            + other.magnitude().total() <= max_total()
    }

    /// The signed time from `other` to `self`.
    pub open spec fn spec_elapsed(self, other: Instant) -> Delta {
        Delta::of_nanos(self.offset() - other.offset())
    }

    /// The signed time from `other` to `self`: positive when `self` is the
    /// later one, exactly zero when the two are equal.
    pub fn elapsed_since(self, other: Instant) -> (r: Delta)
        requires
            self.elapsed_fits(other),
        ensures
            r == self.spec_elapsed(other),
            r.wf(),
            r.value() == self.offset() - other.offset(),
    {
        proof {
            use_type_invariant(&self);
            use_type_invariant(&other);
            Duration::lemma_of_total(self.duration);
            Duration::lemma_of_total(other.duration);
            let n = self.offset() - other.offset();
            Duration::lemma_from_total(if n < 0 { -n } else { n });
            Duration::lemma_from_total(0);
        }
        if self.eq(&other) {
            let zero = Duration::new(0, 0);
            proof {
                Duration::lemma_unique(zero, Duration::from_total(0));
            }
            Delta { negative: false, magnitude: zero }
        } else if self.era == other.era {
            if self.duration.covers(&other.duration) {
                // Further from the epoch: later in the present, earlier in the past.
                Delta { negative: self.era == Era::Past, magnitude: self.duration - other.duration }
            } else {
                Delta {
                    negative: self.era == Era::Present,
                    magnitude: other.duration - self.duration,
                }
            }
        } else {
            // On opposite sides of the epoch the distances add up.
            Delta { negative: other.era == Era::Present, magnitude: self.duration + other.duration }
        }
    }
}

} // verus!
