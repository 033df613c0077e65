//! Laws of the instant algebra, stated over offsets from the epoch.

use crate::duration::{max_total, Duration};
use crate::instant::{Delta, Era, Instant};
use vstd::prelude::*;
use vstd::std_specs::cmp::{PartialEqSpec, PartialOrdSpec};

verus! {

/// Every instant at zero distance from the epoch is the epoch itself,
/// whatever its era: any two such instants are equal.
pub proof fn zero_collapse(i: Instant, j: Instant)
    requires
        i.magnitude().total() == 0,
        j.magnitude().total() == 0,
    ensures
        i.offset() == 0,
        i.eq_spec(&j),
{
}

/// Instants are ordered chronologically: the order is total, agrees with
/// equality, and is transitive.
pub proof fn order_is_chronological(i: Instant, j: Instant, k: Instant)
    ensures
        i.partial_cmp_spec(&j) is Some,
        i.partial_cmp_spec(&j) == Some(std::cmp::Ordering::Equal) <==> i.eq_spec(&j),
        i.partial_cmp_spec(&j) == Some(std::cmp::Ordering::Less) <==> i.offset() < j.offset(),
        i.partial_cmp_spec(&j) == Some(std::cmp::Ordering::Less) && j.partial_cmp_spec(&k)
            == Some(std::cmp::Ordering::Less) ==> i.partial_cmp_spec(&k) == Some(
            std::cmp::Ordering::Less,
        ),
{
}

/// Any instant before the epoch is earlier than any instant after it.
pub proof fn past_precedes_present(i: Instant, j: Instant)
    requires
        i.spec_era() == Era::Past,
        j.spec_era() == Era::Present,
        i.magnitude().total() > 0 || j.magnitude().total() > 0,
    ensures
        i.partial_cmp_spec(&j) == Some(std::cmp::Ordering::Less),
{
}

/// Adding a span moves an instant exactly that far later.
pub proof fn add_moves_later(i: Instant, d: Duration)
    requires
        i.wf(),
        d.wf(),
        i.add_fits(d),
    ensures
        i.spec_add(d).wf(),
        i.spec_add(d).offset() == i.offset() + d.total(),
{
    let m = i.magnitude().total();
    let t = d.total();
    Duration::lemma_of_total(i.magnitude());
    Duration::lemma_of_total(d);
    if m + t <= max_total() {
        Duration::lemma_from_total(m + t);
    }
    if t >= m {
        Duration::lemma_from_total(t - m);
    } else {
        Duration::lemma_from_total(m - t);
    }
    Instant::lemma_parts(Era::Present, Duration::from_total(m + t), i);
    Instant::lemma_parts(Era::Present, Duration::from_total(t - m), i);
    Instant::lemma_parts(Era::Past, Duration::from_total(m - t), i);
}

/// Subtracting a span moves an instant exactly that far earlier.
pub proof fn sub_moves_earlier(i: Instant, d: Duration)
    requires
        i.wf(),
        d.wf(),
        i.sub_fits(d),
    ensures
        i.spec_sub(d).wf(),
        i.spec_sub(d).offset() == i.offset() - d.total(),
{
    let m = i.magnitude().total();
    let t = d.total();
    Duration::lemma_of_total(i.magnitude());
    Duration::lemma_of_total(d);
    if m + t <= max_total() {
        Duration::lemma_from_total(m + t);
    }
    if t >= m {
        Duration::lemma_from_total(t - m);
    } else {
        Duration::lemma_from_total(m - t);
    }
    Instant::lemma_parts(Era::Past, Duration::from_total(m + t), i);
    Instant::lemma_parts(Era::Past, Duration::from_total(t - m), i);
    Instant::lemma_parts(Era::Present, Duration::from_total(m - t), i);
}

/// Adding or subtracting a zero span leaves an instant as it is.
pub proof fn zero_span_is_identity(i: Instant, d: Duration)
    requires
        d.total() == 0,
    ensures
        i.spec_add(d) == i,
        i.spec_sub(d) == i,
{
}

/// Adding a span undoes subtracting it, and subtracting undoes adding: the
/// round trip lands on an instant equal to the one it started from.
pub proof fn add_and_sub_are_inverse(i: Instant, d: Duration)
    requires
        i.wf(),
        d.wf(),
    ensures
        i.sub_fits(d) ==> i.spec_sub(d).add_fits(d) && i.spec_sub(d).spec_add(d).eq_spec(&i),
        i.add_fits(d) ==> i.spec_add(d).sub_fits(d) && i.spec_add(d).spec_sub(d).eq_spec(&i),
{
    if i.sub_fits(d) {
        sub_moves_earlier(i, d);
        let j = i.spec_sub(d);
        if j.spec_era() == Era::Present {
            assert(j.magnitude().total() == i.magnitude().total() - d.total());
        }
        add_moves_later(j, d);
    }
    if i.add_fits(d) {
        add_moves_later(i, d);
        let j = i.spec_add(d);
        if j.spec_era() == Era::Past {
            assert(j.magnitude().total() == i.magnitude().total() - d.total());
        }
        sub_moves_earlier(j, d);
    }
}

/// The time from an instant to itself is exactly zero.
pub proof fn elapsed_to_self_is_zero(i: Instant)
    ensures
        i.elapsed_fits(i),
        i.spec_elapsed(i).value() == 0,
        i.spec_elapsed(i) == Delta::of_nanos(0),
{
    Duration::lemma_from_total(0);
}

/// The time from `j` to `i` is the negation of the time from `i` to `j`.
pub proof fn elapsed_is_antisymmetric(i: Instant, j: Instant)
    requires
        i.wf(),
        j.wf(),
    ensures
        i.elapsed_fits(j) == j.elapsed_fits(i),
        i.elapsed_fits(j) ==> i.spec_elapsed(j).value() == -j.spec_elapsed(i).value(),
        i.spec_elapsed(j).magnitude == j.spec_elapsed(i).magnitude,
        i.offset() != j.offset() ==> i.spec_elapsed(j).negative != j.spec_elapsed(i).negative,
{
    let n = i.offset() - j.offset();
    Duration::lemma_of_total(i.magnitude());
    Duration::lemma_of_total(j.magnitude());
    if i.elapsed_fits(j) {
        Duration::lemma_from_total(if n < 0 { -n } else { n });
    }
}

} // verus!
