use hifitime::instant::{Delta, Duration, Era, Instant};
use hifitime::Errors;

fn seconds_of(d: Delta) -> f64 {
    let s = d.magnitude.as_secs() as f64 + (d.magnitude.subsec_nanos() as f64) * 1e-9;
    if d.negative {
        -1.0 * s
    } else {
        s
    }
}

#[test]
fn era_unittest() {
    assert_eq!(Era::Past.to_string(), "Past");
    assert_eq!(Era::Present.to_string(), "Present");
    assert!(Era::Past < Era::Present);
}

#[test]
fn instant_unittest() {
    // Add in the Present era.
    let tick = Instant::new(159, 10, Era::Present) + Duration::new(5, 2);
    assert_eq!(tick.secs(), 164);
    assert_eq!(tick.nanos(), 12);
    assert_eq!(tick.era(), Era::Present);

    // Add in the Past era.
    let tick = Instant::new(159, 10, Era::Past) + Duration::new(5, 2);
    assert_eq!(tick.secs(), 154);
    assert_eq!(tick.nanos(), 8);
    assert_eq!(tick.era(), Era::Past);

    // Add from the Past to overflow into the Present
    let tick = Instant::new(159, 0, Era::Past) + Duration::new(160, 0);
    assert_eq!(tick.secs(), 1);
    assert_eq!(tick.nanos(), 0);
    assert_eq!(tick.era(), Era::Present);

    let tick = Instant::new(0, 5, Era::Past) + Duration::new(0, 6);
    assert_eq!(tick.secs(), 0);
    assert_eq!(tick.nanos(), 1);
    assert_eq!(tick.era(), Era::Present);

    // Sub in the Present era.
    let tick = Instant::new(159, 10, Era::Present) - Duration::new(5, 2);
    assert_eq!(tick.secs(), 154);
    assert_eq!(tick.nanos(), 8);
    assert_eq!(tick.era(), Era::Present);

    // Sub in the Past era.
    let tick = Instant::new(159, 10, Era::Past) - Duration::new(5, 2);
    assert_eq!(tick.secs(), 164);
    assert_eq!(tick.nanos(), 12);
    assert_eq!(tick.era(), Era::Past);

    // Sub from the Present to overflow into the Past
    let tick = Instant::new(159, 0, Era::Present) - Duration::new(160, 0);
    assert_eq!(tick.secs(), 1);
    assert_eq!(tick.nanos(), 0);
    assert_eq!(tick.era(), Era::Past);

    let tick = Instant::new(0, 5, Era::Present) - Duration::new(0, 6);
    assert_eq!(tick.secs(), 0);
    assert_eq!(tick.nanos(), 1);
    assert_eq!(tick.era(), Era::Past);
}

#[test]
fn new_carries_whole_seconds_out_of_nanos() {
    let i = Instant::new(3, 2_500_000_000, Era::Past);
    assert_eq!(i.secs(), 5);
    assert_eq!(i.nanos(), 500_000_000);
    assert_eq!(i.era(), Era::Past);
    assert_eq!(i.duration(), Duration::new(5, 500_000_000));
}

#[test]
fn epoch_is_equal_in_both_eras() {
    assert_eq!(Instant::new(0, 0, Era::Past), Instant::new(0, 0, Era::Present));
    assert_eq!(Instant::new(0, 1_000_000_000, Era::Past), Instant::new(1, 0, Era::Past));
    assert_ne!(Instant::new(0, 1, Era::Past), Instant::new(0, 1, Era::Present));
    assert_ne!(Instant::new(1, 1, Era::Past), Instant::new(1, 1, Era::Present));
    assert_ne!(Instant::new(1, 0, Era::Past), Instant::new(1, 0, Era::Present));
}

#[test]
fn instants_order_chronologically() {
    let epoch = Instant::new(0, 0, Era::Present);
    let before = Instant::new(1, 0, Era::Past);
    let after = Instant::new(1, 0, Era::Present);
    assert!(after > epoch);
    assert!(after >= epoch);
    assert!(before < epoch);
    assert!(before <= epoch);
    assert!(Instant::new(1, 0, Era::Past) < Instant::new(0, 0, Era::Present));
    assert!(Instant::new(1, 0, Era::Past) < Instant::new(1, 0, Era::Present));
    // Further before the epoch is earlier.
    assert!(Instant::new(2, 0, Era::Past) < Instant::new(1, 0, Era::Past));
    assert!(Instant::new(0, 5, Era::Past) > Instant::new(0, 6, Era::Past));
    assert!(Instant::new(0, 0, Era::Past) <= Instant::new(0, 0, Era::Present));
    assert!(Instant::new(0, 0, Era::Past) >= Instant::new(0, 0, Era::Present));
}

#[test]
fn add_borrows_nanoseconds_across_the_epoch() {
    let tick = Instant::new(5, 10, Era::Past) + Duration::new(5, 2);
    assert_eq!(tick.secs(), 0);
    assert_eq!(tick.nanos(), 8);
    assert_eq!(tick.era(), Era::Past);

    let tick = Instant::new(1, 5, Era::Past) + Duration::new(3, 0);
    assert_eq!(tick.secs(), 1);
    assert_eq!(tick.nanos(), 999_999_995);
    assert_eq!(tick.era(), Era::Present);

    let tick = Instant::new(1, 5, Era::Present) - Duration::new(3, 0);
    assert_eq!(tick.secs(), 1);
    assert_eq!(tick.nanos(), 999_999_995);
    assert_eq!(tick.era(), Era::Past);
}

#[test]
fn landing_on_the_epoch() {
    let tick = Instant::new(7, 3, Era::Past) + Duration::new(7, 3);
    assert_eq!(tick.secs(), 0);
    assert_eq!(tick.nanos(), 0);
    assert_eq!(tick.era(), Era::Present);

    let tick = Instant::new(7, 3, Era::Present) - Duration::new(7, 3);
    assert_eq!(tick.secs(), 0);
    assert_eq!(tick.nanos(), 0);
    assert_eq!(tick.era(), Era::Past);
}

#[test]
fn zero_span_leaves_instant_unchanged() {
    for i in [
        Instant::new(0, 0, Era::Past),
        Instant::new(0, 0, Era::Present),
        Instant::new(12, 34, Era::Past),
        Instant::new(12, 34, Era::Present),
    ] {
        let a = i + Duration::new(0, 0);
        let s = i - Duration::new(0, 0);
        assert_eq!(a.era(), i.era());
        assert_eq!(a.duration(), i.duration());
        assert_eq!(s.era(), i.era());
        assert_eq!(s.duration(), i.duration());
    }
}

#[test]
fn add_and_sub_undo_each_other() {
    let spans = [Duration::new(0, 1), Duration::new(5, 2), Duration::new(160, 0)];
    let instants = [
        Instant::new(0, 0, Era::Past),
        Instant::new(0, 5, Era::Present),
        Instant::new(159, 10, Era::Past),
        Instant::new(159, 0, Era::Present),
    ];
    for i in instants {
        for d in spans {
            assert_eq!((i - d) + d, i);
            assert_eq!((i + d) - d, i);
        }
    }
}

#[test]
fn elapsed_within_the_present() {
    let unix = Instant::new(2_208_988_800, 0, Era::Present);
    let unix_p1h = Instant::new(2_208_988_800 + 3_600, 0, Era::Present);
    assert_eq!(seconds_of(unix.elapsed_since(unix_p1h)), -3600.0);
    assert_eq!(seconds_of(unix_p1h.elapsed_since(unix)), 3600.0);
    let d = unix.elapsed_since(unix_p1h);
    assert!(d.negative);
    assert_eq!(d.magnitude, Duration::new(3600, 0));
}

#[test]
fn elapsed_within_the_past() {
    let tick = Instant::new(159, 10, Era::Past);
    let tock = Instant::new(150, 15, Era::Past);
    assert_eq!(seconds_of(tick.elapsed_since(tock)), -8.999999995);
    assert_eq!(seconds_of(tock.elapsed_since(tick)), 8.999999995);
}

#[test]
fn elapsed_across_the_epoch() {
    let tick = Instant::new(159, 10, Era::Past);
    let tock = Instant::new(159, 10, Era::Present);
    assert_eq!(seconds_of(tock.elapsed_since(tick)), 318.00000002);
    assert_eq!(seconds_of(tick.elapsed_since(tock)), -318.00000002);
    let d = tick.elapsed_since(tock);
    assert!(d.negative);
    assert_eq!(d.magnitude, Duration::new(318, 20));
}

#[test]
fn elapsed_to_self_is_zero() {
    for i in [
        Instant::new(0, 0, Era::Past),
        Instant::new(159, 10, Era::Past),
        Instant::new(159, 10, Era::Present),
    ] {
        let d = i.elapsed_since(i);
        assert!(!d.negative);
        assert_eq!(d.magnitude, Duration::new(0, 0));
        assert_eq!(seconds_of(d), 0.0);
    }
    let d = Instant::new(0, 0, Era::Past).elapsed_since(Instant::new(0, 0, Era::Present));
    assert!(!d.negative);
    assert_eq!(d.magnitude, Duration::new(0, 0));
}

#[test]
fn elapsed_is_antisymmetric() {
    let instants = [
        Instant::new(0, 0, Era::Past),
        Instant::new(0, 7, Era::Present),
        Instant::new(159, 10, Era::Past),
        Instant::new(150, 15, Era::Past),
        Instant::new(159, 10, Era::Present),
    ];
    for i in instants {
        for j in instants {
            let a = i.elapsed_since(j);
            let b = j.elapsed_since(i);
            assert_eq!(a.magnitude, b.magnitude);
            assert_eq!(seconds_of(a), -seconds_of(b));
        }
    }
}

#[test]
fn duration_arithmetic_carries_and_borrows() {
    let a = Duration::new(1, 600_000_000) + Duration::new(2, 500_000_000);
    assert_eq!(a.as_secs(), 4);
    assert_eq!(a.subsec_nanos(), 100_000_000);
    let b = Duration::new(4, 100_000_000) - Duration::new(2, 500_000_000);
    assert_eq!(b.as_secs(), 1);
    assert_eq!(b.subsec_nanos(), 600_000_000);
    assert!(Duration::new(0, 0).is_zero());
    assert!(!Duration::new(0, 1).is_zero());
    assert!(Duration::new(2, 0).covers(&Duration::new(1, 999_999_999)));
    assert!(!Duration::new(1, 999_999_999).covers(&Duration::new(2, 0)));
}

#[test]
fn carry_error_message() {
    assert_eq!(Errors::Carry.to_string(), "a carry error (e.g. 61 seconds)");
}
