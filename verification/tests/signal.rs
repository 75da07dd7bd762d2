use lingot::signal::{FrequencyLocker, FrequencyUpdate, LockStep, Reading};

/// Nothing observed: not related, not fresh.
fn silence() -> Reading {
    Reading {
        fresh: false,
        related: false,
        unison: false,
        same_ground: false,
        half_ground: false,
        shifted: true,
        repeated_shift: true,
        repeated_ground: true,
        above_min: false,
    }
}

/// A positive estimate while the locker tracks nothing.
fn fresh() -> Reading {
    Reading { fresh: true, ..silence() }
}

/// The same frequency the locker tracks.
fn unison() -> Reading {
    Reading {
        fresh: false,
        related: true,
        unison: true,
        same_ground: true,
        half_ground: false,
        shifted: false,
        repeated_shift: true,
        repeated_ground: true,
        above_min: true,
    }
}

/// Readings of a steady tone: the first, against the initial frequency, is
/// unrelated; the next starts tracking; the rest agree with it.
fn steady(n: usize) -> Vec<Reading> {
    let mut readings = vec![silence(), fresh()];
    while readings.len() < n {
        readings.push(unison());
    }
    readings.truncate(n);
    readings
}

#[test]
fn locker_locks_onto_steady_frequency() {
    let mut locker = FrequencyLocker::new();
    let mut last = None;
    for r in steady(20) {
        last = Some(locker.process(r));
    }
    assert!(locker.is_locked());
    assert_eq!(
        last,
        Some(LockStep { update: FrequencyUpdate::Scaled, report: true, unit_multipliers: false })
    );
}

#[test]
fn locker_starts_unlocked() {
    let mut locker = FrequencyLocker::new();
    assert!(!locker.is_locked());
    // first reading can't be locked yet
    let step = locker.process(steady(1)[0]);
    assert!(!step.report);
    assert!(!locker.is_locked());
}

#[test]
fn locker_releases_on_silence() {
    let mut locker = FrequencyLocker::new();
    for r in steady(20) {
        locker.process(r);
    }
    let mut last = None;
    for _ in 0..10 {
        last = Some(locker.process(silence()));
    }
    assert!(!locker.is_locked());
    assert!(!last.unwrap().report);
}

#[test]
fn lock_takes_four_consistent_readings() {
    let mut locker = FrequencyLocker::new();
    let steps: Vec<LockStep> = steady(6).into_iter().map(|r| locker.process(r)).collect();
    // unrelated first reading resets the tracked frequency
    assert_eq!(steps[0].update, FrequencyUpdate::Zero);
    // a fresh estimate is tracked as its own ground
    assert!(steps[1].unit_multipliers);
    // readings 2..=5 count; the lock is taken on the fifth reading but
    // reported from the sixth
    assert!(steps[..5].iter().all(|s| !s.report));
    assert!(steps[5].report);
}

#[test]
fn four_failures_keep_the_lock_and_the_fifth_releases_it() {
    let mut locker = FrequencyLocker::new();
    for r in steady(8) {
        locker.process(r);
    }
    for _ in 0..4 {
        let step = locker.process(silence());
        assert_eq!(step.update, FrequencyUpdate::Keep);
        assert!(step.report);
        assert!(locker.is_locked());
    }
    let step = locker.process(silence());
    assert_eq!(step.update, FrequencyUpdate::Zero);
    assert!(!step.report);
    assert!(!locker.is_locked());
}

#[test]
fn octave_jump_relocks_after_six_consistent_readings() {
    let mut locker = FrequencyLocker::new();
    for r in steady(8) {
        locker.process(r);
    }
    let octave_up = Reading {
        fresh: false,
        related: true,
        unison: false,
        same_ground: false,
        half_ground: true,
        shifted: false,
        repeated_shift: true,
        repeated_ground: true,
        above_min: true,
    };
    for _ in 0..5 {
        let step = locker.process(octave_up);
        assert_eq!(step.update, FrequencyUpdate::Keep);
        assert!(locker.is_locked());
    }
    let step = locker.process(octave_up);
    assert_eq!(step.update, FrequencyUpdate::Scaled);
    assert!(step.report);
}

#[test]
fn repeated_upward_shift_moves_the_lock_to_the_raw_estimate() {
    let mut locker = FrequencyLocker::new();
    for r in steady(8) {
        locker.process(r);
    }
    let shifted = Reading { shifted: true, repeated_shift: true, unison: false, ..unison() };
    for _ in 0..7 {
        assert_eq!(locker.process(shifted).update, FrequencyUpdate::Scaled);
    }
    assert_eq!(locker.process(shifted).update, FrequencyUpdate::Raw);
}
