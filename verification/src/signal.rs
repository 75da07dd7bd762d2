//! The frequency locker: the state machine that stabilises a noisy stream of
//! frequency estimates.
//!
//! It requires several consistent readings before it "locks" onto a
//! frequency, and several failures before it unlocks; it also handles octave
//! jumps (half or double frequency detections) by requiring a run of
//! consistent readings before it re-locks at the new octave.
//!
//! This module holds the decisions: the counters, the lock, and what happens
//! to the tracked frequency and the reported value on each reading. The caller
//! owns the frequencies themselves. For each new estimate it tells the locker
//! what it observed about it (a [`Reading`]), and applies the [`LockStep`]
//! that comes back.

use vstd::prelude::*;

verus! {

/// Consistent readings needed to lock.
pub const NHITS_TO_LOCK: i32 = 4;
/// Consecutive failures that release a lock.
pub const NHITS_TO_UNLOCK: i32 = 5;
/// Consistent readings at a new ground frequency needed to re-lock there.
pub const NHITS_TO_RELOCK: i32 = 6;
/// Consistent readings of the same upward shift needed to move the lock to
/// the raw estimate.
pub const NHITS_TO_RELOCK_UP: i32 = 8;

/// What the caller observed about the newest estimate `f`, relative to the
/// locker's current frequency `c`. With `(m1, m2)` the multipliers that bring
/// `f` and `c` to their common ground frequency when the two are harmonically
/// related (and `(0, 0)` otherwise), and `(o1, o2)` the multipliers of the
/// previous reading:
#[derive(Clone, Copy, Debug, PartialEq, Eq)]
pub struct Reading {
    /// `f > 0` while `c == 0`: a first estimate after silence.
    pub fresh: bool,
    /// `f` and `c` are harmonically related.
    pub related: bool,
    /// `m1 == 1` and `m2 == 1` exactly.
    pub unison: bool,
    /// `m2` is 1 within tolerance: `c` is itself the ground frequency.
    pub same_ground: bool,
    /// `m2` is 1/2 within tolerance: `f` is an octave below `c`.
    pub half_ground: bool,
    /// `m1` differs from 1 beyond tolerance.
    pub shifted: bool,
    /// `m1` equals `o1` within tolerance.
    pub repeated_shift: bool,
    /// `m2` equals `o2` within tolerance.
    pub repeated_ground: bool,
    /// `f * m1` is at least the lowest valid frequency.
    pub above_min: bool,
}

/// What happens to the locker's current frequency `c` on a reading.
#[derive(Clone, Copy, Debug, PartialEq, Eq)]
pub enum FrequencyUpdate {
    /// `c` is unchanged.
    Keep,
    /// `c` becomes 0.
    Zero,
    /// `c` becomes `f * m1`, the estimate brought to the ground frequency.
    Scaled,
    /// `c` becomes the estimate `f` itself.
    Raw,
}

/// The outcome of one reading.
#[derive(Clone, Copy, Debug, PartialEq, Eq)]
pub struct LockStep {
    pub update: FrequencyUpdate,
    /// Report the updated `c` as the locked frequency; otherwise report 0.
    pub report: bool,
    /// Remember `(1, 1)` as this reading's multipliers instead of `(m1, m2)`:
    /// a fresh estimate is taken as its own ground.
    pub unit_multipliers: bool,
}

/// The locker's counters.
#[derive(Clone, Copy, Debug, PartialEq, Eq)]
pub struct LockState {
    pub locked: bool,
    /// While unlocked: consistent readings so far. While locked: failures so far.
    pub hits: i32,
    /// Consistent readings at a new ground frequency.
    pub rehits: i32,
    /// Consistent readings with the same upward shift.
    pub rehits_up: i32,
}

impl LockState {
    /// Every counter stays below the threshold that acts on it.
    pub open spec fn wf(self) -> bool {
        &&& 0 <= self.hits
        &&& (if self.locked { self.hits < NHITS_TO_UNLOCK } else { self.hits < NHITS_TO_LOCK })
        &&& 0 <= self.rehits < NHITS_TO_RELOCK
        &&& 0 <= self.rehits_up < NHITS_TO_RELOCK_UP
    }
}

/// A reading the unlocked locker takes as consistent with its frequency.
pub open spec fn accepts(r: Reading) -> bool {
    r.fresh || (r.related && r.unison)
}

/// A locked reading that failed to confirm the lock, given the failure count
/// before it (`hits`) and the new-ground and upward-shift counts to carry on
/// (`rehits`, `rehits_up`): one more failure, and the lock released when
/// that makes `NHITS_TO_UNLOCK`.
pub open spec fn failed(hits: int, rehits: int, rehits_up: int) -> (LockState, LockStep) {
    if hits + 1 >= NHITS_TO_UNLOCK {
        (
            LockState { locked: false, hits: 0, rehits: rehits as i32, rehits_up: rehits_up as i32 },
            LockStep { update: FrequencyUpdate::Zero, report: false, unit_multipliers: false },
        )
    } else {
        (
            LockState { locked: true, hits: (hits + 1) as i32, rehits: rehits as i32, rehits_up: rehits_up as i32 },
            LockStep { update: FrequencyUpdate::Keep, report: true, unit_multipliers: false },
        )
    }
}

/// One step of the locker.
///
/// Unlocked, a consistent reading tracks the estimate and counts towards the
/// lock, and any other resets the count and the frequency. Locked, a reading at
/// the same ground frequency confirms the lock (after enough readings with the
/// same upward shift, the lock moves to the raw estimate); a reading at
/// another ground counts towards re-locking there, and otherwise, like an
/// unrelated one, as a failure (a reading an octave below does not count).
/// Enough failures release the lock.
pub open spec fn lock_step(s: LockState, r: Reading) -> (LockState, LockStep) {
    if !s.locked {
        let step_unit = r.fresh;
        if accepts(r) {
            let hits = s.hits + 1;
            (
                if hits >= NHITS_TO_LOCK {
                    LockState { locked: true, hits: 0, ..s }
                } else {
                    LockState { hits: hits as i32, ..s }
                },
                LockStep { update: FrequencyUpdate::Scaled, report: false, unit_multipliers: step_unit },
            )
        } else {
            (
                LockState { hits: 0, ..s },
                LockStep { update: FrequencyUpdate::Zero, report: false, unit_multipliers: step_unit },
            )
        }
    } else if r.related && r.same_ground {
        if r.shifted && r.repeated_shift {
            if s.rehits_up + 1 >= NHITS_TO_RELOCK_UP {
                (
                    LockState { locked: true, hits: 0, rehits: 0, rehits_up: 0 },
                    LockStep { update: FrequencyUpdate::Raw, report: true, unit_multipliers: false },
                )
            } else {
                (
                    LockState { locked: true, hits: 0, rehits: 0, rehits_up: (s.rehits_up + 1) as i32 },
                    LockStep { update: FrequencyUpdate::Scaled, report: true, unit_multipliers: false },
                )
            }
        } else {
            (
                LockState { locked: true, hits: 0, rehits: 0, rehits_up: 0 },
                LockStep { update: FrequencyUpdate::Scaled, report: true, unit_multipliers: false },
            )
        }
    } else if r.related {
        let hits = if r.half_ground { s.hits - 1 } else { s.hits as int };
        if r.above_min && r.repeated_ground {
            if s.rehits + 1 >= NHITS_TO_RELOCK {
                (
                    LockState { locked: true, hits: 0, rehits: 0, rehits_up: 0 },
                    LockStep { update: FrequencyUpdate::Scaled, report: true, unit_multipliers: false },
                )
            } else {
                failed(hits, s.rehits + 1, 0)
            }
        } else {
            failed(hits, s.rehits as int, 0)
        }
    } else {
        failed(s.hits as int, s.rehits as int, s.rehits_up as int)
    }
}

/// The locker's state after a run of readings.
pub open spec fn run(s: LockState, readings: Seq<Reading>) -> LockState
    decreases readings.len(),
{
    if readings.len() == 0 {
        s
    } else {
        run(lock_step(s, readings[0]).0, readings.drop_first())
    }
}

/// State machine that stabilises a noisy stream of frequency estimates.
#[derive(Debug)]
pub struct FrequencyLocker {
    state: LockState,
}

impl View for FrequencyLocker {
    type V = LockState;

    closed spec fn view(&self) -> LockState {
        self.state
    }
}

impl Clone for FrequencyLocker {
    fn clone(&self) -> (copy: Self)
        ensures
            copy@ == self@,
    {
        proof {
            use_type_invariant(self);
        }
        FrequencyLocker { state: self.state }
    }
}

impl FrequencyLocker {
    #[verifier::type_invariant]
    closed spec fn inv(self) -> bool {
        self.state.wf()
    }

    /// An unlocked locker with every counter at zero.
    pub fn new() -> (locker: Self)
        ensures
            locker@ == (LockState { locked: false, hits: 0, rehits: 0, rehits_up: 0 }),
            locker@.wf(),
    {
        FrequencyLocker { state: LockState { locked: false, hits: 0, rehits: 0, rehits_up: 0 } }
    }

    /// Whether the locker holds a lock.
    pub fn is_locked(&self) -> (locked: bool)
        ensures
            locked == self@.locked,
    {
        self.state.locked
    }

    /// Feed what was observed about the latest estimate; returns what to do
    /// with the current frequency and what to report.
    pub fn process(&mut self, reading: Reading) -> (step: LockStep)
        ensures
            (final(self)@, step) == lock_step(old(self)@, reading),
            old(self)@.wf(),
            final(self)@.wf(),
    {
        proof {
            use_type_invariant(&*self);
        }
        let s = self.state;
        let mut next = s;
        let step;
        if !s.locked {
            if reading.fresh || (reading.related && reading.unison) {
                next.hits = s.hits + 1;
                if next.hits >= NHITS_TO_LOCK {
                    next.locked = true;
                    next.hits = 0;
                }
                step = LockStep { update: FrequencyUpdate::Scaled, report: false, unit_multipliers: reading.fresh };
            } else {
                next.hits = 0;
                step = LockStep { update: FrequencyUpdate::Zero, report: false, unit_multipliers: reading.fresh };
            }
        } else if reading.related && reading.same_ground {
            next.rehits = 0;
            next.hits = 0;
            let mut update = FrequencyUpdate::Scaled;
            if reading.shifted && reading.repeated_shift {
                next.rehits_up = s.rehits_up + 1;
                if next.rehits_up >= NHITS_TO_RELOCK_UP {
                    update = FrequencyUpdate::Raw;
                    next.rehits_up = 0;
                }
            } else {
                next.rehits_up = 0;
            }
            step = LockStep { update, report: true, unit_multipliers: false };
        } else {
            // a failure, unless a run at a new ground frequency re-locks there
            let mut relocked = false;
            if reading.related {
                next.rehits_up = 0;
                if reading.half_ground {
                    next.hits = s.hits - 1;
                }
                if reading.above_min && reading.repeated_ground {
                    next.rehits = s.rehits + 1;
                    if next.rehits >= NHITS_TO_RELOCK {
                        next.rehits = 0;
                        relocked = true;
                    }
                }
            }
            if relocked {
                next.hits = 0;
                step = LockStep { update: FrequencyUpdate::Scaled, report: true, unit_multipliers: false };
            } else {
                next.hits = next.hits + 1;
                if next.hits >= NHITS_TO_UNLOCK {
                    next.locked = false;
                    next.hits = 0;
                    step = LockStep { update: FrequencyUpdate::Zero, report: false, unit_multipliers: false };
                } else {
                    step = LockStep { update: FrequencyUpdate::Keep, report: true, unit_multipliers: false };
                }
            }
        }
        self.state = next;
        step
    }
}

// ---------------------------------------------------------------------------
// laws
// ---------------------------------------------------------------------------

/// Every step keeps the counters below their thresholds.
pub proof fn lemma_step_keeps_wf(s: LockState, r: Reading)
    requires
        s.wf(),
    ensures
        lock_step(s, r).0.wf(),
{
}

/// The locker reports a frequency exactly when it was locked before the
/// reading and still is after it.
pub proof fn lemma_report_iff_stays_locked(s: LockState, r: Reading)
    requires
        s.wf(),
    ensures
        lock_step(s, r).1.report <==> (s.locked && lock_step(s, r).0.locked),
{
}

/// Unlocked, a reading that is not consistent with the tracked frequency
/// discards all progress towards a lock.
pub proof fn lemma_inconsistent_reading_resets(s: LockState, r: Reading)
    requires
        s.wf(),
        !s.locked,
        !r.fresh,
        !(r.related && r.unison),
    ensures
        !lock_step(s, r).0.locked,
        lock_step(s, r).0.hits == 0,
        lock_step(s, r).1.update == FrequencyUpdate::Zero,
{
}

/// From an unlocked state with `hits` consistent readings so far, fewer than
/// `NHITS_TO_LOCK - hits` further readings of any kind cannot lock.
pub proof fn lemma_no_lock_before_enough_readings(s: LockState, readings: Seq<Reading>)
    requires
        s.wf(),
        !s.locked,
        s.hits + readings.len() < NHITS_TO_LOCK,
    ensures
        !run(s, readings).locked,
    decreases readings.len(),
{
    if readings.len() > 0 {
        let next = lock_step(s, readings[0]).0;
        assert(next.hits <= s.hits + 1);
        lemma_no_lock_before_enough_readings(next, readings.drop_first());
    }
}

/// From an unlocked state, `NHITS_TO_LOCK - hits` consistent readings in a
/// row lock.
pub proof fn lemma_consistent_readings_lock(s: LockState, readings: Seq<Reading>)
    requires
        s.wf(),
        !s.locked,
        s.hits + readings.len() == NHITS_TO_LOCK,
        forall|k: int|
            0 <= k < readings.len() ==> (#[trigger] readings[k]).fresh || (readings[k].related
                && readings[k].unison),
    ensures
        run(s, readings).locked,
        run(s, readings).hits == 0,
    decreases readings.len(),
{
    let next = lock_step(s, readings[0]).0;
    assert(readings[0].fresh || (readings[0].related && readings[0].unison));
    assert(run(s, readings) == run(next, readings.drop_first()));
    if readings.len() > 1 {
        assert forall|k: int| 0 <= k < readings.drop_first().len() implies (
        #[trigger] readings.drop_first()[k]).fresh || (readings.drop_first()[k].related
            && readings.drop_first()[k].unison) by {
            assert(readings.drop_first()[k] == readings[k + 1]);
        }
        lemma_consistent_readings_lock(next, readings.drop_first());
    } else {
        assert(readings.drop_first().len() == 0);
        assert(run(next, readings.drop_first()) == next);
    }
}

/// A lock that has just been taken or confirmed (no failures counted) holds
/// through any `NHITS_TO_UNLOCK - 1` further readings.
pub proof fn lemma_lock_survives_short_failure_runs(s: LockState, readings: Seq<Reading>)
    requires
        s.wf(),
        s.locked,
        s.hits + readings.len() < NHITS_TO_UNLOCK,
    ensures
        run(s, readings).locked,
    decreases readings.len(),
{
    if readings.len() > 0 {
        let next = lock_step(s, readings[0]).0;
        assert(next.locked);
        assert(next.hits <= s.hits + 1);
        lemma_lock_survives_short_failure_runs(next, readings.drop_first());
    }
}

/// A locked locker fed `NHITS_TO_UNLOCK - hits` unrelated readings in a row
/// (silence, say) releases the lock, and the last of them reports nothing.
pub proof fn lemma_unrelated_readings_unlock(s: LockState, readings: Seq<Reading>)
    requires
        s.wf(),
        s.locked,
        s.hits + readings.len() == NHITS_TO_UNLOCK,
        forall|k: int| 0 <= k < readings.len() ==> !(#[trigger] readings[k]).related,
    ensures
        !run(s, readings).locked,
        run(s, readings).hits == 0,
    decreases readings.len(),
{
    let next = lock_step(s, readings[0]).0;
    assert(!readings[0].related);
    assert(run(s, readings) == run(next, readings.drop_first()));
    if readings.len() > 1 {
        assert forall|k: int| 0 <= k < readings.drop_first().len() implies !(
        #[trigger] readings.drop_first()[k]).related by {
            assert(readings.drop_first()[k] == readings[k + 1]);
        }
        lemma_unrelated_readings_unlock(next, readings.drop_first());
    } else {
        assert(readings.drop_first().len() == 0);
        assert(run(next, readings.drop_first()) == next);
    }
}

/// While locked, a reading at a new ground frequency moves the lock there only
/// as the last of `NHITS_TO_RELOCK` such readings in a row.
pub proof fn lemma_relock_needs_a_run(s: LockState, r: Reading)
    requires
        s.wf(),
        s.locked,
        r.related,
        !r.same_ground,
    ensures
        lock_step(s, r).1.update != FrequencyUpdate::Keep && lock_step(s, r).1.update
            != FrequencyUpdate::Zero ==> s.rehits == NHITS_TO_RELOCK - 1 && r.repeated_ground,
        lock_step(s, r).0.rehits == (if r.above_min && r.repeated_ground {
            (s.rehits + 1) % (NHITS_TO_RELOCK as int)
        } else {
            s.rehits as int
        }),
{
}

/// Unlocked, a reading counts towards the lock exactly when it is fresh, or
/// related with both multipliers exactly 1: it then tracks the estimate and
/// raises the count by one (locking, with the count cleared, when that makes
/// `NHITS_TO_LOCK`). Any other reading, related or not, clears the count and
/// zeroes the frequency.
pub proof fn lemma_unlocked_counts_only_unison(s: LockState, r: Reading)
    requires
        s.wf(),
        !s.locked,
    ensures
        !lock_step(s, r).1.report,
        lock_step(s, r).1.unit_multipliers == r.fresh,
        r.fresh || (r.related && r.unison) ==> {
            &&& lock_step(s, r).1.update == FrequencyUpdate::Scaled
            &&& if s.hits + 1 == NHITS_TO_LOCK {
                lock_step(s, r).0.locked && lock_step(s, r).0.hits == 0
            } else {
                !lock_step(s, r).0.locked && lock_step(s, r).0.hits == s.hits + 1
            }
        },
        !r.fresh && !(r.related && r.unison) ==> {
            &&& lock_step(s, r).1.update == FrequencyUpdate::Zero
            &&& !lock_step(s, r).0.locked
            &&& lock_step(s, r).0.hits == 0
        },
        lock_step(s, r).0.rehits == s.rehits,
        lock_step(s, r).0.rehits_up == s.rehits_up,
{
}

/// Locked, a related reading at the same ground frequency confirms the lock:
/// it stays locked, reports, and clears the failure count, so only failures
/// in a row can release a lock. In particular any `NHITS_TO_UNLOCK - 1`
/// readings after it, whatever they are, keep the lock.
pub proof fn lemma_confirming_reading_clears_failures(s: LockState, r: Reading, after: Seq<Reading>)
    requires
        s.wf(),
        s.locked,
        r.related,
        r.same_ground,
        after.len() < NHITS_TO_UNLOCK,
    ensures
        lock_step(s, r).0.locked,
        lock_step(s, r).0.hits == 0,
        lock_step(s, r).0.rehits == 0,
        lock_step(s, r).1.report,
        run(lock_step(s, r).0, after).locked,
{
    lemma_lock_survives_short_failure_runs(lock_step(s, r).0, after);
}

/// Locked, a related reading at the same ground frequency keeps the ground:
/// the frequency becomes the estimate brought to the ground, except for the
/// reading that completes a run of `NHITS_TO_RELOCK_UP` readings with the same
/// upward shift, which moves it to the raw estimate. The run counts readings
/// with a repeated shift, and any other reading ends it.
pub proof fn lemma_same_ground_keeps_the_ground(s: LockState, r: Reading)
    requires
        s.wf(),
        s.locked,
        r.related,
        r.same_ground,
    ensures
        lock_step(s, r).1.update == (if r.shifted && r.repeated_shift && s.rehits_up
            == NHITS_TO_RELOCK_UP - 1 {
            FrequencyUpdate::Raw
        } else {
            FrequencyUpdate::Scaled
        }),
        lock_step(s, r).0.rehits_up == (if r.shifted && r.repeated_shift {
            (s.rehits_up + 1) % (NHITS_TO_RELOCK_UP as int)
        } else {
            0
        }),
{
}

/// Locked, a related reading at another ground frequency that is not an
/// octave below, and that does not complete a re-lock run, is a failure: it
/// raises the failure count by one, keeping the frequency and reporting it,
/// and releases the lock when that makes `NHITS_TO_UNLOCK`.
pub proof fn lemma_other_ground_is_a_failure(s: LockState, r: Reading)
    requires
        s.wf(),
        s.locked,
        r.related,
        !r.same_ground,
        !r.half_ground,
        !(r.above_min && r.repeated_ground && s.rehits == NHITS_TO_RELOCK - 1),
    ensures
        if s.hits + 1 == NHITS_TO_UNLOCK {
            &&& !lock_step(s, r).0.locked
            &&& lock_step(s, r).0.hits == 0
            &&& lock_step(s, r).1.update == FrequencyUpdate::Zero
            &&& !lock_step(s, r).1.report
        } else {
            &&& lock_step(s, r).0.locked
            &&& lock_step(s, r).0.hits == s.hits + 1
            &&& lock_step(s, r).1.update == FrequencyUpdate::Keep
            &&& lock_step(s, r).1.report
        },
        lock_step(s, r).0.rehits <= s.rehits + 1,
{
}

/// Locked, `NHITS_TO_UNLOCK - hits` related readings in a row at other
/// ground frequencies (none of them an octave below), too few to complete a
/// re-lock run, release the lock.
pub proof fn lemma_other_ground_run_unlocks(s: LockState, readings: Seq<Reading>)
    requires
        s.wf(),
        s.locked,
        s.hits + readings.len() == NHITS_TO_UNLOCK,
        s.rehits + readings.len() < NHITS_TO_RELOCK,
        forall|k: int|
            0 <= k < readings.len() ==> (#[trigger] readings[k]).related && !readings[k].same_ground
                && !readings[k].half_ground,
    ensures
        !run(s, readings).locked,
        run(s, readings).hits == 0,
    decreases readings.len(),
{
    let r = readings[0];
    let next = lock_step(s, r).0;
    assert(r.related && !r.same_ground && !r.half_ground);
    lemma_other_ground_is_a_failure(s, r);
    assert(run(s, readings) == run(next, readings.drop_first()));
    if readings.len() > 1 {
        assert forall|k: int| 0 <= k < readings.drop_first().len() implies (
        #[trigger] readings.drop_first()[k]).related && !readings.drop_first()[k].same_ground
            && !readings.drop_first()[k].half_ground by {
            assert(readings.drop_first()[k] == readings[k + 1]);
        }
        lemma_other_ground_run_unlocks(next, readings.drop_first());
    } else {
        assert(readings.drop_first().len() == 0);
        assert(run(next, readings.drop_first()) == next);
    }
}

/// Silence keeps an unlocked locker unlocked with nothing counted.
pub proof fn lemma_silence_keeps_unlocked(s: LockState, r: Reading)
    requires
        s.wf(),
        !s.locked,
        !r.fresh,
        !r.related,
    ensures
        !lock_step(s, r).0.locked,
        lock_step(s, r).0.hits == 0,
        !lock_step(s, r).1.report,
{
}

} // verus!
