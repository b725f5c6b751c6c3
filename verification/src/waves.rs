//! The runtime wave: a list of buckets that are released one by one as time
//! passes.

use crate::targets::TargetKind;
use vstd::prelude::*;

verus! {

/// One release: so many targets of one kind, due at an offset from the start
/// of the wave that owns it.
#[derive(Debug)]
pub struct WaveBucket {
    pub kind: TargetKind,
    pub count: isize,
    spawn_offset: u64,
}

/// What a bucket is: its kind, its count and the offset at which it is due.
pub struct BucketView {
    pub kind: TargetKind,
    pub count: int,
    pub spawn_offset: nat,
}

impl View for WaveBucket {
    type V = BucketView;

    closed spec fn view(&self) -> BucketView {
        BucketView {
            kind: self.kind,
            count: self.count as int,
            spawn_offset: self.spawn_offset as nat,
        }
    }
}

impl WaveBucket {
    /// The offset, in ticks since the wave started, at which the bucket is
    /// due.
    pub fn spawn_offset(&self) -> (offset: u64)
        ensures
            offset == self@.spawn_offset,
    {
        self.spawn_offset
    }

    /// The kind of target to create.
    pub fn kind(&self) -> (kind: TargetKind)
        ensures
            kind == self@.kind,
    {
        self.kind
    }

    /// How many targets to create.
    pub fn count(&self) -> (count: isize)
        ensures
            count == self@.count,
    {
        self.count
    }
}

/// The contents of a single wave while it runs.
#[derive(Debug)]
pub struct Wave {
    pub index: usize,
    pub velocity: i32,
    pub buckets: Vec<WaveBucket>,
    start_time: Option<u64>,
    duration: u64,
}

/// What a wave is: its place in the schedule, the speed of its targets, how
/// long it lasts, when it started if it has, and the buckets that it has not
/// released yet. The next bucket to release is the last of the sequence.
pub struct WaveView {
    pub index: nat,
    pub velocity: int,
    pub duration: nat,
    pub start_time: Option<nat>,
    pub buckets: Seq<BucketView>,
}

impl WaveView {
    /// Whether the wave is over at the given time: it has started, has
    /// released all its buckets, and its whole duration has passed since it
    /// started. A wave that has not started is never over.
    pub open spec fn finished_at(self, now: nat) -> bool {
        &&& self.start_time matches Some(start)
        &&& self.buckets.len() == 0
        &&& now - start >= self.duration
    }

    /// Whether a poll at the given time releases a bucket: there is one
    /// left, and either the wave has not started, so that its first bucket
    /// goes out at once, or the offset of the next bucket has passed since
    /// the wave started.
    pub open spec fn releases_at(self, now: nat) -> bool {
        &&& self.buckets.len() > 0
        &&& match self.start_time {
            None => true,
            Some(start) => now - start >= self.buckets.last().spawn_offset,
        }
    }

    /// The bucket that a poll at the given time releases, if any.
    pub open spec fn released_at(self, now: nat) -> Option<BucketView> {
        if self.releases_at(now) {
            Some(self.buckets.last())
        } else {
            None
        }
    }

    /// The wave after a poll at the given time. A poll that releases a
    /// bucket removes it, and starts the wave if it had not started; any
    /// other poll changes nothing.
    pub open spec fn polled_at(self, now: nat) -> WaveView {
        if self.releases_at(now) {
            WaveView {
                start_time: match self.start_time {
                    None => Some(now),
                    Some(start) => Some(start),
                },
                buckets: self.buckets.drop_last(),
                ..self
            }
        } else {
            self
        }
    }

    /// Whether the buckets are stored with strictly falling offsets, so that
    /// they are released in strictly rising order of offset.
    pub open spec fn ordered(self) -> bool {
        forall|i: int, j: int|
            0 <= i < j < self.buckets.len() ==> (#[trigger] self.buckets[i]).spawn_offset > (
            #[trigger] self.buckets[j]).spawn_offset
    }
}

/// The buckets of the given releases, each a kind, a count and an offset, as
/// a wave stores them: in reverse, so that the first release is the last of
/// the sequence.
pub open spec fn stored(releases: Seq<(TargetKind, isize, u64)>) -> Seq<BucketView> {
    Seq::new(
        releases.len(),
        |j: int|
            {
                let release = releases[releases.len() - 1 - j];
                BucketView {
                    kind: release.0,
                    count: release.1 as int,
                    spawn_offset: release.2 as nat,
                }
            },
    )
}

/// The view of an optional bucket.
pub open spec fn released_view(bucket: Option<WaveBucket>) -> Option<BucketView> {
    match bucket {
        Some(bucket) => Some(bucket@),
        None => None,
    }
}

impl View for Wave {
    type V = WaveView;

    closed spec fn view(&self) -> WaveView {
        WaveView {
            index: self.index as nat,
            velocity: self.velocity as int,
            duration: self.duration as nat,
            start_time: match self.start_time {
                Some(start) => Some(start as nat),
                None => None,
            },
            buckets: self.buckets@.map_values(|bucket: WaveBucket| bucket@),
        }
    }
}

impl Wave {
    /// A wave that has not started, with the given releases, each a kind, a
    /// count and an offset. The releases go out in the order given: the
    /// first of them is the first to be released.
    pub fn scheduled(
        index: usize,
        velocity: i32,
        duration: u64,
        releases: Vec<(TargetKind, isize, u64)>,
    ) -> (wave: Wave)
        ensures
            wave@ == (WaveView {
                index: index as nat,
                velocity: velocity as int,
                duration: duration as nat,
                start_time: None,
                buckets: stored(releases@),
            }),
    {
        let mut buckets: Vec<WaveBucket> = Vec::new();
        let mut remaining: usize = releases.len();
        while remaining > 0
            invariant
                remaining <= releases@.len(),
                buckets@.len() == releases@.len() - remaining,
                forall|j: int|
                    0 <= j < buckets@.len() ==> (#[trigger] buckets@[j])@ == stored(releases@)[j],
            decreases remaining,
        {
            remaining = remaining - 1;
            let (kind, count, spawn_offset) = releases[remaining];
            buckets.push(WaveBucket { kind, count, spawn_offset });
        }
        let wave = Wave { index, velocity, buckets, start_time: None, duration };
        assert(wave@.buckets =~= stored(releases@));
        wave
    }

    /// The place of the wave in the schedule, counted from zero.
    pub fn index(&self) -> (index: usize)
        ensures
            index == self@.index,
    {
        self.index
    }

    /// The speed of the targets of the wave.
    pub fn velocity(&self) -> (velocity: i32)
        ensures
            velocity == self@.velocity,
    {
        self.velocity
    }

    /// How long the wave lasts, in ticks.
    pub fn duration(&self) -> (duration: u64)
        ensures
            duration == self@.duration,
    {
        self.duration
    }

    /// When the wave started, if it has.
    pub fn start_time(&self) -> (start: Option<u64>)
        ensures
            match start {
                Some(time) => self@.start_time == Some(time as nat),
                None => self@.start_time is None,
            },
    {
        self.start_time
    }

    /// How many buckets the wave has not released yet.
    pub fn remaining(&self) -> (count: usize)
        ensures
            count == self@.buckets.len(),
    {
        self.buckets.len()
    }

    /// Whether the wave is over at the given time.
    pub fn is_finished(&self, time: &u64) -> (finished: bool)
        ensures
            finished == self@.finished_at(*time as nat),
    {
        if let Some(start_time) = self.start_time {
            self.buckets.len() == 0 && *time >= start_time && *time - start_time >= self.duration
        } else {
            false
        }
    }

    /// Polls the wave at the given time: releases the next bucket if it is
    /// due, and at most one bucket however many are due. The first poll of a
    /// wave starts it and releases its first bucket whatever the offset of
    /// that bucket.
    pub fn get_bucket(&mut self, time: u64) -> (bucket: Option<WaveBucket>)
        ensures
            released_view(bucket) == old(self)@.released_at(time as nat),
            final(self)@ == old(self)@.polled_at(time as nat),
    {
        if self.buckets.len() == 0 {
            return None;
        }
        let ghost before = self.buckets@;
        if self.start_time.is_none() {
            self.start_time = Some(time);
            let bucket = self.buckets.pop();
            assert(self.buckets@.map_values(|bucket: WaveBucket| bucket@) =~= before.map_values(
                |bucket: WaveBucket| bucket@,
            ).drop_last());
            return bucket;
        }
        let start = self.start_time.unwrap();
        let last = self.buckets.len() - 1;
        if time >= start && time - start >= self.buckets[last].spawn_offset {
            let bucket = self.buckets.pop();
            assert(self.buckets@.map_values(|bucket: WaveBucket| bucket@) =~= before.map_values(
                |bucket: WaveBucket| bucket@,
            ).drop_last());
            return bucket;
        }
        None
    }
}

impl WaveView {
    /// The bucket that is released as number `turn`, counted from zero.
    pub open spec fn release(self, turn: int) -> BucketView {
        self.buckets[self.buckets.len() - 1 - turn]
    }
}

/// The views of a list of waves.
pub open spec fn wave_views(waves: Seq<Wave>) -> Seq<WaveView> {
    waves.map_values(|wave: Wave| wave@)
}

/// Where a wave stands in its life.
#[derive(Debug, Clone, Copy, PartialEq, Eq, Structural)]
pub enum WavePhase {
    /// The wave has not been polled yet.
    NotStarted,
    /// The wave has started and has buckets left.
    Active,
    /// The wave has released all its buckets, and its duration has not
    /// passed yet.
    Draining,
    /// The wave has released all its buckets and its duration has passed.
    Finished,
}

impl WavePhase {
    /// The place of a phase in the life of a wave.
    pub open spec fn rank(self) -> nat {
        match self {
            WavePhase::NotStarted => 0,
            WavePhase::Active => 1,
            WavePhase::Draining => 2,
            WavePhase::Finished => 3,
        }
    }
}

impl WaveView {
    /// The phase of the wave at the given time.
    pub open spec fn phase_at(self, now: nat) -> WavePhase {
        match self.start_time {
            None => WavePhase::NotStarted,
            Some(start) => if self.buckets.len() > 0 {
                WavePhase::Active
            } else if now - start >= self.duration {
                WavePhase::Finished
            } else {
                WavePhase::Draining
            },
        }
    }
}

impl Wave {
    /// The phase of the wave at the given time.
    pub fn phase(&self, time: u64) -> (phase: WavePhase)
        ensures
            phase == self@.phase_at(time as nat),
    {
        match self.start_time {
            None => WavePhase::NotStarted,
            Some(start) => if self.buckets.len() > 0 {
                WavePhase::Active
            } else if time >= start && time - start >= self.duration {
                WavePhase::Finished
            } else {
                WavePhase::Draining
            },
        }
    }
}

/// A wave is over exactly when its phase is the last one.
pub proof fn law_finished_is_last_phase(wave: WaveView, now: nat)
    ensures
        wave.finished_at(now) <==> wave.phase_at(now) == WavePhase::Finished,
{
}

/// A wave never goes back in its life: neither a poll nor the passing of
/// time takes it to an earlier phase.
pub proof fn law_phases_advance(wave: WaveView, now: nat, later: nat)
    requires
        now <= later,
    ensures
        wave.phase_at(now).rank() <= wave.phase_at(later).rank(),
        wave.phase_at(now).rank() <= wave.polled_at(now).phase_at(later).rank(),
{
}

/// The first poll of a wave that has not started releases its first bucket
/// at whatever time it comes and whatever the offset of that bucket, and
/// starts the wave at that time.
pub proof fn law_first_poll_releases(wave: WaveView, now: nat)
    requires
        wave.start_time is None,
        wave.buckets.len() > 0,
    ensures
        wave.released_at(now) == Some(wave.release(0)),
        wave.polled_at(now).start_time == Some(now),
        wave.polled_at(now).buckets == wave.buckets.drop_last(),
{
}

/// A wave that is over stays over: at every later time, and after every
/// later poll, which releases nothing and changes nothing.
pub proof fn law_finished_stays_finished(wave: WaveView, now: nat, later: nat)
    requires
        wave.finished_at(now),
        now <= later,
    ensures
        wave.finished_at(later),
        wave.released_at(later) is None,
        wave.polled_at(later) == wave,
{
}

/// A poll releases at most one bucket, and leaves the place, the speed and
/// the duration of the wave as they were. A wave that has started keeps the
/// time at which it started.
pub proof fn law_poll_releases_at_most_one(wave: WaveView, now: nat)
    ensures
        wave.buckets.len() - 1 <= wave.polled_at(now).buckets.len() <= wave.buckets.len(),
        wave.polled_at(now).index == wave.index,
        wave.polled_at(now).velocity == wave.velocity,
        wave.polled_at(now).duration == wave.duration,
        wave.start_time is Some ==> wave.polled_at(now).start_time == wave.start_time,
{
}

/// In a wave whose buckets are in order, a poll leaves them in order, and
/// the bucket released next is due strictly later than the one released
/// now.
pub proof fn law_releases_rise(wave: WaveView, now: nat)
    requires
        wave.ordered(),
        wave.releases_at(now),
    ensures
        wave.polled_at(now).ordered(),
        wave.buckets.len() > 1 ==> wave.release(0).spawn_offset < wave.release(1).spawn_offset,
{
    let after = wave.polled_at(now);
    assert forall|i: int, j: int| 0 <= i < j < after.buckets.len() implies (
    #[trigger] after.buckets[i]).spawn_offset > (#[trigger] after.buckets[j]).spawn_offset by {
        assert(after.buckets[i] == wave.buckets[i]);
        assert(after.buckets[j] == wave.buckets[j]);
    }
    if wave.buckets.len() > 1 {
        let last = wave.buckets.len() - 1;
        assert(wave.buckets[last - 1].spawn_offset > wave.buckets[last].spawn_offset);
    }
}

} // verus!
