//! The scheduler: it holds the compiled waves, moves from wave to wave as
//! each one ends, and releases at most one bucket for every tick.

use crate::builder::{create_waves, is_schedule_of, stock_plans};
use crate::random::Randomness;
use crate::waves::{released_view, wave_views, BucketView, Wave, WaveBucket, WaveView};
use vstd::prelude::*;

verus! {

/// The waves of a game: the one that is running and those that are still to
/// come.
#[derive(Debug)]
pub struct Waves {
    waves: Vec<Wave>,
    current_wave: Wave,
    wave_start_time: u64,
    running: bool,
}

/// What a scheduler is: the current wave, the waves to come with the next
/// one first, the time at which the current wave took over from the one
/// before it, and whether the scheduler is still running.
pub struct WavesView {
    pub current: WaveView,
    pub upcoming: Seq<WaveView>,
    pub wave_start_time: nat,
    pub running: bool,
}

impl WavesView {
    /// The scheduler after a tick at the given time. A stopped scheduler
    /// stays as it is. When the current wave is over, the next wave takes
    /// its place, or the scheduler stops if there is none. The wave that is
    /// current after that is polled.
    pub open spec fn polled_at(self, now: nat) -> WavesView {
        if !self.running {
            self
        } else if !self.current.finished_at(now) {
            WavesView { current: self.current.polled_at(now), ..self }
        } else if self.upcoming.len() == 0 {
            WavesView { running: false, ..self }
        } else {
            WavesView {
                current: self.upcoming.first().polled_at(now),
                upcoming: self.upcoming.drop_first(),
                wave_start_time: now,
                ..self
            }
        }
    }

    /// The bucket that a tick at the given time releases, if any.
    pub open spec fn released_at(self, now: nat) -> Option<BucketView> {
        if !self.running {
            None
        } else if !self.current.finished_at(now) {
            self.current.released_at(now)
        } else if self.upcoming.len() == 0 {
            None
        } else {
            self.upcoming.first().released_at(now)
        }
    }

    /// The waves of the scheduler in the order in which they run: the
    /// current one, then those to come.
    pub open spec fn schedule(self) -> Seq<WaveView> {
        seq![self.current] + self.upcoming
    }
}

impl View for Waves {
    type V = WavesView;

    closed spec fn view(&self) -> WavesView {
        WavesView {
            current: self.current_wave@,
            upcoming: wave_views(self.waves@).reverse(),
            wave_start_time: self.wave_start_time as nat,
            running: self.running,
        }
    }
}

impl Default for Waves {
    /// A running scheduler for the stock game.
    fn default() -> (waves: Waves)
        ensures
            waves@.running,
            waves@.wave_start_time == 0,
            is_schedule_of(stock_plans(), Randomness::Thread, waves@.schedule()),
    {
        let schedule = create_waves();
        assert(wave_views(schedule@).len() == stock_plans().len());
        let ghost views = wave_views(schedule@);
        let waves = Waves::new(schedule);
        assert(waves@.schedule() =~= views);
        waves
    }
}

impl Waves {
    /// A running scheduler for the given waves, which run in the order
    /// given. There must be at least one.
    pub fn new(waves: Vec<Wave>) -> (scheduler: Waves)
        requires
            waves@.len() > 0,
        ensures
            scheduler@ == (WavesView {
                current: waves@[0]@,
                upcoming: wave_views(waves@).drop_first(),
                wave_start_time: 0,
                running: true,
            }),
    {
        let ghost given = waves@;
        let mut waves = waves;
        let mut reversed: Vec<Wave> = Vec::new();
        while waves.len() > 0
            invariant
                waves@.len() + reversed@.len() == given.len(),
                forall|i: int| 0 <= i < waves@.len() ==> waves@[i] == given[i],
                forall|i: int|
                    0 <= i < reversed@.len() ==> reversed@[i] == given[given.len() - 1 - i],
            decreases waves@.len(),
        {
            let wave = waves.pop().unwrap();
            reversed.push(wave);
        }
        let current_wave = reversed.pop().unwrap();
        let scheduler = Waves { current_wave, waves: reversed, wave_start_time: 0, running: true };
        assert(scheduler@.upcoming =~= wave_views(given).drop_first());
        scheduler
    }

    /// Whether the scheduler is still running. It stops when its last wave
    /// is over.
    pub fn is_running(&self) -> (running: bool)
        ensures
            running == self@.running,
    {
        self.running
    }

    /// The wave that is running.
    pub fn current_wave(&self) -> (wave: &Wave)
        ensures
            wave@ == self@.current,
    {
        &self.current_wave
    }

    /// How many waves are still to come after the current one.
    pub fn upcoming(&self) -> (count: usize)
        ensures
            count == self@.upcoming.len(),
    {
        self.waves.len()
    }

    /// The time at which the current wave took over from the one before it;
    /// zero while the first wave runs.
    pub fn wave_start_time(&self) -> (time: u64)
        ensures
            time == self@.wave_start_time,
    {
        self.wave_start_time
    }

    /// One tick of the scheduler at the given time: moves on to the next
    /// wave if the current one is over, stops if there is none left, and
    /// otherwise polls the current wave. At most one bucket is released.
    pub fn poll(&mut self, now: u64) -> (bucket: Option<WaveBucket>)
        ensures
            released_view(bucket) == old(self)@.released_at(now as nat),
            final(self)@ == old(self)@.polled_at(now as nat),
    {
        if !self.running {
            return None;
        }
        if self.current_wave.is_finished(&now) {
            let ghost before = wave_views(self.waves@);
            //Next wave.
            if let Some(new_wave) = self.waves.pop() {
                self.current_wave = new_wave;
                assert(wave_views(self.waves@).reverse() =~= before.reverse().drop_first());
            } else {
                self.running = false;
                return None;
            }
            self.wave_start_time = now;
        }
        self.current_wave.get_bucket(now)
    }
}

/// A stopped scheduler releases nothing and never changes again.
pub proof fn law_stopped_stays_stopped(scheduler: WavesView, now: nat)
    requires
        !scheduler.running,
    ensures
        scheduler.released_at(now) is None,
        scheduler.polled_at(now) == scheduler,
{
}

/// A tick never adds a wave: the number of waves to come stays or falls by
/// one, and it falls only when the current wave is over.
pub proof fn law_tick_consumes_waves_in_order(scheduler: WavesView, now: nat)
    ensures
        scheduler.polled_at(now).upcoming == scheduler.upcoming || (scheduler.current.finished_at(
            now,
        ) && scheduler.upcoming.len() > 0 && scheduler.polled_at(now).upcoming
            == scheduler.upcoming.drop_first()),
{
}

} // verus!
