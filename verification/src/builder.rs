//! The authoring of waves and their compilation into a schedule.

use crate::random::{lemma_advanced_by_sum, Randomness};
use crate::targets::{TargetKind, TargetMeta};
use crate::waves::{wave_views, Wave, WaveView};
use crate::zones::ZoneId;
use vstd::prelude::*;

verus! {

/// How long a wave lasts unless the author says otherwise: ten seconds, in
/// ticks.
pub const DEFAULT_WAVE_DURATION: u64 = 10_000;

/// One wave as its author wrote it.
#[derive(Debug)]
struct BuilderWave {
    buckets: Vec<(TargetKind, isize)>,
    velocity: i32,
    duration: u64,
}

/// What an authored wave is: its buckets in the order in which they were
/// added, each a kind and a count, the speed of its targets and how long it
/// lasts.
pub struct WavePlan {
    pub buckets: Seq<(TargetKind, isize)>,
    pub velocity: int,
    pub duration: nat,
}

impl View for BuilderWave {
    type V = WavePlan;

    closed spec fn view(&self) -> WavePlan {
        WavePlan {
            buckets: self.buckets@,
            velocity: self.velocity as int,
            duration: self.duration as nat,
        }
    }
}

/// The authoring state: the waves written so far, and the speed and duration
/// that the next wave will get.
#[derive(Debug)]
pub struct WavesBuilder {
    waves: Vec<BuilderWave>,
    velocity: i32,
    velocity_increase: i32,
    duration: u64,
}

/// What a builder is: the plans of its waves in authoring order, the speed
/// that the next wave will get, the amount by which the speed grows with
/// every wave that is opened, and the duration that a wave gets by default.
pub struct BuilderView {
    pub waves: Seq<WavePlan>,
    pub velocity: int,
    pub velocity_increase: int,
    pub duration: nat,
}

impl BuilderView {
    /// A builder without waves.
    pub open spec fn fresh(velocity: int) -> BuilderView {
        BuilderView {
            waves: Seq::empty(),
            velocity,
            velocity_increase: 0,
            duration: DEFAULT_WAVE_DURATION as nat,
        }
    }

    /// The builder after a wave of the given duration is opened: the wave
    /// gets the current speed, and the speed then grows by the increase.
    pub open spec fn opened(self, duration: nat) -> BuilderView {
        BuilderView {
            waves: self.waves.push(
                WavePlan { buckets: Seq::empty(), velocity: self.velocity, duration },
            ),
            velocity: self.velocity + self.velocity_increase,
            ..self
        }
    }

    /// The builder after a bucket is added to its last wave. A builder
    /// without waves opens one of the default duration first.
    pub open spec fn with_bucket(self, kind: TargetKind, count: isize) -> BuilderView {
        let ready = if self.waves.len() == 0 {
            self.opened(self.duration)
        } else {
            self
        };
        let last = ready.waves.last();
        BuilderView {
            waves: ready.waves.update(
                ready.waves.len() - 1,
                WavePlan { buckets: last.buckets.push((kind, count)), ..last },
            ),
            ..ready
        }
    }

    /// The builder after the duration is set: of the last wave, if there is
    /// one, and of the waves to come.
    pub open spec fn with_duration(self, duration: nat) -> BuilderView {
        BuilderView {
            waves: if self.waves.len() == 0 {
                self.waves
            } else {
                self.waves.update(
                    self.waves.len() - 1,
                    WavePlan { duration, ..self.waves.last() },
                )
            },
            duration,
            ..self
        }
    }

    /// The builder after the speed is set: of the last wave, if there is
    /// one, and of the waves to come. Earlier waves keep their speed.
    pub open spec fn with_velocity(self, velocity: int) -> BuilderView {
        BuilderView {
            waves: if self.waves.len() == 0 {
                self.waves
            } else {
                self.waves.update(
                    self.waves.len() - 1,
                    WavePlan { velocity, ..self.waves.last() },
                )
            },
            velocity,
            ..self
        }
    }

    /// Whether the speed can grow by the increase once more without leaving
    /// the range of the machine type that holds it.
    pub open spec fn can_open(self) -> bool {
        i32::MIN <= self.velocity + self.velocity_increase <= i32::MAX
    }
}

impl View for WavesBuilder {
    type V = BuilderView;

    closed spec fn view(&self) -> BuilderView {
        BuilderView {
            waves: self.waves@.map_values(|wave: BuilderWave| wave@),
            velocity: self.velocity as int,
            velocity_increase: self.velocity_increase as int,
            duration: self.duration as nat,
        }
    }
}

impl Default for WavesBuilder {
    /// A builder without waves in which every number is zero.
    fn default() -> (builder: WavesBuilder)
        ensures
            builder@ == (BuilderView {
                waves: Seq::empty(),
                velocity: 0,
                velocity_increase: 0,
                duration: 0,
            }),
    {
        let builder = WavesBuilder {
            waves: Vec::new(),
            velocity: 0,
            velocity_increase: 0,
            duration: 0,
        };
        assert(builder@.waves =~= Seq::empty());
        builder
    }
}

impl WavesBuilder {
    /// A builder without waves, for targets of the given speed.
    pub fn new(velocity: i32) -> (builder: WavesBuilder)
        ensures
            builder@ == BuilderView::fresh(velocity as int),
    {
        let builder = WavesBuilder {
            waves: Vec::new(),
            velocity,
            velocity_increase: 0,
            duration: DEFAULT_WAVE_DURATION,
        };
        assert(builder@.waves =~= Seq::empty());
        builder
    }

    /// Whether a wave can be opened.
    pub open spec fn spec_can_open(&self) -> bool {
        self@.can_open()
    }

    /// Whether a wave can be opened: the speed must be able to grow by the
    /// increase without leaving the range of its type.
    #[verifier::when_used_as_spec(spec_can_open)]
    pub fn can_open(&self) -> (possible: bool)
        ensures
            possible == self.can_open(),
    {
        self.velocity.checked_add(self.velocity_increase).is_some()
    }

    /// Adds a bucket to the wave that was opened last, and opens a wave
    /// first if there is none yet.
    pub fn add(self, kind: TargetKind, count: isize) -> (builder: WavesBuilder)
        requires
            self@.waves.len() == 0 ==> self.can_open(),
        ensures
            builder@ == self@.with_bucket(kind, count),
    {
        let mut builder = if self.waves.len() == 0 {
            self.wave()
        } else {
            self
        };
        let ghost ready = builder@;
        assert(builder.waves@.len() == ready.waves.len());
        let last = builder.waves.len() - 1;
        builder.waves[last].buckets.push((kind, count));
        assert(builder@.waves =~= ready.waves.update(
            last as int,
            WavePlan {
                buckets: ready.waves.last().buckets.push((kind, count)),
                ..ready.waves.last()
            },
        ));
        builder
    }

    /// Opens a wave of the current default duration.
    pub fn wave(self) -> (builder: WavesBuilder)
        requires
            self.can_open(),
        ensures
            builder@ == self@.opened(self@.duration),
    {
        let mut builder = self;
        builder.waves.push(
            BuilderWave {
                velocity: builder.velocity,
                buckets: Vec::new(),
                duration: builder.duration,
            },
        );
        builder.velocity += builder.velocity_increase;
        assert(builder@.waves =~= self@.opened(self@.duration).waves);
        builder
    }

    /// Opens a wave of the given duration, in ticks.
    pub fn wave_with_duration(self, duration: u64) -> (builder: WavesBuilder)
        requires
            self.can_open(),
        ensures
            builder@ == self@.opened(duration as nat),
    {
        let mut builder = self;
        builder.waves.push(
            BuilderWave { velocity: builder.velocity, buckets: Vec::new(), duration },
        );
        builder.velocity += builder.velocity_increase;
        assert(builder@.waves =~= self@.opened(duration as nat).waves);
        builder
    }

    /// Sets the duration, in ticks, of the current wave and of the waves to
    /// come.
    pub fn set_duration(self, duration: u64) -> (builder: WavesBuilder)
        ensures
            builder@ == self@.with_duration(duration as nat),
    {
        let mut builder = self;
        let count = builder.waves.len();
        if count > 0 {
            builder.waves[count - 1].duration = duration;
        }
        builder.duration = duration;
        assert(builder@.waves =~= self@.with_duration(duration as nat).waves);
        builder
    }

    /// Sets the speed of the current wave and of the waves to come. The
    /// waves to come are faster by the configured increase, one after the
    /// other.
    pub fn set_vel(self, velocity: i32) -> (builder: WavesBuilder)
        ensures
            builder@ == self@.with_velocity(velocity as int),
    {
        let mut builder = self;
        let count = builder.waves.len();
        if count > 0 {
            builder.waves[count - 1].velocity = velocity;
        }
        builder.velocity = velocity;
        assert(builder@.waves =~= self@.with_velocity(velocity as int).waves);
        builder
    }

    /// Sets the amount by which the speed grows with every wave opened.
    pub fn set_vel_increase(self, velocity_increase: i32) -> (builder: WavesBuilder)
        ensures
            builder@ == (BuilderView { velocity_increase: velocity_increase as int, ..self@ }),
    {
        let mut builder = self;
        builder.velocity_increase = velocity_increase;
        builder
    }
}

impl WavePlan {
    /// The length of a slot: the duration of the wave is cut into as many
    /// slots of equal length as the wave has buckets.
    pub open spec fn slot_length(self) -> nat {
        self.duration / self.buckets.len()
    }

    /// Where slot number `slot` begins in a wave that begins `start` ticks
    /// into the schedule. A slot ends where the next one begins.
    pub open spec fn slot_start(self, start: nat, slot: int) -> int {
        start + self.slot_length() * slot
    }

    /// Whether the offset lies in slot number `slot` of a wave that begins
    /// `start` ticks into the schedule. Slots are half open.
    pub open spec fn in_slot(self, start: nat, slot: int, offset: nat) -> bool {
        self.slot_start(start, slot) <= offset < self.slot_start(start, slot + 1)
    }
}

/// Whether an authored wave holds a bucket.
pub open spec fn has_buckets() -> spec_fn(WavePlan) -> bool {
    |plan: WavePlan| plan.buckets.len() > 0
}

/// The authored waves that hold at least one bucket, in authoring order.
/// A wave without buckets is dropped from the schedule.
pub open spec fn surviving(plans: Seq<WavePlan>) -> Seq<WavePlan> {
    plans.filter(has_buckets())
}

/// The total duration of the first `count` plans.
pub open spec fn elapsed_before(plans: Seq<WavePlan>, count: int) -> nat
    decreases count,
{
    if count <= 0 {
        0
    } else {
        elapsed_before(plans, count - 1) + plans[count - 1].duration
    }
}

/// The number of buckets in the first `count` plans.
pub open spec fn buckets_before(plans: Seq<WavePlan>, count: int) -> nat
    decreases count,
{
    if count <= 0 {
        0
    } else {
        buckets_before(plans, count - 1) + plans[count - 1].buckets.len()
    }
}

/// Whether `wave` is what the plan compiles to as wave number `index` of a
/// schedule, `start` ticks into it, with offsets from the given source: a
/// wave that has not started, with the speed and the duration of the plan,
/// whose release number `i` has the kind and the count of bucket `i` of the
/// plan and, for its offset, the number `i` that the source yields, taken
/// from slot `i`.
pub open spec fn compiles(
    plan: WavePlan,
    index: nat,
    start: nat,
    source: Randomness,
    wave: WaveView,
) -> bool {
    &&& wave.index == index
    &&& wave.velocity == plan.velocity
    &&& wave.duration == plan.duration
    &&& wave.start_time is None
    &&& wave.buckets.len() == plan.buckets.len()
    &&& forall|i: int|
        0 <= i < plan.buckets.len() ==> {
            let bucket = #[trigger] wave.release(i);
            &&& bucket.kind == plan.buckets[i].0
            &&& bucket.count == plan.buckets[i].1
            &&& source.advanced_by(i as nat).may_yield(
                plan.slot_start(start, i),
                plan.slot_start(start, i + 1),
                bucket.spawn_offset as int,
            )
        }
}

/// Whether `waves` is a schedule compiled from the plans with offsets from
/// the given source: one wave for each plan, in order, each beginning where
/// the durations of the plans before it end, and each taking up the source
/// where the buckets of the plans before it have left it.
pub open spec fn is_schedule_of(
    plans: Seq<WavePlan>,
    source: Randomness,
    waves: Seq<WaveView>,
) -> bool {
    &&& waves.len() == plans.len()
    &&& forall|k: int|
        0 <= k < plans.len() ==> compiles(
            plans[k],
            k as nat,
            elapsed_before(plans, k),
            source.advanced_by(buckets_before(plans, k)),
            #[trigger] waves[k],
        )
}

/// Whether the plans can be compiled: every wave lasts at least as many
/// ticks as it has buckets, so that no slot is empty, and the durations
/// together fit the machine type that holds an offset.
pub open spec fn can_compile(plans: Seq<WavePlan>) -> bool {
    &&& forall|k: int|
        0 <= k < plans.len() ==> (#[trigger] plans[k]).buckets.len() <= plans[k].duration
    &&& elapsed_before(plans, plans.len() as int) <= u64::MAX
}

/// The survivors among the first `count` plans are the first of the
/// survivors among all.
proof fn lemma_survivors_so_far(plans: Seq<WavePlan>, count: int)
    requires
        0 <= count <= plans.len(),
    ensures
        surviving(plans.take(count)).len() <= surviving(plans).len(),
        surviving(plans.take(count)) == surviving(plans).take(
            surviving(plans.take(count)).len() as int,
        ),
{
    let head = plans.take(count);
    let tail = plans.skip(count);
    assert(plans =~= head + tail);
    Seq::filter_distributes_over_add(head, tail, has_buckets());
    assert(surviving(plans) =~= surviving(head) + surviving(tail));
    assert(surviving(head) =~= surviving(plans).take(surviving(head).len() as int));
}

/// A plan without buckets leaves no trace in the schedule; a plan with
/// buckets is scheduled after all the plans before it.
pub proof fn law_waves_without_buckets_are_dropped(plans: Seq<WavePlan>, plan: WavePlan)
    ensures
        surviving(plans.push(plan)) == if plan.buckets.len() > 0 {
            surviving(plans).push(plan)
        } else {
            surviving(plans)
        },
{
    reveal(Seq::filter);
    assert(plans.push(plan).drop_last() =~= plans);
}

/// The survivors among the first `count + 1` plans are those among the first
/// `count`, followed by plan number `count` if it holds a bucket.
proof fn lemma_survivors_step(plans: Seq<WavePlan>, count: int)
    requires
        0 <= count < plans.len(),
    ensures
        surviving(plans.take(count + 1)) == if plans[count].buckets.len() > 0 {
            surviving(plans.take(count)).push(plans[count])
        } else {
            surviving(plans.take(count))
        },
{
    assert(plans.take(count + 1) =~= plans.take(count).push(plans[count]));
    law_waves_without_buckets_are_dropped(plans.take(count), plans[count]);
}

/// The total duration of the first `count` plans depends on those plans
/// alone.
proof fn lemma_elapsed_of_prefix(first: Seq<WavePlan>, second: Seq<WavePlan>, count: int)
    requires
        0 <= count <= first.len(),
        count <= second.len(),
        forall|k: int| 0 <= k < count ==> first[k] == second[k],
    ensures
        elapsed_before(first, count) == elapsed_before(second, count),
    decreases count,
{
    if count > 0 {
        lemma_elapsed_of_prefix(first, second, count - 1);
    }
}

/// The number of buckets in the first `count` plans depends on those plans
/// alone.
proof fn lemma_buckets_of_prefix(first: Seq<WavePlan>, second: Seq<WavePlan>, count: int)
    requires
        0 <= count <= first.len(),
        count <= second.len(),
        forall|k: int| 0 <= k < count ==> first[k] == second[k],
    ensures
        buckets_before(first, count) == buckets_before(second, count),
    decreases count,
{
    if count > 0 {
        lemma_buckets_of_prefix(first, second, count - 1);
    }
}

/// The total duration grows with the number of plans counted.
proof fn lemma_elapsed_grows(plans: Seq<WavePlan>, fewer: int, more: int)
    requires
        fewer <= more,
    ensures
        elapsed_before(plans, fewer) <= elapsed_before(plans, more),
    decreases more - fewer,
{
    if fewer < more {
        lemma_elapsed_grows(plans, fewer, more - 1);
    }
}

impl BuilderWave {
    /// Compiles the wave as number `index` of a schedule, `start` ticks into
    /// it: takes an offset for each bucket from the source, within the slot
    /// of that bucket.
    fn compile(&self, index: usize, start: u64, source: &mut Randomness) -> (wave: Wave)
        requires
            0 < self@.buckets.len() <= self@.duration,
            start + self@.duration <= u64::MAX,
        ensures
            compiles(self@, index as nat, start as nat, *old(source), wave@),
            *final(source) == old(source).advanced_by(self@.buckets.len()),
    {
        let count = self.buckets.len();
        // The length of time within which a bucket can be spawned.
        let bucket_duration = self.duration / (count as u64);
        proof {
            let (d, n) = (self.duration as int, count as int);
            assert(d / n >= 1 && (d / n) * n <= d) by (nonlinear_arith)
                requires
                    0 < n <= d,
            ;
        }
        let mut releases: Vec<(TargetKind, isize, u64)> = Vec::new();
        let mut i: usize = 0;
        while i < count
            invariant
                i <= count,
                count == self.buckets@.len(),
                self@.buckets == self.buckets@,
                bucket_duration == self@.slot_length(),
                bucket_duration >= 1,
                bucket_duration * count <= self.duration,
                start + self.duration <= u64::MAX,
                releases@.len() == i,
                *source == old(source).advanced_by(i as nat),
                forall|j: int|
                    0 <= j < i ==> {
                        let release = #[trigger] releases@[j];
                        &&& release.0 == self.buckets@[j].0
                        &&& release.1 == self.buckets@[j].1
                        &&& old(source).advanced_by(j as nat).may_yield(
                            self@.slot_start(start as nat, j),
                            self@.slot_start(start as nat, j + 1),
                            release.2 as int,
                        )
                    },
            decreases count - i,
        {
            let (kind, amount) = self.buckets[i];
            proof {
                let (length, turn, n) = (bucket_duration as int, i as int, count as int);
                assert(0 <= length * turn < length * (turn + 1) <= length * n) by (nonlinear_arith)
                    requires
                        length >= 1,
                        0 <= turn < n,
                ;
            }
            let offset_start = start + bucket_duration * (i as u64);
            let offset_end = start + bucket_duration * ((i + 1) as u64);
            let spawn_offset = source.offset_between(offset_start, offset_end);
            releases.push((kind, amount, spawn_offset));
            i += 1;
        }
        let wave = Wave::scheduled(index, self.velocity, self.duration, releases);
        proof {
            assert forall|turn: int| 0 <= turn < self@.buckets.len() implies {
                let bucket = #[trigger] wave@.release(turn);
                &&& bucket.kind == self@.buckets[turn].0
                &&& bucket.count == self@.buckets[turn].1
                &&& old(source).advanced_by(turn as nat).may_yield(
                    self@.slot_start(start as nat, turn),
                    self@.slot_start(start as nat, turn + 1),
                    bucket.spawn_offset as int,
                )
            } by {
                let release = releases@[turn];
                assert(release.0 == self.buckets@[turn].0);
            }
        }
        wave
    }
}

impl WavesBuilder {
    /// Whether the waves written so far can be compiled.
    pub open spec fn spec_is_buildable(&self) -> bool {
        can_compile(surviving(self@.waves))
    }

    /// Whether the waves written so far can be compiled: every wave that
    /// holds buckets lasts at least as many ticks as it has buckets, and the
    /// durations of those waves together fit the type of an offset.
    #[verifier::when_used_as_spec(spec_is_buildable)]
    pub fn is_buildable(&self) -> (buildable: bool)
        ensures
            buildable == self.is_buildable(),
    {
        let ghost plans = self@.waves;
        let ghost all = surviving(plans);
        let mut total: u64 = 0;
        let mut position: usize = 0;
        while position < self.waves.len()
            invariant
                position <= self.waves@.len(),
                plans == self@.waves,
                plans.len() == self.waves@.len(),
                all == surviving(plans),
                total == elapsed_before(
                    surviving(plans.take(position as int)),
                    surviving(plans.take(position as int)).len() as int,
                ),
                forall|k: int|
                    0 <= k < surviving(plans.take(position as int)).len() ==> (#[trigger] surviving(
                        plans.take(position as int),
                    )[k]).buckets.len() <= surviving(plans.take(position as int))[k].duration,
            decreases self.waves@.len() - position,
        {
            let wave = &self.waves[position];
            let ghost done = surviving(plans.take(position as int));
            let ghost next = surviving(plans.take(position + 1));
            proof {
                assert(plans[position as int] == wave@);
                lemma_survivors_step(plans, position as int);
                lemma_survivors_so_far(plans, position + 1);
            }
            if wave.buckets.len() > 0 {
                proof {
                    lemma_elapsed_of_prefix(next, done, done.len() as int);
                    lemma_elapsed_of_prefix(next, all, next.len() as int);
                    lemma_elapsed_grows(all, next.len() as int, all.len() as int);
                    assert(all[done.len() as int] == wave@);
                }
                if (wave.buckets.len() as u64) > wave.duration {
                    return false;
                }
                match total.checked_add(wave.duration) {
                    Some(sum) => {
                        total = sum;
                    },
                    None => {
                        return false;
                    },
                }
            }
            position += 1;
        }
        proof {
            assert(plans.take(position as int) =~= plans);
        }
        true
    }

    /// Compiles the waves written so far into a schedule, with offsets from
    /// the given source. Waves without buckets are dropped; the others are
    /// numbered from zero in authoring order, and each takes the offsets of
    /// its buckets from its own slots, one number of the source for each
    /// bucket, in authoring order.
    pub fn build_with(self, source: &mut Randomness) -> (waves: Vec<Wave>)
        requires
            self.is_buildable(),
        ensures
            is_schedule_of(surviving(self@.waves), *old(source), wave_views(waves@)),
            keeps_windows(wave_views(waves@)),
            *final(source) == old(source).advanced_by(
                buckets_before(surviving(self@.waves), surviving(self@.waves).len() as int),
            ),
    {
        let ghost plans = self@.waves;
        let ghost all = surviving(plans);
        let authored = self.waves;
        let mut spawn_start_offset: u64 = 0;
        let mut waves: Vec<Wave> = Vec::new();
        let mut position: usize = 0;
        while position < authored.len()
            invariant
                position <= authored@.len(),
                plans == authored@.map_values(|wave: BuilderWave| wave@),
                all == surviving(plans),
                can_compile(all),
                spawn_start_offset == elapsed_before(
                    surviving(plans.take(position as int)),
                    surviving(plans.take(position as int)).len() as int,
                ),
                *source == old(source).advanced_by(
                    buckets_before(
                        surviving(plans.take(position as int)),
                        surviving(plans.take(position as int)).len() as int,
                    ),
                ),
                is_schedule_of(
                    surviving(plans.take(position as int)),
                    *old(source),
                    wave_views(waves@),
                ),
            decreases authored@.len() - position,
        {
            let wave = &authored[position];
            let ghost done = surviving(plans.take(position as int));
            let ghost next = surviving(plans.take(position + 1));
            proof {
                assert(plans[position as int] == wave@);
                lemma_survivors_step(plans, position as int);
                lemma_survivors_so_far(plans, position + 1);
            }
            if wave.buckets.len() > 0 {
                proof {
                    lemma_elapsed_of_prefix(next, done, done.len() as int);
                    lemma_elapsed_of_prefix(next, all, next.len() as int);
                    lemma_elapsed_grows(all, next.len() as int, all.len() as int);
                    lemma_buckets_of_prefix(next, done, done.len() as int);
                    assert(all[done.len() as int] == wave@);
                }
                let ghost before = wave_views(waves@);
                let ghost taken = buckets_before(done, done.len() as int);
                let compiled = wave.compile(waves.len(), spawn_start_offset, source);
                waves.push(compiled);
                spawn_start_offset += wave.duration;
                proof {
                    let after = wave_views(waves@);
                    assert(after =~= before.push(compiled@));
                    lemma_advanced_by_sum(*old(source), taken, wave@.buckets.len());
                    assert forall|k: int| 0 <= k < next.len() implies compiles(
                        next[k],
                        k as nat,
                        elapsed_before(next, k),
                        old(source).advanced_by(buckets_before(next, k)),
                        #[trigger] after[k],
                    ) by {
                        lemma_elapsed_of_prefix(next, done, k);
                        lemma_buckets_of_prefix(next, done, k);
                        if k < done.len() {
                            assert(after[k] == before[k]);
                        }
                    }
                }
            }
            position += 1;
        }
        proof {
            assert(plans.take(position as int) =~= plans);
            law_schedule_keeps_windows(all, *old(source), wave_views(waves@));
        }
        waves
    }

    /// Compiles the waves written so far into a schedule. Waves without
    /// buckets are dropped; the others are numbered from zero in authoring
    /// order, and each draws the offsets of its buckets from its own slots
    /// with the thread-local generator. No bucket of a wave is due before
    /// the durations of all earlier waves have passed.
    pub fn build(self) -> (waves: Vec<Wave>)
        requires
            self.is_buildable(),
        ensures
            is_schedule_of(surviving(self@.waves), Randomness::Thread, wave_views(waves@)),
            keeps_windows(wave_views(waves@)),
    {
        let mut source = Randomness::Thread;
        self.build_with(&mut source)
    }

    /// Compiles the waves written so far into a schedule if they can be
    /// compiled, and gives nothing if they cannot.
    pub fn try_build(self) -> (waves: Option<Vec<Wave>>)
        ensures
            waves is Some <==> self.is_buildable(),
            waves matches Some(waves) ==> {
                &&& is_schedule_of(
                    surviving(self@.waves),
                    Randomness::Thread,
                    wave_views(waves@),
                )
                &&& keeps_windows(wave_views(waves@))
            },
    {
        if self.is_buildable() {
            Some(self.build())
        } else {
            None
        }
    }
}

/// The total duration of the first `count` waves of a schedule.
pub open spec fn duration_before(waves: Seq<WaveView>, count: int) -> nat
    decreases count,
{
    if count <= 0 {
        0
    } else {
        duration_before(waves, count - 1) + waves[count - 1].duration
    }
}

/// Whether every offset of every wave lies within the window of that wave:
/// not before the durations of all earlier waves have passed, and before the
/// duration of the wave itself has passed as well.
pub open spec fn keeps_windows(waves: Seq<WaveView>) -> bool {
    forall|wave: int, bucket: int|
        0 <= wave < waves.len() && 0 <= bucket < waves[wave].buckets.len() ==> {
            let offset = (#[trigger] waves[wave].buckets[bucket]).spawn_offset;
            duration_before(waves, wave) <= offset < duration_before(waves, wave)
                + waves[wave].duration
        }
}

/// The total duration grows with the number of waves counted.
proof fn lemma_duration_grows(waves: Seq<WaveView>, fewer: int, more: int)
    requires
        fewer <= more,
    ensures
        duration_before(waves, fewer) <= duration_before(waves, more),
    decreases more - fewer,
{
    if fewer < more {
        lemma_duration_grows(waves, fewer, more - 1);
    }
}

/// Where every wave keeps to its window, no bucket of a later wave is due
/// before a bucket of an earlier wave, nor at the same time: there is no
/// reordering across waves.
pub proof fn law_no_reordering_across_waves(
    waves: Seq<WaveView>,
    earlier: int,
    early_bucket: int,
    later: int,
    late_bucket: int,
)
    requires
        keeps_windows(waves),
        0 <= earlier < later < waves.len(),
        0 <= early_bucket < waves[earlier].buckets.len(),
        0 <= late_bucket < waves[later].buckets.len(),
    ensures
        duration_before(waves, later) <= waves[later].buckets[late_bucket].spawn_offset,
        waves[earlier].buckets[early_bucket].spawn_offset
            < waves[later].buckets[late_bucket].spawn_offset,
{
    lemma_duration_grows(waves, earlier + 1, later);
    assert(duration_before(waves, earlier + 1) == duration_before(waves, earlier)
        + waves[earlier].duration);
}

/// The waves of a compiled schedule last as long as their plans.
proof fn lemma_durations_agree(
    plans: Seq<WavePlan>,
    source: Randomness,
    waves: Seq<WaveView>,
    count: int,
)
    requires
        is_schedule_of(plans, source, waves),
        0 <= count <= waves.len(),
    ensures
        duration_before(waves, count) == elapsed_before(plans, count),
    decreases count,
{
    if count > 0 {
        lemma_durations_agree(plans, source, waves, count - 1);
        assert(compiles(
            plans[count - 1],
            (count - 1) as nat,
            elapsed_before(plans, count - 1),
            source.advanced_by(buckets_before(plans, count - 1)),
            waves[count - 1],
        ));
    }
}

/// Every wave of a schedule compiled from authored waves holds a bucket, so
/// that its first poll starts it and no such wave holds a scheduler up.
pub proof fn law_compiled_waves_hold_buckets(
    authored: Seq<WavePlan>,
    source: Randomness,
    waves: Seq<WaveView>,
    wave: int,
)
    requires
        is_schedule_of(surviving(authored), source, waves),
        0 <= wave < waves.len(),
    ensures
        waves[wave].buckets.len() > 0,
{
    authored.lemma_filter_pred(has_buckets(), wave);
    assert(compiles(
        surviving(authored)[wave],
        wave as nat,
        elapsed_before(surviving(authored), wave),
        source.advanced_by(buckets_before(surviving(authored), wave)),
        waves[wave],
    ));
}

/// In a compiled schedule, whatever the source of its offsets, release
/// number `turn` of every wave has the kind and the count of bucket `turn`
/// of the plan of that wave, and an offset in slot `turn` of that wave.
pub proof fn law_offsets_in_slots(
    plans: Seq<WavePlan>,
    source: Randomness,
    waves: Seq<WaveView>,
    wave: int,
    turn: int,
)
    requires
        is_schedule_of(plans, source, waves),
        0 <= wave < waves.len(),
        0 <= turn < waves[wave].buckets.len(),
    ensures
        waves[wave].release(turn).kind == plans[wave].buckets[turn].0,
        waves[wave].release(turn).count == plans[wave].buckets[turn].1,
        plans[wave].in_slot(
            elapsed_before(plans, wave),
            turn,
            waves[wave].release(turn).spawn_offset,
        ),
{
    assert(compiles(
        plans[wave],
        wave as nat,
        elapsed_before(plans, wave),
        source.advanced_by(buckets_before(plans, wave)),
        waves[wave],
    ));
}

/// In a compiled schedule every offset of a wave lies within the window of
/// that wave: not before the durations of all earlier waves have passed, and
/// before the duration of the wave itself has passed as well. So no bucket
/// of a later wave is due before a bucket of an earlier one.
pub proof fn law_offsets_within_window(
    plans: Seq<WavePlan>,
    source: Randomness,
    waves: Seq<WaveView>,
    wave: int,
    bucket: int,
)
    requires
        is_schedule_of(plans, source, waves),
        0 <= wave < waves.len(),
        0 <= bucket < waves[wave].buckets.len(),
    ensures
        duration_before(waves, wave) <= waves[wave].buckets[bucket].spawn_offset,
        waves[wave].buckets[bucket].spawn_offset < duration_before(waves, wave)
            + waves[wave].duration,
{
    lemma_durations_agree(plans, source, waves, wave);
    let plan = plans[wave];
    let compiled = waves[wave];
    let count = plan.buckets.len() as int;
    let turn = count - 1 - bucket;
    assert(compiled.release(turn) == compiled.buckets[bucket]);
    let length = plan.slot_length() as int;
    assert(0 <= length * turn && length * (turn + 1) <= length * count && length * count
        <= plan.duration) by (nonlinear_arith)
        requires
            0 <= turn < count,
            length == plan.duration as int / count,
    ;
}

/// In a compiled schedule, whatever the source of its offsets, every wave
/// keeps to its window.
pub proof fn law_schedule_keeps_windows(
    plans: Seq<WavePlan>,
    source: Randomness,
    waves: Seq<WaveView>,
)
    requires
        is_schedule_of(plans, source, waves),
    ensures
        keeps_windows(waves),
{
    assert forall|wave: int, bucket: int|
        0 <= wave < waves.len() && 0 <= bucket < waves[wave].buckets.len() implies {
        let offset = (#[trigger] waves[wave].buckets[bucket]).spawn_offset;
        duration_before(waves, wave) <= offset < duration_before(waves, wave)
            + waves[wave].duration
    } by {
        law_offsets_within_window(plans, source, waves, wave, bucket);
    }
}

/// In a compiled schedule the buckets of every wave are in order: they are
/// stored with strictly falling offsets, the next to release last.
pub proof fn law_schedule_is_ordered(
    plans: Seq<WavePlan>,
    source: Randomness,
    waves: Seq<WaveView>,
    wave: int,
)
    requires
        is_schedule_of(plans, source, waves),
        0 <= wave < waves.len(),
    ensures
        waves[wave].ordered(),
{
    let plan = plans[wave];
    let compiled = waves[wave];
    let count = plan.buckets.len() as int;
    let length = plan.slot_length() as int;
    assert forall|i: int, j: int| 0 <= i < j < compiled.buckets.len() implies (
    #[trigger] compiled.buckets[i]).spawn_offset > (
    #[trigger] compiled.buckets[j]).spawn_offset by {
        let (early, late) = (count - 1 - j, count - 1 - i);
        assert(compiled.release(early) == compiled.buckets[j]);
        assert(compiled.release(late) == compiled.buckets[i]);
        assert(length * (early + 1) <= length * late) by (nonlinear_arith)
            requires
                0 <= early < late,
                0 <= length,
        ;
    }
}

/// The plans of the stock game: seven waves of friendly targets that fall
/// from the top band, the last of them a hundred targets at great speed.
pub open spec fn stock_plans() -> Seq<WavePlan> {
    let regular = TargetKind::Regular(
        TargetMeta {
            angry: false,
            origin_zone: ZoneId::Top,
            destination_zone: ZoneId::Bottom,
        },
    );
    seq![
        WavePlan { buckets: seq![(regular, 1isize)], velocity: 40, duration: 6_000 },
        WavePlan { buckets: seq![(regular, 2isize)], velocity: 42, duration: 2_000 },
        WavePlan {
            buckets: seq![(regular, 4isize), (regular, 2isize), (regular, 1isize)],
            velocity: 44,
            duration: 10_000,
        },
        WavePlan { buckets: seq![(regular, 4isize)], velocity: 46, duration: 6_000 },
        WavePlan { buckets: seq![(regular, 4isize)], velocity: 54, duration: 6_000 },
        WavePlan { buckets: seq![(regular, 4isize)], velocity: 62, duration: 6_000 },
        WavePlan { buckets: seq![(regular, 100isize)], velocity: 1000, duration: 6_000 },
    ]
}

/// The schedule of the stock game.
pub fn create_waves() -> (waves: Vec<Wave>)
    ensures
        is_schedule_of(stock_plans(), Randomness::Thread, wave_views(waves@)),
        keeps_windows(wave_views(waves@)),
{
    let regular = TargetKind::Regular(TargetMeta::down());
    let builder = WavesBuilder::new(40)
        .set_vel_increase(2)
        .set_duration(6_000)
        .wave()
        .add(regular, 1);
    assert(builder@.waves =~~= stock_plans().take(1));
    let builder = builder.wave_with_duration(2_000).add(regular, 2);
    assert(builder@.waves =~~= stock_plans().take(2));
    let builder = builder
        .wave_with_duration(10_000)
        .add(regular, 4)
        .add(regular, 2)
        .add(regular, 1);
    assert(builder@.waves[2].buckets =~= stock_plans()[2].buckets);
    assert(builder@.waves =~~= stock_plans().take(3));
    let builder = builder.set_vel_increase(8).wave().add(regular, 4);
    assert(builder@.waves =~~= stock_plans().take(4));
    let builder = builder.wave().add(regular, 4);
    assert(builder@.waves =~~= stock_plans().take(5));
    let builder = builder.wave().add(regular, 4);
    assert(builder@.waves =~~= stock_plans().take(6));
    let builder = builder.wave().set_vel(1000).add(regular, 100);
    proof {
        assert(builder@.waves =~~= stock_plans());
        reveal_with_fuel(Seq::filter, 8);
        assert(surviving(stock_plans()) =~= stock_plans());
        reveal_with_fuel(elapsed_before, 8);
    }
    builder.build()
}

} // verus!
