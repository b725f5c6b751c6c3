use wave_director::scheduler::Waves;
use wave_director::targets::{TargetKind, TargetMeta};
use wave_director::builder::WavesBuilder;
use wave_director::waves::Wave;

fn regular() -> TargetKind {
    TargetKind::Regular(TargetMeta::down())
}

fn two_waves() -> Waves {
    Waves::new(vec![
        Wave::scheduled(0, 10, 1_000, vec![(regular(), 1, 100), (regular(), 2, 600)]),
        Wave::scheduled(1, 20, 500, vec![(regular(), 3, 1_200), (regular(), 4, 1_400)]),
    ])
}

#[test]
fn new_scheduler_runs_its_first_wave() {
    let waves = two_waves();
    assert!(waves.is_running());
    assert_eq!(waves.current_wave().index, 0);
    assert_eq!(waves.current_wave().velocity, 10);
    assert_eq!(waves.upcoming(), 1);
    assert_eq!(waves.wave_start_time(), 0);
}

#[test]
fn scheduler_walks_through_its_waves() {
    let mut waves = two_waves();
    // The first tick starts the first wave and releases its first bucket.
    assert_eq!(waves.poll(50).unwrap().count, 1);
    assert_eq!(waves.current_wave().start_time(), Some(50));
    assert!(waves.poll(60).is_none());
    assert!(waves.poll(649).is_none());
    assert_eq!(waves.poll(650).unwrap().count, 2);
    // The wave drains until its duration has passed.
    assert!(waves.poll(651).is_none());
    assert!(waves.poll(1_049).is_none());
    assert_eq!(waves.current_wave().index, 0);
    assert_eq!(waves.upcoming(), 1);
    // Then the next wave takes over and releases its first bucket at once.
    let bucket = waves.poll(1_050).unwrap();
    assert_eq!(bucket.count, 3);
    assert_eq!(waves.current_wave().index, 1);
    assert_eq!(waves.current_wave().velocity, 20);
    assert_eq!(waves.current_wave().start_time(), Some(1_050));
    assert_eq!(waves.wave_start_time(), 1_050);
    assert_eq!(waves.upcoming(), 0);
    // Its second bucket waits for its offset since the wave took over.
    assert!(waves.poll(2_449).is_none());
    assert_eq!(waves.poll(2_450).unwrap().count, 4);
    assert!(waves.is_running());
    // The last wave is over at once, its duration having long passed: the
    // scheduler stops.
    assert!(waves.poll(2_451).is_none());
    assert!(!waves.is_running());
}

#[test]
fn stopped_scheduler_does_nothing() {
    let mut waves = Waves::new(vec![Wave::scheduled(0, 1, 10, vec![(regular(), 1, 0)])]);
    assert!(waves.poll(0).is_some());
    assert!(waves.poll(9).is_none());
    assert!(waves.is_running());
    assert!(waves.poll(10).is_none());
    assert!(!waves.is_running());
    for now in [10, 11, 1_000, u64::MAX] {
        assert!(waves.poll(now).is_none());
        assert!(!waves.is_running());
        assert_eq!(waves.current_wave().index, 0);
        assert_eq!(waves.upcoming(), 0);
        assert_eq!(waves.wave_start_time(), 0);
    }
}

#[test]
fn one_tick_releases_one_bucket_at_most() {
    let mut waves = two_waves();
    assert_eq!(waves.poll(1_000_000).unwrap().count, 1);
    // Both the second bucket and the end of the wave are long due: one tick
    // releases the bucket, the next one moves on to the second wave.
    assert_eq!(waves.poll(2_000_000).unwrap().count, 2);
    assert_eq!(waves.current_wave().index, 0);
    assert_eq!(waves.poll(2_000_000).unwrap().count, 3);
    assert_eq!(waves.current_wave().index, 1);
    assert!(waves.poll(2_000_000).is_none());
    assert_eq!(waves.poll(3_000_000).unwrap().count, 4);
    assert!(waves.is_running());
    assert!(waves.poll(3_000_000).is_none());
    assert!(!waves.is_running());
}

#[test]
fn every_bucket_is_released_once_and_in_order() {
    let mut waves = two_waves();
    let mut released = Vec::new();
    let mut now = 0;
    while waves.is_running() {
        if let Some(bucket) = waves.poll(now) {
            released.push((waves.current_wave().index, bucket.count));
        }
        now += 7;
        assert!(now < 100_000);
    }
    assert_eq!(released, vec![(0, 1), (0, 2), (1, 3), (1, 4)]);
}

#[test]
fn wave_without_buckets_holds_the_scheduler_up() {
    // Such a wave never starts, so it is never over.
    let mut waves = Waves::new(vec![
        Wave::scheduled(0, 1, 10, vec![]),
        Wave::scheduled(1, 1, 10, vec![(regular(), 1, 0)]),
    ]);
    for now in [0, 10, 1_000, u64::MAX] {
        assert!(waves.poll(now).is_none());
        assert!(waves.is_running());
        assert_eq!(waves.current_wave().index, 0);
    }
}

#[test]
fn scheduler_runs_a_compiled_schedule() {
    let schedule = WavesBuilder::new(10)
        .set_vel_increase(5)
        .wave_with_duration(3)
        .add(regular(), 1)
        .add(regular(), 2)
        .add(regular(), 3)
        .wave()
        .wave_with_duration(2)
        .add(regular(), 4)
        .add(regular(), 5)
        .build();
    let mut waves = Waves::new(schedule);
    let mut log = Vec::new();
    let mut now = 100;
    while waves.is_running() {
        if let Some(bucket) = waves.poll(now) {
            log.push((now, waves.current_wave().index, waves.current_wave().velocity, bucket.count));
        }
        now += 1;
        assert!(now < 1_000);
    }
    // The offsets of the second wave are 3 and 4: they count from the start
    // of the schedule, and are measured from the start of the wave.
    assert_eq!(
        log,
        vec![(100, 0, 10, 1), (101, 0, 10, 2), (102, 0, 10, 3), (103, 1, 20, 4), (107, 1, 20, 5)]
    );
    assert_eq!(now, 108 + 1);
}

#[test]
fn default_scheduler_runs_the_stock_schedule() {
    let mut waves = Waves::default();
    assert!(waves.is_running());
    assert_eq!(waves.upcoming(), 6);
    assert_eq!(waves.current_wave().index, 0);
    assert_eq!(waves.current_wave().velocity, 40);
    assert_eq!(waves.wave_start_time(), 0);
    let mut total: isize = 0;
    let mut now: u64 = 0;
    while waves.is_running() {
        if let Some(bucket) = waves.poll(now) {
            total += bucket.count;
        }
        now += 16;
        assert!(now < 10_000_000);
    }
    assert_eq!(total, 1 + 2 + 4 + 2 + 1 + 4 + 4 + 4 + 100);
    assert_eq!(waves.current_wave().index, 6);
}
