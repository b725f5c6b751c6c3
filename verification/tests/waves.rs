use wave_director::targets::{TargetKind, TargetMeta};
use wave_director::waves::{Wave, WavePhase};

fn regular() -> TargetKind {
    TargetKind::Regular(TargetMeta::down())
}

fn bubble() -> TargetKind {
    TargetKind::Bubble(TargetMeta::up())
}

#[test]
fn first_bucket_is_released_at_once() {
    for now in [0, 1, 999, 1_000_000, u64::MAX] {
        let mut wave =
            Wave::scheduled(0, 1, 10, vec![(regular(), 4, 9_000_000), (bubble(), 5, 9_500_000)]);
        assert_eq!(wave.phase(now), WavePhase::NotStarted);
        let bucket = wave.get_bucket(now).unwrap();
        assert_eq!(bucket.kind, regular());
        assert_eq!(bucket.count, 4);
        assert_eq!(bucket.spawn_offset(), 9_000_000);
        assert_eq!(wave.start_time(), Some(now));
        assert_eq!(wave.remaining(), 1);
        assert_eq!(wave.phase(now), WavePhase::Active);
    }
}

#[test]
fn later_buckets_wait_for_their_offsets() {
    let mut wave = Wave::scheduled(
        3,
        55,
        1_000,
        vec![(regular(), 1, 100), (regular(), 2, 400), (regular(), 3, 900)],
    );
    assert_eq!(wave.index(), 3);
    assert_eq!(wave.velocity(), 55);
    assert_eq!(wave.get_bucket(5_000).unwrap().count, 1);
    assert!(wave.get_bucket(5_000).is_none());
    assert!(wave.get_bucket(5_399).is_none());
    assert_eq!(wave.remaining(), 2);
    assert_eq!(wave.get_bucket(5_400).unwrap().count, 2);
    assert!(wave.get_bucket(5_400).is_none());
    assert!(wave.get_bucket(5_899).is_none());
    assert_eq!(wave.get_bucket(5_900).unwrap().count, 3);
    assert!(wave.get_bucket(5_900).is_none());
    assert!(wave.get_bucket(u64::MAX).is_none());
    assert_eq!(wave.start_time(), Some(5_000));
    assert_eq!(wave.index(), 3);
    assert_eq!(wave.velocity(), 55);
    assert_eq!(wave.duration(), 1_000);
}

#[test]
fn one_poll_releases_one_bucket_however_many_are_due() {
    let mut wave = Wave::scheduled(
        0,
        1,
        1_000,
        vec![(regular(), 1, 100), (regular(), 2, 200), (regular(), 3, 300)],
    );
    assert_eq!(wave.get_bucket(0).unwrap().count, 1);
    assert_eq!(wave.get_bucket(10_000).unwrap().count, 2);
    assert_eq!(wave.remaining(), 1);
    assert_eq!(wave.get_bucket(10_000).unwrap().count, 3);
    assert!(wave.get_bucket(10_000).is_none());
}

#[test]
fn clock_that_runs_backwards_releases_nothing() {
    let mut wave = Wave::scheduled(0, 1, 10, vec![(regular(), 1, 0), (regular(), 2, 0)]);
    assert!(wave.get_bucket(1_000).is_some());
    assert!(wave.get_bucket(999).is_none());
    assert!(wave.get_bucket(0).is_none());
    assert_eq!(wave.get_bucket(1_000).unwrap().count, 2);
    assert!(!wave.is_finished(&999));
    assert!(!wave.is_finished(&0));
    assert_eq!(wave.phase(0), WavePhase::Draining);
    assert!(wave.is_finished(&1_010));
}

#[test]
fn wave_is_never_finished_before_it_starts() {
    let wave = Wave::scheduled(0, 1, 0, vec![(regular(), 1, 0)]);
    assert!(!wave.is_finished(&0));
    assert!(!wave.is_finished(&u64::MAX));
    let mut hollow = Wave::scheduled(0, 1, 0, vec![]);
    assert!(!hollow.is_finished(&0));
    assert!(!hollow.is_finished(&u64::MAX));
    assert!(hollow.get_bucket(5).is_none());
    assert_eq!(hollow.start_time(), None);
    assert!(!hollow.is_finished(&u64::MAX));
    assert_eq!(hollow.phase(u64::MAX), WavePhase::NotStarted);
}

#[test]
fn wave_drains_until_its_duration_has_passed() {
    let mut wave = Wave::scheduled(0, 1, 1_000, vec![(regular(), 1, 10)]);
    assert!(wave.get_bucket(200).is_some());
    assert_eq!(wave.remaining(), 0);
    assert_eq!(wave.phase(200), WavePhase::Draining);
    assert_eq!(wave.phase(1_199), WavePhase::Draining);
    assert_eq!(wave.phase(1_200), WavePhase::Finished);
    assert!(!wave.is_finished(&200));
    assert!(!wave.is_finished(&1_199));
    assert!(wave.is_finished(&1_200));
}

#[test]
fn finished_wave_stays_finished() {
    let mut wave = Wave::scheduled(0, 1, 1_000, vec![(regular(), 1, 10)]);
    assert!(wave.get_bucket(200).is_some());
    assert!(wave.is_finished(&1_200));
    for later in [1_200, 1_201, 5_000, u64::MAX - 1, u64::MAX] {
        assert!(wave.get_bucket(later).is_none());
        assert!(wave.is_finished(&later));
        assert_eq!(wave.phase(later), WavePhase::Finished);
    }
    assert_eq!(wave.start_time(), Some(200));
}

#[test]
fn scheduled_wave_stores_the_next_release_last() {
    let wave = Wave::scheduled(2, 9, 77, vec![(regular(), 1, 5), (bubble(), 2, 6)]);
    assert_eq!(wave.index, 2);
    assert_eq!(wave.velocity, 9);
    assert_eq!(wave.duration(), 77);
    assert_eq!(wave.start_time(), None);
    assert_eq!(wave.buckets.len(), 2);
    assert_eq!(wave.buckets[0].kind(), bubble());
    assert_eq!(wave.buckets[0].count(), 2);
    assert_eq!(wave.buckets[0].spawn_offset(), 6);
    assert_eq!(wave.buckets[1].kind(), regular());
    assert_eq!(wave.buckets[1].count(), 1);
    assert_eq!(wave.buckets[1].spawn_offset(), 5);
}
