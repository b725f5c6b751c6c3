use wave_director::play::{outcome_at, Outcome};
use wave_director::targets::{TargetKind, TargetMeta};
use wave_director::zones::{update_zones, ZoneId, Zones};

fn laid_out() -> Zones {
    let mut zones = Zones::new();
    update_zones(&mut zones, &800, &600);
    zones
}

#[test]
fn object_in_play_stays() {
    let zones = laid_out();
    let falling = TargetKind::Regular(TargetMeta::down());
    let expected = Outcome { end_game: false, despawn: false };
    assert_eq!(outcome_at(&zones, Some(falling), 3200, -2400), expected);
    assert_eq!(outcome_at(&zones, None, 3200, -2400), expected);
    assert_eq!(outcome_at(&zones, None, 8000, 1600), expected);
    assert_eq!(outcome_at(&zones, None, -1600, -6400), expected);
}

#[test]
fn friendly_target_that_arrives_ends_the_game() {
    let zones = laid_out();
    let falling = TargetKind::Regular(TargetMeta::down());
    let expected = Outcome { end_game: true, despawn: true };
    assert_eq!(outcome_at(&zones, Some(falling), 3200, -4480), expected);
    assert_eq!(outcome_at(&zones, Some(falling), 240, -4200), expected);
    assert_eq!(outcome_at(&zones, Some(falling), 6160, -4800), expected);
    let bubble = TargetKind::Bubble(TargetMeta::down());
    assert_eq!(outcome_at(&zones, Some(bubble), 3200, -4480), expected);
}

#[test]
fn friendly_target_beside_its_destination_stays() {
    let zones = laid_out();
    let falling = TargetKind::Regular(TargetMeta::down());
    let expected = Outcome { end_game: false, despawn: false };
    assert_eq!(outcome_at(&zones, Some(falling), 239, -4480), expected);
    assert_eq!(outcome_at(&zones, Some(falling), 6161, -4480), expected);
    assert_eq!(outcome_at(&zones, Some(falling), 3200, -4199), expected);
    assert_eq!(outcome_at(&zones, Some(falling), 3200, -4801), expected);
}

#[test]
fn hostile_target_that_arrives_is_removed_quietly() {
    let zones = laid_out();
    let rising = TargetKind::Regular(TargetMeta::up());
    let expected = Outcome { end_game: false, despawn: true };
    assert_eq!(outcome_at(&zones, Some(rising), 3200, -400), expected);
    // The bottom band is not its destination.
    assert_eq!(
        outcome_at(&zones, Some(rising), 3200, -4480),
        Outcome { end_game: false, despawn: false }
    );
}

#[test]
fn anything_beyond_the_world_border_is_removed() {
    let zones = laid_out();
    let falling = TargetKind::Regular(TargetMeta::down());
    let expected = Outcome { end_game: false, despawn: true };
    assert_eq!(outcome_at(&zones, Some(falling), 8001, -2400), expected);
    assert_eq!(outcome_at(&zones, Some(falling), -1601, -2400), expected);
    assert_eq!(outcome_at(&zones, None, 3200, 1601), expected);
    assert_eq!(outcome_at(&zones, None, 3200, -6401), expected);
}

#[test]
fn destination_is_looked_up_by_name() {
    let zones = laid_out();
    let sideways = TargetKind::Bubble(TargetMeta {
        angry: false,
        origin_zone: ZoneId::Left,
        destination_zone: ZoneId::Right,
    });
    assert_eq!(
        outcome_at(&zones, Some(sideways), 6300, -2400),
        Outcome { end_game: true, despawn: true }
    );
    assert_eq!(
        outcome_at(&zones, Some(sideways), 3200, -4480),
        Outcome { end_game: false, despawn: false }
    );
}

#[test]
fn destination_can_be_rewritten() {
    let mut zones = laid_out();
    zones.get_mut(&ZoneId::Right).update(80, 7200, -80, 6800);
    let sideways = TargetKind::Bubble(TargetMeta {
        angry: false,
        origin_zone: ZoneId::Left,
        destination_zone: ZoneId::Right,
    });
    assert_eq!(
        outcome_at(&zones, Some(sideways), 6960, 0),
        Outcome { end_game: true, despawn: true }
    );
    assert_eq!(
        outcome_at(&zones, Some(sideways), 6300, -2400),
        Outcome { end_game: false, despawn: false }
    );
}

#[test]
fn before_the_layout_only_the_placeholder_decides() {
    // Every zone is still the placeholder, which contains nothing: no
    // target has arrived, and everything is beyond the world border.
    let zones = Zones::new();
    let falling = TargetKind::Regular(TargetMeta::down());
    assert_eq!(
        outcome_at(&zones, Some(falling), 0, 0),
        Outcome { end_game: false, despawn: true }
    );
}
