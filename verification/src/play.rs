//! The rules of play that rest on the zones: what becomes of an object once
//! it has moved.

use crate::regions::{inside, Region, Zone};
use crate::targets::TargetKind;
use crate::zones::{ZoneId, Zones};
use vstd::prelude::*;

verus! {

/// What is to happen to an object after it has moved.
#[derive(Debug, Clone, Copy, PartialEq, Eq, Structural)]
pub struct Outcome {
    /// A friendly target has reached its destination without being caught:
    /// the game is lost.
    pub end_game: bool,
    /// The object is to be removed from play.
    pub despawn: bool,
}

/// Whether a target of the given kind has arrived when it stands at
/// `(x, y)`: the point lies inside the destination zone of the target.
pub open spec fn has_arrived(zones: Map<ZoneId, Zone>, kind: TargetKind, x: int, y: int) -> bool {
    inside(zones[kind.meta().destination_zone].sides(), x, y)
}

/// What is to happen to an object that stands at `(x, y)`. A target that has
/// arrived is removed, and ends the game unless it is hostile. Any object,
/// target or not, is removed once it has left the world border.
pub open spec fn outcome_of(
    zones: Map<ZoneId, Zone>,
    target: Option<TargetKind>,
    x: int,
    y: int,
) -> Outcome {
    let arrived = target matches Some(kind) && has_arrived(zones, kind, x, y);
    Outcome {
        end_game: arrived && !target->0.meta().angry,
        despawn: arrived || !inside(zones[ZoneId::WorldBorder].sides(), x, y),
    }
}

/// Decides what is to happen to an object that has moved to `(x, y)`; the
/// object is a target of the given kind, or something else if there is none.
pub fn outcome_at(zones: &Zones, target: Option<TargetKind>, x: i64, y: i64) -> (outcome: Outcome)
    ensures
        outcome == outcome_of(zones@, target, x as int, y as int),
{
    let mut end_game = false;
    let mut despawn = false;
    if let Some(kind) = target {
        let destination_zone = zones.get(&kind.destination_zone());
        if destination_zone.is_pt_inside(x, y) {
            if !kind.is_angry() {
                //A target that should have been caught has reached its destination.
                end_game = true;
            }
            despawn = true;
        }
    }
    if !zones.get(&ZoneId::WorldBorder).is_pt_inside(x, y) {
        despawn = true;
    }
    Outcome { end_game, despawn }
}

} // verus!
