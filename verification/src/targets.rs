//! What is spawned: the kinds of target and what each one carries.

use crate::zones::ZoneId;
use vstd::prelude::*;

verus! {

/// What every target carries, whatever its kind.
#[derive(Debug, Clone, Copy, PartialEq, Eq, Structural)]
pub struct TargetMeta {
    /// Whether the target is hostile: touching it ends the game.
    pub angry: bool,
    /// The zone in which the target appears.
    pub origin_zone: ZoneId,
    /// The zone that the target travels to.
    pub destination_zone: ZoneId,
}

impl TargetMeta {
    /// A friendly target that falls from the top band to the bottom band.
    pub fn down() -> (meta: TargetMeta)
        ensures
            meta == (TargetMeta {
                angry: false,
                origin_zone: ZoneId::Top,
                destination_zone: ZoneId::Bottom,
            }),
    {
        TargetMeta { angry: false, origin_zone: ZoneId::Top, destination_zone: ZoneId::Bottom }
    }

    /// A hostile target that rises from the bottom band to the top band.
    pub fn up() -> (meta: TargetMeta)
        ensures
            meta == (TargetMeta {
                angry: true,
                origin_zone: ZoneId::Bottom,
                destination_zone: ZoneId::Top,
            }),
    {
        TargetMeta { angry: true, origin_zone: ZoneId::Bottom, destination_zone: ZoneId::Top }
    }
}

/// The kinds of target.
#[derive(Debug, Clone, Copy, PartialEq, Eq, Structural)]
pub enum TargetKind {
    Regular(TargetMeta),
    Bubble(TargetMeta),
}

impl TargetKind {
    /// What the target carries, whatever its kind.
    pub open spec fn meta(self) -> TargetMeta {
        match self {
            TargetKind::Regular(meta) => meta,
            TargetKind::Bubble(meta) => meta,
        }
    }

    /// Whether the target is hostile.
    pub fn is_angry(&self) -> (angry: bool)
        ensures
            angry == self.meta().angry,
    {
        match self {
            TargetKind::Bubble(meta) | TargetKind::Regular(meta) => meta.angry,
        }
    }

    /// The zone in which the target appears.
    pub fn origin_zone(&self) -> (zone: ZoneId)
        ensures
            zone == self.meta().origin_zone,
    {
        match self {
            TargetKind::Bubble(meta) | TargetKind::Regular(meta) => meta.origin_zone,
        }
    }

    /// The zone that the target travels to.
    pub fn destination_zone(&self) -> (zone: ZoneId)
        ensures
            zone == self.meta().destination_zone,
    {
        match self {
            TargetKind::Bubble(meta) | TargetKind::Regular(meta) => meta.destination_zone,
        }
    }
}

} // verus!
