//! The registry of named zones and the layout that places them in a viewport.

use crate::regions::{
    inside, lemma_with_sides, samplable, x_high, x_low, y_high, y_low, Region, Sides, Zone,
};
use crate::{TARGET_SIZE, UNITS_PER_PIXEL, WINDOW_EXPANSION};
use vstd::prelude::*;

verus! {

/// The names of the zones of the playing field.
#[derive(Debug, PartialEq, Eq, Hash, Clone, Copy, Structural)]
pub enum ZoneId {
    Bottom,
    BottomLeft,
    BottomRight,
    Left,
    OutsideBottom,
    OutsideLeft,
    OutsideRight,
    OutsideTop,
    Right,
    Top,
    TopLeft,
    TopRight,
    WorldBorder,
}

/// How many zone names there are.
pub const ZONE_COUNT: usize = 13;

impl ZoneId {
    /// The position of a name in the order of declaration.
    pub open spec fn slot(self) -> int {
        match self {
            ZoneId::Bottom => 0,
            ZoneId::BottomLeft => 1,
            ZoneId::BottomRight => 2,
            ZoneId::Left => 3,
            ZoneId::OutsideBottom => 4,
            ZoneId::OutsideLeft => 5,
            ZoneId::OutsideRight => 6,
            ZoneId::OutsideTop => 7,
            ZoneId::Right => 8,
            ZoneId::Top => 9,
            ZoneId::TopLeft => 10,
            ZoneId::TopRight => 11,
            ZoneId::WorldBorder => 12,
        }
    }

    /// The position of a name in the order of declaration, below
    /// [`ZONE_COUNT`].
    pub fn index(&self) -> (index: usize)
        ensures
            index == self.slot(),
            index < ZONE_COUNT,
    {
        match self {
            ZoneId::Bottom => 0,
            ZoneId::BottomLeft => 1,
            ZoneId::BottomRight => 2,
            ZoneId::Left => 3,
            ZoneId::OutsideBottom => 4,
            ZoneId::OutsideLeft => 5,
            ZoneId::OutsideRight => 6,
            ZoneId::OutsideTop => 7,
            ZoneId::Right => 8,
            ZoneId::Top => 9,
            ZoneId::TopLeft => 10,
            ZoneId::TopRight => 11,
            ZoneId::WorldBorder => 12,
        }
    }
}

/// Where the zones are: one zone for every name.
pub struct Zones {
    map: Vec<Zone>,
}

impl View for Zones {
    type V = Map<ZoneId, Zone>;

    /// The registry as a total map from names to zones.
    closed spec fn view(&self) -> Map<ZoneId, Zone> {
        Map::new(|id: ZoneId| true, |id: ZoneId| self.map@[id.slot()])
    }
}

impl Zones {
    #[verifier::type_invariant]
    spec fn holds_every_name(self) -> bool {
        self.map@.len() == ZONE_COUNT
    }

    /// Whether every zone of the registry is well formed.
    pub open spec fn well_formed(&self) -> bool {
        forall|id: ZoneId| (#[trigger] self@[id]).well_formed()
    }

    /// A registry that holds the placeholder zone under every name.
    pub fn new() -> (zones: Zones)
        ensures
            forall|id: ZoneId| #[trigger] zones@[id] == Zone::empty(),
            zones.well_formed(),
    {
        let mut map: Vec<Zone> = Vec::new();
        while map.len() < ZONE_COUNT
            invariant
                map@.len() <= ZONE_COUNT,
                forall|i: int| 0 <= i < map@.len() ==> map@[i] == Zone::empty(),
                forall|i: int| 0 <= i < map@.len() ==> (#[trigger] map@[i]).well_formed(),
            decreases ZONE_COUNT - map@.len(),
        {
            map.push(Zone::empty());
        }
        Zones { map }
    }

    /// The zone of the given name.
    pub fn get(&self, key: &ZoneId) -> (zone: &Zone)
        ensures
            *zone == self@[*key],
    {
        proof {
            use_type_invariant(self);
        }
        &self.map[key.index()]
    }

    /// The zone of the given name, for changing it in place. No other zone
    /// of the registry changes.
    pub fn get_mut(&mut self, key: &ZoneId) -> (zone: &mut Zone)
        ensures
            *zone == old(self)@[*key],
            final(self)@ == old(self)@.insert(*key, *final(zone)),
    {
        proof {
            use_type_invariant(&*self);
        }
        &mut self.map[key.index()]
    }
}

/// Radius of a target, in units.
pub const RADIUS: i64 = TARGET_SIZE * UNITS_PER_PIXEL;

/// How far past the viewport the world border reaches, in units.
pub const MARGIN: i64 = WINDOW_EXPANSION * UNITS_PER_PIXEL;

/// The length of so many pixels, in units.
pub open spec fn units(pixels: int) -> int {
    pixels * UNITS_PER_PIXEL
}

/// The boundaries with the given coordinates: top, right, bottom, left.
pub open spec fn sides_of(top: int, right: int, bottom: int, left: int) -> Sides {
    (top as i64, right as i64, bottom as i64, left as i64)
}

/// The boundaries that the layout gives to a zone in a viewport of the given
/// size in pixels. With `w` and `h` the sides of the viewport, `e` an eighth
/// of `h`, `r` the radius of a target and `m` the margin of the world
/// border:
///
/// - the top band, where targets appear, is the uppermost eighth of the
///   viewport, inset by `r` from the top edge and from both sides;
/// - the bottom band, where they are headed, is the lowest eighth, inset by
///   `r` from both sides;
/// - the left and the right band are the strips of width `r` that those two
///   leave free along the sides, between the uppermost and the lowest
///   eighth;
/// - the four corner bands are the strips of width `r` beside the top and
///   the bottom band, as high as an eighth of the viewport;
/// - the four outside bands are where objects are staged out of sight: above
///   and below the viewport over its whole width, to its left and to its
///   right over its whole height, each from `r` to `m` away from the edge;
/// - the world border is the viewport enlarged by `m` on every side.
pub open spec fn band(id: ZoneId, width: u32, height: u32) -> Sides {
    let w = units(width as int);
    let h = units(height as int);
    let e = h / 8;
    let r = RADIUS as int;
    let m = MARGIN as int;
    match id {
        ZoneId::Top => sides_of(-r, w - r, -e, r),
        ZoneId::Bottom => sides_of(-h + e, w - r, -h, r),
        ZoneId::Left => sides_of(-e, r, -h + e, 0),
        ZoneId::Right => sides_of(-e, w, -h + e, w - r),
        ZoneId::TopLeft => sides_of(0, r, -e, 0),
        ZoneId::TopRight => sides_of(0, w, -e, w - r),
        ZoneId::BottomLeft => sides_of(-h + e, r, -h, 0),
        ZoneId::BottomRight => sides_of(-h + e, w, -h, w - r),
        ZoneId::OutsideTop => sides_of(m, w, r, 0),
        ZoneId::OutsideBottom => sides_of(-h - r, w, -h - m, 0),
        ZoneId::OutsideLeft => sides_of(0, -r, -h, -m),
        ZoneId::OutsideRight => sides_of(0, w + m, -h, w + r),
        ZoneId::WorldBorder => sides_of(m, w + m, -h - m, -m),
    }
}

/// Whether the layout can place its zones in a viewport of the given size:
/// each of them must have two non-empty extents.
pub open spec fn spec_admits_viewport(width: u32, height: u32) -> bool {
    forall|id: ZoneId| samplable(#[trigger] band(id, width, height))
}

/// The registry after the layout for a viewport of the given size: every
/// zone has its band, whatever the registry held before.
pub open spec fn laid_out(before: Map<ZoneId, Zone>, width: u32, height: u32) -> Map<
    ZoneId,
    Zone,
> {
    Map::new(|id: ZoneId| true, |id: ZoneId| Zone::with_sides(band(id, width, height)))
}

/// Whether the layout can place its zones in a viewport of the given size,
/// in pixels. It cannot when a band would collapse to a line, which happens
/// in four cases only: a width of zero or of exactly two radii, and a height
/// of zero or of exactly eight radii, whose eighth is one radius.
#[verifier::when_used_as_spec(spec_admits_viewport)]
pub fn admits_viewport(width: u32, height: u32) -> (admitted: bool)
    ensures
        admitted == admits_viewport(width, height),
        admitted == (width != 0 && width != 2 * TARGET_SIZE && height != 0 && height != 8
            * TARGET_SIZE),
{
    let admitted = width != 0 && width as i64 != 2 * TARGET_SIZE && height != 0 && height as i64
        != 8 * TARGET_SIZE;
    proof {
        if admitted {
            assert forall|id: ZoneId| samplable(#[trigger] band(id, width, height)) by {}
        } else if width == 0 {
            assert(!samplable(band(ZoneId::OutsideTop, width, height)));
        } else if width == 2 * TARGET_SIZE {
            assert(!samplable(band(ZoneId::Top, width, height)));
        } else if height == 0 {
            assert(!samplable(band(ZoneId::Bottom, width, height)));
        } else {
            assert(!samplable(band(ZoneId::Top, width, height)));
        }
    }
    admitted
}

/// Lays the zones out for a viewport of the given size, in pixels. This is
/// the one place where the geometry of the playing field is defined; it is
/// to be called once at startup and again whenever the viewport changes
/// size. Every zone gets its band, whatever it was before.
pub fn update_zones(zones: &mut Zones, width: &u32, height: &u32)
    requires
        admits_viewport(*width, *height),
    ensures
        final(zones)@ == laid_out(old(zones)@, *width, *height),
        forall|id: ZoneId| (#[trigger] final(zones)@[id]).sides() == band(id, *width, *height),
        final(zones).well_formed(),
{
    let w: i64 = *width as i64 * UNITS_PER_PIXEL;
    let h: i64 = *height as i64 * UNITS_PER_PIXEL;
    let e: i64 = h / 8;
    proof {
        assert(samplable(band(ZoneId::Top, *width, *height)));
        assert(samplable(band(ZoneId::Bottom, *width, *height)));
        assert(samplable(band(ZoneId::Left, *width, *height)));
        assert(samplable(band(ZoneId::Right, *width, *height)));
        assert(samplable(band(ZoneId::TopLeft, *width, *height)));
        assert(samplable(band(ZoneId::TopRight, *width, *height)));
        assert(samplable(band(ZoneId::BottomLeft, *width, *height)));
        assert(samplable(band(ZoneId::BottomRight, *width, *height)));
        assert(samplable(band(ZoneId::OutsideTop, *width, *height)));
        assert(samplable(band(ZoneId::OutsideBottom, *width, *height)));
        assert(samplable(band(ZoneId::OutsideLeft, *width, *height)));
        assert(samplable(band(ZoneId::OutsideRight, *width, *height)));
        assert(samplable(band(ZoneId::WorldBorder, *width, *height)));
    }
    zones.get_mut(&ZoneId::Top).update(-RADIUS, w - RADIUS, -e, RADIUS);
    zones.get_mut(&ZoneId::Bottom).update(-h + e, w - RADIUS, -h, RADIUS);
    zones.get_mut(&ZoneId::Left).update(-e, RADIUS, -h + e, 0);
    zones.get_mut(&ZoneId::Right).update(-e, w, -h + e, w - RADIUS);
    zones.get_mut(&ZoneId::TopLeft).update(0, RADIUS, -e, 0);
    zones.get_mut(&ZoneId::TopRight).update(0, w, -e, w - RADIUS);
    zones.get_mut(&ZoneId::BottomLeft).update(-h + e, RADIUS, -h, 0);
    zones.get_mut(&ZoneId::BottomRight).update(-h + e, w, -h, w - RADIUS);
    zones.get_mut(&ZoneId::OutsideTop).update(MARGIN, w, RADIUS, 0);
    zones.get_mut(&ZoneId::OutsideBottom).update(-h - RADIUS, w, -h - MARGIN, 0);
    zones.get_mut(&ZoneId::OutsideLeft).update(0, -RADIUS, -h, -MARGIN);
    zones.get_mut(&ZoneId::OutsideRight).update(0, w + MARGIN, -h, w + RADIUS);
    zones.get_mut(&ZoneId::WorldBorder).update(MARGIN, w + MARGIN, -h - MARGIN, -MARGIN);
    proof {
        assert(final(zones)@ =~= laid_out(old(zones)@, *width, *height));
        assert forall|id: ZoneId| (#[trigger] final(zones)@[id]).sides() == band(
            id,
            *width,
            *height,
        ) && final(zones)@[id].well_formed() by {
            lemma_with_sides(band(id, *width, *height));
        }
    }
}

/// Laying the zones out twice for the same viewport gives the same registry
/// as laying them out once.
pub proof fn law_layout_idempotent(zones: Map<ZoneId, Zone>, width: u32, height: u32)
    ensures
        laid_out(laid_out(zones, width, height), width, height) == laid_out(zones, width, height),
{
}

/// The registry after the layout depends on the size of the viewport alone,
/// not on what the registry held before: under every name stands the zone
/// with the band of that name.
pub proof fn law_layout_depends_on_viewport_alone(
    first: Map<ZoneId, Zone>,
    second: Map<ZoneId, Zone>,
    id: ZoneId,
    width: u32,
    height: u32,
)
    ensures
        laid_out(first, width, height) == laid_out(second, width, height),
        laid_out(first, width, height)[id].sides() == band(id, width, height),
{
    lemma_with_sides(band(id, width, height));
}

/// After the layout no zone is the placeholder any more.
pub proof fn law_layout_replaces_the_placeholder(
    zones: Map<ZoneId, Zone>,
    id: ZoneId,
    width: u32,
    height: u32,
)
    ensures
        laid_out(zones, width, height)[id] != Zone::empty(),
{
    lemma_with_sides(band(id, width, height));
    lemma_with_sides((0, 1, 1, 0));
}

/// In a viewport wider than two radii and higher than eight, every band has
/// its bottom below its top and its left boundary left of its right one.
pub proof fn law_bands_are_ordered(id: ZoneId, width: u32, height: u32)
    requires
        width > 2 * TARGET_SIZE,
        height > 8 * TARGET_SIZE,
    ensures
        band(id, width, height).2 < band(id, width, height).0,
        band(id, width, height).3 < band(id, width, height).1,
        admits_viewport(width, height),
{
    assert forall|other: ZoneId| samplable(#[trigger] band(other, width, height)) by {}
}

/// The world border has the viewport within it, and the extents of every
/// band.
pub proof fn law_world_border_encloses(id: ZoneId, width: u32, height: u32, x: int, y: int)
    ensures
        0 <= x <= units(width as int) && -units(height as int) <= y <= 0 ==> inside(
            band(ZoneId::WorldBorder, width, height),
            x,
            y,
        ),
        x_low(band(ZoneId::WorldBorder, width, height)) <= x_low(band(id, width, height)),
        x_high(band(id, width, height)) <= x_high(band(ZoneId::WorldBorder, width, height)),
        y_low(band(ZoneId::WorldBorder, width, height)) <= y_low(band(id, width, height)),
        y_high(band(id, width, height)) <= y_high(band(ZoneId::WorldBorder, width, height)),
{
}

} // verus!
