//! Map ids, and where the player arrives on changing maps.
use vstd::prelude::*;
use crate::geom::Vec2d;
use crate::map::FloorMap;

verus! {

/// A map: the map of a region, or a floor of a site in a region.
#[derive(Clone, Copy, Debug, PartialEq, Eq, Structural)]
pub enum MapId {
    RegionMap { rid: u32 },
    SiteMap { rid: u32, site: u32, floor: u32 },
}

impl MapId {
    pub open spec fn is_region_map_spec(self) -> bool {
        self is RegionMap
    }

    pub open spec fn rid_spec(self) -> u32 {
        match self {
            MapId::RegionMap { rid } => rid,
            MapId::SiteMap { rid, .. } => rid,
        }
    }

    /// The floor number; a region map counts as floor zero.
    pub open spec fn floor_spec(self) -> u32 {
        match self {
            MapId::RegionMap { .. } => 0,
            MapId::SiteMap { floor, .. } => floor,
        }
    }

    pub fn is_region_map(&self) -> (r: bool)
        ensures
            r == self.is_region_map_spec(),
    {
        match self {
            MapId::RegionMap { .. } => true,
            MapId::SiteMap { .. } => false,
        }
    }

    pub fn rid(&self) -> (r: u32)
        ensures
            r == self.rid_spec(),
    {
        match self {
            MapId::RegionMap { rid } => *rid,
            MapId::SiteMap { rid, .. } => *rid,
        }
    }

    pub fn floor(&self) -> (r: u32)
        ensures
            r == self.floor_spec(),
    {
        match self {
            MapId::RegionMap { .. } => 0,
            MapId::SiteMap { floor, .. } => *floor,
        }
    }
}

/// Whether entering `mid` must first create it: a site floor that does not
/// exist yet. An existing floor is never made again.
pub open spec fn needs_new_floor_spec(mid: MapId, exists: bool) -> bool {
    !mid.is_region_map_spec() && !exists
}

pub fn needs_new_floor(mid: MapId, exists: bool) -> (r: bool)
    ensures
        r == needs_new_floor_spec(mid, exists),
{
    !mid.is_region_map() && !exists
}

/// Where the player arrives on map `map` (id `mid`) coming from `prev_mid`:
/// at `pos` when given; at the site's position `site_pos` when leaving a site
/// for the map of its region; otherwise at the stairs back to the previous
/// floor, else at the first entrance, else at the origin.
pub open spec fn arrival_pos_spec(map: &FloorMap, mid: MapId, prev_mid: MapId, pos: Option<Vec2d>, site_pos: Vec2d) -> Vec2d {
    match pos {
        Some(p) => p,
        None => if mid.is_region_map_spec() && !prev_mid.is_region_map_spec() && mid.rid_spec() == prev_mid.rid_spec() {
            site_pos
        } else {
            match map.stairs_index(prev_mid.floor_spec()) {
                Some(i) => map.pos_of(i),
                None => if map.entrance@.len() > 0 {
                    map.entrance@[0]
                } else {
                    Vec2d(0, 0)
                },
            }
        },
    }
}

pub fn arrival_pos(map: &FloorMap, mid: MapId, prev_mid: MapId, pos: Option<Vec2d>, site_pos: Vec2d) -> (r: Vec2d)
    requires
        map.wf(),
    ensures
        r == arrival_pos_spec(map, mid, prev_mid, pos, site_pos),
{
    if let Some(pos) = pos {
        return pos;
    }
    if mid.is_region_map() && !prev_mid.is_region_map() && mid.rid() == prev_mid.rid() {
        site_pos
    } else if let Some(p) = map.search_stairs(prev_mid.floor()) {
        p
    } else if map.entrance.len() > 0 {
        map.entrance[0]
    } else {
        Vec2d(0, 0)
    }
}

} // verus!
