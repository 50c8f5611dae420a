//! What a world is built from: its size, tiles, objects, creatures and the place
//! where players appear.

use vstd::prelude::*;
use crate::types::{Obj, Tile};

verus! {

/// Ocean columns west of the oldest maps, which were 74 columns wide. A stored
/// position from before them lies this much further east now.
pub const MAP_WEST_PAD: i32 = 18;

/// A creature and where it lives.
#[derive(Clone, Copy, Debug)]
pub struct MobSpawn {
    pub kind: &'static str,
    pub x: i32,
    pub y: i32,
}

/// A map.
#[derive(Debug)]
pub struct MapDef {
    pub w: i32,
    pub h: i32,
    pub tiles: Vec<Tile>,
    pub objects: Vec<Obj>,
    pub mobs: Vec<MobSpawn>,
    pub player_spawn: (i32, i32),
}

impl MapDef {
    /// There is one tile and one object for each cell, and cells can be counted
    /// in 32 bits.
    pub open spec fn wf(&self) -> bool {
        &&& 0 <= self.w
        &&& 0 <= self.h
        &&& self.w * self.h <= i32::MAX
        &&& self.tiles@.len() == self.w * self.h
        &&& self.objects@.len() == self.w * self.h
    }

    /// Whether there is one tile and one object for each cell, and cells can be
    /// counted in 32 bits.
    pub fn is_valid(&self) -> (r: bool)
        ensures
            r == self.wf(),
    {
        if self.w < 0 || self.h < 0 {
            return false;
        }
        assert(0 <= self.w * self.h <= 0x3fff_ffff_0000_0001) by (nonlinear_arith)
            requires
                0 <= self.w <= 0x7fff_ffff,
                0 <= self.h <= 0x7fff_ffff,
        ;
        let n: i64 = (self.w as i64) * (self.h as i64);
        n <= 0x7fff_ffff && self.tiles.len() == n as usize && self.objects.len() == n as usize
    }
}

} // verus!
