//! What a frame hands to the host: display records and sound requests.

use vstd::prelude::*;
use crate::label::Entity;
use crate::point::Point;

verus! {

/// Visual pose of an entity.
#[derive(Clone, Copy, Debug, PartialEq, Eq, Structural)]
pub enum Pose {
    Neutral,
    Raised,
}

/// A sound effect the host is asked to play; nothing is reported back.
#[derive(Clone, Copy, Debug, PartialEq, Eq, Structural)]
pub enum Sound {
    /// A spawner was struck.
    Impact,
    /// Bare ground was struck.
    Miss,
}

/// The visual and logical state of one visible entity.
///
/// Entities on a higher layer are drawn above those on a lower one. The
/// scale is in percent of the sprite's natural size.
#[derive(Clone, Copy, Debug, PartialEq, Eq, Structural)]
pub struct DisplayRecord {
    pub entity: Entity,
    pub position: Point,
    pub layer: u32,
    pub scale_percent: u32,
    pub pose: Pose,
    pub collidable: bool,
}

/// Layer of the holes, below everything else.
pub const HOLE_LAYER: u32 = 1;

/// Layer of the spawners.
pub const ENEMY_LAYER: u32 = 2;

/// Layer of the striker, above everything else.
pub const STRIKER_LAYER: u32 = 3;

/// Scale of holes and spawners, in percent.
pub const FIXTURE_SCALE: u32 = 50;

/// Scale of the striker, in percent.
pub const STRIKER_SCALE: u32 = 60;

} // verus!
