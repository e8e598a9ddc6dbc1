//! Level descriptions: what the loader hands the engine at construction.

use vstd::prelude::*;

verus! {

use crate::geometry::{Vec2, Circle};

/// One entity of a level: a shape plus its static/bindable flags.
#[derive(Clone, Debug)]
pub struct Entity<S> {
    pub shape: S,
    pub is_static: bool,
    pub is_bindable: bool,
}

/// A single level: the ball's spawn point, the initial circle and polygon
/// entities, and the flag pickup positions.
#[derive(Clone, Debug)]
pub struct Level {
    pub initial_ball_position: Vec2,
    pub circles: Vec<Entity<Circle>>,
    pub polygons: Vec<Entity<Vec<Vec2>>>,
    pub flags_positions: Vec<Vec2>,
}

} // verus!
