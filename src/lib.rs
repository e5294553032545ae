use vstd::prelude::*;

pub mod camera;
pub mod components;
pub mod game;
pub mod input;
pub mod store;
pub mod systems;

pub use camera::Camera;
pub use components::{
    Direction, Door, DoorType, Doors, Facing, IntentToMove, Player, Position, Renderable, RoomType,
    Size, SpecialRoom, SrcRect, Target,
};
pub use game::Game;

verus! {

} // verus!
