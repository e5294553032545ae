use vstd::prelude::*;
use std::collections::HashMap;

verus! {

#[verifier::external_type_specification]
#[verifier::external_body]
pub struct ExEntity(specs::Entity);

#[verifier::external_type_specification]
#[verifier::external_body]
#[verifier::reject_recursive_types(T)]
pub struct ExDenseVecStorage<T>(specs::DenseVecStorage<T>);

/// World coordinates are integers counted in sub-pixel units.
pub const UNITS_PER_PIXEL: i32 = 100;

/// A door of a room leads to another room entity.
pub struct Door {
    pub to_room: specs::Entity,
    pub pos: Position,
}

#[derive(PartialEq, Eq, Hash)]
pub enum DoorType {
    Right,
    Left,
    Middle,
    Top,
    Bottom,
}

/// The doors of a room, by the wall they sit in.
pub struct Doors(pub HashMap<DoorType, Door>);

impl specs::Component for Doors {
    type Storage = specs::DenseVecStorage<Self>;
}

#[derive(PartialEq, Eq, Structural, Hash, Debug, Copy, Clone)]
pub enum Direction {
    Right,
    Left,
    Up,
    Down,
}

/// The direction an entity was last commanded towards.
#[derive(PartialEq, Eq, Structural, Debug, Copy, Clone)]
pub struct Facing {
    pub direction: Direction,
}

impl specs::Component for Facing {
    type Storage = specs::DenseVecStorage<Self>;
}

/// The set of directions an entity is currently commanded to move in.
#[derive(PartialEq, Eq, Structural, Debug, Copy, Clone)]
pub struct IntentToMove {
    pub right: bool,
    pub left: bool,
    pub up: bool,
    pub down: bool,
}

impl View for IntentToMove {
    type V = Set<Direction>;

    open spec fn view(&self) -> Set<Direction> {
        Set::new(
            |d: Direction|
                match d {
                    Direction::Right => self.right,
                    Direction::Left => self.left,
                    Direction::Up => self.up,
                    Direction::Down => self.down,
                },
        )
    }
}

/// The intent that names exactly the directions of `s`.
pub open spec fn intent_of(s: Set<Direction>) -> IntentToMove {
    IntentToMove {
        right: s.contains(Direction::Right),
        left: s.contains(Direction::Left),
        up: s.contains(Direction::Up),
        down: s.contains(Direction::Down),
    }
}

/// 1 when `d` is in `s`, else 0.
pub open spec fn count_dir(s: Set<Direction>, d: Direction) -> int {
    if s.contains(d) {
        1
    } else {
        0
    }
}

/// True when an intent is present and names at least one direction.
pub open spec fn wants_motion(intent: Option<IntentToMove>) -> bool {
    match intent {
        Some(i) => i@ != Set::<Direction>::empty(),
        None => false,
    }
}

impl IntentToMove {
    pub fn empty() -> (r: IntentToMove)
        ensures
            r@ == Set::<Direction>::empty(),
    {
        let r = IntentToMove { right: false, left: false, up: false, down: false };
        assert(r@ =~= Set::<Direction>::empty());
        r
    }

    pub fn single(d: Direction) -> (r: IntentToMove)
        ensures
            r@ == set![d],
    {
        let r = IntentToMove {
            right: d == Direction::Right,
            left: d == Direction::Left,
            up: d == Direction::Up,
            down: d == Direction::Down,
        };
        assert(r@ =~= set![d]);
        r
    }

    pub fn contains(&self, d: Direction) -> (r: bool)
        ensures
            r == self@.contains(d),
    {
        match d {
            Direction::Right => self.right,
            Direction::Left => self.left,
            Direction::Up => self.up,
            Direction::Down => self.down,
        }
    }

    pub fn is_empty(&self) -> (r: bool)
        ensures
            r == (self@ == Set::<Direction>::empty()),
    {
        let r = !(self.right || self.left || self.up || self.down);
        if !r {
            if self.right {
                assert(self@.contains(Direction::Right));
            } else if self.left {
                assert(self@.contains(Direction::Left));
            } else if self.up {
                assert(self@.contains(Direction::Up));
            } else {
                assert(self@.contains(Direction::Down));
            }
        } else {
            assert(self@ =~= Set::<Direction>::empty());
        }
        r
    }

    pub fn insert(&mut self, d: Direction)
        ensures
            final(self)@ == old(self)@.insert(d),
    {
        match d {
            Direction::Right => self.right = true,
            Direction::Left => self.left = true,
            Direction::Up => self.up = true,
            Direction::Down => self.down = true,
        }
        assert(self@ =~= old(self)@.insert(d));
    }

    pub fn remove(&mut self, d: Direction)
        ensures
            final(self)@ == old(self)@.remove(d),
    {
        match d {
            Direction::Right => self.right = false,
            Direction::Left => self.left = false,
            Direction::Up => self.up = false,
            Direction::Down => self.down = false,
        }
        assert(self@ =~= old(self)@.remove(d));
    }
}

impl specs::Component for IntentToMove {
    type Storage = specs::DenseVecStorage<Self>;
}

/// Marks the entity the keyboard steers.
#[derive(PartialEq, Eq, Structural, Debug, Copy, Clone)]
pub struct Player;

impl specs::Component for Player {
    type Storage = specs::DenseVecStorage<Self>;
}

/// A point of the world, in sub-pixel units.
#[derive(PartialEq, Eq, Structural, Debug, Copy, Clone)]
pub struct Position {
    pub x: i32,
    pub y: i32,
}

impl Position {
    pub fn new(x: i32, y: i32) -> (r: Self)
        ensures
            r.x == x,
            r.y == y,
    {
        Self { x, y }
    }
}

/// The part of a drawable to show, as fractions of its extent in thousandths.
#[derive(PartialEq, Eq, Structural, Debug, Copy, Clone)]
pub struct SrcRect {
    pub x: i32,
    pub y: i32,
    pub w: i32,
    pub h: i32,
}

/// Something drawn at a position, with the position it had one step ago
/// while it is moving.
#[derive(PartialEq, Eq, Structural, Debug, Copy, Clone)]
pub struct Renderable {
    /// The host's handle of what to draw.
    pub drawable: usize,
    pub cur_pos: Position,
    pub prev_pos: Option<Position>,
    pub draw_param: Option<SrcRect>,
}

impl specs::Component for Renderable {
    type Storage = specs::DenseVecStorage<Self>;
}

/// Extent of a drawable, in sub-pixel units.
#[derive(PartialEq, Eq, Structural, Debug, Copy, Clone)]
pub struct Size {
    pub width: i32,
    pub height: i32,
}

impl Size {
    pub fn new(width: i32, height: i32) -> (r: Self)
        ensures
            r.width == width,
            r.height == height,
    {
        Self { width, height }
    }
}

impl specs::Component for Size {
    type Storage = specs::DenseVecStorage<Self>;
}

#[derive(PartialEq, Eq, Structural, Debug, Copy, Clone)]
pub enum RoomType {
    Boss,
    Start,
}

/// Tags a room that plays a part in the level.
#[derive(PartialEq, Eq, Structural, Debug, Copy, Clone)]
pub struct SpecialRoom {
    label: RoomType,
}

impl SpecialRoom {
    pub closed spec fn spec_label(&self) -> RoomType {
        self.label
    }

    pub fn new(label: RoomType) -> (r: Self)
        ensures
            r.spec_label() == label,
    {
        Self { label }
    }
}

impl specs::Component for SpecialRoom {
    type Storage = specs::DenseVecStorage<Self>;
}

/// An entity to follow, kept at a distance.
pub struct Target {
    entity: specs::Entity,
    offset: i32,
}

impl specs::Component for Target {
    type Storage = specs::DenseVecStorage<Self>;
}

} // verus!
