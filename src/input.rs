use vstd::prelude::*;
use crate::camera::{Camera, Scale, SCALE_ONE};
use crate::components::{intent_of, Direction, Facing, IntentToMove, Position};
use crate::store::Record;

verus! {

/// The keys the game reacts to.
#[derive(PartialEq, Eq, Structural, Debug, Copy, Clone)]
pub enum Key {
    Right,
    Left,
    W,
    A,
    S,
    D,
    /// Puts the camera back at the origin, unzoomed.
    Key0,
    Escape,
    Other,
}

/// True for the keys whose being held matters to a step.
pub open spec fn is_step_key(k: Key) -> bool {
    !(k == Key::Escape || k == Key::Other)
}

/// Which keys the host reports as held down.
#[derive(PartialEq, Eq, Structural, Debug, Copy, Clone)]
pub struct HeldKeys {
    right: bool,
    left: bool,
    w: bool,
    a: bool,
    s: bool,
    d: bool,
    reset: bool,
}

impl View for HeldKeys {
    type V = Set<Key>;

    closed spec fn view(&self) -> Set<Key> {
        Set::new(
            |k: Key|
                match k {
                    Key::Right => self.right,
                    Key::Left => self.left,
                    Key::W => self.w,
                    Key::A => self.a,
                    Key::S => self.s,
                    Key::D => self.d,
                    Key::Key0 => self.reset,
                    _ => false,
                },
        )
    }
}

impl HeldKeys {
    /// The held keys among `keys` that matter to a step.
    pub fn from_keys(keys: &Vec<Key>) -> (r: HeldKeys)
        ensures
            forall|k: Key| #[trigger] r@.contains(k) <==> (is_step_key(k) && keys@.contains(k)),
    {
        let mut r = HeldKeys { right: false, left: false, w: false, a: false, s: false, d: false, reset: false };
        let mut i: usize = 0;
        while i < keys.len()
            invariant
                0 <= i <= keys.len(),
                forall|k: Key| #[trigger]
                    r@.contains(k) <==> (is_step_key(k) && keys@.subrange(0, i as int).contains(k)),
            decreases keys.len() - i,
        {
            let ghost before = r;
            match keys[i] {
                Key::Right => r.right = true,
                Key::Left => r.left = true,
                Key::W => r.w = true,
                Key::A => r.a = true,
                Key::S => r.s = true,
                Key::D => r.d = true,
                Key::Key0 => r.reset = true,
                _ => {},
            }
            proof {
                assert(keys@.subrange(0, i + 1) =~= keys@.subrange(0, i as int).push(keys@[i as int]));
                assert forall|k: Key| #[trigger]
                    r@.contains(k) <==> (is_step_key(k) && keys@.subrange(0, i + 1).contains(k)) by {
                    vstd::seq_lib::lemma_seq_contains_after_push(keys@.subrange(0, i as int), keys@[i as int], k);
                    assert(before@.contains(k) ==> r@.contains(k));
                }
            }
            i = i + 1;
        }
        assert(keys@.subrange(0, keys@.len() as int) =~= keys@);
        r
    }

    pub fn contains(&self, k: Key) -> (r: bool)
        ensures
            r == self@.contains(k),
    {
        match k {
            Key::Right => self.right,
            Key::Left => self.left,
            Key::W => self.w,
            Key::A => self.a,
            Key::S => self.s,
            Key::D => self.d,
            Key::Key0 => self.reset,
            _ => false,
        }
    }
}

/// The directions the held keys pan the camera in: A, D, S and W.
pub open spec fn camera_dirs(keys: Set<Key>) -> Set<Direction> {
    Set::new(
        |d: Direction|
            match d {
                Direction::Left => keys.contains(Key::A),
                Direction::Right => keys.contains(Key::D),
                Direction::Down => keys.contains(Key::S),
                Direction::Up => keys.contains(Key::W),
            },
    )
}

/// True when a panning key (A, D, S or W) is held.
pub open spec fn pans(keys: Set<Key>) -> bool {
    keys.contains(Key::A) || keys.contains(Key::D) || keys.contains(Key::S) || keys.contains(Key::W)
}

/// With a panning key held the camera has a direction to go, else none.
pub proof fn pans_iff_directions(keys: Set<Key>)
    ensures
        pans(keys) <==> camera_dirs(keys) != Set::<Direction>::empty(),
{
    if pans(keys) {
        if keys.contains(Key::A) {
            assert(camera_dirs(keys).contains(Direction::Left));
        } else if keys.contains(Key::D) {
            assert(camera_dirs(keys).contains(Direction::Right));
        } else if keys.contains(Key::S) {
            assert(camera_dirs(keys).contains(Direction::Down));
        } else {
            assert(camera_dirs(keys).contains(Direction::Up));
        }
    } else {
        assert(camera_dirs(keys) =~= Set::<Direction>::empty());
    }
}

/// The camera's record once the held keys are read: held panning keys join
/// the directions it already intends; with none held it drops its intent and
/// stops interpolating.
pub open spec fn camera_keyed(r: Record, keys: Set<Key>) -> Record {
    if pans(keys) {
        let base = match r.intent {
            Some(i) => i@,
            None => Set::<Direction>::empty(),
        };
        Record { intent: Some(intent_of(base.union(camera_dirs(keys)))), ..r }
    } else {
        Record {
            intent: None,
            camera: match r.camera {
                Some(c) => Some(Camera { prev_pos: None, ..c }),
                None => None,
            },
            ..r
        }
    }
}

/// The player's record once the held keys are read: both arrows held
/// cancel its intent; one arrow turns it that way and makes it the only
/// direction it intends.
pub open spec fn player_keyed(r: Record, keys: Set<Key>) -> Record {
    if keys.contains(Key::Right) && keys.contains(Key::Left) {
        Record { intent: None, ..r }
    } else if keys.contains(Key::Right) {
        Record {
            facing: Some(Facing { direction: Direction::Right }),
            intent: Some(intent_of(set![Direction::Right])),
            ..r
        }
    } else if keys.contains(Key::Left) {
        Record {
            facing: Some(Facing { direction: Direction::Left }),
            intent: Some(intent_of(set![Direction::Left])),
            ..r
        }
    } else {
        r
    }
}

/// The camera reset: at the origin, unzoomed, not interpolating.
pub open spec fn reset_record(r: Record) -> Record {
    match r.camera {
        Some(c) => Record {
            camera: Some(
                Camera {
                    cur_pos: Position { x: 0, y: 0 },
                    prev_pos: None,
                    cur_scale: Scale { x: SCALE_ONE, y: SCALE_ONE },
                    ..c
                },
            ),
            ..r
        },
        None => r,
    }
}

/// The direction an arrow key stands for.
pub open spec fn arrow_dir(k: Key) -> Option<Direction> {
    match k {
        Key::Right => Some(Direction::Right),
        Key::Left => Some(Direction::Left),
        _ => None,
    }
}

/// The direction a panning key stands for.
pub open spec fn pan_dir(k: Key) -> Option<Direction> {
    match k {
        Key::A => Some(Direction::Left),
        Key::D => Some(Direction::Right),
        Key::S => Some(Direction::Down),
        Key::W => Some(Direction::Up),
        _ => None,
    }
}

/// The player's record once `k` is released: releasing the arrow it faces
/// ends its intent; any other key leaves it as it is.
pub open spec fn player_released(r: Record, k: Key) -> Record {
    match arrow_dir(k) {
        Some(d) => if r.intent.is_some() && r.facing == Some(Facing { direction: d }) {
            Record { intent: None, ..r }
        } else {
            r
        },
        None => r,
    }
}

/// A camera's record once `k` is released: the released panning direction
/// leaves its intent, the others stay.
pub open spec fn camera_released(r: Record, k: Key) -> Record {
    match pan_dir(k) {
        Some(d) => if r.camera.is_some() && r.intent.is_some() {
            Record { intent: Some(intent_of(r.intent.unwrap()@.remove(d))), ..r }
        } else {
            r
        },
        None => r,
    }
}

/// The directions the held keys pan the camera in.
pub fn held_camera_dirs(keys: &HeldKeys) -> (r: IntentToMove)
    ensures
        r@ == camera_dirs(keys@),
{
    let r = IntentToMove {
        right: keys.contains(Key::D),
        left: keys.contains(Key::A),
        up: keys.contains(Key::W),
        down: keys.contains(Key::S),
    };
    assert(r@ =~= camera_dirs(keys@));
    r
}

/// The directions of both intents.
pub fn merged(a: &IntentToMove, b: &IntentToMove) -> (r: IntentToMove)
    ensures
        r@ == a@.union(b@),
{
    let r = IntentToMove {
        right: a.right || b.right,
        left: a.left || b.left,
        up: a.up || b.up,
        down: a.down || b.down,
    };
    assert(r@ =~= a@.union(b@));
    r
}

} // verus!
