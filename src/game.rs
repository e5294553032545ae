use vstd::prelude::*;
use std::collections::HashMap;
use crate::camera::{Camera, Scale, SCALE_ONE};
use crate::components::{
    wants_motion, Direction, Door, DoorType, Doors, Facing, IntentToMove, Position, Renderable, Size, SrcRect,
    UNITS_PER_PIXEL,
};
use crate::input::{
    arrow_dir, camera_keyed, camera_released, held_camera_dirs, merged, pan_dir, player_keyed,
    player_released, reset_record, HeldKeys, Key,
};
use crate::store::{bare_record, lists_exactly, Record, Store};
use crate::systems::{
    command_entities, command_for, drawn, idle_step_settles, interpolated, lemma_fresh_in_prefix, moved_all, panned_all,
    stopped_all, DrawCommand, MoveCamSystem, MoveSystem, RenderSystem, StopMovingSystem, ALPHA_ONE,
    CAMERA_STEP, PLAYER_STEP,
};

verus! {

/// The records once the held keys are read, for the camera and the player.
pub open spec fn keyed(
    m: Map<specs::Entity, Record>,
    keys: Set<Key>,
    cam: specs::Entity,
    player: specs::Entity,
) -> Map<specs::Entity, Record> {
    let m1 = m.insert(cam, camera_keyed(m[cam], keys));
    m1.insert(player, player_keyed(m1[player], keys))
}

/// One fixed step: read the held keys, move, pan, settle, then apply a
/// camera reset if its key is held.
pub open spec fn stepped(
    m: Map<specs::Entity, Record>,
    keys: Set<Key>,
    cam: specs::Entity,
    player: specs::Entity,
) -> Map<specs::Entity, Record> {
    let m1 = stopped_all(panned_all(moved_all(keyed(m, keys, cam, player), PLAYER_STEP as int), CAMERA_STEP as int));
    if keys.contains(Key::Key0) {
        m1.insert(cam, reset_record(m1[cam]))
    } else {
        m1
    }
}

/// The records once key `k` is released: first for the player, then for
/// every camera.
pub open spec fn released(
    m: Map<specs::Entity, Record>,
    k: Key,
    player: specs::Entity,
) -> Map<specs::Entity, Record> {
    let m1 = m.insert(player, player_released(m[player], k));
    Map::new(|e: specs::Entity| m1.dom().contains(e), |e: specs::Entity| camera_released(m1[e], k))
}

/// The world of the game: a camera, a start room and a player, in one store.
pub struct Game {
    store: Store,
    main_cam: specs::Entity,
    player: specs::Entity,
    start_room: specs::Entity,
    next_room: specs::Entity,
}

impl View for Game {
    type V = Map<specs::Entity, Record>;

    closed spec fn view(&self) -> Map<specs::Entity, Record> {
        self.store@
    }
}

impl Game {
    pub closed spec fn cam_entity(&self) -> specs::Entity {
        self.main_cam
    }

    pub closed spec fn player_entity(&self) -> specs::Entity {
        self.player
    }

    /// The room the player starts in.
    pub closed spec fn room_entity(&self) -> specs::Entity {
        self.start_room
    }

    /// The room behind the start room's right door.
    pub closed spec fn next_room_entity(&self) -> specs::Entity {
        self.next_room
    }

    /// The store is consistent and has no deletion pending.
    pub closed spec fn store_ok(&self) -> bool {
        &&& self.store.wf()
        &&& self.store.doomed() == Set::<specs::Entity>::empty()
    }

    /// The camera and the player are live and distinct; the camera entity
    /// carries a camera, the player a facing and no camera.
    pub open spec fn wf(&self) -> bool {
        &&& self.store_ok()
        &&& self@.dom().contains(self.cam_entity())
        &&& self@.dom().contains(self.player_entity())
        &&& self.cam_entity() != self.player_entity()
        &&& self@[self.cam_entity()].camera.is_some()
        &&& self@[self.player_entity()].camera.is_none()
        &&& self@[self.player_entity()].facing.is_some()
    }

    /// Builds the world for a screen of the given size, in sub-pixel units,
    /// with the host's handles of the room's and the player's drawables.
    pub fn new(screen_w: i32, screen_h: i32, room_drawable: usize, player_drawable: usize) -> (r: Game)
        requires
            0 <= screen_w <= 0x3fff_ffff,
            0 <= screen_h <= 0x3fff_ffff,
        ensures
            r.wf(),
            r@.dom() == set![r.cam_entity(), r.next_room_entity(), r.room_entity(), r.player_entity()],
            r@.dom().len() == 4,
            r@[r.next_room_entity()] == bare_record(),
            r@[r.room_entity()].size == Some(Size { width: (2 * screen_w) as i32, height: (screen_h - 4000) as i32 }),
            r@[r.room_entity()].renderable == Some(
                Renderable {
                    drawable: room_drawable,
                    cur_pos: Position { x: (screen_w / 2 + 2000) as i32, y: 0 },
                    prev_pos: None,
                    draw_param: None,
                },
            ),
            r@[r.room_entity()].doors.is_some(),
            vstd::std_specs::hash::obeys_key_model::<DoorType>() && vstd::std_specs::hash::builds_valid_hashers::<
                std::hash::RandomState,
            >() ==> r@[r.room_entity()].doors.unwrap().0@ == map![
                DoorType::Right => Door { to_room: r.next_room_entity(), pos: Position { x: 0, y: (screen_w - 5000) as i32 } },
            ],
            r@[r.room_entity()].facing.is_none(),
            r@[r.room_entity()].intent.is_none(),
            r@[r.room_entity()].camera.is_none(),
            !r@[r.room_entity()].player,
            r@[r.cam_entity()] == (Record {
                camera: Some(Camera::new_spec(Position { x: 0, y: 0 }, screen_w, screen_h, SCALE_ONE)),
                ..bare_record()
            }),
            r@[r.player_entity()] == (Record {
                facing: Some(Facing { direction: Direction::Right }),
                renderable: Some(
                    Renderable {
                        drawable: player_drawable,
                        cur_pos: Position { x: 0, y: 0 },
                        prev_pos: None,
                        draw_param: Some(SrcRect { x: 0, y: 0, w: 500, h: 500 }),
                    },
                ),
                size: Some(Size { width: 30000, height: 40000 }),
                player: true,
                ..bare_record()
            }),
    {
        let mut store = Store::new();
        let camera = Camera::new(Position::new(0, 0), screen_w, screen_h, SCALE_ONE);
        let main_cam = store.create_entity();
        store.set_camera(main_cam, camera);

        let next_room = store.create_entity();
        let mut doors: HashMap<DoorType, Door> = HashMap::new();
        doors.insert(
            DoorType::Right,
            Door { to_room: next_room, pos: Position::new(0, screen_w - 50 * UNITS_PER_PIXEL) },
        );
        let stw = screen_w * 2;
        let sth = screen_h - 40 * UNITS_PER_PIXEL;
        let start_room = store.create_entity();
        store.set_size(start_room, Size::new(stw, sth));
        store.set_renderable(
            start_room,
            Renderable {
                drawable: room_drawable,
                cur_pos: Position::new(screen_w / 2 + 20 * UNITS_PER_PIXEL, 0),
                prev_pos: None,
                draw_param: None,
            },
        );
        store.set_doors(start_room, Doors(doors));

        let player = store.create_entity();
        store.set_player(player);
        store.set_size(player, Size::new(300 * UNITS_PER_PIXEL, 400 * UNITS_PER_PIXEL));
        store.set_renderable(
            player,
            Renderable {
                drawable: player_drawable,
                cur_pos: Position::new(0, 0),
                prev_pos: None,
                draw_param: Some(SrcRect { x: 0, y: 0, w: 500, h: 500 }),
            },
        );
        store.set_facing(player, Facing { direction: Direction::Right });
        proof {
            assert(store@.dom() =~= set![main_cam, next_room, start_room, player]);
        }
        Game { store, main_cam, player, start_room, next_room }
    }

    pub fn main_cam(&self) -> (r: specs::Entity)
        ensures
            r == self.cam_entity(),
    {
        self.main_cam
    }

    pub fn player(&self) -> (r: specs::Entity)
        ensures
            r == self.player_entity(),
    {
        self.player
    }

    pub fn store(&self) -> (r: &Store)
        ensures
            r@ == self@,
            self.wf() ==> r.wf(),
    {
        &self.store
    }

    fn apply_keys(&mut self, keys: &HeldKeys)
        requires
            old(self).wf(),
        ensures
            final(self).wf(),
            final(self).main_cam == old(self).main_cam,
            final(self).player == old(self).player,
            final(self)@ == keyed(old(self)@, keys@, old(self).main_cam, old(self).player),
    {
        let cam = self.main_cam;
        let player = self.player;
        let dirs = held_camera_dirs(keys);
        proof {
            crate::input::pans_iff_directions(keys@);
        }
        if !dirs.is_empty() {
            let base = match self.store.intent(cam) {
                Some(i) => i,
                None => IntentToMove::empty(),
            };
            let both = merged(&base, &dirs);
            self.store.set_intent(cam, both);
        } else {
            self.store.remove_intent(cam);
            match self.store.camera(cam) {
                Some(c) => self.store.set_camera(cam, Camera { prev_pos: None, ..c }),
                None => {},
            }
        }
        if keys.contains(Key::Right) && keys.contains(Key::Left) {
            self.store.remove_intent(player);
        } else if keys.contains(Key::Right) {
            self.store.set_facing(player, Facing { direction: Direction::Right });
            self.store.set_intent(player, IntentToMove::single(Direction::Right));
        } else if keys.contains(Key::Left) {
            self.store.set_facing(player, Facing { direction: Direction::Left });
            self.store.set_intent(player, IntentToMove::single(Direction::Left));
        }
        proof {
            let ghost m = keyed(old(self)@, keys@, cam, player);
            assert(self@ =~= m);
        }
    }

    /// Runs one fixed simulation step with the keys held at its start.
    pub fn step(&mut self, keys: &HeldKeys)
        requires
            old(self).wf(),
        ensures
            final(self).wf(),
            final(self).cam_entity() == old(self).cam_entity(),
            final(self).player_entity() == old(self).player_entity(),
            final(self)@.dom() == old(self)@.dom(),
            final(self)@ == stepped(old(self)@, keys@, old(self).cam_entity(), old(self).player_entity()),
    {
        self.store.maintain();
        assert(self.store@ =~= old(self).store@);
        self.apply_keys(keys);
        MoveSystem::new().run(&mut self.store);
        MoveCamSystem { step: CAMERA_STEP }.run(&mut self.store);
        StopMovingSystem::new().run(&mut self.store);
        let cam = self.main_cam;
        if keys.contains(Key::Key0) {
            match self.store.camera(cam) {
                Some(c) => {
                    let reset = Camera {
                        cur_pos: Position::new(0, 0),
                        prev_pos: None,
                        cur_scale: Scale { x: SCALE_ONE, y: SCALE_ONE },
                        ..c
                    };
                    self.store.set_camera(cam, reset);
                },
                None => {},
            }
        }
        proof {
            assert(self@ =~= stepped(old(self)@, keys@, old(self).main_cam, old(self).player));
        }
    }

    /// Reacts to the release of `key`; true when the key asks to quit.
    pub fn key_up(&mut self, key: Key) -> (quit: bool)
        requires
            old(self).wf(),
        ensures
            final(self).wf(),
            final(self).cam_entity() == old(self).cam_entity(),
            final(self).player_entity() == old(self).player_entity(),
            final(self)@.dom() == old(self)@.dom(),
            quit == (key == Key::Escape),
            final(self)@ == released(old(self)@, key, old(self).player_entity()),
    {
        let player = self.player;
        let arrow = match key {
            Key::Right => Some(Direction::Right),
            Key::Left => Some(Direction::Left),
            _ => None,
        };
        assert(arrow == arrow_dir(key));
        match arrow {
            Some(d) => {
                let has_intent = self.store.intent(player).is_some();
                match self.store.facing(player) {
                    Some(f) => {
                        if has_intent && f.direction == d {
                            self.store.remove_intent(player);
                        }
                    },
                    None => {},
                }
            },
            None => {},
        }
        let ghost m1 = self.store@;
        assert(m1 =~= old(self)@.insert(player, player_released(old(self)@[player], key)));
        let pan = match key {
            Key::A => Some(Direction::Left),
            Key::D => Some(Direction::Right),
            Key::S => Some(Direction::Down),
            Key::W => Some(Direction::Up),
            _ => None,
        };
        assert(pan == pan_dir(key));
        match pan {
            Some(d) => {
                let ents = self.store.join_cameras();
                let mut i: usize = 0;
                while i < ents.len()
                    invariant
                        self.store.wf(),
                        self.store.doomed() == Set::<specs::Entity>::empty(),
                        self.main_cam == old(self).main_cam,
                        self.player == old(self).player,
                        pan_dir(key) == Some(d),
                        self.store@.dom() == m1.dom(),
                        lists_exactly(ents@, m1, |x: Record| x.camera.is_some()),
                        0 <= i <= ents.len(),
                        forall|e: specs::Entity| #[trigger]
                            m1.dom().contains(e) ==> self.store@[e] == (if ents@.subrange(0, i as int).contains(e) {
                                camera_released(m1[e], key)
                            } else {
                                m1[e]
                            }),
                    decreases ents.len() - i,
                {
                    let e = ents[i];
                    let ghost before = self.store@;
                    proof {
                        lemma_fresh_in_prefix(ents@, i as int);
                        assert(ents@.contains(e));
                    }
                    match self.store.intent(e) {
                        Some(it) => {
                            let mut next = it;
                            next.remove(d);
                            assert(next == crate::components::intent_of(it@.remove(d)));
                            self.store.set_intent(e, next);
                        },
                        None => {},
                    }
                    proof {
                        assert forall|x: specs::Entity| #[trigger] m1.dom().contains(x) implies self.store@[x] == (if ents@.subrange(0, i + 1).contains(x) {
                            camera_released(m1[x], key)
                        } else {
                            m1[x]
                        }) by {
                            if x != e {
                                assert(self.store@[x] == before[x]);
                            }
                        }
                    }
                    i = i + 1;
                }
                proof {
                    assert(ents@.subrange(0, ents@.len() as int) =~= ents@);
                }
            },
            None => {},
        }
        proof {
            assert(self@ =~= released(old(self)@, key, player));
        }
        key == Key::Escape
    }

    /// Where to draw each sized renderable, `alpha` thousandths into the
    /// current step, as the main camera sees it.
    pub fn render(&self, alpha: u32) -> (r: Vec<DrawCommand>)
        requires
            self.wf(),
            alpha <= ALPHA_ONE,
        ensures
            lists_exactly(command_entities(r@), self@, |x: Record| drawn(x)),
            forall|i: int|
                0 <= i < r@.len() ==> #[trigger] r@[i] == command_for(
                    r@[i].entity,
                    self@[r@[i].entity].renderable.unwrap(),
                    self@[r@[i].entity].size.unwrap(),
                    self@[self.cam_entity()].camera.unwrap(),
                    alpha as int,
                ),
    {
        RenderSystem::new(alpha, self.main_cam).run(&self.store)
    }
}

/// In a step where an entity intends no motion once the keys are read, it
/// ends the step at rest where it stood: a renderable or camera it carries
/// keeps no previous position and is drawn at its position whatever the
/// alpha. (A held reset key moves the camera home instead, also at rest.)
pub proof fn idle_entities_settle(
    m: Map<specs::Entity, Record>,
    keys: Set<Key>,
    cam: specs::Entity,
    player: specs::Entity,
    e: specs::Entity,
    alpha: int,
)
    requires
        m.dom().contains(e),
        m.dom().contains(cam),
        m.dom().contains(player),
        !wants_motion(keyed(m, keys, cam, player)[e].intent),
        0 <= alpha <= ALPHA_ONE,
    ensures
        ({
            let before = keyed(m, keys, cam, player)[e];
            let after = stepped(m, keys, cam, player)[e];
            &&& after.renderable.is_some() == before.renderable.is_some()
            &&& after.renderable.is_some() ==> after.renderable.unwrap().prev_pos.is_none()
                && after.renderable.unwrap().cur_pos == before.renderable.unwrap().cur_pos
                && interpolated(after.renderable.unwrap().cur_pos, None, alpha) == after.renderable.unwrap().cur_pos
            &&& after.camera.is_some() == before.camera.is_some()
            &&& after.camera.is_some() ==> after.camera.unwrap().prev_pos.is_none()
            &&& after.camera.is_some() && !(e == cam && keys.contains(Key::Key0))
                ==> after.camera.unwrap().cur_pos == before.camera.unwrap().cur_pos
        }),
{
    let before = keyed(m, keys, cam, player)[e];
    idle_step_settles(before, PLAYER_STEP as int, CAMERA_STEP as int, alpha);
}

/// With both arrows held, a step cancels the player's intent, keeps the way
/// it faces, and leaves where it is drawn unchanged, whatever it faced or
/// intended before.
pub proof fn both_arrows_hold_player(
    m: Map<specs::Entity, Record>,
    keys: Set<Key>,
    cam: specs::Entity,
    player: specs::Entity,
)
    requires
        m.dom().contains(cam),
        m.dom().contains(player),
        cam != player,
        keys.contains(Key::Right),
        keys.contains(Key::Left),
    ensures
        stepped(m, keys, cam, player)[player].intent.is_none(),
        stepped(m, keys, cam, player)[player].facing == m[player].facing,
        stepped(m, keys, cam, player)[player].renderable.is_some() == m[player].renderable.is_some(),
        m[player].renderable.is_some() ==> stepped(m, keys, cam, player)[player].renderable.unwrap().cur_pos
            == m[player].renderable.unwrap().cur_pos,
{
}

/// Releasing the arrow the player faces ends its intent; releasing the
/// other arrow changes nothing about it.
pub proof fn releasing_arrows(m: Map<specs::Entity, Record>, k: Key, player: specs::Entity)
    requires
        m.dom().contains(player),
        m[player].camera.is_none(),
        k == Key::Right || k == Key::Left,
    ensures
        m[player].facing == Some(Facing { direction: arrow_dir(k).unwrap() })
            ==> released(m, k, player)[player].intent.is_none(),
        m[player].facing != Some(Facing { direction: arrow_dir(k).unwrap() })
            ==> released(m, k, player)[player] == m[player],
{
}

/// A step with the reset key held leaves the camera at the origin, unzoomed
/// and not interpolating, so that it is seen at the origin at any alpha.
pub proof fn reset_homes_camera(
    m: Map<specs::Entity, Record>,
    keys: Set<Key>,
    cam: specs::Entity,
    player: specs::Entity,
    alpha: int,
)
    requires
        m.dom().contains(cam),
        m.dom().contains(player),
        cam != player,
        m[cam].camera.is_some(),
        keys.contains(Key::Key0),
        0 <= alpha <= ALPHA_ONE,
    ensures
        stepped(m, keys, cam, player)[cam].camera.is_some(),
        stepped(m, keys, cam, player)[cam].camera.unwrap().cur_pos == (Position { x: 0, y: 0 }),
        stepped(m, keys, cam, player)[cam].camera.unwrap().prev_pos.is_none(),
        stepped(m, keys, cam, player)[cam].camera.unwrap().cur_scale == (Scale { x: SCALE_ONE, y: SCALE_ONE }),
        interpolated(
            stepped(m, keys, cam, player)[cam].camera.unwrap().cur_pos,
            stepped(m, keys, cam, player)[cam].camera.unwrap().prev_pos,
            alpha,
        ) == (Position { x: 0, y: 0 }),
{
}

} // verus!
