use proto::camera::{Scale, SCALE_ONE};
use proto::store::Store;
use proto::systems::{
    calc_alpha, calc_coords, interpolate, MoveCamSystem, MoveSystem, StopMovingSystem,
};
use proto::{Camera, Direction, Facing, IntentToMove, Position, Renderable, Size};

fn walker(x: i32) -> Renderable {
    Renderable { drawable: 7, cur_pos: Position::new(x, 0), prev_pos: None, draw_param: None }
}

#[test]
fn four_steps_right_then_half_alpha() {
    let mut store = Store::new();
    let e = store.create_entity();
    let ren = walker(0);
    store.set_renderable(e, ren);
    store.set_facing(e, Facing { direction: Direction::Right });
    store.set_intent(e, IntentToMove::single(Direction::Right));
    let sys = MoveSystem { step: 250 };
    for _ in 0..4 {
        sys.run(&mut store);
    }
    let r = store.renderable(e).unwrap();
    assert_eq!(r.cur_pos.x, 1000);
    assert_eq!(r.prev_pos.unwrap().x, 750);
    assert_eq!(r.cur_pos.y, 0);
    let drawn = interpolate(r.cur_pos, r.prev_pos, 500);
    assert_eq!(drawn.x, 875);
}

#[test]
fn n_steps_accumulate_and_blend() {
    let mut store = Store::new();
    let e = store.create_entity();
    let ren = walker(-300);
    store.set_renderable(e, ren);
    store.set_facing(e, Facing { direction: Direction::Left });
    store.set_intent(e, IntentToMove::single(Direction::Right));
    let sys = MoveSystem { step: 120 };
    for _ in 0..7 {
        sys.run(&mut store);
    }
    let r = store.renderable(e).unwrap();
    assert_eq!(r.cur_pos.x, -300 + 7 * 120);
    assert_eq!(r.prev_pos.unwrap().x, -300 + 6 * 120);
    assert_eq!(interpolate(r.cur_pos, r.prev_pos, 250).x, (540 * 250 + 420 * 750) / 1000);
}

#[test]
fn idle_entity_settles_and_ignores_alpha() {
    let mut store = Store::new();
    let e = store.create_entity();
    store.set_renderable(
        e,
        Renderable { drawable: 1, cur_pos: Position::new(40, 50), prev_pos: Some(Position::new(0, 50)), draw_param: None },
    );
    store.set_facing(e, Facing { direction: Direction::Right });
    store.set_intent(e, IntentToMove::empty());
    MoveSystem::new().run(&mut store);
    StopMovingSystem::new().run(&mut store);
    let r = store.renderable(e).unwrap();
    assert_eq!(r.cur_pos, Position::new(40, 50));
    assert!(r.prev_pos.is_none());
    for a in [0u32, 300, 1000] {
        assert_eq!(interpolate(r.cur_pos, r.prev_pos, a), Position::new(40, 50));
    }
}

#[test]
fn entity_without_intent_does_not_move() {
    let mut store = Store::new();
    let e = store.create_entity();
    store.set_renderable(e, Renderable { drawable: 1, cur_pos: Position::new(5, 6), prev_pos: None, draw_param: None });
    store.set_facing(e, Facing { direction: Direction::Right });
    MoveSystem::new().run(&mut store);
    assert_eq!(store.renderable(e).unwrap().cur_pos, Position::new(5, 6));
    assert!(store.renderable(e).unwrap().prev_pos.is_none());
}

#[test]
fn player_step_is_four_pixels() {
    let mut store = Store::new();
    let e = store.create_entity();
    store.set_renderable(e, Renderable { drawable: 1, cur_pos: Position::new(0, 0), prev_pos: None, draw_param: None });
    store.set_facing(e, Facing { direction: Direction::Left });
    store.set_intent(e, IntentToMove::single(Direction::Left));
    MoveSystem::new().run(&mut store);
    assert_eq!(store.renderable(e).unwrap().cur_pos, Position::new(-400, 0));
    assert_eq!(store.renderable(e).unwrap().prev_pos, Some(Position::new(0, 0)));
}

#[test]
fn camera_pans_diagonally_without_normalizing() {
    let mut store = Store::new();
    let c = store.create_entity();
    store.set_camera(c, Camera::new(Position::new(0, 0), 800, 600, SCALE_ONE));
    let mut i = IntentToMove::single(Direction::Up);
    i.insert(Direction::Right);
    store.set_intent(c, i);
    MoveCamSystem { step: 500 }.run(&mut store);
    let cam = store.camera(c).unwrap();
    assert_eq!(cam.cur_pos, Position::new(500, -500));
    assert_eq!(cam.prev_pos, Some(Position::new(0, 0)));
}

#[test]
fn camera_without_motion_settles() {
    let mut store = Store::new();
    let c = store.create_entity();
    let mut cam = Camera::new(Position::new(10, 20), 800, 600, SCALE_ONE);
    cam.prev_pos = Some(Position::new(5, 20));
    store.set_camera(c, cam);
    MoveCamSystem { step: 500 }.run(&mut store);
    let after = store.camera(c).unwrap();
    assert_eq!(after.cur_pos, Position::new(10, 20));
    assert!(after.prev_pos.is_none());
}

#[test]
fn position_saturates_at_range_edge() {
    let mut store = Store::new();
    let e = store.create_entity();
    store.set_renderable(e, Renderable { drawable: 1, cur_pos: Position::new(i32::MAX - 10, 0), prev_pos: None, draw_param: None });
    store.set_facing(e, Facing { direction: Direction::Right });
    store.set_intent(e, IntentToMove::single(Direction::Right));
    MoveSystem::new().run(&mut store);
    assert_eq!(store.renderable(e).unwrap().cur_pos.x, i32::MAX);
}

#[test]
fn blend_exact_values() {
    assert_eq!(calc_alpha(1000, 200, 750, 0, 500), (875, 100));
    assert_eq!(calc_alpha(1000, 200, 750, 0, 0), (750, 0));
    assert_eq!(calc_alpha(1000, 200, 750, 0, 1000), (1000, 200));
    // rounds down, also below zero
    assert_eq!(calc_alpha(-1, 1, 0, 0, 500), (-1, 0));
}

#[test]
fn screen_coordinates_exact() {
    let ren = Renderable { drawable: 3, cur_pos: Position::new(1000, 2000), prev_pos: None, draw_param: None };
    let size = Size::new(400, 600);
    let mut cam = Camera::new(Position::new(300, -100), 80000, 60000, SCALE_ONE);
    cam.cur_scale = Scale { x: 1000, y: 2000 };
    assert_eq!(calc_coords(&ren, &size, &cam, 700), (40500, 25600));
}

#[test]
fn screen_coordinates_interpolate_entity_and_camera() {
    let ren = Renderable { drawable: 3, cur_pos: Position::new(200, 0), prev_pos: Some(Position::new(0, 0)), draw_param: None };
    let size = Size::new(0, 0);
    let mut cam = Camera::new(Position::new(100, 0), 0, 0, SCALE_ONE);
    cam.prev_pos = Some(Position::new(0, 0));
    // entity drawn at 100, camera at 50
    assert_eq!(calc_coords(&ren, &size, &cam, 500), (50, 0));
}

#[test]
fn screen_coordinates_at_range_edges() {
    let ren = Renderable { drawable: 0, cur_pos: Position::new(i32::MIN, i32::MAX), prev_pos: None, draw_param: None };
    let size = Size::new(i32::MAX, i32::MIN);
    let mut cam = Camera::new(Position::new(i32::MAX, i32::MIN), i32::MIN, i32::MAX, SCALE_ONE);
    cam.cur_scale = Scale { x: i32::MAX, y: i32::MIN };
    let (x, y) = calc_coords(&ren, &size, &cam, 1000);
    let one = SCALE_ONE as i128;
    let sx = i32::MAX as i128;
    let sy = i32::MIN as i128;
    let nx = (2 * (i32::MIN as i128) - (i32::MAX as i128)) * sx - 2 * (i32::MAX as i128) * sx + (i32::MIN as i128) * one;
    let ny = (-2 * (i32::MAX as i128) - (i32::MIN as i128)) * sy - 2 * (i32::MIN as i128) * sy + (i32::MAX as i128) * one;
    assert_eq!(x as i128, nx.div_euclid(2 * one));
    assert_eq!(y as i128, ny.div_euclid(2 * one));
}
