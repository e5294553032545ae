use proto::camera::{Scale, SCALE_ONE};
use proto::input::{HeldKeys, Key};
use proto::{Camera, Direction, Game, Position, Size, SrcRect};

fn held(keys: &[Key]) -> HeldKeys {
    HeldKeys::from_keys(&keys.to_vec())
}

fn new_game() -> Game {
    Game::new(144000, 81000, 0, 1)
}

#[test]
fn new_game_places_camera_and_player() {
    let g = new_game();
    let s = g.store();
    let cam = s.camera(g.main_cam()).unwrap();
    assert_eq!(cam.cur_pos, Position::new(0, 0));
    assert_eq!((cam.width, cam.height), (144000, 81000));
    assert_eq!(cam.cur_scale, Scale { x: SCALE_ONE, y: SCALE_ONE });
    let p = g.player();
    assert_eq!(s.facing(p).unwrap().direction, Direction::Right);
    assert!(s.intent(p).is_none());
    let r = s.renderable(p).unwrap();
    assert_eq!(r.drawable, 1);
    assert_eq!(r.cur_pos, Position::new(0, 0));
    assert_eq!(r.draw_param, Some(SrcRect { x: 0, y: 0, w: 500, h: 500 }));
    assert_eq!(s.size(p).unwrap(), Size::new(30000, 40000));
    assert_eq!(s.join_renderables().len(), 2);
}

#[test]
fn right_arrow_moves_player_in_same_step() {
    let mut g = new_game();
    g.step(&held(&[Key::Right]));
    let r = g.store().renderable(g.player()).unwrap();
    assert_eq!(r.cur_pos, Position::new(400, 0));
    assert_eq!(r.prev_pos, Some(Position::new(0, 0)));
    let cmds = g.render(500);
    let c = cmds.iter().find(|c| c.drawable == 1).unwrap();
    assert_eq!((c.x, c.y), (57200, 20500));
    assert_eq!(c.scale, Scale { x: SCALE_ONE, y: SCALE_ONE });
}

#[test]
fn both_arrows_stop_player() {
    let mut g = new_game();
    g.step(&held(&[Key::Left]));
    let before = g.store().renderable(g.player()).unwrap().cur_pos;
    g.step(&held(&[Key::Left, Key::Right]));
    let p = g.player();
    assert!(g.store().intent(p).is_none());
    assert_eq!(g.store().renderable(p).unwrap().cur_pos, before);
    assert!(g.store().renderable(p).unwrap().prev_pos.is_none());
    assert_eq!(g.store().facing(p).unwrap().direction, Direction::Left);
}

#[test]
fn releasing_other_arrow_keeps_moving() {
    let mut g = new_game();
    g.step(&held(&[Key::Right]));
    assert!(!g.key_up(Key::Left));
    assert!(g.store().intent(g.player()).is_some());
    g.step(&held(&[]));
    assert_eq!(g.store().renderable(g.player()).unwrap().cur_pos, Position::new(800, 0));
}

#[test]
fn releasing_faced_arrow_stops() {
    let mut g = new_game();
    g.step(&held(&[Key::Right]));
    assert!(!g.key_up(Key::Right));
    assert!(g.store().intent(g.player()).is_none());
    g.step(&held(&[]));
    let r = g.store().renderable(g.player()).unwrap();
    assert_eq!(r.cur_pos, Position::new(400, 0));
    assert!(r.prev_pos.is_none());
}

#[test]
fn escape_asks_to_quit() {
    let mut g = new_game();
    assert!(g.key_up(Key::Escape));
    assert!(!g.key_up(Key::Other));
}

#[test]
fn camera_keys_merge_and_release() {
    let mut g = new_game();
    g.step(&held(&[Key::W, Key::D]));
    let c = g.main_cam();
    let cam = g.store().camera(c).unwrap();
    assert_eq!(cam.cur_pos, Position::new(500, -500));
    assert!(!g.key_up(Key::W));
    let i = g.store().intent(c).unwrap();
    assert!(i.contains(Direction::Right));
    assert!(!i.contains(Direction::Up));
    g.step(&held(&[Key::D]));
    assert_eq!(g.store().camera(c).unwrap().cur_pos, Position::new(1000, -500));
}

#[test]
fn no_camera_key_settles_camera() {
    let mut g = new_game();
    g.step(&held(&[Key::A]));
    g.step(&held(&[]));
    let c = g.main_cam();
    let cam = g.store().camera(c).unwrap();
    assert_eq!(cam.cur_pos, Position::new(-500, 0));
    assert!(cam.prev_pos.is_none());
    assert!(g.store().intent(c).is_none());
}

#[test]
fn reset_key_homes_camera() {
    let mut g = new_game();
    g.step(&held(&[Key::S, Key::A]));
    g.step(&held(&[Key::S, Key::A, Key::Key0]));
    let c = g.main_cam();
    let cam = g.store().camera(c).unwrap();
    assert_eq!(cam.cur_pos, Position::new(0, 0));
    assert!(cam.prev_pos.is_none());
    assert_eq!(cam.cur_scale, Scale { x: 1000, y: 1000 });
    let a = g.render(0);
    let b = g.render(1000);
    let pa = a.iter().find(|c| c.drawable == 1).unwrap();
    let pb = b.iter().find(|c| c.drawable == 1).unwrap();
    assert_eq!((pa.x, pa.y), (pb.x, pb.y));
    assert_eq!(pa.scale, Scale { x: 1000, y: 1000 });
}

#[test]
fn held_keys_keep_step_keys_only() {
    let h = held(&[Key::Escape, Key::A, Key::Other, Key::Key0]);
    assert!(h.contains(Key::A));
    assert!(h.contains(Key::Key0));
    assert!(!h.contains(Key::Escape));
    assert!(!h.contains(Key::D));
}

#[test]
fn default_camera_is_unzoomed_at_origin() {
    let c = Camera::default();
    assert_eq!(c.cur_pos, Position::new(0, 0));
    assert_eq!((c.width, c.height), (80000, 60000));
    assert_eq!(c.cur_scale, Scale { x: 1000, y: 1000 });
    assert!(c.prev_pos.is_none() && c.prev_scale.is_none());
}

#[test]
fn new_game_builds_start_room() {
    let g = new_game();
    let s = g.store();
    let rooms: Vec<_> = s.join_renderables().into_iter().filter(|e| *e != g.player()).collect();
    assert_eq!(rooms.len(), 1);
    let room = rooms[0];
    assert_ne!(room, g.main_cam());
    assert_eq!(s.size(room).unwrap(), Size::new(288000, 77000));
    let r = s.renderable(room).unwrap();
    assert_eq!(r.drawable, 0);
    assert_eq!(r.cur_pos, Position::new(74000, 0));
    assert!(r.prev_pos.is_none() && r.draw_param.is_none());
    for e in [room, g.player(), g.main_cam()] {
        assert!(s.intent(e).is_none());
    }
    assert!(s.facing(room).is_none() && s.camera(room).is_none());
    assert!(s.camera(g.player()).is_none());
}
