use proto::store::Store;
use proto::{Direction, Facing, IntentToMove, Position, Renderable, RoomType, SpecialRoom};

fn ren(x: i32) -> Renderable {
    Renderable { drawable: 0, cur_pos: Position::new(x, 0), prev_pos: None, draw_param: None }
}

#[test]
fn component_round_trip() {
    let mut s = Store::new();
    let e = s.create_entity();
    assert!(s.facing(e).is_none());
    s.set_facing(e, Facing { direction: Direction::Up });
    assert_eq!(s.facing(e), Some(Facing { direction: Direction::Up }));
    s.set_facing(e, Facing { direction: Direction::Down });
    assert_eq!(s.facing(e), Some(Facing { direction: Direction::Down }));
    let i = IntentToMove::single(Direction::Left);
    s.set_intent(e, i);
    assert_eq!(s.intent(e), Some(i));
    s.remove_intent(e);
    assert!(s.intent(e).is_none());
    s.remove_intent(e);
    assert!(s.intent(e).is_none());
    assert_eq!(s.facing(e), Some(Facing { direction: Direction::Down }));
}

#[test]
fn entities_are_distinct() {
    let mut s = Store::new();
    let a = s.create_entity();
    let b = s.create_entity();
    assert_ne!(a, b);
    s.set_renderable(a, ren(1));
    assert!(s.renderable(b).is_none());
}

#[test]
fn join_lists_each_holder_once() {
    let mut s = Store::new();
    let a = s.create_entity();
    let b = s.create_entity();
    let c = s.create_entity();
    s.set_renderable(a, ren(1));
    s.set_renderable(c, ren(3));
    let j = s.join_renderables();
    assert_eq!(j.len(), 2);
    assert!(j.contains(&a) && j.contains(&c) && !j.contains(&b));
}

#[test]
fn deletion_waits_for_maintain() {
    let mut s = Store::new();
    let a = s.create_entity();
    let b = s.create_entity();
    s.set_renderable(a, ren(1));
    s.set_renderable(b, ren(2));
    let yielded = s.join_renderables();
    s.delete_entity(a);
    // still present until maintenance
    assert_eq!(s.renderable(a), Some(ren(1)));
    assert_eq!(s.join_renderables().len(), 2);
    s.maintain();
    assert_eq!(yielded.len(), 2);
    assert!(yielded.contains(&a) && yielded.contains(&b));
    assert_eq!(s.renderable(b), Some(ren(2)));
    let after = s.join_renderables();
    assert_eq!(after, vec![b]);
    let c = s.create_entity();
    assert_ne!(c, a);
    assert!(s.renderable(c).is_none());
}

#[test]
fn intent_set_operations() {
    let mut i = IntentToMove::empty();
    assert!(i.is_empty());
    i.insert(Direction::Up);
    i.insert(Direction::Left);
    assert!(i.contains(Direction::Up) && i.contains(Direction::Left));
    assert!(!i.contains(Direction::Down));
    i.remove(Direction::Up);
    assert!(!i.contains(Direction::Up));
    assert!(!i.is_empty());
}

#[test]
fn special_room_keeps_label() {
    let _ = SpecialRoom::new(RoomType::Boss);
    let _ = SpecialRoom::new(RoomType::Start);
}
