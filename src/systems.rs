use vstd::prelude::*;
use crate::camera::{Camera, Scale, SCALE_ONE};
use crate::components::{count_dir, intent_of, wants_motion, Direction, IntentToMove, Position, Renderable, Size, SrcRect, UNITS_PER_PIXEL};
use crate::store::{lists_exactly, Record, Store};

verus! {

/// Step progress 1.0, in thousandths: alpha runs from 0 to this.
pub const ALPHA_ONE: u32 = 1000;

/// `cur * alpha + prev * (1 - alpha)`, rounded down to a whole unit.
pub open spec fn blend(cur: int, prev: int, alpha: int) -> int {
    (cur * alpha + prev * (ALPHA_ONE - alpha)) / (ALPHA_ONE as int)
}

/// Where a moving thing is drawn: blended with its previous position while
/// it has one, else exactly where it is.
pub open spec fn interpolated(cur: Position, prev: Option<Position>, alpha: int) -> Position {
    match prev {
        Some(p) => Position { x: blend(cur.x as int, p.x as int, alpha) as i32, y: blend(cur.y as int, p.y as int, alpha) as i32 },
        None => cur,
    }
}

/// Horizontal screen coordinate: `(pos - w/2) * s - (cam * s - cam_w/2)`,
/// with `s = sx / SCALE_ONE`, rounded down.
pub open spec fn screen_x(pos: int, w: int, cam: int, cam_w: int, sx: int) -> int {
    ((2 * pos - w) * sx - 2 * cam * sx + cam_w * SCALE_ONE) / (2 * SCALE_ONE as int)
}

/// Vertical screen coordinate. The world's y axis points up and the
/// screen's down, so the entity's y is negated; the camera's is not.
pub open spec fn screen_y(pos: int, h: int, cam: int, cam_h: int, sy: int) -> int {
    ((-2 * pos - h) * sy - 2 * cam * sy + cam_h * SCALE_ONE) / (2 * SCALE_ONE as int)
}

/// Screen position of a renderable of the given size seen through `cam`.
pub open spec fn render_coords(ren: Renderable, size: Size, cam: Camera, alpha: int) -> (int, int) {
    let p = interpolated(ren.cur_pos, ren.prev_pos, alpha);
    let c = interpolated(cam.cur_pos, cam.prev_pos, alpha);
    (
        screen_x(p.x as int, size.width as int, c.x as int, cam.width as int, cam.cur_scale.x as int),
        screen_y(p.y as int, size.height as int, c.y as int, cam.height as int, cam.cur_scale.y as int),
    )
}

proof fn lemma_blend_between(cur: int, prev: int, alpha: int)
    requires
        0 <= alpha <= ALPHA_ONE,
    ensures
        cur <= prev ==> cur <= blend(cur, prev, alpha) <= prev,
        prev <= cur ==> prev <= blend(cur, prev, alpha) <= cur,
{
    let n = cur * alpha + prev * (ALPHA_ONE - alpha);
    let k = ALPHA_ONE as int;
    if cur <= prev {
        assert(cur * k <= n <= prev * k) by (nonlinear_arith)
            requires
                n == cur * alpha + prev * (k - alpha),
                0 <= alpha <= k,
                cur <= prev,
        ;
    } else {
        assert(prev * k <= n <= cur * k) by (nonlinear_arith)
            requires
                n == cur * alpha + prev * (k - alpha),
                0 <= alpha <= k,
                prev <= cur,
        ;
    }
    assert(k == 1000);
    assert(cur <= prev ==> cur <= n / k <= prev) by (nonlinear_arith)
        requires
            cur <= prev ==> cur * k <= n <= prev * k,
            k == 1000,
    ;
    assert(prev <= cur ==> prev <= n / k <= cur) by (nonlinear_arith)
        requires
            prev <= cur ==> prev * k <= n <= cur * k,
            k == 1000,
    ;
}

proof fn lemma_screen_fits(pos: i32, extent: i32, cam: i32, cam_extent: i32, scale: i32)
    ensures
        i64::MIN <= screen_x(pos as int, extent as int, cam as int, cam_extent as int, scale as int) <= i64::MAX,
        i64::MIN <= screen_y(pos as int, extent as int, cam as int, cam_extent as int, scale as int) <= i64::MAX,
{
    let k = 2 * SCALE_ONE as int;
    let nx = (2 * pos - extent) * scale - 2 * cam * scale + cam_extent * SCALE_ONE;
    let ny = (-2 * pos - extent) * scale - 2 * cam * scale + cam_extent * SCALE_ONE;
    assert(-0x10_0000_0000_0000_0000 <= nx <= 0x10_0000_0000_0000_0000) by (nonlinear_arith)
        requires
            nx == (2 * pos - extent) * scale - 2 * cam * scale + cam_extent * 1000,
            -0x8000_0000 <= pos < 0x8000_0000,
            -0x8000_0000 <= extent < 0x8000_0000,
            -0x8000_0000 <= cam < 0x8000_0000,
            -0x8000_0000 <= cam_extent < 0x8000_0000,
            -0x8000_0000 <= scale < 0x8000_0000,
    ;
    assert(-0x10_0000_0000_0000_0000 <= ny <= 0x10_0000_0000_0000_0000) by (nonlinear_arith)
        requires
            ny == (-2 * pos - extent) * scale - 2 * cam * scale + cam_extent * 1000,
            -0x8000_0000 <= pos < 0x8000_0000,
            -0x8000_0000 <= extent < 0x8000_0000,
            -0x8000_0000 <= cam < 0x8000_0000,
            -0x8000_0000 <= cam_extent < 0x8000_0000,
            -0x8000_0000 <= scale < 0x8000_0000,
    ;
    assert(-0x8000_0000_0000_0000 <= nx / k <= 0x7fff_ffff_ffff_ffff) by (nonlinear_arith)
        requires
            -0x10_0000_0000_0000_0000 <= nx <= 0x10_0000_0000_0000_0000,
            k == 2000,
    ;
    assert(-0x8000_0000_0000_0000 <= ny / k <= 0x7fff_ffff_ffff_ffff) by (nonlinear_arith)
        requires
            -0x10_0000_0000_0000_0000 <= ny <= 0x10_0000_0000_0000_0000,
            k == 2000,
    ;
}

/// Screen coordinates always fit an `i64`, so a draw command holds them
/// exactly.
pub proof fn render_coords_fit(ren: Renderable, size: Size, cam: Camera, alpha: int)
    ensures
        i64::MIN <= render_coords(ren, size, cam, alpha).0 <= i64::MAX,
        i64::MIN <= render_coords(ren, size, cam, alpha).1 <= i64::MAX,
        command_for_fits(ren, size, cam, alpha),
{
    let p = interpolated(ren.cur_pos, ren.prev_pos, alpha);
    let c = interpolated(cam.cur_pos, cam.prev_pos, alpha);
    lemma_screen_fits(p.x, size.width, c.x, cam.width, cam.cur_scale.x);
    lemma_screen_fits(p.y, size.height, c.y, cam.height, cam.cur_scale.y);
}

/// Blends one coordinate pair with the previous one by `alpha`.
pub fn calc_alpha(pos_x: i32, pos_y: i32, prev_x: i32, prev_y: i32, alpha: u32) -> (r: (i32, i32))
    requires
        alpha <= ALPHA_ONE,
    ensures
        r.0 == blend(pos_x as int, prev_x as int, alpha as int),
        r.1 == blend(pos_y as int, prev_y as int, alpha as int),
{
    (blend_axis(pos_x, prev_x, alpha), blend_axis(pos_y, prev_y, alpha))
}

fn blend_axis(cur: i32, prev: i32, alpha: u32) -> (r: i32)
    requires
        alpha <= ALPHA_ONE,
    ensures
        r == blend(cur as int, prev as int, alpha as int),
{
    proof {
        lemma_blend_between(cur as int, prev as int, alpha as int);
    }
    let a = alpha as i64;
    let rest = (ALPHA_ONE - alpha) as i64;
    assert(-0x8000_0000 * 1000 <= cur * a <= 0x7fff_ffff * 1000) by (nonlinear_arith)
        requires
            -0x8000_0000 <= cur <= 0x7fff_ffff,
            0 <= a <= 1000,
    ;
    assert(-0x8000_0000 * 1000 <= prev * rest <= 0x7fff_ffff * 1000) by (nonlinear_arith)
        requires
            -0x8000_0000 <= prev <= 0x7fff_ffff,
            0 <= rest <= 1000,
    ;
    let n: i64 = (cur as i64) * a + (prev as i64) * rest;
    match n.checked_div_euclid(ALPHA_ONE as i64) {
        Some(q) => q as i32,
        None => 0,
    }
}

/// Where a thing at `cur`, which was at `prev` one step ago, is drawn.
pub fn interpolate(cur: Position, prev: Option<Position>, alpha: u32) -> (r: Position)
    requires
        alpha <= ALPHA_ONE,
    ensures
        r == interpolated(cur, prev, alpha as int),
{
    match prev {
        Some(p) => {
            let (x, y) = calc_alpha(cur.x, cur.y, p.x, p.y, alpha);
            Position { x, y }
        },
        None => cur,
    }
}

fn screen_axis(pos: i32, extent: i32, cam: i32, cam_extent: i32, scale: i32, flip: bool) -> (r: i64)
    ensures
        !flip ==> r == screen_x(pos as int, extent as int, cam as int, cam_extent as int, scale as int),
        flip ==> r == screen_y(pos as int, extent as int, cam as int, cam_extent as int, scale as int),
{
    let p: i128 = pos as i128;
    let doubled: i128 = if flip { 0 - 2 * p } else { 2 * p };
    let s = scale as i128;
    let lead: i128 = doubled - (extent as i128);
    let c2: i128 = 2 * (cam as i128);
    assert(-0x4_0000_0000 * 0x8000_0000 <= lead * s <= 0x4_0000_0000 * 0x8000_0000) by (nonlinear_arith)
        requires
            -0x4_0000_0000 <= lead <= 0x4_0000_0000,
            -0x8000_0000 <= s <= 0x8000_0000,
    ;
    assert(-0x2_0000_0000 * 0x8000_0000 <= c2 * s <= 0x2_0000_0000 * 0x8000_0000) by (nonlinear_arith)
        requires
            -0x2_0000_0000 <= c2 <= 0x2_0000_0000,
            -0x8000_0000 <= s <= 0x8000_0000,
    ;
    let ce: i128 = cam_extent as i128;
    let one: i128 = SCALE_ONE as i128;
    assert(one == 1000);
    let n: i128 = lead * s - c2 * s + ce * one;
    let d: i128 = 2 * (SCALE_ONE as i128);
    assert(-0x8000_0000_0000_0000 <= n / d <= 0x7fff_ffff_ffff_ffff) by (nonlinear_arith)
        requires
            -0x10_0000_0000_0000_0000 <= n <= 0x10_0000_0000_0000_0000,
            d == 2000,
    ;
    match n.checked_div_euclid(d) {
        Some(q) => q as i64,
        None => 0,
    }
}

/// Screen coordinates of a renderable of size `size` seen through `cam`,
/// both interpolated by `alpha`.
pub fn calc_coords(ren: &Renderable, size: &Size, cam: &Camera, alpha: u32) -> (r: (i64, i64))
    requires
        alpha <= ALPHA_ONE,
    ensures
        r.0 == render_coords(*ren, *size, *cam, alpha as int).0,
        r.1 == render_coords(*ren, *size, *cam, alpha as int).1,
{
    let p = interpolate(ren.cur_pos, ren.prev_pos, alpha);
    let c = interpolate(cam.cur_pos, cam.prev_pos, alpha);
    let x = screen_axis(p.x, size.width, c.x, cam.width, cam.cur_scale.x, false);
    let y = screen_axis(p.y, size.height, c.y, cam.height, cam.cur_scale.y, true);
    (x, y)
}

/// How far the player moves in one step: 4 pixels.
pub const PLAYER_STEP: i32 = 4 * UNITS_PER_PIXEL;

/// How far the camera pans in one step: 5 pixels.
pub const CAMERA_STEP: i32 = 5 * UNITS_PER_PIXEL;

/// `v`, held to the range of `i32`.
pub open spec fn clamped(v: int) -> i32 {
    if v < i32::MIN {
        i32::MIN
    } else if v > i32::MAX {
        i32::MAX
    } else {
        v as i32
    }
}

/// An entity's position after one step along `dirs`, `d` units per
/// direction: right is +x and up is +y in the world.
pub open spec fn advanced(p: Position, dirs: Set<Direction>, d: int) -> Position {
    Position {
        x: clamped(p.x + d * (count_dir(dirs, Direction::Right) - count_dir(dirs, Direction::Left))),
        y: clamped(p.y + d * (count_dir(dirs, Direction::Up) - count_dir(dirs, Direction::Down))),
    }
}

/// The camera's position after one step along `dirs`: the camera keeps its
/// own y axis pointing down, so up is -y.
pub open spec fn panned(p: Position, dirs: Set<Direction>, d: int) -> Position {
    Position {
        x: clamped(p.x + d * (count_dir(dirs, Direction::Right) - count_dir(dirs, Direction::Left))),
        y: clamped(p.y + d * (count_dir(dirs, Direction::Down) - count_dir(dirs, Direction::Up))),
    }
}

/// One step of an entity's motion: one that faces somewhere, intends to move
/// and is drawn keeps its position as the previous one and advances.
pub open spec fn moved_record(r: Record, d: int) -> Record {
    if r.facing.is_some() && wants_motion(r.intent) && r.renderable.is_some() {
        let ren = r.renderable.unwrap();
        Record {
            renderable: Some(
                Renderable {
                    prev_pos: Some(ren.cur_pos),
                    cur_pos: advanced(ren.cur_pos, r.intent.unwrap()@, d),
                    ..ren
                },
            ),
            ..r
        }
    } else {
        r
    }
}

/// One step of a camera: it pans while it intends to move, else it settles.
pub open spec fn panned_record(r: Record, d: int) -> Record {
    if r.camera.is_some() {
        let c = r.camera.unwrap();
        if wants_motion(r.intent) {
            Record {
                camera: Some(
                    Camera { prev_pos: Some(c.cur_pos), cur_pos: panned(c.cur_pos, r.intent.unwrap()@, d), ..c },
                ),
                ..r
            }
        } else {
            Record { camera: Some(Camera { prev_pos: None, ..c }), ..r }
        }
    } else {
        r
    }
}

/// A drawn entity with no motion intended stops interpolating.
pub open spec fn stopped_record(r: Record) -> Record {
    if r.renderable.is_some() && !wants_motion(r.intent) && r.renderable.unwrap().prev_pos.is_some() {
        Record { renderable: Some(Renderable { prev_pos: None, ..r.renderable.unwrap() }), ..r }
    } else {
        r
    }
}

pub open spec fn moved_all(m: Map<specs::Entity, Record>, d: int) -> Map<specs::Entity, Record> {
    Map::new(|e: specs::Entity| m.dom().contains(e), |e: specs::Entity| moved_record(m[e], d))
}

pub open spec fn panned_all(m: Map<specs::Entity, Record>, d: int) -> Map<specs::Entity, Record> {
    Map::new(|e: specs::Entity| m.dom().contains(e), |e: specs::Entity| panned_record(m[e], d))
}

pub open spec fn stopped_all(m: Map<specs::Entity, Record>) -> Map<specs::Entity, Record> {
    Map::new(|e: specs::Entity| m.dom().contains(e), |e: specs::Entity| stopped_record(m[e]))
}

/// `v + d * k`, held to the range of `i32`.
fn shift(v: i32, d: i32, k: i32) -> (r: i32)
    requires
        -1 <= k <= 1,
    ensures
        r == clamped(v + d * k),
{
    assert(-0x8000_0000 <= d * k <= 0x8000_0000) by (nonlinear_arith)
        requires
            -0x8000_0000 <= d <= 0x7fff_ffff,
            -1 <= k <= 1,
    ;
    let t: i64 = (v as i64) + (d as i64) * (k as i64);
    if t < i32::MIN as i64 {
        i32::MIN
    } else if t > i32::MAX as i64 {
        i32::MAX
    } else {
        t as i32
    }
}

fn dir_value(intent: &IntentToMove, d: Direction) -> (r: i32)
    ensures
        r == count_dir(intent@, d),
{
    if intent.contains(d) {
        1
    } else {
        0
    }
}

/// An entity's position after one step along `intent`.
pub fn advance(p: Position, intent: &IntentToMove, d: i32) -> (r: Position)
    ensures
        r == advanced(p, intent@, d as int),
{
    let kx = dir_value(intent, Direction::Right) - dir_value(intent, Direction::Left);
    let ky = dir_value(intent, Direction::Up) - dir_value(intent, Direction::Down);
    Position { x: shift(p.x, d, kx), y: shift(p.y, d, ky) }
}

/// The camera's position after one step along `intent`.
pub fn pan(p: Position, intent: &IntentToMove, d: i32) -> (r: Position)
    ensures
        r == panned(p, intent@, d as int),
{
    let kx = dir_value(intent, Direction::Right) - dir_value(intent, Direction::Left);
    let ky = dir_value(intent, Direction::Down) - dir_value(intent, Direction::Up);
    Position { x: shift(p.x, d, kx), y: shift(p.y, d, ky) }
}

fn has_motion(intent: Option<IntentToMove>) -> (r: bool)
    ensures
        r == wants_motion(intent),
{
    match intent {
        Some(i) => !i.is_empty(),
        None => false,
    }
}

pub(crate) proof fn lemma_fresh_in_prefix(s: Seq<specs::Entity>, i: int)
    requires
        s.no_duplicates(),
        0 <= i < s.len(),
    ensures
        !s.subrange(0, i).contains(s[i]),
        s.subrange(0, i + 1) == s.subrange(0, i).push(s[i]),
        forall|x: specs::Entity|
            #[trigger] s.subrange(0, i + 1).contains(x) <==> (s.subrange(0, i).contains(x) || x == s[i]),
{
    if s.subrange(0, i).contains(s[i]) {
        let j = choose|j: int| 0 <= j < i && s.subrange(0, i)[j] == s[i];
        assert(s[j] == s[i]);
    }
    assert(s.subrange(0, i + 1) =~= s.subrange(0, i).push(s[i]));
    assert forall|x: specs::Entity|
        #[trigger] s.subrange(0, i + 1).contains(x) <==> (s.subrange(0, i).contains(x) || x == s[i]) by {
        vstd::seq_lib::lemma_seq_contains_after_push(s.subrange(0, i), s[i], x);
    }
}

/// Advances every drawn entity that faces somewhere and intends to move.
pub struct MoveSystem {
    /// Distance of one step, in sub-pixel units.
    pub step: i32,
}

impl MoveSystem {
    pub fn new() -> (r: Self)
        ensures
            r.step == PLAYER_STEP,
    {
        MoveSystem { step: PLAYER_STEP }
    }

    pub fn run(&self, store: &mut Store)
        requires
            old(store).wf(),
        ensures
            final(store).wf(),
            final(store).doomed() == old(store).doomed(),
            final(store).deaths() == old(store).deaths(),
            final(store)@ == moved_all(old(store)@, self.step as int),
    {
        let ghost m0 = store@;
        let ents = store.join_renderables();
        let mut i: usize = 0;
        while i < ents.len()
            invariant
                store.wf(),
                store.doomed() == old(store).doomed(),
                store.deaths() == old(store).deaths(),
                m0 == old(store)@,
                store@.dom() == m0.dom(),
                lists_exactly(ents@, m0, |x: Record| x.renderable.is_some()),
                0 <= i <= ents.len(),
                forall|e: specs::Entity| #[trigger]
                    m0.dom().contains(e) ==> store@[e] == (if ents@.subrange(0, i as int).contains(e) {
                        moved_record(m0[e], self.step as int)
                    } else {
                        m0[e]
                    }),
            decreases ents.len() - i,
        {
            let e = ents[i];
            let ghost before = store@;
            proof {
                lemma_fresh_in_prefix(ents@, i as int);
                assert(ents@.contains(e));
            }
            let fac = store.facing(e);
            let intent = store.intent(e);
            let ren = store.renderable(e);
            if fac.is_some() && has_motion(intent) {
                match (intent, ren) {
                    (Some(it), Some(r)) => {
                        let next = Renderable { prev_pos: Some(r.cur_pos), cur_pos: advance(r.cur_pos, &it, self.step), ..r };
                        store.set_renderable(e, next);
                    },
                    _ => {},
                }
            }
            proof {
                assert forall|x: specs::Entity| #[trigger] m0.dom().contains(x) implies store@[x] == (if ents@.subrange(0, i + 1).contains(x) {
                    moved_record(m0[x], self.step as int)
                } else {
                    m0[x]
                }) by {
                    if x != e {
                        assert(store@[x] == before[x]);
                    }
                }
            }
            i = i + 1;
        }
        proof {
            assert(ents@.subrange(0, ents@.len() as int) =~= ents@);
            assert(store@ =~= moved_all(m0, self.step as int));
        }
    }
}

/// Settles every camera for one step: it pans while its intent names a
/// direction, and stops interpolating otherwise.
pub struct MoveCamSystem {
    /// Distance of one step, in sub-pixel units.
    pub step: i32,
}

impl MoveCamSystem {
    pub fn run(&self, store: &mut Store)
        requires
            old(store).wf(),
        ensures
            final(store).wf(),
            final(store).doomed() == old(store).doomed(),
            final(store).deaths() == old(store).deaths(),
            final(store)@ == panned_all(old(store)@, self.step as int),
    {
        let ghost m0 = store@;
        let ents = store.join_cameras();
        let mut i: usize = 0;
        while i < ents.len()
            invariant
                store.wf(),
                store.doomed() == old(store).doomed(),
                store.deaths() == old(store).deaths(),
                m0 == old(store)@,
                store@.dom() == m0.dom(),
                lists_exactly(ents@, m0, |x: Record| x.camera.is_some()),
                0 <= i <= ents.len(),
                forall|e: specs::Entity| #[trigger]
                    m0.dom().contains(e) ==> store@[e] == (if ents@.subrange(0, i as int).contains(e) {
                        panned_record(m0[e], self.step as int)
                    } else {
                        m0[e]
                    }),
            decreases ents.len() - i,
        {
            let e = ents[i];
            let ghost before = store@;
            proof {
                lemma_fresh_in_prefix(ents@, i as int);
                assert(ents@.contains(e));
            }
            let intent = store.intent(e);
            match store.camera(e) {
                Some(c) => {
                    let next = match intent {
                        Some(it) => {
                            if !it.is_empty() {
                                Camera { prev_pos: Some(c.cur_pos), cur_pos: pan(c.cur_pos, &it, self.step), ..c }
                            } else {
                                Camera { prev_pos: None, ..c }
                            }
                        },
                        None => Camera { prev_pos: None, ..c },
                    };
                    store.set_camera(e, next);
                },
                None => {},
            }
            proof {
                assert forall|x: specs::Entity| #[trigger] m0.dom().contains(x) implies store@[x] == (if ents@.subrange(0, i + 1).contains(x) {
                    panned_record(m0[x], self.step as int)
                } else {
                    m0[x]
                }) by {
                    if x != e {
                        assert(store@[x] == before[x]);
                    }
                }
            }
            i = i + 1;
        }
        proof {
            assert(ents@.subrange(0, ents@.len() as int) =~= ents@);
            assert(store@ =~= panned_all(m0, self.step as int));
        }
    }
}

/// Stops interpolation of every drawn entity that no longer intends to move.
pub struct StopMovingSystem;

impl StopMovingSystem {
    pub fn new() -> (r: Self) {
        StopMovingSystem
    }

    pub fn run(&self, store: &mut Store)
        requires
            old(store).wf(),
        ensures
            final(store).wf(),
            final(store).doomed() == old(store).doomed(),
            final(store).deaths() == old(store).deaths(),
            final(store)@ == stopped_all(old(store)@),
    {
        let ghost m0 = store@;
        let ents = store.join_renderables();
        let mut i: usize = 0;
        while i < ents.len()
            invariant
                store.wf(),
                store.doomed() == old(store).doomed(),
                store.deaths() == old(store).deaths(),
                m0 == old(store)@,
                store@.dom() == m0.dom(),
                lists_exactly(ents@, m0, |x: Record| x.renderable.is_some()),
                0 <= i <= ents.len(),
                forall|e: specs::Entity| #[trigger]
                    m0.dom().contains(e) ==> store@[e] == (if ents@.subrange(0, i as int).contains(e) {
                        stopped_record(m0[e])
                    } else {
                        m0[e]
                    }),
            decreases ents.len() - i,
        {
            let e = ents[i];
            let ghost before = store@;
            proof {
                lemma_fresh_in_prefix(ents@, i as int);
                assert(ents@.contains(e));
            }
            let intent = store.intent(e);
            match store.renderable(e) {
                Some(r) => {
                    if !has_motion(intent) && r.prev_pos.is_some() {
                        store.set_renderable(e, Renderable { prev_pos: None, ..r });
                    }
                },
                None => {},
            }
            proof {
                assert forall|x: specs::Entity| #[trigger] m0.dom().contains(x) implies store@[x] == (if ents@.subrange(0, i + 1).contains(x) {
                    stopped_record(m0[x])
                } else {
                    m0[x]
                }) by {
                    if x != e {
                        assert(store@[x] == before[x]);
                    }
                }
            }
            i = i + 1;
        }
        proof {
            assert(ents@.subrange(0, ents@.len() as int) =~= ents@);
            assert(store@ =~= stopped_all(m0));
        }
    }
}

/// What to draw, where on the screen and at which zoom.
#[derive(Debug, Copy, Clone)]
pub struct DrawCommand {
    pub entity: specs::Entity,
    pub drawable: usize,
    pub x: i64,
    pub y: i64,
    pub scale: Scale,
    pub draw_param: Option<SrcRect>,
}

/// The command that draws entity `e` through `cam`.
pub open spec fn command_for(e: specs::Entity, ren: Renderable, size: Size, cam: Camera, alpha: int) -> DrawCommand {
    DrawCommand {
        entity: e,
        drawable: ren.drawable,
        x: render_coords(ren, size, cam, alpha).0 as i64,
        y: render_coords(ren, size, cam, alpha).1 as i64,
        scale: cam.cur_scale,
        draw_param: ren.draw_param,
    }
}

/// The coordinates of `command_for` are those of `render_coords`, uncut.
pub open spec fn command_for_fits(ren: Renderable, size: Size, cam: Camera, alpha: int) -> bool {
    forall|e: specs::Entity|
        #![trigger command_for(e, ren, size, cam, alpha)]
        command_for(e, ren, size, cam, alpha).x as int == render_coords(ren, size, cam, alpha).0
            && command_for(e, ren, size, cam, alpha).y as int == render_coords(ren, size, cam, alpha).1
}

/// True for a record that the render pass draws.
pub open spec fn drawn(x: Record) -> bool {
    x.renderable.is_some() && x.size.is_some()
}

/// The entities that a list of commands draws, in order.
pub open spec fn command_entities(s: Seq<DrawCommand>) -> Seq<specs::Entity> {
    s.map_values(|c: DrawCommand| c.entity)
}

proof fn lemma_push_fresh(s: Seq<specs::Entity>, e: specs::Entity)
    requires
        s.no_duplicates(),
        !s.contains(e),
    ensures
        s.push(e).no_duplicates(),
        forall|x: specs::Entity| #[trigger] s.push(e).contains(x) <==> (s.contains(x) || x == e),
{
    assert forall|x: specs::Entity| #[trigger] s.push(e).contains(x) <==> (s.contains(x) || x == e) by {
        vstd::seq_lib::lemma_seq_contains_after_push(s, e, x);
    }
    assert forall|j: int, k: int| 0 <= j < s.push(e).len() && 0 <= k < s.push(e).len() && j != k implies s.push(
        e,
    )[j] != s.push(e)[k] by {
        if j == s.len() as int {
            assert(s.contains(s[k]));
        } else if k == s.len() as int {
            assert(s.contains(s[j]));
        }
    }
}

/// Computes, for the draw of one frame, where each sized renderable goes
/// on the screen as seen by the camera of entity `cam`.
pub struct RenderSystem {
    /// Progress into the current step, in thousandths.
    pub alpha: u32,
    pub cam: specs::Entity,
}

impl RenderSystem {
    pub fn new(alpha: u32, cam: specs::Entity) -> (r: Self)
        ensures
            r.alpha == alpha,
            r.cam == cam,
    {
        RenderSystem { alpha, cam }
    }

    /// One command per entity with a renderable and a size.
    pub fn run(&self, store: &Store) -> (r: Vec<DrawCommand>)
        requires
            store.wf(),
            self.alpha <= ALPHA_ONE,
            store@.dom().contains(self.cam),
            store@[self.cam].camera.is_some(),
        ensures
            lists_exactly(command_entities(r@), store@, |x: Record| drawn(x)),
            forall|i: int|
                0 <= i < r@.len() ==> #[trigger] r@[i] == command_for(
                    r@[i].entity,
                    store@[r@[i].entity].renderable.unwrap(),
                    store@[r@[i].entity].size.unwrap(),
                    store@[self.cam].camera.unwrap(),
                    self.alpha as int,
                ),
    {
        let cam = match store.camera(self.cam) {
            Some(c) => c,
            None => Camera::default(),
        };
        let ents = store.join_renderables();
        let mut out: Vec<DrawCommand> = Vec::new();
        let mut i: usize = 0;
        while i < ents.len()
            invariant
                store.wf(),
                self.alpha <= ALPHA_ONE,
                cam == store@[self.cam].camera.unwrap(),
                lists_exactly(ents@, store@, |x: Record| x.renderable.is_some()),
                0 <= i <= ents.len(),
                command_entities(out@).no_duplicates(),
                forall|x: specs::Entity| #[trigger]
                    command_entities(out@).contains(x) <==> (ents@.subrange(0, i as int).contains(x)
                        && drawn(store@[x])),
                forall|j: int|
                    0 <= j < out@.len() ==> #[trigger] out@[j] == command_for(
                        out@[j].entity,
                        store@[out@[j].entity].renderable.unwrap(),
                        store@[out@[j].entity].size.unwrap(),
                        cam,
                        self.alpha as int,
                    ),
            decreases ents.len() - i,
        {
            let e = ents[i];
            proof {
                lemma_fresh_in_prefix(ents@, i as int);
                assert(ents@.contains(e));
            }
            let ghost before = out@;
            match (store.renderable(e), store.size(e)) {
                (Some(ren), Some(size)) => {
                    let (x, y) = calc_coords(&ren, &size, &cam, self.alpha);
                    out.push(
                        DrawCommand { entity: e, drawable: ren.drawable, x, y, scale: cam.cur_scale, draw_param: ren.draw_param },
                    );
                    proof {
                        assert(command_entities(out@) =~= command_entities(before).push(e));
                        if command_entities(before).contains(e) {
                            assert(ents@.subrange(0, i as int).contains(e));
                        }
                        lemma_push_fresh(command_entities(before), e);
                        assert forall|j: int|
                            0 <= j < out@.len() implies #[trigger] out@[j] == command_for(
                                out@[j].entity,
                                store@[out@[j].entity].renderable.unwrap(),
                                store@[out@[j].entity].size.unwrap(),
                                cam,
                                self.alpha as int,
                            ) by {
                            if j < before.len() {
                                assert(out@[j] == before[j]);
                            }
                        }
                    }
                },
                _ => {
                    assert(out@ == before);
                },
            }
            i = i + 1;
        }
        proof {
            assert(ents@.subrange(0, ents@.len() as int) =~= ents@);
        }
        out
    }
}

/// Through one step in which an entity intends no motion, the motion, pan
/// and settling passes leave it where it was and at rest: neither its
/// renderable nor its camera keeps a previous position, so it is drawn
/// exactly where it is at any alpha.
pub proof fn idle_step_settles(r: Record, d_move: int, d_pan: int, alpha: int)
    requires
        !wants_motion(r.intent),
        0 <= alpha <= ALPHA_ONE,
    ensures
        ({
            let s = stopped_record(panned_record(moved_record(r, d_move), d_pan));
            &&& s.renderable.is_some() == r.renderable.is_some()
            &&& s.renderable.is_some() ==> s.renderable.unwrap().prev_pos.is_none()
                && s.renderable.unwrap().cur_pos == r.renderable.unwrap().cur_pos
                && interpolated(s.renderable.unwrap().cur_pos, s.renderable.unwrap().prev_pos, alpha)
                    == r.renderable.unwrap().cur_pos
            &&& s.camera.is_some() == r.camera.is_some()
            &&& s.camera.is_some() ==> s.camera.unwrap().prev_pos.is_none()
                && s.camera.unwrap().cur_pos == r.camera.unwrap().cur_pos
                && interpolated(s.camera.unwrap().cur_pos, s.camera.unwrap().prev_pos, alpha)
                    == r.camera.unwrap().cur_pos
        }),
{
}

/// The record after `n` motion steps of `d` units each.
pub open spec fn moved_n(r: Record, d: int, n: nat) -> Record
    decreases n,
{
    if n == 0 {
        r
    } else {
        moved_record(moved_n(r, d, (n - 1) as nat), d)
    }
}

/// An entity that faces somewhere and intends to move right, stepped `n`
/// times by `d` units, ends `n * d` units right of where it started, with
/// its previous position one step behind; drawn at alpha it blends the two.
/// (Stated where `x + n * d` stays in the range of `i32`, where nothing is
/// held at the range's edge.)
pub proof fn moving_right_accumulates(r: Record, d: int, n: nat, alpha: int)
    requires
        r.facing.is_some(),
        r.intent == Some(intent_of(set![Direction::Right])),
        r.renderable.is_some(),
        i32::MIN <= r.renderable.unwrap().cur_pos.x + n * d <= i32::MAX,
        0 <= alpha <= ALPHA_ONE,
    ensures
        ({
            let start = r.renderable.unwrap().cur_pos;
            let s = moved_n(r, d, n);
            &&& s.facing == r.facing
            &&& s.intent == r.intent
            &&& s.renderable.is_some()
            &&& s.renderable.unwrap().cur_pos == (Position { x: (start.x + n * d) as i32, y: start.y })
            &&& n > 0 ==> s.renderable.unwrap().prev_pos == Some(Position { x: (start.x + (n - 1) * d) as i32, y: start.y })
            &&& n > 0 ==> interpolated(s.renderable.unwrap().cur_pos, s.renderable.unwrap().prev_pos, alpha).x
                == blend(start.x + n * d, start.x + (n - 1) * d, alpha)
        }),
    decreases n,
{
    let start = r.renderable.unwrap().cur_pos;
    let right = set![Direction::Right];
    assert(right.contains(Direction::Right));
    assert(intent_of(right)@.contains(Direction::Right));
    assert(count_dir(intent_of(right)@, Direction::Right) == 1);
    assert(!intent_of(right)@.contains(Direction::Left));
    assert(!intent_of(right)@.contains(Direction::Up));
    assert(!intent_of(right)@.contains(Direction::Down));
    if n > 0 {
        let k = (n - 1) as nat;
        assert(i32::MIN <= start.x + k * d <= i32::MAX) by (nonlinear_arith)
            requires
                i32::MIN <= start.x + n * d <= i32::MAX,
                i32::MIN <= start.x <= i32::MAX,
                k + 1 == n,
        ;
        moving_right_accumulates(r, d, k, alpha);
        assert(start.x + k * d + d == start.x + n * d) by (nonlinear_arith)
            requires
                k + 1 == n,
        ;
        let sk = moved_n(r, d, k);
        let ck = sk.renderable.unwrap().cur_pos;
        assert(ck == Position { x: (start.x + k * d) as i32, y: start.y });
        assert(wants_motion(sk.intent));
        assert(count_dir(intent_of(right)@, Direction::Up) == 0);
        assert(count_dir(intent_of(right)@, Direction::Down) == 0);
        assert(count_dir(intent_of(right)@, Direction::Left) == 0);
        assert(d * (0 - 0) == 0) by (nonlinear_arith);
        assert(d * (1 - 0) == d) by (nonlinear_arith);
        assert(advanced(ck, intent_of(right)@, d) == Position { x: (start.x + n * d) as i32, y: start.y });
        assert(moved_n(r, d, n) == moved_record(sk, d));
        lemma_blend_between(start.x + n * d, start.x + k * d, alpha);
    } else {
        assert(n * d == 0) by (nonlinear_arith)
            requires
                n == 0,
        ;
    }
}

/// The store's view after `n` runs of the motion pass, `d` units a step.
pub open spec fn moved_all_n(m: Map<specs::Entity, Record>, d: int, n: nat) -> Map<specs::Entity, Record>
    decreases n,
{
    if n == 0 {
        m
    } else {
        moved_all(moved_all_n(m, d, (n - 1) as nat), d)
    }
}

/// Each run of the motion pass moves every entity by its own record alone:
/// after `n` runs an entity's record is its record moved `n` times.
pub proof fn moved_all_n_per_entity(m: Map<specs::Entity, Record>, d: int, n: nat, e: specs::Entity)
    requires
        m.dom().contains(e),
    ensures
        moved_all_n(m, d, n).dom() == m.dom(),
        moved_all_n(m, d, n)[e] == moved_n(m[e], d, n),
    decreases n,
{
    if n > 0 {
        moved_all_n_per_entity(m, d, (n - 1) as nat, e);
        assert(moved_all_n(m, d, n).dom() =~= m.dom());
    }
}

/// Run `n` times over a store, the motion pass takes an entity that faces
/// somewhere and intends to move right `n * d` units right, keeps its
/// previous position one step behind, and draws it at alpha as the blend of
/// the two. (Stated where `x + n * d` stays in the range of `i32`; beyond it
/// the position is held at the range's edge.)
pub proof fn moving_right_over_runs(m: Map<specs::Entity, Record>, e: specs::Entity, d: int, n: nat, alpha: int)
    requires
        m.dom().contains(e),
        m[e].facing.is_some(),
        m[e].intent == Some(intent_of(set![Direction::Right])),
        m[e].renderable.is_some(),
        i32::MIN <= m[e].renderable.unwrap().cur_pos.x + n * d <= i32::MAX,
        0 <= alpha <= ALPHA_ONE,
    ensures
        ({
            let start = m[e].renderable.unwrap().cur_pos;
            let s = moved_all_n(m, d, n)[e].renderable.unwrap();
            &&& moved_all_n(m, d, n).dom() == m.dom()
            &&& moved_all_n(m, d, n)[e].renderable.is_some()
            &&& s.cur_pos == (Position { x: (start.x + n * d) as i32, y: start.y })
            &&& n > 0 ==> s.prev_pos == Some(Position { x: (start.x + (n - 1) * d) as i32, y: start.y })
            &&& n > 0 ==> interpolated(s.cur_pos, s.prev_pos, alpha).x == blend(start.x + n * d, start.x + (n - 1) * d, alpha)
        }),
{
    moved_all_n_per_entity(m, d, n, e);
    moving_right_accumulates(m[e], d, n, alpha);
}

} // verus!
