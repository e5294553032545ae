use vstd::prelude::*;
use specs::{Builder, Join, WorldExt};
use crate::camera::Camera;
use crate::components::{Doors, Facing, IntentToMove, Player, Renderable, Size, SpecialRoom};

verus! {

#[verifier::external_type_specification]
#[verifier::external_body]
pub struct ExWorld(specs::World);

/// What one entity carries, one slot per component kind.
pub struct Record {
    pub facing: Option<Facing>,
    pub intent: Option<IntentToMove>,
    pub renderable: Option<Renderable>,
    pub camera: Option<Camera>,
    pub size: Option<Size>,
    pub player: bool,
    pub doors: Option<Doors>,
}

/// The record of an entity that carries nothing yet.
pub open spec fn bare_record() -> Record {
    Record { facing: None, intent: None, renderable: None, camera: None, size: None, player: false, doors: None }
}

/// `s` holds, once each, the entities of `m` whose record satisfies `has`.
pub open spec fn lists_exactly(
    s: Seq<specs::Entity>,
    m: Map<specs::Entity, Record>,
    has: spec_fn(Record) -> bool,
) -> bool {
    &&& s.no_duplicates()
    &&& forall|e: specs::Entity| s.contains(e) <==> (m.dom().contains(e) && has(m[e]))
}

/// The live entities of a specs world, each with its components.
pub uninterp spec fn world_records(w: specs::World) -> Map<specs::Entity, Record>;

/// The entities whose deletion is queued until the next maintenance.
pub uninterp spec fn world_doomed(w: specs::World) -> Set<specs::Entity>;

/// True when every component kind of this library is registered in the world.
pub uninterp spec fn world_ready(w: specs::World) -> bool;

/// How many entities the world has deleted so far. Each death raises the
/// generation of one index, which the allocator keeps in an `i32`.
pub uninterp spec fn world_deaths(w: specs::World) -> nat;

/// `b` is `a` with its entities' lives unchanged: nothing queued for
/// deletion or deleted since, and every component kind still registered.
pub open spec fn same_lives(a: specs::World, b: specs::World) -> bool {
    &&& world_ready(b)
    &&& world_doomed(b) == world_doomed(a)
    &&& world_deaths(b) == world_deaths(a)
}

/// Relies on specs' `World::new` and `WorldExt::register`: a new world has no
/// entity, and registering makes each storage available.
#[verifier::external_body]
fn new_world() -> (r: specs::World)
    ensures
        world_ready(r),
        world_records(r).dom() == Set::<specs::Entity>::empty(),
        world_doomed(r) == Set::<specs::Entity>::empty(),
        world_deaths(r) == 0,
{
    let mut w = specs::World::new();
    w.register::<Facing>();
    w.register::<IntentToMove>();
    w.register::<Renderable>();
    w.register::<Camera>();
    w.register::<Size>();
    w.register::<Player>();
    w.register::<Doors>();
    w.register::<SpecialRoom>();
    w
}

/// Most entities a world holds at once. specs marks live indices in a
/// hierarchical bitset of 2^20 bits on 32-bit targets (2^24 on 64-bit); with
/// no freed index to reuse, a new entity takes the index equal to the count.
pub const MAX_ENTITIES: u32 = 0x10_0000;

/// Relies on specs' `WorldExt::create_entity` and `EntityBuilder::build`: the
/// allocator hands out an entity that is not alive, and makes it alive.
#[verifier::external_body]
fn spawn(w: &mut specs::World) -> (r: specs::Entity)
    requires
        world_ready(*old(w)),
        world_records(*old(w)).dom().len() < MAX_ENTITIES,
        world_deaths(*old(w)) < i32::MAX,
    ensures
        same_lives(*old(w), *final(w)),
        !world_records(*old(w)).dom().contains(r),
        world_records(*final(w)) == world_records(*old(w)).insert(r, bare_record()),
{
    w.create_entity().build()
}

/// Relies on specs' `Entities::delete`: a live entity is marked for deletion
/// at the next `maintain`, and stays as it is until then.
#[verifier::external_body]
fn doom(w: &mut specs::World, e: specs::Entity)
    requires
        world_ready(*old(w)),
        world_records(*old(w)).dom().contains(e),
    ensures
        world_ready(*final(w)),
        world_records(*final(w)) == world_records(*old(w)),
        world_doomed(*final(w)) == world_doomed(*old(w)).insert(e),
        world_deaths(*final(w)) == world_deaths(*old(w)),
{
    let _ = w.entities().delete(e);
}

/// Relies on specs' `WorldExt::maintain`: entities marked for deletion die,
/// with all their components.
#[verifier::external_body]
fn settle(w: &mut specs::World)
    requires
        world_ready(*old(w)),
    ensures
        world_ready(*final(w)),
        world_records(*final(w)) == world_records(*old(w)).remove_keys(world_doomed(*old(w))),
        world_doomed(*final(w)) == Set::<specs::Entity>::empty(),
        world_deaths(*final(w)) == world_deaths(*old(w)) + world_doomed(*old(w)).len(),
{
    w.maintain();
}

/// Relies on specs' `Storage::insert`: on a live entity it replaces the facing.
#[verifier::external_body]
fn put_facing(w: &mut specs::World, e: specs::Entity, c: Facing)
    requires
        world_ready(*old(w)),
        world_records(*old(w)).dom().contains(e),
    ensures
        same_lives(*old(w), *final(w)),
        world_records(*final(w)) == world_records(*old(w)).insert(
            e,
            Record { facing: Some(c), ..world_records(*old(w))[e] },
        ),
{
    let _ = w.write_storage::<Facing>().insert(e, c);
}

/// Relies on specs' `Storage::insert`: on a live entity it replaces the intent.
#[verifier::external_body]
fn put_intent(w: &mut specs::World, e: specs::Entity, c: IntentToMove)
    requires
        world_ready(*old(w)),
        world_records(*old(w)).dom().contains(e),
    ensures
        same_lives(*old(w), *final(w)),
        world_records(*final(w)) == world_records(*old(w)).insert(
            e,
            Record { intent: Some(c), ..world_records(*old(w))[e] },
        ),
{
    let _ = w.write_storage::<IntentToMove>().insert(e, c);
}

/// Relies on specs' `Storage::insert`: on a live entity it replaces the renderable.
#[verifier::external_body]
fn put_renderable(w: &mut specs::World, e: specs::Entity, c: Renderable)
    requires
        world_ready(*old(w)),
        world_records(*old(w)).dom().contains(e),
    ensures
        same_lives(*old(w), *final(w)),
        world_records(*final(w)) == world_records(*old(w)).insert(
            e,
            Record { renderable: Some(c), ..world_records(*old(w))[e] },
        ),
{
    let _ = w.write_storage::<Renderable>().insert(e, c);
}

/// Relies on specs' `Storage::insert`: on a live entity it replaces the camera.
#[verifier::external_body]
fn put_camera(w: &mut specs::World, e: specs::Entity, c: Camera)
    requires
        world_ready(*old(w)),
        world_records(*old(w)).dom().contains(e),
    ensures
        same_lives(*old(w), *final(w)),
        world_records(*final(w)) == world_records(*old(w)).insert(
            e,
            Record { camera: Some(c), ..world_records(*old(w))[e] },
        ),
{
    let _ = w.write_storage::<Camera>().insert(e, c);
}

/// Relies on specs' `Storage::insert`: on a live entity it replaces the size.
#[verifier::external_body]
fn put_size(w: &mut specs::World, e: specs::Entity, c: Size)
    requires
        world_ready(*old(w)),
        world_records(*old(w)).dom().contains(e),
    ensures
        same_lives(*old(w), *final(w)),
        world_records(*final(w)) == world_records(*old(w)).insert(
            e,
            Record { size: Some(c), ..world_records(*old(w))[e] },
        ),
{
    let _ = w.write_storage::<Size>().insert(e, c);
}

/// Relies on specs' `Storage::insert`: on a live entity it sets the player mark.
#[verifier::external_body]
fn put_player(w: &mut specs::World, e: specs::Entity)
    requires
        world_ready(*old(w)),
        world_records(*old(w)).dom().contains(e),
    ensures
        same_lives(*old(w), *final(w)),
        world_records(*final(w)) == world_records(*old(w)).insert(
            e,
            Record { player: true, ..world_records(*old(w))[e] },
        ),
{
    let _ = w.write_storage::<Player>().insert(e, Player);
}

/// Relies on specs' `Storage::insert`: on a live entity it replaces the doors.
#[verifier::external_body]
fn put_doors(w: &mut specs::World, e: specs::Entity, c: Doors)
    requires
        world_ready(*old(w)),
        world_records(*old(w)).dom().contains(e),
    ensures
        same_lives(*old(w), *final(w)),
        world_records(*final(w)) == world_records(*old(w)).insert(
            e,
            Record { doors: Some(c), ..world_records(*old(w))[e] },
        ),
{
    let _ = w.write_storage::<Doors>().insert(e, c);
}

/// Relies on specs' `Storage::remove`: on a live entity it drops the intent.
#[verifier::external_body]
fn drop_intent(w: &mut specs::World, e: specs::Entity)
    requires
        world_ready(*old(w)),
        world_records(*old(w)).dom().contains(e),
    ensures
        same_lives(*old(w), *final(w)),
        world_records(*final(w)) == world_records(*old(w)).insert(
            e,
            Record { intent: None, ..world_records(*old(w))[e] },
        ),
{
    let _ = w.write_storage::<IntentToMove>().remove(e);
}

/// Relies on specs' `Storage::get`: the facing of a live entity, if any.
#[verifier::external_body]
fn read_facing(w: &specs::World, e: specs::Entity) -> (r: Option<Facing>)
    requires
        world_ready(*w),
        world_records(*w).dom().contains(e),
    ensures
        r == world_records(*w)[e].facing,
{
    w.read_storage::<Facing>().get(e).copied()
}

/// Relies on specs' `Storage::get`: the intent of a live entity, if any.
#[verifier::external_body]
fn read_intent(w: &specs::World, e: specs::Entity) -> (r: Option<IntentToMove>)
    requires
        world_ready(*w),
        world_records(*w).dom().contains(e),
    ensures
        r == world_records(*w)[e].intent,
{
    w.read_storage::<IntentToMove>().get(e).copied()
}

/// Relies on specs' `Storage::get`: the renderable of a live entity, if any.
#[verifier::external_body]
fn read_renderable(w: &specs::World, e: specs::Entity) -> (r: Option<Renderable>)
    requires
        world_ready(*w),
        world_records(*w).dom().contains(e),
    ensures
        r == world_records(*w)[e].renderable,
{
    w.read_storage::<Renderable>().get(e).copied()
}

/// Relies on specs' `Storage::get`: the camera of a live entity, if any.
#[verifier::external_body]
fn read_camera(w: &specs::World, e: specs::Entity) -> (r: Option<Camera>)
    requires
        world_ready(*w),
        world_records(*w).dom().contains(e),
    ensures
        r == world_records(*w)[e].camera,
{
    w.read_storage::<Camera>().get(e).copied()
}

/// Relies on specs' `Storage::get`: the size of a live entity, if any.
#[verifier::external_body]
fn read_size(w: &specs::World, e: specs::Entity) -> (r: Option<Size>)
    requires
        world_ready(*w),
        world_records(*w).dom().contains(e),
    ensures
        r == world_records(*w)[e].size,
{
    w.read_storage::<Size>().get(e).copied()
}

/// Relies on specs' `Join` of the entities with the renderable storage: each
/// live entity that has a renderable, once.
#[verifier::external_body]
fn scan_renderables(w: &specs::World) -> (r: Vec<specs::Entity>)
    requires
        world_ready(*w),
    ensures
        lists_exactly(r@, world_records(*w), |x: Record| x.renderable.is_some()),
{
    let r: Vec<specs::Entity> = (&w.entities(), &w.read_storage::<Renderable>()).join().map(
        |(e, _)| e,
    ).collect();
    r
}

/// Relies on specs' `Join` of the entities with the camera storage: each live
/// entity that has a camera, once.
#[verifier::external_body]
fn scan_cameras(w: &specs::World) -> (r: Vec<specs::Entity>)
    requires
        world_ready(*w),
    ensures
        lists_exactly(r@, world_records(*w), |x: Record| x.camera.is_some()),
{
    let r: Vec<specs::Entity> = (&w.entities(), &w.read_storage::<Camera>()).join().map(
        |(e, _)| e,
    ).collect();
    r
}

/// Components of entities, kept in a specs world: each live entity has at
/// most one component of each kind.
pub struct Store {
    world: specs::World,
}

impl View for Store {
    type V = Map<specs::Entity, Record>;

    /// The live entities, each with the components it carries.
    closed spec fn view(&self) -> Map<specs::Entity, Record> {
        world_records(self.world)
    }
}

impl Store {
    /// Entities deleted since the last `maintain`: still present until then.
    pub closed spec fn doomed(&self) -> Set<specs::Entity> {
        world_doomed(self.world)
    }

    /// How many entities have been deleted so far.
    pub closed spec fn deaths(&self) -> nat {
        world_deaths(self.world)
    }

    pub closed spec fn wf(&self) -> bool {
        &&& world_ready(self.world)
        &&& self@.dom().finite()
        &&& self.doomed().subset_of(self@.dom())
    }

    pub fn new() -> (r: Store)
        ensures
            r.wf(),
            r@ == Map::<specs::Entity, Record>::empty(),
            r.doomed() == Set::<specs::Entity>::empty(),
            r.deaths() == 0,
    {
        let r = Store { world: new_world() };
        assert(r@ =~= Map::<specs::Entity, Record>::empty());
        r
    }

    /// A new entity, with no component.
    pub fn create_entity(&mut self) -> (e: specs::Entity)
        requires
            old(self).wf(),
            old(self)@.dom().len() < MAX_ENTITIES,
            old(self).deaths() < i32::MAX,
        ensures
            final(self).wf(),
            !old(self)@.dom().contains(e),
            final(self)@ == old(self)@.insert(e, bare_record()),
            final(self).doomed() == old(self).doomed(),
            final(self).deaths() == old(self).deaths(),
    {
        spawn(&mut self.world)
    }

    /// Queues the deletion of `e`: it and its components go at `maintain`.
    pub fn delete_entity(&mut self, e: specs::Entity)
        requires
            old(self).wf(),
            old(self)@.dom().contains(e),
        ensures
            final(self).wf(),
            final(self)@ == old(self)@,
            final(self).doomed() == old(self).doomed().insert(e),
            final(self).deaths() == old(self).deaths(),
    {
        doom(&mut self.world, e);
    }

    /// Carries out the queued deletions.
    pub fn maintain(&mut self)
        requires
            old(self).wf(),
        ensures
            final(self).wf(),
            final(self)@ == old(self)@.remove_keys(old(self).doomed()),
            final(self).doomed() == Set::<specs::Entity>::empty(),
            final(self).deaths() == old(self).deaths() + old(self).doomed().len(),
    {
        settle(&mut self.world);
        proof {
            assert(self@.dom() =~= old(self)@.dom().difference(old(self).doomed()));
            vstd::set::axiom_set_difference_finite(old(self)@.dom(), old(self).doomed());
        }
    }

    pub fn set_facing(&mut self, e: specs::Entity, c: Facing)
        requires
            old(self).wf(),
            old(self)@.dom().contains(e),
        ensures
            final(self).wf(),
            final(self)@ == old(self)@.insert(e, Record { facing: Some(c), ..old(self)@[e] }),
            final(self).doomed() == old(self).doomed(),
            final(self).deaths() == old(self).deaths(),
    {
        put_facing(&mut self.world, e, c);
    }

    pub fn set_intent(&mut self, e: specs::Entity, c: IntentToMove)
        requires
            old(self).wf(),
            old(self)@.dom().contains(e),
        ensures
            final(self).wf(),
            final(self)@ == old(self)@.insert(e, Record { intent: Some(c), ..old(self)@[e] }),
            final(self).doomed() == old(self).doomed(),
            final(self).deaths() == old(self).deaths(),
    {
        put_intent(&mut self.world, e, c);
    }

    /// Drops the intent of `e`; nothing happens where it has none.
    pub fn remove_intent(&mut self, e: specs::Entity)
        requires
            old(self).wf(),
            old(self)@.dom().contains(e),
        ensures
            final(self).wf(),
            final(self)@ == old(self)@.insert(e, Record { intent: None, ..old(self)@[e] }),
            final(self).doomed() == old(self).doomed(),
            final(self).deaths() == old(self).deaths(),
    {
        drop_intent(&mut self.world, e);
    }

    pub fn set_renderable(&mut self, e: specs::Entity, c: Renderable)
        requires
            old(self).wf(),
            old(self)@.dom().contains(e),
        ensures
            final(self).wf(),
            final(self)@ == old(self)@.insert(e, Record { renderable: Some(c), ..old(self)@[e] }),
            final(self).doomed() == old(self).doomed(),
            final(self).deaths() == old(self).deaths(),
    {
        put_renderable(&mut self.world, e, c);
    }

    pub fn set_camera(&mut self, e: specs::Entity, c: Camera)
        requires
            old(self).wf(),
            old(self)@.dom().contains(e),
        ensures
            final(self).wf(),
            final(self)@ == old(self)@.insert(e, Record { camera: Some(c), ..old(self)@[e] }),
            final(self).doomed() == old(self).doomed(),
            final(self).deaths() == old(self).deaths(),
    {
        put_camera(&mut self.world, e, c);
    }

    pub fn set_size(&mut self, e: specs::Entity, c: Size)
        requires
            old(self).wf(),
            old(self)@.dom().contains(e),
        ensures
            final(self).wf(),
            final(self)@ == old(self)@.insert(e, Record { size: Some(c), ..old(self)@[e] }),
            final(self).doomed() == old(self).doomed(),
            final(self).deaths() == old(self).deaths(),
    {
        put_size(&mut self.world, e, c);
    }

    pub fn set_player(&mut self, e: specs::Entity)
        requires
            old(self).wf(),
            old(self)@.dom().contains(e),
        ensures
            final(self).wf(),
            final(self)@ == old(self)@.insert(e, Record { player: true, ..old(self)@[e] }),
            final(self).doomed() == old(self).doomed(),
            final(self).deaths() == old(self).deaths(),
    {
        put_player(&mut self.world, e);
    }

    pub fn set_doors(&mut self, e: specs::Entity, c: Doors)
        requires
            old(self).wf(),
            old(self)@.dom().contains(e),
        ensures
            final(self).wf(),
            final(self)@ == old(self)@.insert(e, Record { doors: Some(c), ..old(self)@[e] }),
            final(self).doomed() == old(self).doomed(),
            final(self).deaths() == old(self).deaths(),
    {
        put_doors(&mut self.world, e, c);
    }

    pub fn facing(&self, e: specs::Entity) -> (r: Option<Facing>)
        requires
            self.wf(),
            self@.dom().contains(e),
        ensures
            r == self@[e].facing,
    {
        read_facing(&self.world, e)
    }

    pub fn intent(&self, e: specs::Entity) -> (r: Option<IntentToMove>)
        requires
            self.wf(),
            self@.dom().contains(e),
        ensures
            r == self@[e].intent,
    {
        read_intent(&self.world, e)
    }

    pub fn renderable(&self, e: specs::Entity) -> (r: Option<Renderable>)
        requires
            self.wf(),
            self@.dom().contains(e),
        ensures
            r == self@[e].renderable,
    {
        read_renderable(&self.world, e)
    }

    pub fn camera(&self, e: specs::Entity) -> (r: Option<Camera>)
        requires
            self.wf(),
            self@.dom().contains(e),
        ensures
            r == self@[e].camera,
    {
        read_camera(&self.world, e)
    }

    pub fn size(&self, e: specs::Entity) -> (r: Option<Size>)
        requires
            self.wf(),
            self@.dom().contains(e),
        ensures
            r == self@[e].size,
    {
        read_size(&self.world, e)
    }

    /// The entities that carry a renderable, each once, in storage order.
    pub fn join_renderables(&self) -> (r: Vec<specs::Entity>)
        requires
            self.wf(),
        ensures
            lists_exactly(r@, self@, |x: Record| x.renderable.is_some()),
    {
        scan_renderables(&self.world)
    }

    /// The entities that carry a camera, each once, in storage order.
    pub fn join_cameras(&self) -> (r: Vec<specs::Entity>)
        requires
            self.wf(),
        ensures
            lists_exactly(r@, self@, |x: Record| x.camera.is_some()),
    {
        scan_cameras(&self.world)
    }
}

/// A component set on a live entity reads back as set, and once removed
/// reads back as absent; the other entities keep their records throughout.
pub proof fn set_then_remove_intent(m: Map<specs::Entity, Record>, e: specs::Entity, c: IntentToMove)
    requires
        m.dom().contains(e),
    ensures
        ({
            let set = m.insert(e, Record { intent: Some(c), ..m[e] });
            let removed = set.insert(e, Record { intent: None, ..set[e] });
            &&& set[e].intent == Some(c)
            &&& removed[e].intent.is_none()
            &&& removed.dom() == m.dom()
            &&& forall|x: specs::Entity| x != e && m.dom().contains(x) ==> set[x] == m[x] && removed[x] == m[x]
        }),
{
    let set = m.insert(e, Record { intent: Some(c), ..m[e] });
    let removed = set.insert(e, Record { intent: None, ..set[e] });
    assert(removed.dom() =~= m.dom());
}

/// Entities that a join listed and that were not deleted are still there
/// after maintenance, with the same components: carrying out deletions never
/// disturbs what a join has already handed out.
pub proof fn maintain_keeps_survivors(
    s: Seq<specs::Entity>,
    m: Map<specs::Entity, Record>,
    doomed: Set<specs::Entity>,
    has: spec_fn(Record) -> bool,
)
    requires
        lists_exactly(s, m, has),
    ensures
        forall|i: int|
            0 <= i < s.len() && !doomed.contains(#[trigger] s[i]) ==> m.remove_keys(doomed).dom().contains(s[i])
                && m.remove_keys(doomed)[s[i]] == m[s[i]],
{
    assert forall|i: int| 0 <= i < s.len() && !doomed.contains(#[trigger] s[i]) implies m.remove_keys(doomed).dom().contains(s[i])
        && m.remove_keys(doomed)[s[i]] == m[s[i]] by {
        assert(s.contains(s[i]));
    }
}

} // verus!
