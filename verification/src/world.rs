//! The entity store that keeps the loaded assets: the part of `specs` that this library uses.

use crate::erased::Erased;
use crate::type_key::type_key;
use specs::{Allocator, Component, Entity, MaskedStorage, Storage, VecStorage, World};
use std::any::TypeId;
use std::hash::Hash;
use std::sync::RwLockReadGuard;
use vstd::prelude::*;

verus! {

/// `specs::World`, carried as an opaque value.
#[verifier::external_type_specification]
#[verifier::external_body]
#[verifier::reject_recursive_types(C)]
pub struct ExWorld<C: PartialEq + Eq + Hash>(specs::World<C>);

/// `specs::Entity`, carried as an opaque value.
#[verifier::external_type_specification]
#[verifier::external_body]
pub struct ExEntity(specs::Entity);

/// `specs::VecStorage`, carried as an opaque value.
#[verifier::external_type_specification]
#[verifier::external_body]
#[verifier::reject_recursive_types(T)]
pub struct ExVecStorage<T>(specs::VecStorage<T>);

/// Id for directly accessing assets in the manager
pub type AssetId = Entity;

/// Components of one type, each with the entity that has it.
pub type Rows = Map<AssetId, Erased>;

/// Components of all types.
pub type Tables = Map<TypeId, Rows>;

/// Wrapper type for actual asset data
pub struct Asset<T>(pub T);

impl<T: Send + Sync + 'static> Component for Asset<T> {
    type Storage = VecStorage<Asset<T>>;
}

/// The components in a world: for each registered component type, the entities that have a
/// component of that type, each with its component.
pub uninterp spec fn world_tables(world: World) -> Tables;

/// The entities that are alive in a world.
pub uninterp spec fn world_entities(world: World) -> Set<AssetId>;

/// The number of entities that a world can keep track of: its bit sets have four layers, each of
/// which resolves as many bits of an index as number the bits of a machine word.
pub open spec fn entity_limit() -> nat {
    if usize::BITS == 64 {
        0x100_0000
    } else {
        0x10_0000
    }
}

/// Whether the entity `id` has a component of the type that `key` identifies.
pub open spec fn has_row(tables: Tables, key: TypeId, id: AssetId) -> bool {
    tables.contains_key(key) && tables[key].contains_key(id)
}

/// Whether the entity `id` has, among `rows`, the asset `asset`.
pub open spec fn row_is<A: 'static>(rows: Rows, id: AssetId, asset: A) -> bool {
    rows.contains_key(id) && rows[id].holds(Asset(asset))
}

/// Whether `after` is `before` with the asset `asset` for the entity `id` among the assets of its
/// type.
pub open spec fn gains_row<A: 'static>(
    before: Tables,
    id: AssetId,
    asset: A,
    after: Tables,
) -> bool {
    let key = type_key::<Asset<A>>();
    exists|row: Erased| #[trigger]
        row.holds(Asset(asset)) && after == before.insert(key, before[key].insert(id, row))
}

/// Calls `specs::World::new`, which creates a world without entities and without registered
/// component types.
#[verifier::external_body]
pub(crate) fn new_world() -> (world: World)
    ensures
        world_tables(world) == Tables::empty(),
        world_entities(world) == Set::<AssetId>::empty(),
{
    World::new()
}

/// Calls `specs::World::register`, which gives the component type a new storage without
/// components, in place of the one that it had.
#[verifier::external_body]
pub(crate) fn register<A: Send + Sync + 'static>(world: &mut World)
    ensures
        world_tables(*final(world)) == world_tables(*old(world)).insert(
            type_key::<Asset<A>>(),
            Rows::empty(),
        ),
        world_entities(*final(world)) == world_entities(*old(world)),
{
    world.register::<Asset<A>>();
}

/// Calls `specs::World::create_now`, and `with` and `build` on the builder that it returns,
/// which create one entity and give it one component. The entity is a new one, the component
/// goes to the storage of its type, and nothing else changes.
///
/// The calls panic where the component type was not registered and where the world can keep
/// track of no further entity.
#[verifier::external_body]
pub(crate) fn create<A: Send + Sync + 'static>(world: &mut World, asset: Asset<A>) -> (id: AssetId)
    requires
        world_tables(*old(world)).contains_key(type_key::<Asset<A>>()),
        world_entities(*old(world)).len() < entity_limit(),
    ensures
        !world_entities(*old(world)).contains(id),
        world_entities(*final(world)) == world_entities(*old(world)).insert(id),
        gains_row(world_tables(*old(world)), id, asset.0, world_tables(*final(world))),
{
    world.create_now().with(asset).build()
}

/// The assets of one type, locked for reading.
///
/// It is a `specs::Storage`, whose declaration would need the outside trait `Component` as a
/// bound.
#[verifier::external_body]
#[verifier::reject_recursive_types(A)]
pub struct AssetStorage<'a, A: Send + Sync + 'static>(
    Storage<
        Asset<A>,
        RwLockReadGuard<'a, Allocator>,
        RwLockReadGuard<'a, MaskedStorage<Asset<A>>>,
    >,
);

/// Calls `specs::World::read`, which locks the storage of a component type for reading. Nothing
/// is claimed of the result: `AssetStorage::shows` is defined as being such a result.
///
/// The call panics where the component type was not registered.
#[verifier::external_body]
fn lock<'a, A: Send + Sync + 'static>(world: &'a World) -> (storage: AssetStorage<'a, A>)
    requires
        world_tables(*world).contains_key(type_key::<Asset<A>>()),
{
    AssetStorage(world.read::<Asset<A>>())
}

/// Locks the assets of one type for reading.
pub(crate) fn read<'a, A: Send + Sync + 'static>(world: &'a World) -> (storage: AssetStorage<
    'a,
    A,
>)
    requires
        world_tables(*world).contains_key(type_key::<Asset<A>>()),
    ensures
        storage.shows(world_tables(*world)[type_key::<Asset<A>>()]),
{
    lock(world)
}

impl<'a, A: Send + Sync + 'static> AssetStorage<'a, A> {
    /// Whether this storage was locked when its contents were `rows`.
    pub closed spec fn shows(self, rows: Rows) -> bool {
        exists|world: &World| #[trigger]
            call_ensures(lock::<A>, (world,), self) && world_tables(*world)[type_key::<
                Asset<A>,
            >()] == rows
    }

    /// Calls `specs::Storage::get`, which gives access to the component of an entity, if it has
    /// one, and unwraps the asset in it.
    #[verifier::external_body]
    pub(crate) fn get(&self, id: AssetId) -> (asset: Option<&A>)
        ensures
            forall|rows: Rows, x: A|
                self.shows(rows) ==> (#[trigger] row_is(rows, id, x) <==> asset == Some(&x)),
    {
        self.0.get(id).map(|asset| &asset.0)
    }
}

} // verus!
