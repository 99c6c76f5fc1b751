//! Storing and loading assets.

use crate::erased::Erased;
use crate::registry::Registry;
use crate::type_key::{type_id, type_key};
use crate::world::{
    create, entity_limit, gains_row, has_row, new_world, read, register, row_is, world_entities,
    world_tables, Asset, AssetId, AssetStorage, Rows, Tables,
};
use specs::World;
use std::any::TypeId;
use vstd::hash_map::StringHashMap;
use vstd::prelude::*;

verus! {

/// A trait for generating intermdiate data for loading from raw data
pub trait AssetLoaderRaw: Sized {
    /// Whether `from_raw` returns for these arguments, rather than panic. If not said otherwise,
    /// it does.
    open spec fn readable(assets: AssetsView, data: Seq<u8>) -> bool {
        true
    }

    /// Whether `from_raw` may return `result` for these arguments. If not said otherwise, it may
    /// return anything.
    open spec fn decodes(assets: AssetsView, data: Seq<u8>, result: Option<Self>) -> bool {
        true
    }

    fn from_raw(assets: &Assets, data: &[u8]) -> (result: Option<Self>)
        requires
            assets.wf(),
            Self::readable(assets@, data@),
        ensures
            Self::decodes(assets@, data@, result),
    ;
}

/// A trait for loading assets from arbitrary data
pub trait AssetLoader<A>: Sized {
    /// Whether `from_data` returns for these arguments, rather than panic. If not said otherwise,
    /// it does.
    open spec fn loadable(assets: AssetsView, data: Self) -> bool {
        true
    }

    /// Whether `from_data` may turn the assets `before` into `after` and return `result`. If not
    /// said otherwise, it may do anything.
    open spec fn loads(
        before: AssetsView,
        data: Self,
        after: AssetsView,
        result: Option<A>,
    ) -> bool {
        true
    }

    fn from_data(assets: &mut Assets, data: Self) -> (result: Option<A>)
        requires
            old(assets).wf(),
            Self::loadable(old(assets)@, data),
        ensures
            final(assets).wf(),
            Self::loads(old(assets)@, data, final(assets)@, result),
    ;
}

/// Whether `asset` is what is kept under `id`, in all rows that `contained` holds of.
pub open spec fn reads_as<T: 'static>(
    contained: spec_fn(Rows) -> bool,
    id: AssetId,
    asset: Option<&T>,
) -> bool {
    &&& forall|rows: Rows| #[trigger]
        contained(rows) && asset is Some ==> row_is(rows, id, *asset.unwrap())
    &&& forall|rows: Rows, x: T|
        #![trigger contained(rows), row_is(rows, id, x)]
        contained(rows) && row_is(rows, id, x) ==> asset == Some(&x)
}

/// Read access to the assets of one type.
pub trait AssetReadStorage<T: 'static> {
    /// Whether `rows` are the assets that can be read here. If not said otherwise, it is not known
    /// which ones are.
    open spec fn contains_rows(&self, rows: Rows) -> bool {
        false
    }

    fn read(&self, id: AssetId) -> (asset: Option<&T>)
        ensures
            forall|rows: Rows, x: T|
                self.contains_rows(rows) ==> (#[trigger] row_is(rows, id, x) <==> asset == Some(
                    &x,
                )),
            reads_as(|rows: Rows| self.contains_rows(rows), id, asset),
    ;
}

impl<'a, T: Send + Sync + 'static> AssetReadStorage<T> for AssetStorage<'a, T> {
    open spec fn contains_rows(&self, rows: Rows) -> bool {
        self.shows(rows)
    }

    fn read(&self, id: AssetId) -> (asset: Option<&T>) {
        self.get(id)
    }
}

/// What an [`Assets`] holds.
#[verifier::ext_equal]
pub struct AssetsView {
    /// The loader resources, by type.
    pub loaders: Map<TypeId, Erased>,
    /// The id that each asset name stands for.
    pub asset_ids: Map<Seq<char>, AssetId>,
    /// The assets of each registered type.
    pub tables: Tables,
    /// All ids that were given out.
    pub entities: Set<AssetId>,
}

impl AssetsView {
    /// Assets are kept under ids that were given out, no id is that of assets of two types, and
    /// every name stands for an id of its own.
    pub open spec fn wf(self) -> bool {
        &&& self.entities.finite()
        &&& forall|key: TypeId, id: AssetId| #[trigger]
            has_row(self.tables, key, id) ==> self.entities.contains(id)
        &&& forall|key: TypeId, other: TypeId, id: AssetId| #[trigger]
            has_row(self.tables, key, id) && #[trigger] has_row(self.tables, other, id) ==> key
                == other
        &&& forall|name: Seq<char>| #[trigger]
            self.asset_ids.contains_key(name) ==> self.entities.contains(self.asset_ids[name])
        &&& self.asset_ids.is_injective()
    }

    /// Whether `loader` is the loader resource of its type.
    pub open spec fn has_loader<T: 'static>(self, loader: T) -> bool {
        self.loaders.contains_key(type_key::<T>()) && self.loaders[type_key::<T>()].holds(loader)
    }

    /// Whether `after` is `self` with `loader` as the loader resource of its type.
    pub open spec fn sets_loader<T: 'static>(self, loader: T, after: AssetsView) -> bool {
        exists|erased: Erased| #[trigger]
            erased.holds(loader) && after == (AssetsView {
                loaders: self.loaders.insert(type_key::<T>(), erased),
                ..self
            })
    }

    /// Whether the asset type `A` is registered.
    pub open spec fn is_registered<A: 'static>(self) -> bool {
        self.tables.contains_key(type_key::<Asset<A>>())
    }

    /// Whether the asset of type `A` with the id `id` is `asset`.
    pub open spec fn has_asset<A: 'static>(self, id: AssetId, asset: A) -> bool {
        self.is_registered::<A>() && row_is(self.tables[type_key::<Asset<A>>()], id, asset)
    }

    /// Whether the asset of type `A` that goes by the name `name` is `asset`.
    pub open spec fn named<A: 'static>(self, name: Seq<char>, asset: A) -> bool {
        self.asset_ids.contains_key(name) && self.has_asset(self.asset_ids[name], asset)
    }

    /// Whether an asset of type `A` goes by the name `name`.
    pub open spec fn has_named<A: 'static>(self, name: Seq<char>) -> bool {
        exists|asset: A| #[trigger] self.named(name, asset)
    }

    /// Whether `copy` is a clone of the asset of type `A` that goes by the name `name`.
    pub open spec fn named_clones_to<A: Clone + 'static>(self, name: Seq<char>, copy: A) -> bool {
        exists|asset: A| #[trigger] self.named(name, asset) && cloned(asset, copy)
    }

    /// `self` with the asset type `A` registered, and without assets of that type.
    pub open spec fn register<A: 'static>(self) -> AssetsView {
        AssetsView {
            tables: self.tables.insert(type_key::<Asset<A>>(), Rows::empty()),
            ..self
        }
    }

    /// Whether an asset of type `A` can be added: its type is registered and there is an id left.
    pub open spec fn has_room<A: 'static>(self) -> bool {
        self.is_registered::<A>() && self.entities.len() < entity_limit()
    }

    /// The names after `name` was given to the asset `id`: a name that is taken keeps its asset.
    pub open spec fn name_ids(self, name: Seq<char>, id: AssetId) -> Map<Seq<char>, AssetId> {
        if self.asset_ids.contains_key(name) {
            self.asset_ids
        } else {
            self.asset_ids.insert(name, id)
        }
    }

    /// Whether `after` is `self` with `asset` under the new id `id` and the name `name`.
    pub open spec fn gains<A: 'static>(
        self,
        name: Seq<char>,
        asset: A,
        id: AssetId,
        after: AssetsView,
    ) -> bool {
        &&& !self.entities.contains(id)
        &&& after.entities == self.entities.insert(id)
        &&& after.loaders == self.loaders
        &&& after.asset_ids == self.name_ids(name, id)
        &&& gains_row(self.tables, id, asset, after.tables)
    }

    /// Whether adding `asset` under the name `name` may turn `self` into `after` and return
    /// `result`.
    pub open spec fn adds<A: 'static>(
        self,
        name: Seq<char>,
        asset: A,
        after: AssetsView,
        result: AssetId,
    ) -> bool {
        &&& exists|id: AssetId| #[trigger] self.gains(name, asset, id, after)
        &&& result == after.asset_ids[name]
    }

    /// Whether adding the outcome of a loader under the name `name` may turn `self` into `after`
    /// and return `result`: no asset, no change.
    pub open spec fn adds_loaded<A: 'static>(
        self,
        name: Seq<char>,
        asset: Option<A>,
        after: AssetsView,
        result: Option<AssetId>,
    ) -> bool {
        match asset {
            Some(a) => result is Some && self.adds(name, a, after, result.unwrap()),
            None => result is None && after == self,
        }
    }

    /// Whether loading an asset of type `A` from `data` neither panics in the loader nor lacks the
    /// room for what is loaded.
    pub open spec fn can_load<A: 'static, S: AssetLoader<A>>(self, data: S) -> bool {
        &&& S::loadable(self, data)
        &&& forall|after: AssetsView, asset: A| #[trigger]
            S::loads(self, data, after, Some(asset)) ==> after.has_room::<A>()
    }

    /// Whether loading an asset of type `A` from `raw`, by way of data of type `S`, neither panics
    /// in a loader nor lacks the room for what is loaded.
    pub open spec fn can_load_raw<A: 'static, S: AssetLoader<A> + AssetLoaderRaw>(
        self,
        raw: Seq<u8>,
    ) -> bool {
        &&& S::readable(self, raw)
        &&& forall|data: S| #[trigger]
            S::decodes(self, raw, Some(data)) ==> self.can_load::<A, S>(data)
    }

    /// Whether loading the asset `name` from `raw`, by way of data of type `S`, may turn `self`
    /// into `after` and return `result`: no data, no change.
    pub open spec fn loads_raw<A: 'static, S: AssetLoader<A> + AssetLoaderRaw>(
        self,
        name: Seq<char>,
        raw: Seq<u8>,
        after: AssetsView,
        result: Option<AssetId>,
    ) -> bool {
        exists|data: Option<S>| #[trigger]
            S::decodes(self, raw, data) && match data {
                Some(d) => self.loads_data::<A, S>(name, d, after, result),
                None => result is None && after == self,
            }
    }

    /// Whether loading the asset `name` from `data` may turn `self` into `after` and return
    /// `result`.
    pub open spec fn loads_data<A: 'static, S: AssetLoader<A>>(
        self,
        name: Seq<char>,
        data: S,
        after: AssetsView,
        result: Option<AssetId>,
    ) -> bool {
        exists|loaded: AssetsView, asset: Option<A>| #[trigger]
            S::loads(self, data, loaded, asset) && loaded.adds_loaded(name, asset, after, result)
    }
}

/// What an [`Assets`] holds stays well-formed where only loader resources change.
proof fn lemma_loaders_wf(before: AssetsView, after: AssetsView)
    requires
        before.wf(),
        after == (AssetsView { loaders: after.loaders, ..before }),
    ensures
        after.wf(),
{
    assert forall|key: TypeId, id: AssetId| #[trigger]
        has_row(after.tables, key, id) implies after.entities.contains(id) by {
        assert(has_row(before.tables, key, id));
    }
    assert forall|key: TypeId, other: TypeId, id: AssetId| #[trigger]
        has_row(after.tables, key, id) && #[trigger] has_row(
            after.tables,
            other,
            id,
        ) implies key == other by {
        assert(has_row(before.tables, key, id) && has_row(before.tables, other, id));
    }
}

/// Setting a loader resource keeps what an [`Assets`] holds well-formed.
pub proof fn law_sets_loader_wf<T: 'static>(before: AssetsView, loader: T, after: AssetsView)
    requires
        before.wf(),
        before.sets_loader(loader, after),
    ensures
        after.wf(),
{
    lemma_loaders_wf(before, after);
}

/// Registering an asset type keeps what an [`Assets`] holds well-formed.
pub proof fn law_register_wf<A: 'static>(before: AssetsView)
    requires
        before.wf(),
    ensures
        before.register::<A>().wf(),
{
    let after = before.register::<A>();
    assert forall|key: TypeId, id: AssetId| #[trigger]
        has_row(after.tables, key, id) implies after.entities.contains(id) by {
        assert(key != type_key::<Asset<A>>());
        assert(has_row(before.tables, key, id));
    }
    assert forall|key: TypeId, other: TypeId, id: AssetId| #[trigger]
        has_row(after.tables, key, id) && #[trigger] has_row(
            after.tables,
            other,
            id,
        ) implies key == other by {
        assert(has_row(before.tables, key, id) && has_row(before.tables, other, id));
    }
}

/// Adding an asset keeps what an [`Assets`] holds well-formed.
pub proof fn law_adds_wf<A: 'static>(
    before: AssetsView,
    name: Seq<char>,
    asset: A,
    after: AssetsView,
    result: AssetId,
)
    requires
        before.wf(),
        before.is_registered::<A>(),
        before.adds(name, asset, after, result),
    ensures
        after.wf(),
{
    let new_id = choose|id: AssetId| #[trigger] before.gains(name, asset, id, after);
    assert forall|key: TypeId, id: AssetId| #[trigger]
        has_row(after.tables, key, id) implies after.entities.contains(id) by {
        if id != new_id {
            assert(has_row(before.tables, key, id));
        }
    }
    assert forall|key: TypeId, other: TypeId, id: AssetId| #[trigger]
        has_row(after.tables, key, id) && #[trigger] has_row(
            after.tables,
            other,
            id,
        ) implies key == other by {
        if id != new_id {
            assert(has_row(before.tables, key, id) && has_row(before.tables, other, id));
        } else {
            assert(!has_row(before.tables, key, id) && !has_row(before.tables, other, id));
        }
    }
}

/// Internal assets handler which takes care of storing and loading assets.
pub struct Assets {
    loaders: Registry<TypeId, Erased>,
    asset_ids: StringHashMap<AssetId>,
    assets: World,
}

impl View for Assets {
    type V = AssetsView;

    closed spec fn view(&self) -> AssetsView {
        AssetsView {
            loaders: self.loaders@,
            asset_ids: self.asset_ids@,
            tables: world_tables(self.assets),
            entities: world_entities(self.assets),
        }
    }
}

impl Assets {
    /// Whether the loader resources are stored as they must be.
    pub closed spec fn is_stored(&self) -> bool {
        self.loaders.wf()
    }

    pub open spec fn wf(&self) -> bool {
        self@.wf() && self.is_stored()
    }

    pub(crate) fn new() -> (assets: Assets)
        ensures
            assets.wf(),
            assets@ == (AssetsView {
                loaders: Map::empty(),
                asset_ids: Map::empty(),
                tables: Map::empty(),
                entities: Set::empty(),
            }),
    {
        Assets { loaders: Registry::new(), asset_ids: StringHashMap::new(), assets: new_world() }
    }

    /// Add loader resource to the manager
    pub fn add_loader<T: 'static>(&mut self, loader: T)
        requires
            old(self).wf(),
        ensures
            final(self).wf(),
            old(self)@.sets_loader(loader, final(self)@),
    {
        let erased = Erased::new(loader);
        self.loaders.insert(type_id::<T>(), erased);
        proof {
            assert(erased.holds(loader));
            assert(old(self)@.sets_loader(loader, self@));
            law_sets_loader_wf(old(self)@, loader, self@);
        }
    }

    /// Returns stored loader resource
    pub fn get_loader<T: 'static>(&self) -> (loader: Option<&T>)
        requires
            self.wf(),
        ensures
            forall|x: T| #[trigger] self@.has_loader(x) <==> loader == Some(&x),
            loader is Some ==> self@.has_loader(*loader.unwrap()),
    {
        match self.loaders.get(&type_id::<T>()) {
            Some(erased) => erased.downcast_ref(),
            None => None,
        }
    }

    /// Returns stored loader resource
    pub fn get_loader_mut<T: 'static>(&mut self) -> (loader: Option<&mut T>)
        requires
            old(self).wf(),
        ensures
            final(self).wf(),
            forall|x: T| #[trigger]
                old(self)@.has_loader(x) ==> loader is Some && *loader.unwrap() == x,
            match loader {
                Some(x) => old(self)@.has_loader(*x) && old(self)@.sets_loader(
                    *final(x),
                    final(self)@,
                ),
                None => final(self)@ == old(self)@,
            },
    {
        proof {
            let before = old(self)@;
            assert forall|after: AssetsView|
                after == (AssetsView {
                    loaders: after.loaders,
                    ..before
                }) implies #[trigger] after.wf() by {
                lemma_loaders_wf(before, after);
            }
        }
        match self.loaders.get_mut(&type_id::<T>()) {
            Some(erased) => erased.downcast_mut(),
            None => None,
        }
    }

    /// Register a new asset type
    pub fn register_asset<A: Send + Sync + 'static>(&mut self)
        requires
            old(self).wf(),
        ensures
            final(self).wf(),
            final(self)@ == old(self)@.register::<A>(),
    {
        register::<A>(&mut self.assets);
        proof {
            law_register_wf::<A>(old(self)@);
        }
    }

    /// Retrieve the `AssetId` from the asset name
    pub fn id_from_name(&self, name: &str) -> (id: Option<AssetId>)
        requires
            self.wf(),
        ensures
            id == (if self@.asset_ids.contains_key(name@) {
                Some(self@.asset_ids[name@])
            } else {
                None
            }),
    {
        match self.asset_ids.get(name) {
            Some(id) => Some(*id),
            None => None,
        }
    }

    /// Read the storage of all assets for a certain type
    /// # Panics
    /// Panics if the asset type isn't registered
    pub fn read_assets<A: Send + Sync + 'static>(&self) -> (storage: AssetStorage<'_, A>)
        requires
            self.wf(),
            self@.is_registered::<A>(),
        ensures
            storage.contains_rows(self@.tables[type_key::<Asset<A>>()]),
    {
        read(&self.assets)
    }

    /// Load an asset from data
    /// # Panics
    /// Panics if the asset type isn't registered
    pub fn load_asset_from_data<A: Send + Sync + 'static, S: AssetLoader<A>>(
        &mut self,
        name: &str,
        data: S,
    ) -> (id: Option<AssetId>)
        requires
            old(self).wf(),
            old(self)@.can_load::<A, S>(data),
        ensures
            final(self).wf(),
            old(self)@.loads_data::<A, S>(name@, data, final(self)@, id),
    {
        let asset = S::from_data(self, data);
        let ghost loaded = self@;
        let ghost outcome = asset;
        assert(S::loads(old(self)@, data, loaded, outcome));
        if let Some(asset) = asset {
            Some(self.add_asset(name, asset))
        } else {
            None
        }
    }

    /// Adds an asset. The first asset under a name keeps that name, and its id is returned for
    /// every later one.
    fn add_asset<A: Send + Sync + 'static>(&mut self, name: &str, asset: A) -> (id: AssetId)
        requires
            old(self).wf(),
            old(self)@.has_room::<A>(),
        ensures
            final(self).wf(),
            old(self)@.adds(name@, asset, final(self)@, id),
    {
        let created = create(&mut self.assets, Asset(asset));
        let id = match self.asset_ids.get(name) {
            Some(id) => *id,
            None => {
                self.asset_ids.insert(name.to_owned(), created);
                created
            },
        };
        proof {
            assert(old(self)@.gains(name@, asset, created, self@));
            law_adds_wf(old(self)@, name@, asset, self@, id);
        }
        id
    }
}

} // verus!
