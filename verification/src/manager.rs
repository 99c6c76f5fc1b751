//! The asset manager.

use crate::assets::{AssetLoader, AssetLoaderRaw, AssetReadStorage, Assets, AssetsView};
use crate::held::Held;
use crate::loader::{hold_loader, is_loader, RawLoader};
use crate::mesh::Mesh;
use crate::registry::Registry;
use crate::store::{
    are_default_stores, default_stores, hold_store, is_store, AssetStore, DirectoryStore,
};
use crate::texture::Texture;
use crate::type_key::{type_id, type_key};
use crate::world::AssetId;
use imagefmt::Image;
use std::any::TypeId;
use std::ops::{Deref, DerefMut};
use std::path::PathBuf;
use vstd::prelude::*;
use wavefront_obj::obj::ObjSet;

verus! {

/// What an [`AssetManager`] holds.
#[verifier::ext_equal]
pub struct AssetManagerView {
    pub assets: AssetsView,
    /// For each asset type name and asset type, the type of the data to load from.
    pub asset_type_ids: Map<(Seq<char>, TypeId), TypeId>,
    /// For each asset type and type of data, how to load the asset.
    pub closures: Map<(TypeId, TypeId), Held<dyn RawLoader>>,
    /// The stores, in the order in which they are searched.
    pub stores: Seq<Held<dyn AssetStore>>,
}

impl AssetManagerView {
    /// The assets are well-formed, and for all registered types of data it is known how to load
    /// from them.
    pub open spec fn wf(self) -> bool {
        &&& self.assets.wf()
        &&& forall|route: (Seq<char>, TypeId)| #[trigger]
            self.asset_type_ids.contains_key(route) ==> self.closures.contains_key(
                (route.1, self.asset_type_ids[route]),
            )
    }

    /// Whether a loading method for assets of type `A` is registered under the name `asset_type`.
    pub open spec fn has_method<A: 'static>(self, asset_type: Seq<char>) -> bool {
        self.asset_type_ids.contains_key((asset_type, type_key::<A>()))
    }

    /// The loading method for assets of type `A` that is registered under the name `asset_type`.
    pub open spec fn method<A: 'static>(self, asset_type: Seq<char>) -> Held<dyn RawLoader> {
        let key = type_key::<A>();
        self.closures[(key, self.asset_type_ids[(asset_type, key)])]
    }

    /// Whether assets of type `A` under the name `asset_type` are loaded by way of data of type
    /// `S`.
    pub open spec fn loads_by<A: Send + Sync + 'static, S: AssetLoader<A> + AssetLoaderRaw>(
        self,
        asset_type: Seq<char>,
    ) -> bool {
        self.has_method::<A>(asset_type) && is_loader::<A, S>(self.method::<A>(asset_type))
    }

    /// Whether `after` is `self` with data of type `S` registered for assets of type `A` under
    /// the name `asset_type`.
    pub open spec fn registers<
        A: Send + Sync + 'static,
        S: AssetLoader<A> + AssetLoaderRaw + 'static,
    >(self, asset_type: Seq<char>, after: AssetManagerView) -> bool {
        let key = type_key::<A>();
        let source = type_key::<S>();
        exists|loader: Held<dyn RawLoader>| #[trigger]
            is_loader::<A, S>(loader) && after == (AssetManagerView {
                asset_type_ids: self.asset_type_ids.insert((asset_type, key), source),
                closures: self.closures.insert((key, source), loader),
                ..self
            })
    }

    /// Whether this is what a new manager holds but for its stores, for meshes of type `M` and
    /// textures of type `T`: both types are registered, meshes are loaded from `.obj` data, and
    /// textures from images.
    ///
    /// Where meshes and `.obj` data had the type identifiers of textures and images, the way to
    /// load textures would be in place of the other.
    pub open spec fn is_new<M: Send + Sync + 'static, T: Send + Sync + 'static>(self) -> bool where
        ObjSet: AssetLoader<M>,
        Image<u8>: AssetLoader<T>,
     {
        let mesh = type_key::<M>();
        let texture = type_key::<T>();
        &&& self.assets == no_assets().register::<M>().register::<T>()
        &&& forall|route: (Seq<char>, TypeId)| #[trigger]
            self.asset_type_ids.contains_key(route) <==> route == ("obj"@, mesh) || route.1
                == texture && image_types().contains(route.0)
        &&& self.asset_type_ids[("obj"@, mesh)] == type_key::<ObjSet>()
        &&& forall|asset_type: Seq<char>| #[trigger]
            image_types().contains(asset_type) ==> self.asset_type_ids[(asset_type, texture)]
                == type_key::<Image<u8>>()
        &&& forall|pair: (TypeId, TypeId)| #[trigger]
            self.closures.contains_key(pair) <==> pair == (mesh, type_key::<ObjSet>()) || pair == (
            texture,
            type_key::<Image<u8>>(),
        )
        &&& (mesh, type_key::<ObjSet>()) != (texture, type_key::<Image<u8>>()) ==> self.loads_by::<
            M,
            ObjSet,
        >("obj"@)
        &&& forall|asset_type: Seq<char>| #[trigger]
            image_types().contains(asset_type) ==> self.loads_by::<T, Image<u8>>(asset_type)
    }

    /// Whether the stores are those that a manager starts with, made of directories by `open`.
    pub open spec fn has_default_stores<D: AssetStore, F: Fn(DirectoryStore) -> D>(
        self,
        asset_dirs: Seq<PathBuf>,
        exe_dir: Option<&str>,
        open: F,
    ) -> bool {
        exists|dirs: Seq<DirectoryStore>| #[trigger]
            are_default_stores(asset_dirs, exe_dir, dirs) && opens_all(open, dirs, self.stores)
    }

    /// Whether `after` is `self` with `store` as the last store.
    pub open spec fn adds_store<T: AssetStore>(self, store: T, after: AssetManagerView) -> bool {
        &&& after.stores.len() == self.stores.len() + 1
        &&& after == (AssetManagerView { stores: self.stores.push(after.stores.last()), ..self })
        &&& is_store(after.stores.last(), store)
    }

    /// Whether loading an asset of type `A` from `raw` neither lacks a loading method nor panics
    /// in it.
    pub open spec fn can_load_raw<A: 'static>(self, asset_type: Seq<char>, raw: Seq<u8>) -> bool {
        self.has_method::<A>(asset_type) && self.method::<A>(asset_type).value.can_load(
            self.assets,
            raw,
        )
    }

    /// Whether loading the asset `name` of type `A` from `raw` may turn `self` into `after` and
    /// return `result`.
    pub open spec fn loads_raw<A: 'static>(
        self,
        name: Seq<char>,
        asset_type: Seq<char>,
        raw: Seq<u8>,
        after: AssetManagerView,
        result: Option<AssetId>,
    ) -> bool {
        &&& after == (AssetManagerView { assets: after.assets, ..self })
        &&& self.method::<A>(asset_type).value.loads(
            self.assets,
            name,
            raw,
            after.assets,
            result,
        )
    }

    /// Whether each of the first `n` stores may report that it has not the asset `name`.
    pub open spec fn skips(self, name: Seq<char>, asset_type: Seq<char>, n: int) -> bool {
        forall|i: int|
            0 <= i < n ==> (#[trigger] self.stores[i]).value.reports(name, asset_type, false)
    }

    /// Whether the store at index `i` may be the first that has the asset `name`, and hand out
    /// `raw`.
    pub open spec fn fetches_from(
        self,
        i: int,
        name: Seq<char>,
        asset_type: Seq<char>,
        raw: Seq<u8>,
    ) -> bool {
        &&& 0 <= i < self.stores.len()
        &&& self.skips(name, asset_type, i)
        &&& self.stores[i].value.reports(name, asset_type, true)
        &&& exists|count: Option<usize>| #[trigger]
            self.stores[i].value.fills(name, asset_type, Seq::empty(), raw, count)
    }

    /// Whether `raw` may be what the first store that has the asset `name` hands out.
    pub open spec fn fetches(self, name: Seq<char>, asset_type: Seq<char>, raw: Seq<u8>) -> bool {
        exists|i: int| #[trigger] self.fetches_from(i, name, asset_type, raw)
    }

    /// Whether loading the asset `name` of type `A` from the stores neither lacks a loading
    /// method nor panics in it, whatever a store hands out.
    pub open spec fn can_load<A: 'static>(self, name: Seq<char>, asset_type: Seq<char>) -> bool {
        forall|raw: Seq<u8>| #[trigger]
            self.fetches(name, asset_type, raw) ==> self.can_load_raw::<A>(asset_type, raw)
    }

    /// Whether loading the asset `name` of type `A` from the stores may turn `self` into `after`
    /// and return `result`: no store, no change.
    pub open spec fn loads<A: 'static>(
        self,
        name: Seq<char>,
        asset_type: Seq<char>,
        after: AssetManagerView,
        result: Option<AssetId>,
    ) -> bool {
        ||| exists|raw: Seq<u8>| #[trigger]
            self.fetches(name, asset_type, raw) && self.loads_raw::<A>(
                name,
                asset_type,
                raw,
                after,
                result,
            )
        ||| self.skips(name, asset_type, self.stores.len() as int) && result is None && after
            == self
    }
}

/// Whether `held` is a store that `open` may make of a directory.
pub open spec fn opens<D: AssetStore, F: Fn(DirectoryStore) -> D>(
    open: F,
    dir: DirectoryStore,
    held: Held<dyn AssetStore>,
) -> bool {
    exists|store: D| #[trigger] call_ensures(open, (dir,), store) && is_store(held, store)
}

/// Whether `stores` are stores that `open` may make of directories, one of each.
pub open spec fn opens_all<D: AssetStore, F: Fn(DirectoryStore) -> D>(
    open: F,
    dirs: Seq<DirectoryStore>,
    stores: Seq<Held<dyn AssetStore>>,
) -> bool {
    &&& stores.len() == dirs.len()
    &&& forall|i: int| 0 <= i < dirs.len() ==> opens(open, dirs[i], #[trigger] stores[i])
}

/// No assets, and nothing to load them with.
pub open spec fn no_assets() -> AssetsView {
    AssetsView {
        loaders: Map::empty(),
        asset_ids: Map::empty(),
        tables: Map::empty(),
        entities: Set::empty(),
    }
}

/// The asset type names of images.
pub open spec fn image_types() -> Seq<Seq<char>> {
    seq!["png"@, "bmp"@, "jpg"@, "jpeg"@, "tga"@]
}

/// The asset type name of meshes is none of those of images.
proof fn lemma_image_types()
    ensures
        !image_types().contains("obj"@),
{
    reveal_strlit("obj");
    reveal_strlit("png");
    reveal_strlit("bmp");
    reveal_strlit("jpg");
    reveal_strlit("jpeg");
    reveal_strlit("tga");
    assert forall|i: int| 0 <= i < image_types().len() implies image_types()[i] != "obj"@ by {
        assert("obj"@[0] == 'o');
        assert(image_types()[i][0] != 'o');
    }
}

/// Registering a loading method keeps what an [`AssetManager`] holds well-formed.
pub proof fn law_registers_wf<
    A: Send + Sync + 'static,
    S: AssetLoader<A> + AssetLoaderRaw + 'static,
>(before: AssetManagerView, asset_type: Seq<char>, after: AssetManagerView)
    requires
        before.wf(),
        before.registers::<A, S>(asset_type, after),
    ensures
        after.wf(),
{
    assert forall|route: (Seq<char>, TypeId)| #[trigger]
        after.asset_type_ids.contains_key(route) implies after.closures.contains_key(
        (route.1, after.asset_type_ids[route]),
    ) by {
        if route != (asset_type, type_key::<A>()) {
            assert(before.asset_type_ids.contains_key(route));
        }
    }
}

/// What it takes to render an object: a mesh, and a texture for each kind of reflection.
pub struct Renderable<M, T, N> {
    pub mesh: M,
    pub ambient: T,
    pub diffuse: T,
    pub specular: T,
    pub specular_exponent: N,
}

/// Asset manager which handles assets and loaders.
pub struct AssetManager {
    assets: Assets,
    asset_type_ids: Registry<(String, TypeId), TypeId>,
    closures: Registry<(TypeId, TypeId), Held<dyn RawLoader>>,
    stores: Vec<Held<dyn AssetStore>>,
}

impl View for AssetManager {
    type V = AssetManagerView;

    closed spec fn view(&self) -> AssetManagerView {
        AssetManagerView {
            assets: self.assets@,
            asset_type_ids: self.asset_type_ids@,
            closures: self.closures@,
            stores: self.stores@,
        }
    }
}

impl AssetManager {
    /// Whether the assets and the loading methods are stored as they must be.
    pub closed spec fn is_stored(&self) -> bool {
        self.assets.is_stored() && self.asset_type_ids.wf() && self.closures.wf()
    }

    pub open spec fn wf(&self) -> bool {
        self@.wf() && self.is_stored()
    }

    /// Create a new asset manager that handles meshes and textures as assets of the types `M` and
    /// `T`
    pub fn with_types<
        M: Send + Sync + 'static,
        T: Send + Sync + 'static,
        D: AssetStore + 'static,
        F: Fn(DirectoryStore) -> D,
    >(asset_dirs: Vec<PathBuf>, exe_dir: Option<&str>, open: F) -> (manager: AssetManager) where
        ObjSet: AssetLoader<M>,
        Image<u8>: AssetLoader<T>,

        requires
            forall|dir: DirectoryStore| call_requires(open, (dir,)),
        ensures
            manager.wf(),
            manager@.is_new::<M, T>(),
            manager@.has_default_stores(asset_dirs@, exe_dir, open),
    {
        let mut manager = AssetManager {
            asset_type_ids: Registry::new(),
            assets: Assets::new(),
            closures: Registry::new(),
            stores: Vec::new(),
        };
        manager.deref_mut().register_asset::<M>();
        manager.deref_mut().register_asset::<T>();

        manager.register_loader::<M, ObjSet>("obj");

        manager.register_loader::<T, Image<u8>>("png");
        manager.register_loader::<T, Image<u8>>("bmp");
        manager.register_loader::<T, Image<u8>>("jpg");
        manager.register_loader::<T, Image<u8>>("jpeg");
        manager.register_loader::<T, Image<u8>>("tga");
        proof {
            lemma_image_types();
        }
        let ghost bare = manager@;
        assert(bare.is_new::<M, T>());

        let dirs = default_stores(asset_dirs, exe_dir);
        for dir in iter: dirs
            invariant
                forall|d: DirectoryStore| call_requires(open, (d,)),
                manager.wf(),
                manager@ == (AssetManagerView { stores: manager@.stores, ..bare }),
                manager@.stores.len() == iter.index(),
                forall|i: int|
                    0 <= i < iter.index() ==> opens(
                        open,
                        iter.seq()[i],
                        #[trigger] manager@.stores[i],
                    ),
        {
            let store = open(dir);
            let ghost opened = store;
            manager.register_store(store);
            assert(call_ensures(open, (dir,), opened));
        }
        assert(opens_all(open, dirs@, manager@.stores));
        manager
    }

    /// Create a new asset manager
    ///
    /// Sets up default resource directories: a store for each of `asset_dirs`, and one for the
    /// sibling `./resources/assets/` of the executable, whose directory is `exe_dir`. The stores
    /// are made by `open`, which knows how to read files.
    pub fn new<D: AssetStore + 'static, F: Fn(DirectoryStore) -> D>(
        asset_dirs: Vec<PathBuf>,
        exe_dir: Option<&str>,
        open: F,
    ) -> (manager: AssetManager)
        requires
            forall|dir: DirectoryStore| call_requires(open, (dir,)),
        ensures
            manager.wf(),
            manager@.is_new::<Mesh, Texture>(),
            manager@.has_default_stores(asset_dirs@, exe_dir, open),
    {
        AssetManager::with_types::<Mesh, Texture, D, F>(asset_dirs, exe_dir, open)
    }

    /// Register a new loading method for a specific asset data type
    pub fn register_loader<
        A: Send + Sync + 'static,
        S: AssetLoader<A> + AssetLoaderRaw + 'static,
    >(&mut self, asset: &str)
        requires
            old(self).wf(),
        ensures
            final(self).wf(),
            old(self)@.registers::<A, S>(asset@, final(self)@),
    {
        let asset_id = type_id::<A>();
        let source_id = type_id::<S>();
        let loader = hold_loader::<A, S>();
        self.closures.insert((asset_id, source_id), loader);
        self.asset_type_ids.insert((asset.to_owned(), asset_id), source_id);
        proof {
            assert(is_loader::<A, S>(loader));
            law_registers_wf::<A, S>(old(self)@, asset@, self@);
        }
    }

    /// Register an asset store
    pub fn register_store<T: 'static + AssetStore>(&mut self, store: T)
        requires
            old(self).wf(),
        ensures
            final(self).wf(),
            old(self)@.adds_store(store, final(self)@),
    {
        let held = hold_store(store);
        self.stores.push(held);
    }

    /// Load an asset from raw data
    /// # Panics
    /// Panics if the asset type isn't registered
    pub fn load_asset_from_raw<A: Send + Sync + 'static>(
        &mut self,
        name: &str,
        asset_type: &str,
        raw: &[u8],
    ) -> (id: Option<AssetId>)
        requires
            old(self).wf(),
            old(self)@.can_load_raw::<A>(asset_type@, raw@),
        ensures
            final(self).wf(),
            old(self)@.loads_raw::<A>(name@, asset_type@, raw@, final(self)@, id),
    {
        let asset_type_id = type_id::<A>();
        let ghost route = (asset_type@, asset_type_id);
        assert(self@.asset_type_ids.contains_key(route));
        let source_id = *self.asset_type_ids.get(&(asset_type.to_owned(), asset_type_id)).expect(
            "Unregistered asset type id",
        );
        let loader = self.closures.get(&(asset_type_id, source_id)).unwrap();
        loader.value.load(&mut self.assets, name, raw)
    }

    /// Load an asset from the asset stores
    /// # Panics
    /// Panics if a store has the asset and the asset type isn't registered
    pub fn load_asset<A: Send + Sync + 'static>(&mut self, name: &str, asset_type: &str) -> (id:
        Option<AssetId>)
        requires
            old(self).wf(),
            old(self)@.can_load::<A>(name@, asset_type@),
        ensures
            final(self).wf(),
            old(self)@.loads::<A>(name@, asset_type@, final(self)@, id),
    {
        let mut buf: Vec<u8> = Vec::new();
        let mut i: usize = 0;
        while i < self.stores.len()
            invariant
                self@ == old(self)@,
                self.wf(),
                i <= self.stores@.len(),
                buf@.len() == 0,
                self@.skips(name@, asset_type@, i as int),
                self@.can_load::<A>(name@, asset_type@),
            decreases self.stores@.len() - i,
        {
            if self.stores[i].value.has_asset(name, asset_type) {
                assert(buf@ =~= Seq::empty());
                let count = self.stores[i].value.load_asset(name, asset_type, &mut buf);
                assert(self@.stores[i as int].value.fills(
                    name@,
                    asset_type@,
                    Seq::empty(),
                    buf@,
                    count,
                ));
                assert(self@.fetches_from(i as int, name@, asset_type@, buf@));
                assert(self@.fetches(name@, asset_type@, buf@));
                return self.load_asset_from_raw::<A>(name, asset_type, &buf);
            }
            i = i + 1;
        }
        None
    }

    /// Create a `Renderable` component from a loaded mesh and ka/kd/ks textures
    /// # Panics
    /// Panics if the type of meshes or that of textures isn't registered
    pub fn create_renderable<
        M: Clone + Send + Sync + 'static,
        T: Clone + Send + Sync + 'static,
        N,
    >(&self, mesh: &str, ka: &str, kd: &str, ks: &str, ns: N) -> (renderable: Option<
        Renderable<M, T, N>,
    >)
        requires
            self.wf(),
            self@.assets.is_registered::<M>(),
            self@.assets.is_registered::<T>(),
        ensures
            renderable is Some <==> {
                &&& self@.assets.has_named::<M>(mesh@)
                &&& self@.assets.has_named::<T>(ka@)
                &&& self@.assets.has_named::<T>(kd@)
                &&& self@.assets.has_named::<T>(ks@)
            },
            renderable matches Some(r) ==> {
                &&& self@.assets.named_clones_to(mesh@, r.mesh)
                &&& self@.assets.named_clones_to(ka@, r.ambient)
                &&& self@.assets.named_clones_to(kd@, r.diffuse)
                &&& self@.assets.named_clones_to(ks@, r.specular)
                &&& r.specular_exponent == ns
            },
    {
        let meshes = self.assets.read_assets::<M>();
        let textures = self.assets.read_assets::<T>();
        let mesh_id = match self.assets.id_from_name(mesh) {
            Some(id) => id,
            None => return None,
        };
        let mesh_asset = match meshes.read(mesh_id) {
            Some(mesh) => mesh,
            None => return None,
        };
        let ka_id = match self.assets.id_from_name(ka) {
            Some(id) => id,
            None => return None,
        };
        let ambient = match textures.read(ka_id) {
            Some(ka) => ka,
            None => return None,
        };
        let kd_id = match self.assets.id_from_name(kd) {
            Some(id) => id,
            None => return None,
        };
        let diffuse = match textures.read(kd_id) {
            Some(kd) => kd,
            None => return None,
        };
        let ks_id = match self.assets.id_from_name(ks) {
            Some(id) => id,
            None => return None,
        };
        let specular = match textures.read(ks_id) {
            Some(ks) => ks,
            None => return None,
        };
        assert(self@.assets.named(mesh@, *mesh_asset));
        assert(self@.assets.named(ka@, *ambient));
        assert(self@.assets.named(kd@, *diffuse));
        assert(self@.assets.named(ks@, *specular));
        Some(
            Renderable {
                mesh: mesh_asset.clone(),
                ambient: ambient.clone(),
                diffuse: diffuse.clone(),
                specular: specular.clone(),
                specular_exponent: ns,
            },
        )
    }
}

impl Deref for AssetManager {
    type Target = Assets;

    fn deref(&self) -> (assets: &Assets)
        ensures
            assets@ == self@.assets,
            self.wf() ==> assets.wf(),
    {
        &self.assets
    }
}

impl DerefMut for AssetManager {
    fn deref_mut(&mut self) -> (assets: &mut Assets)
        ensures
            assets@ == old(self)@.assets,
            old(self).wf() ==> assets.wf(),
            final(self)@ == (AssetManagerView { assets: final(assets)@, ..old(self)@ }),
            old(self).wf() && final(assets).wf() ==> final(self).wf(),
    {
        &mut self.assets
    }
}

} // verus!
