//! What calls return and change, said of their arguments alone, and how calls relate.

use crate::assets::{AssetLoader, AssetLoaderRaw, AssetReadStorage, Assets, AssetsView};
use crate::erased::Erased;
use crate::loader::is_loader;
use crate::manager::{AssetManager, AssetManagerView, Renderable};
use crate::store::AssetStore;
use crate::type_key::{same_type, type_key};
use crate::world::{has_row, row_is, Asset, AssetId, AssetStorage, Rows};
use std::any::TypeId;
use std::ops::{Deref, DerefMut};
use vstd::prelude::*;

verus! {

/// Setting a loader resource binds the identifier of its type to it, and nothing else.
pub proof fn law_add_loader<T: 'static>(assets: &mut Assets, loader: T, key: TypeId)
    requires
        call_ensures(Assets::add_loader::<T>, (assets, loader), ()),
    ensures
        final(assets)@.loaders.contains_key(type_key::<T>()),
        final(assets)@.loaders[type_key::<T>()].holds(loader),
        key != type_key::<T>() ==> {
            &&& final(assets)@.loaders.contains_key(key) == old(assets)@.loaders.contains_key(key)
            &&& final(assets)@.loaders[key] == old(assets)@.loaders[key]
        },
        final(assets)@.asset_ids == old(assets)@.asset_ids,
        final(assets)@.tables == old(assets)@.tables,
        final(assets)@.entities == old(assets)@.entities,
{
}

/// A loader resource that was set is what is returned for its type.
pub proof fn law_get_loader_after_add_loader<T: 'static>(
    assets: &mut Assets,
    loader: T,
    after: &Assets,
    result: Option<&T>,
)
    requires
        call_ensures(Assets::add_loader::<T>, (assets, loader), ()),
        *final(assets) == *after,
        call_ensures(Assets::get_loader::<T>, (after,), result),
    ensures
        result == Some(&loader),
{
    law_add_loader(assets, loader, type_key::<T>());
    assert(after@.has_loader(loader));
}

/// The loader resource of a type is what is returned for it.
proof fn lemma_get_loader<T: 'static>(assets: &Assets, result: Option<&T>, loader: T)
    requires
        call_ensures(Assets::get_loader::<T>, (assets,), result),
        assets@.has_loader(loader),
    ensures
        result == Some(&loader),
{
}

/// A loader resource is returned for its type if and only if it is bound to its identifier.
pub proof fn law_get_loader<T: 'static>(assets: &Assets, result: Option<&T>, loader: T)
    requires
        call_ensures(Assets::get_loader::<T>, (assets,), result),
    ensures
        result == Some(&loader) <==> assets@.loaders.contains_key(type_key::<T>())
            && assets@.loaders[type_key::<T>()].holds(loader),
{
    if assets@.has_loader(loader) {
        lemma_get_loader(assets, result, loader);
    }
}

/// A loader resource that is borrowed is the one that was bound to its identifier, and what it is
/// made to be is bound to the identifier afterwards. Nothing else changes.
pub proof fn law_get_loader_mut<T: 'static>(
    assets: &mut Assets,
    result: Option<&mut T>,
    loader: T,
    key: TypeId,
)
    requires
        call_ensures(Assets::get_loader_mut::<T>, (assets,), result),
    ensures
        old(assets)@.loaders.contains_key(type_key::<T>())
            && old(assets)@.loaders[type_key::<T>()].holds(loader) ==> result is Some
            && *result.unwrap() == loader,
        result matches Some(x) ==> {
            &&& old(assets)@.loaders.contains_key(type_key::<T>())
            &&& old(assets)@.loaders[type_key::<T>()].holds(*x)
            &&& final(assets)@.loaders.contains_key(type_key::<T>())
            &&& final(assets)@.loaders[type_key::<T>()].holds(*final(x))
        },
        result is None ==> final(assets)@ == old(assets)@,
        key != type_key::<T>() ==> {
            &&& final(assets)@.loaders.contains_key(key) == old(assets)@.loaders.contains_key(key)
            &&& final(assets)@.loaders[key] == old(assets)@.loaders[key]
        },
        final(assets)@.asset_ids == old(assets)@.asset_ids,
        final(assets)@.tables == old(assets)@.tables,
        final(assets)@.entities == old(assets)@.entities,
{
    assert(old(assets)@.has_loader(loader) ==> result is Some && *result.unwrap() == loader);
}

/// Registering an asset type leaves it without assets, and leaves all else as it was.
pub proof fn law_register_asset<A: Send + Sync + 'static>(assets: &mut Assets, key: TypeId)
    requires
        call_ensures(Assets::register_asset::<A>, (assets,), ()),
    ensures
        final(assets)@.tables.contains_key(type_key::<Asset<A>>()),
        final(assets)@.tables[type_key::<Asset<A>>()] == Map::<AssetId, Erased>::empty(),
        key != type_key::<Asset<A>>() ==> {
            &&& final(assets)@.tables.contains_key(key) == old(assets)@.tables.contains_key(key)
            &&& final(assets)@.tables[key] == old(assets)@.tables[key]
        },
        final(assets)@.loaders == old(assets)@.loaders,
        final(assets)@.asset_ids == old(assets)@.asset_ids,
        final(assets)@.entities == old(assets)@.entities,
{
}

/// A name stands for the id that it is bound to.
pub proof fn law_id_from_name(assets: &Assets, name: &str, result: Option<AssetId>)
    requires
        call_ensures(Assets::id_from_name, (assets, name), result),
    ensures
        result is Some <==> assets@.asset_ids.contains_key(name@),
        result is Some ==> result.unwrap() == assets@.asset_ids[name@],
{
}

/// What is read for an id is the asset that is kept under it among those of the type.
pub proof fn law_read<A: Send + Sync + 'static>(
    assets: &Assets,
    storage: AssetStorage<'_, A>,
    id: AssetId,
    result: Option<&A>,
    asset: A,
)
    requires
        call_ensures(Assets::read_assets::<A>, (assets,), storage),
        call_ensures(<AssetStorage<'_, A> as AssetReadStorage<A>>::read, (&storage, id), result),
    ensures
        result == Some(&asset) <==> {
            &&& assets@.tables[type_key::<Asset<A>>()].contains_key(id)
            &&& assets@.tables[type_key::<Asset<A>>()][id].holds(Asset(asset))
        },
{
    let rows = assets@.tables[type_key::<Asset<A>>()];
    let contained = |rows: Rows| storage.contains_rows(rows);
    assert(contained(rows));
    assert(row_is(rows, id, asset) ==> result == Some(&asset));
}

/// Whether `after` is `before` with `asset` kept among those of its type under an id that was not
/// given out before. A name that is not taken is bound to that id. The id of the name is returned.
pub open spec fn stored<A: 'static>(
    before: AssetsView,
    name: Seq<char>,
    asset: A,
    after: AssetsView,
    result: AssetId,
) -> bool {
    let key = type_key::<Asset<A>>();
    exists|id: AssetId, row: Erased|
        {
            &&& #[trigger] before.tables.insert(key, before.tables[key].insert(id, row))
                == after.tables
            &&& row.holds(Asset(asset))
            &&& !before.entities.contains(id)
            &&& before.entities.insert(id) == after.entities
            &&& before.loaders == after.loaders
            &&& if before.asset_ids.contains_key(name) {
                before.asset_ids == after.asset_ids && result == before.asset_ids[name]
            } else {
                before.asset_ids.insert(name, id) == after.asset_ids && result == id
            }
        }
}

/// Whether what the loader makes of `data` is stored, if it makes anything of it.
pub open spec fn loaded_and_stored<A: 'static, S: AssetLoader<A>>(
    before: AssetsView,
    name: Seq<char>,
    data: S,
    after: AssetsView,
    result: Option<AssetId>,
) -> bool {
    exists|between: AssetsView, asset: Option<A>| #[trigger]
        S::loads(before, data, between, asset) && match (asset, result) {
            (Some(a), Some(id)) => stored(between, name, a, after, id),
            (None, None) => after == between,
            _ => false,
        }
}

/// Whether what the loader makes of what is decoded from `raw` is stored, if anything is decoded.
pub open spec fn decoded_and_stored<A: 'static, S: AssetLoader<A> + AssetLoaderRaw>(
    before: AssetsView,
    name: Seq<char>,
    raw: Seq<u8>,
    after: AssetsView,
    result: Option<AssetId>,
) -> bool {
    exists|data: Option<S>| #[trigger]
        S::decodes(before, raw, data) && match data {
            Some(d) => loaded_and_stored::<A, S>(before, name, d, after, result),
            None => after == before && result is None,
        }
}

/// Whether an asset of type `A` can be stored.
pub open spec fn storable<A: 'static>(assets: AssetsView) -> bool {
    &&& assets.tables.contains_key(type_key::<Asset<A>>())
    &&& assets.entities.len() < if usize::BITS == 64 {
        0x100_0000int
    } else {
        0x10_0000
    }
}

/// Whether the loader takes `data`, and all that it may make of it can be stored.
pub open spec fn loadable_and_storable<A: 'static, S: AssetLoader<A>>(
    assets: AssetsView,
    data: S,
) -> bool {
    &&& S::loadable(assets, data)
    &&& forall|between: AssetsView, asset: A| #[trigger]
        S::loads(assets, data, between, Some(asset)) ==> storable::<A>(between)
}

/// Whether the loader takes `raw`, takes all that it may decode from it, and all that it may make
/// of that can be stored.
pub open spec fn decodable_and_storable<A: 'static, S: AssetLoader<A> + AssetLoaderRaw>(
    assets: AssetsView,
    raw: Seq<u8>,
) -> bool {
    &&& S::readable(assets, raw)
    &&& forall|data: S| #[trigger]
        S::decodes(assets, raw, Some(data)) ==> loadable_and_storable::<A, S>(assets, data)
}

/// Adding an asset stores it.
proof fn lemma_adds<A: 'static>(
    before: AssetsView,
    name: Seq<char>,
    asset: A,
    after: AssetsView,
    result: AssetId,
)
    ensures
        before.adds(name, asset, after, result) == stored(before, name, asset, after, result),
{
    let key = type_key::<Asset<A>>();
    if before.adds(name, asset, after, result) {
        let id = choose|id: AssetId| #[trigger] before.gains(name, asset, id, after);
        let row = choose|row: Erased| #[trigger]
            row.holds(Asset(asset)) && after.tables == before.tables.insert(
                key,
                before.tables[key].insert(id, row),
            );
        assert(before.tables.insert(key, before.tables[key].insert(id, row)) == after.tables);
    }
    if stored(before, name, asset, after, result) {
        let (id, row) = choose|id: AssetId, row: Erased|
            {
                &&& #[trigger] before.tables.insert(key, before.tables[key].insert(id, row))
                    == after.tables
                &&& row.holds(Asset(asset))
                &&& !before.entities.contains(id)
                &&& before.entities.insert(id) == after.entities
                &&& before.loaders == after.loaders
                &&& if before.asset_ids.contains_key(name) {
                    before.asset_ids == after.asset_ids && result == before.asset_ids[name]
                } else {
                    before.asset_ids.insert(name, id) == after.asset_ids && result == id
                }
            };
        assert(before.gains(name, asset, id, after));
    }
}

/// Loading an asset from data is having the loader make it, and storing it.
proof fn lemma_loads_data<A: 'static, S: AssetLoader<A>>(
    before: AssetsView,
    name: Seq<char>,
    data: S,
    after: AssetsView,
    result: Option<AssetId>,
)
    ensures
        before.loads_data::<A, S>(name, data, after, result) == loaded_and_stored::<A, S>(
            before,
            name,
            data,
            after,
            result,
        ),
{
    assert forall|between: AssetsView, a: A, id: AssetId| #[trigger]
        between.adds(name, a, after, id) == stored(between, name, a, after, id) by {
        lemma_adds(between, name, a, after, id);
    }
    if before.loads_data::<A, S>(name, data, after, result) {
        let (between, asset) = choose|between: AssetsView, asset: Option<A>| #[trigger]
            S::loads(before, data, between, asset) && between.adds_loaded(
                name,
                asset,
                after,
                result,
            );
        assert(S::loads(before, data, between, asset));
    }
    if loaded_and_stored::<A, S>(before, name, data, after, result) {
        let (between, asset) = choose|between: AssetsView, asset: Option<A>| #[trigger]
            S::loads(before, data, between, asset) && match (asset, result) {
                (Some(a), Some(id)) => stored(between, name, a, after, id),
                (None, None) => after == between,
                _ => false,
            };
        if let Some(a) = asset {
            assert(between.adds(name, a, after, result.unwrap()));
        }
        assert(between.adds_loaded(name, asset, after, result));
    }
}

/// Loading an asset from raw data is decoding it, having the loader make the asset, and storing it.
pub(crate) proof fn lemma_loads_raw<A: 'static, S: AssetLoader<A> + AssetLoaderRaw>(
    before: AssetsView,
    name: Seq<char>,
    raw: Seq<u8>,
    after: AssetsView,
    result: Option<AssetId>,
)
    ensures
        before.loads_raw::<A, S>(name, raw, after, result) == decoded_and_stored::<A, S>(
            before,
            name,
            raw,
            after,
            result,
        ),
{
    assert forall|data: S| #[trigger]
        before.loads_data::<A, S>(name, data, after, result) == loaded_and_stored::<A, S>(
            before,
            name,
            data,
            after,
            result,
        ) by {
        lemma_loads_data::<A, S>(before, name, data, after, result);
    }
    if before.loads_raw::<A, S>(name, raw, after, result) {
        let data = choose|data: Option<S>| #[trigger]
            S::decodes(before, raw, data) && match data {
                Some(d) => before.loads_data::<A, S>(name, d, after, result),
                None => result is None && after == before,
            };
        assert(S::decodes(before, raw, data));
    }
    if decoded_and_stored::<A, S>(before, name, raw, after, result) {
        let data = choose|data: Option<S>| #[trigger]
            S::decodes(before, raw, data) && match data {
                Some(d) => loaded_and_stored::<A, S>(before, name, d, after, result),
                None => after == before && result is None,
            };
        if let Some(d) = data {
            assert(before.loads_data::<A, S>(name, d, after, result));
        }
        assert(S::decodes(before, raw, data));
    }
}

/// What can be loaded from raw data is what the loader takes and what can be stored.
proof fn lemma_can_load_raw<A: 'static, S: AssetLoader<A> + AssetLoaderRaw>(
    assets: AssetsView,
    raw: Seq<u8>,
)
    ensures
        assets.can_load_raw::<A, S>(raw) == decodable_and_storable::<A, S>(assets, raw),
{
    assert forall|data: S| #[trigger]
        assets.can_load::<A, S>(data) == loadable_and_storable::<A, S>(assets, data) by {}
}

/// Loading an asset from data is having the loader make it, and storing it.
pub proof fn law_load_asset_from_data<A: Send + Sync + 'static, S: AssetLoader<A>>(
    assets: &mut Assets,
    name: &str,
    data: S,
    result: Option<AssetId>,
)
    requires
        call_ensures(Assets::load_asset_from_data::<A, S>, (assets, name, data), result),
    ensures
        loaded_and_stored::<A, S>(old(assets)@, name@, data, final(assets)@, result),
{
    let before = old(assets)@;
    assert forall|after: AssetsView| #[trigger]
        before.loads_data::<A, S>(name@, data, after, result) == loaded_and_stored::<A, S>(
            before,
            name@,
            data,
            after,
            result,
        ) by {
        lemma_loads_data::<A, S>(before, name@, data, after, result);
    }
}

/// An asset can be loaded from data wherever the loader takes the data and what it makes of it can
/// be stored.
pub proof fn law_load_asset_from_data_returns<A: Send + Sync + 'static, S: AssetLoader<A>>(
    assets: &mut Assets,
    name: &str,
    data: S,
)
    requires
        old(assets).wf(),
        loadable_and_storable::<A, S>(old(assets)@, data),
    ensures
        call_requires(Assets::load_asset_from_data::<A, S>, (assets, name, data)),
{
    assert(old(assets)@.can_load::<A, S>(data));
}

/// Loading assets under one name returns one id, if the second loader leaves the name alone.
pub proof fn law_load_asset_from_data_twice<
    A: Send + Sync + 'static,
    S: AssetLoader<A>,
    B: Send + Sync + 'static,
    R: AssetLoader<B>,
>(
    first: &mut Assets,
    second: &mut Assets,
    name: &str,
    data: S,
    other: R,
    first_id: AssetId,
    second_id: AssetId,
)
    requires
        call_ensures(Assets::load_asset_from_data::<A, S>, (first, name, data), Some(first_id)),
        *final(first) == *old(second),
        call_ensures(Assets::load_asset_from_data::<B, R>, (second, name, other), Some(second_id)),
        forall|between: AssetsView, asset: Option<B>| #[trigger]
            R::loads(old(second)@, other, between, asset) ==> between.asset_ids
                == old(second)@.asset_ids,
    ensures
        second_id == first_id,
{
    law_load_asset_from_data::<A, S>(first, name, data, Some(first_id));
    law_load_asset_from_data::<B, R>(second, name, other, Some(second_id));
}

/// An asset that was loaded from data under a new name is what is read for the id that was
/// returned, and that id is what the name stands for.
pub proof fn law_read_after_load_asset_from_data<A: Send + Sync + 'static, S: AssetLoader<A>>(
    assets: &mut Assets,
    name: &str,
    data: S,
    id: AssetId,
    after: &Assets,
    named: Option<AssetId>,
    storage: AssetStorage<'_, A>,
    read: Option<&A>,
)
    requires
        call_ensures(Assets::load_asset_from_data::<A, S>, (assets, name, data), Some(id)),
        forall|between: AssetsView, asset: Option<A>| #[trigger]
            S::loads(old(assets)@, data, between, asset) ==> between.asset_ids
                == old(assets)@.asset_ids,
        !old(assets)@.asset_ids.contains_key(name@),
        *final(assets) == *after,
        call_ensures(Assets::id_from_name, (after, name), named),
        call_ensures(Assets::read_assets::<A>, (after,), storage),
        call_ensures(<AssetStorage<'_, A> as AssetReadStorage<A>>::read, (&storage, id), read),
    ensures
        named == Some(id),
        read is Some,
        exists|between: AssetsView| #[trigger]
            S::loads(old(assets)@, data, between, Some(*read.unwrap())),
{
    law_load_asset_from_data::<A, S>(assets, name, data, Some(id));
    law_id_from_name(after, name, named);
    let before = old(assets)@;
    let key = type_key::<Asset<A>>();
    let (between, asset) = choose|between: AssetsView, asset: Option<A>| #[trigger]
        S::loads(before, data, between, asset) && match asset {
            Some(a) => stored(between, name@, a, after@, id),
            None => false,
        };
    let a = asset.unwrap();
    law_read(after, storage, id, read, a);
    assert(read == Some(&a));
    assert(S::loads(before, data, between, Some(*read.unwrap())));
}

/// Whether assets of type `A` under the name `asset_type` are decoded by `S`, made by it, and
/// stored.
pub open spec fn goes_by<A: Send + Sync + 'static, S: AssetLoader<A> + AssetLoaderRaw>(
    manager: AssetManagerView,
    asset_type: Seq<char>,
) -> bool {
    let route = (asset_type, type_key::<A>());
    let loader = manager.closures[(type_key::<A>(), manager.asset_type_ids[route])];
    &&& manager.asset_type_ids.contains_key(route)
    &&& manager.closures.contains_key((type_key::<A>(), manager.asset_type_ids[route]))
    &&& forall|assets: AssetsView, raw: Seq<u8>| #[trigger]
        loader.value.can_load(assets, raw) == decodable_and_storable::<A, S>(assets, raw)
    &&& forall|
        before: AssetsView,
        name: Seq<char>,
        raw: Seq<u8>,
        after: AssetsView,
        result: Option<AssetId>,
    | #[trigger]
        loader.value.loads(before, name, raw, after, result) == decoded_and_stored::<A, S>(
            before,
            name,
            raw,
            after,
            result,
        )
}

/// A loading method of which it is known what it does.
pub(crate) proof fn lemma_goes_by<A: Send + Sync + 'static, S: AssetLoader<A> + AssetLoaderRaw>(
    manager: AssetManagerView,
    asset_type: Seq<char>,
)
    requires
        manager.loads_by::<A, S>(asset_type),
        manager.closures.contains_key(
            (type_key::<A>(), manager.asset_type_ids[(asset_type, type_key::<A>())]),
        ),
    ensures
        goes_by::<A, S>(manager, asset_type),
{
    let loader = manager.method::<A>(asset_type);
    assert(is_loader::<A, S>(loader));
    assert forall|assets: AssetsView, raw: Seq<u8>| #[trigger]
        loader.value.can_load(assets, raw) == decodable_and_storable::<A, S>(assets, raw) by {
        lemma_can_load_raw::<A, S>(assets, raw);
    }
    assert forall|
        before: AssetsView,
        name: Seq<char>,
        raw: Seq<u8>,
        after: AssetsView,
        result: Option<AssetId>,
    | #[trigger]
        loader.value.loads(before, name, raw, after, result) == decoded_and_stored::<A, S>(
            before,
            name,
            raw,
            after,
            result,
        ) by {
        lemma_loads_raw::<A, S>(before, name, raw, after, result);
    }
}

/// Registering a loading method makes it the one for its asset type and name. Under other names,
/// and for other asset types, all stays as it was, but that methods for the same asset type and
/// data are one.
pub proof fn law_register_loader<
    A: Send + Sync + 'static,
    S: AssetLoader<A> + AssetLoaderRaw + 'static,
>(manager: &mut AssetManager, asset: &str, route: (Seq<char>, TypeId), pair: (TypeId, TypeId))
    requires
        call_ensures(AssetManager::register_loader::<A, S>, (manager, asset), ()),
    ensures
        goes_by::<A, S>(final(manager)@, asset@),
        final(manager)@.asset_type_ids[(asset@, type_key::<A>())] == type_key::<S>(),
        route != (asset@, type_key::<A>()) ==> {
            &&& final(manager)@.asset_type_ids.contains_key(route)
                == old(manager)@.asset_type_ids.contains_key(route)
            &&& final(manager)@.asset_type_ids[route] == old(manager)@.asset_type_ids[route]
        },
        pair != (type_key::<A>(), type_key::<S>()) ==> {
            &&& final(manager)@.closures.contains_key(pair) == old(manager)@.closures.contains_key(
                pair,
            )
            &&& final(manager)@.closures[pair] == old(manager)@.closures[pair]
        },
        final(manager)@.assets == old(manager)@.assets,
        final(manager)@.stores == old(manager)@.stores,
{
    let before = old(manager)@;
    assert forall|after: AssetManagerView| #[trigger]
        before.registers::<A, S>(asset@, after) implies goes_by::<A, S>(after, asset@) by {
        lemma_goes_by::<A, S>(after, asset@);
    }
}

/// Registering a store puts it behind all others. It answers as it did before it was registered.
pub proof fn law_register_store<T: 'static + AssetStore>(
    manager: &mut AssetManager,
    store: T,
    name: Seq<char>,
    asset_type: Seq<char>,
    found: bool,
    buf: Seq<u8>,
    filled: Seq<u8>,
    count: Option<usize>,
    i: int,
)
    requires
        call_ensures(AssetManager::register_store::<T>, (manager, store), ()),
    ensures
        final(manager)@.stores.len() == old(manager)@.stores.len() + 1,
        0 <= i < old(manager)@.stores.len() ==> final(manager)@.stores[i]
            == old(manager)@.stores[i],
        final(manager)@.stores[old(manager)@.stores.len() as int].value.reports(
            name,
            asset_type,
            found,
        ) == store.reports(name, asset_type, found),
        final(manager)@.stores[old(manager)@.stores.len() as int].value.fills(
            name,
            asset_type,
            buf,
            filled,
            count,
        ) == store.fills(name, asset_type, buf, filled, count),
        final(manager)@.assets == old(manager)@.assets,
        final(manager)@.asset_type_ids == old(manager)@.asset_type_ids,
        final(manager)@.closures == old(manager)@.closures,
{
    let before = old(manager)@;
    let n = before.stores.len() as int;
    assert forall|after: AssetManagerView| #[trigger]
        before.adds_store(store, after) && 0 <= i < n implies after.stores[i]
        == before.stores[i] by {
        assert(after.stores == before.stores.push(after.stores.last()));
    }
}

/// Loading an asset from raw data is what the loading method for its type and name does, to the
/// assets alone.
pub proof fn law_load_asset_from_raw<A: Send + Sync + 'static>(
    manager: &mut AssetManager,
    name: &str,
    asset_type: &str,
    raw: &[u8],
    result: Option<AssetId>,
)
    requires
        call_ensures(
            AssetManager::load_asset_from_raw::<A>,
            (manager, name, asset_type, raw),
            result,
        ),
    ensures
        old(manager)@.closures[(
            type_key::<A>(),
            old(manager)@.asset_type_ids[(asset_type@, type_key::<A>())],
        )].value.loads(old(manager)@.assets, name@, raw@, final(manager)@.assets, result),
        final(manager)@.asset_type_ids == old(manager)@.asset_type_ids,
        final(manager)@.closures == old(manager)@.closures,
        final(manager)@.stores == old(manager)@.stores,
{
}

/// Loading an asset from raw data, after a loading method was registered for its type and name, is
/// decoding the data, having the loader make the asset, and storing it.
pub proof fn law_load_asset_from_raw_after_register_loader<
    A: Send + Sync + 'static,
    S: AssetLoader<A> + AssetLoaderRaw + 'static,
>(
    first: &mut AssetManager,
    second: &mut AssetManager,
    name: &str,
    asset_type: &str,
    raw: &[u8],
    result: Option<AssetId>,
)
    requires
        call_ensures(AssetManager::register_loader::<A, S>, (first, asset_type), ()),
        *final(first) == *old(second),
        call_ensures(
            AssetManager::load_asset_from_raw::<A>,
            (second, name, asset_type, raw),
            result,
        ),
    ensures
        decoded_and_stored::<A, S>(
            old(second)@.assets,
            name@,
            raw@,
            final(second)@.assets,
            result,
        ),
        old(second)@.assets == old(first)@.assets,
{
    law_register_loader::<A, S>(
        first,
        asset_type,
        (asset_type@, type_key::<A>()),
        (type_key::<A>(), type_key::<S>()),
    );
    law_load_asset_from_raw::<A>(second, name, asset_type, raw, result);
}

/// An asset can be loaded from raw data, after a loading method was registered for its type and
/// name, wherever the loader takes the data and what it makes of it can be stored.
pub proof fn law_load_asset_from_raw_returns<
    A: Send + Sync + 'static,
    S: AssetLoader<A> + AssetLoaderRaw + 'static,
>(
    first: &mut AssetManager,
    second: &mut AssetManager,
    name: &str,
    asset_type: &str,
    raw: &[u8],
)
    requires
        call_ensures(AssetManager::register_loader::<A, S>, (first, asset_type), ()),
        *final(first) == *old(second),
        decodable_and_storable::<A, S>(old(second)@.assets, raw@),
    ensures
        call_requires(
            AssetManager::load_asset_from_raw::<A>,
            (second, name, asset_type, raw),
        ),
{
    law_register_loader::<A, S>(
        first,
        asset_type,
        (asset_type@, type_key::<A>()),
        (type_key::<A>(), type_key::<S>()),
    );
    assert(old(second)@.method::<A>(asset_type@).value.can_load(old(second)@.assets, raw@));
    assert(old(second)@.can_load_raw::<A>(asset_type@, raw@));
}

/// Loading an asset is loading it from what a store hands out that has it, where all stores before
/// it have it not. Only if no store has it, nothing is loaded, and nothing changes.
pub proof fn law_load_asset<A: Send + Sync + 'static>(
    manager: &mut AssetManager,
    name: &str,
    asset_type: &str,
    result: Option<AssetId>,
)
    requires
        call_ensures(AssetManager::load_asset::<A>, (manager, name, asset_type), result),
    ensures
        ({
            ||| exists|i: int, raw: Seq<u8>, count: Option<usize>|
                {
                    &&& 0 <= i < old(manager)@.stores.len()
                    &&& forall|j: int|
                        0 <= j < i ==> (#[trigger] old(manager)@.stores[j]).value.reports(
                            name@,
                            asset_type@,
                            false,
                        )
                    &&& old(manager)@.stores[i].value.reports(name@, asset_type@, true)
                    &&& #[trigger] old(manager)@.stores[i].value.fills(
                        name@,
                        asset_type@,
                        Seq::empty(),
                        raw,
                        count,
                    )
                    &&& old(manager)@.closures[(
                        type_key::<A>(),
                        old(manager)@.asset_type_ids[(asset_type@, type_key::<A>())],
                    )].value.loads(
                        old(manager)@.assets,
                        name@,
                        raw,
                        final(manager)@.assets,
                        result,
                    )
                }
            ||| {
                &&& forall|j: int|
                    0 <= j < old(manager)@.stores.len() ==> (
                    #[trigger] old(manager)@.stores[j]).value.reports(name@, asset_type@, false)
                &&& result is None
                &&& final(manager)@.assets == old(manager)@.assets
            }
        }),
        final(manager)@.asset_type_ids == old(manager)@.asset_type_ids,
        final(manager)@.closures == old(manager)@.closures,
        final(manager)@.stores == old(manager)@.stores,
{
    let before = old(manager)@;
    let key = type_key::<A>();
    let loader = before.closures[(key, before.asset_type_ids[(asset_type@, key)])];
    assert forall|raw: Seq<u8>| #[trigger]
        before.fetches(name@, asset_type@, raw) implies exists|i: int, count: Option<usize>|
        {
            &&& 0 <= i < before.stores.len()
            &&& forall|j: int|
                0 <= j < i ==> (#[trigger] before.stores[j]).value.reports(
                    name@,
                    asset_type@,
                    false,
                )
            &&& before.stores[i].value.reports(name@, asset_type@, true)
            &&& #[trigger] before.stores[i].value.fills(
                name@,
                asset_type@,
                Seq::empty(),
                raw,
                count,
            )
        } by {
        let i = choose|i: int| #[trigger] before.fetches_from(i, name@, asset_type@, raw);
        let count = choose|count: Option<usize>| #[trigger]
            before.stores[i].value.fills(name@, asset_type@, Seq::empty(), raw, count);
        assert(before.stores[i].value.fills(name@, asset_type@, Seq::empty(), raw, count));
    }
}

/// However many stores there are before it, the first store that has an asset is the one whose
/// data is loaded. `S` decodes the data, and makes the asset that is stored.
pub proof fn law_load_asset_asks_all_stores<
    A: Send + Sync + 'static,
    S: AssetLoader<A> + AssetLoaderRaw,
>(
    manager: &mut AssetManager,
    name: &str,
    asset_type: &str,
    result: Option<AssetId>,
    i: int,
    raw: Seq<u8>,
)
    requires
        call_ensures(AssetManager::load_asset::<A>, (manager, name, asset_type), result),
        goes_by::<A, S>(old(manager)@, asset_type@),
        0 <= i < old(manager)@.stores.len(),
        forall|j: int|
            0 <= j < i ==> !(#[trigger] old(manager)@.stores[j]).value.reports(
                name@,
                asset_type@,
                true,
            ),
        !old(manager)@.stores[i].value.reports(name@, asset_type@, false),
        forall|other: Seq<u8>, count: Option<usize>| #[trigger]
            old(manager)@.stores[i].value.fills(
                name@,
                asset_type@,
                Seq::empty(),
                other,
                count,
            ) ==> other == raw,
    ensures
        decoded_and_stored::<A, S>(
            old(manager)@.assets,
            name@,
            raw,
            final(manager)@.assets,
            result,
        ),
{
    law_load_asset::<A>(manager, name, asset_type, result);
    let before = old(manager)@;
    assert forall|k: int|
        0 <= k < before.stores.len() && (#[trigger] before.stores[k]).value.reports(
            name@,
            asset_type@,
            true,
        ) && (forall|j: int|
            0 <= j < k ==> (#[trigger] before.stores[j]).value.reports(
                name@,
                asset_type@,
                false,
            )) implies k == i by {
        if i < k {
            assert(before.stores[i].value.reports(name@, asset_type@, false));
        }
    }
}

/// An asset can be loaded from the stores wherever it can be loaded from all that the first store
/// that has it may hand out.
pub proof fn law_load_asset_returns<A: Send + Sync + 'static>(
    manager: &mut AssetManager,
    name: &str,
    asset_type: &str,
)
    requires
        old(manager).wf(),
        forall|i: int, raw: Seq<u8>, count: Option<usize>|
            {
                &&& 0 <= i < old(manager)@.stores.len()
                &&& forall|j: int|
                    0 <= j < i ==> (#[trigger] old(manager)@.stores[j]).value.reports(
                        name@,
                        asset_type@,
                        false,
                    )
                &&& old(manager)@.stores[i].value.reports(name@, asset_type@, true)
                &&& #[trigger] old(manager)@.stores[i].value.fills(
                    name@,
                    asset_type@,
                    Seq::empty(),
                    raw,
                    count,
                )
            } ==> {
                &&& old(manager)@.asset_type_ids.contains_key((asset_type@, type_key::<A>()))
                &&& old(manager)@.closures[(
                    type_key::<A>(),
                    old(manager)@.asset_type_ids[(asset_type@, type_key::<A>())],
                )].value.can_load(old(manager)@.assets, raw)
            },
    ensures
        call_requires(AssetManager::load_asset::<A>, (manager, name, asset_type)),
{
    let before = old(manager)@;
    assert forall|raw: Seq<u8>| #[trigger]
        before.fetches(name@, asset_type@, raw) implies before.can_load_raw::<A>(
        asset_type@,
        raw,
    ) by {
        let i = choose|i: int| #[trigger] before.fetches_from(i, name@, asset_type@, raw);
        let count = choose|count: Option<usize>| #[trigger]
            before.stores[i].value.fills(name@, asset_type@, Seq::empty(), raw, count);
        assert(before.stores[i].value.fills(name@, asset_type@, Seq::empty(), raw, count));
    }
    assert(before.can_load::<A>(name@, asset_type@));
}

/// The assets that a manager shows are its own, and what they are made to be is its own afterwards.
pub proof fn law_deref(manager: &AssetManager, assets: &Assets)
    requires
        call_ensures(<AssetManager as Deref>::deref, (manager,), assets),
    ensures
        assets@ == manager@.assets,
{
}

/// The assets that a manager lends are its own, and what they are made to be is its own afterwards.
pub proof fn law_deref_mut(manager: &mut AssetManager, assets: &mut Assets)
    requires
        call_ensures(<AssetManager as DerefMut>::deref_mut, (manager,), assets),
    ensures
        old(assets)@ == old(manager)@.assets,
        final(manager)@.assets == final(assets)@,
        final(manager)@.asset_type_ids == old(manager)@.asset_type_ids,
        final(manager)@.closures == old(manager)@.closures,
        final(manager)@.stores == old(manager)@.stores,
{
}

/// Whether the asset of type `A` that goes by a name is kept among those of its type.
pub open spec fn kept_as<A: 'static>(assets: AssetsView, name: Seq<char>, asset: A) -> bool {
    let rows = assets.tables[type_key::<Asset<A>>()];
    &&& assets.asset_ids.contains_key(name)
    &&& rows.contains_key(assets.asset_ids[name])
    &&& rows[assets.asset_ids[name]].holds(Asset(asset))
}

/// A `Renderable` is made if and only if its four parts go by the given names, and it is made of
/// clones of them, each in its place.
pub proof fn law_create_renderable<
    M: Clone + Send + Sync + 'static,
    T: Clone + Send + Sync + 'static,
    N,
>(
    manager: &AssetManager,
    mesh: &str,
    ka: &str,
    kd: &str,
    ks: &str,
    ns: N,
    result: Option<Renderable<M, T, N>>,
)
    requires
        manager@.assets.tables.contains_key(type_key::<Asset<M>>()),
        manager@.assets.tables.contains_key(type_key::<Asset<T>>()),
        call_ensures(
            AssetManager::create_renderable::<M, T, N>,
            (manager, mesh, ka, kd, ks, ns),
            result,
        ),
    ensures
        result is Some <==> {
            &&& exists|m: M| #[trigger] kept_as(manager@.assets, mesh@, m)
            &&& exists|t: T| #[trigger] kept_as(manager@.assets, ka@, t)
            &&& exists|t: T| #[trigger] kept_as(manager@.assets, kd@, t)
            &&& exists|t: T| #[trigger] kept_as(manager@.assets, ks@, t)
        },
        result matches Some(r) ==> {
            &&& exists|m: M| #[trigger] kept_as(manager@.assets, mesh@, m) && cloned(m, r.mesh)
            &&& exists|t: T| #[trigger] kept_as(manager@.assets, ka@, t) && cloned(t, r.ambient)
            &&& exists|t: T| #[trigger] kept_as(manager@.assets, kd@, t) && cloned(t, r.diffuse)
            &&& exists|t: T| #[trigger] kept_as(manager@.assets, ks@, t) && cloned(t, r.specular)
            &&& r.specular_exponent == ns
        },
{
    let assets = manager@.assets;
    assert forall|name: Seq<char>, m: M| #[trigger] kept_as(assets, name, m) == assets.named(
        name,
        m,
    ) by {}
    assert forall|name: Seq<char>, t: T| #[trigger] kept_as(assets, name, t) == assets.named(
        name,
        t,
    ) by {}
    lemma_has_named::<M>(assets, mesh@);
    lemma_has_named::<T>(assets, ka@);
    lemma_has_named::<T>(assets, kd@);
    lemma_has_named::<T>(assets, ks@);
    if let Some(r) = result {
        lemma_named_clones_to(assets, mesh@, r.mesh);
        lemma_named_clones_to(assets, ka@, r.ambient);
        lemma_named_clones_to(assets, kd@, r.diffuse);
        lemma_named_clones_to(assets, ks@, r.specular);
    }
}

/// An asset goes by a name if one is kept as it.
proof fn lemma_has_named<A: 'static>(assets: AssetsView, name: Seq<char>)
    requires
        assets.tables.contains_key(type_key::<Asset<A>>()),
    ensures
        assets.has_named::<A>(name) <==> exists|a: A| #[trigger] kept_as(assets, name, a),
{
    if assets.has_named::<A>(name) {
        let a = choose|a: A| #[trigger] assets.named(name, a);
        assert(kept_as(assets, name, a));
    }
    if exists|a: A| #[trigger] kept_as(assets, name, a) {
        let a = choose|a: A| #[trigger] kept_as(assets, name, a);
        assert(assets.named(name, a));
    }
}

/// A clone of an asset that goes by a name is a clone of one that is kept as it.
proof fn lemma_named_clones_to<A: Clone + 'static>(assets: AssetsView, name: Seq<char>, copy: A)
    requires
        assets.tables.contains_key(type_key::<Asset<A>>()),
        assets.named_clones_to(name, copy),
    ensures
        exists|a: A| #[trigger] kept_as(assets, name, a) && cloned(a, copy),
{
    let a = choose|a: A| #[trigger] assets.named(name, a) && cloned(a, copy);
    assert(kept_as(assets, name, a));
}

/// A `Renderable` can be asked for wherever both types are registered.
pub proof fn law_create_renderable_returns<
    M: Clone + Send + Sync + 'static,
    T: Clone + Send + Sync + 'static,
    N,
>(manager: &AssetManager, mesh: &str, ka: &str, kd: &str, ks: &str, ns: N)
    requires
        manager.wf(),
        manager@.assets.tables.contains_key(type_key::<Asset<M>>()),
        manager@.assets.tables.contains_key(type_key::<Asset<T>>()),
    ensures
        call_requires(
            AssetManager::create_renderable::<M, T, N>,
            (manager, mesh, ka, kd, ks, ns),
        ),
{
}

/// An asset can be loaded from raw data wherever a loading method for its type and name is
/// registered that takes the data.
pub proof fn law_load_asset_from_raw_takes_all<A: Send + Sync + 'static>(
    manager: &mut AssetManager,
    name: &str,
    asset_type: &str,
    raw: &[u8],
)
    requires
        old(manager).wf(),
        old(manager)@.asset_type_ids.contains_key((asset_type@, type_key::<A>())),
        old(manager)@.closures[(
            type_key::<A>(),
            old(manager)@.asset_type_ids[(asset_type@, type_key::<A>())],
        )].value.can_load(old(manager)@.assets, raw@),
    ensures
        call_requires(
            AssetManager::load_asset_from_raw::<A>,
            (manager, name, asset_type, raw),
        ),
{
    assert(old(manager)@.can_load_raw::<A>(asset_type@, raw@));
}

/// Loader resources, asset types and names can be set, asked for and changed at any time.
pub proof fn law_assets_can_be_changed<T: 'static, A: Send + Sync + 'static>(
    assets: &mut Assets,
    loader: T,
)
    requires
        old(assets).wf(),
    ensures
        call_requires(Assets::add_loader::<T>, (assets, loader)),
        call_requires(Assets::get_loader_mut::<T>, (assets,)),
        call_requires(Assets::register_asset::<A>, (assets,)),
{
}

/// Loader resources and names can be asked for at any time, and assets once their type is
/// registered.
pub proof fn law_assets_can_be_read<T: 'static, A: Send + Sync + 'static>(
    assets: &Assets,
    name: &str,
)
    requires
        assets.wf(),
    ensures
        call_requires(Assets::get_loader::<T>, (assets,)),
        call_requires(Assets::id_from_name, (assets, name)),
        assets@.tables.contains_key(type_key::<Asset<A>>()) ==> call_requires(
            Assets::read_assets::<A>,
            (assets,),
        ),
{
}

/// Loading methods and stores can be registered at any time.
pub proof fn law_manager_can_be_changed<
    A: Send + Sync + 'static,
    S: AssetLoader<A> + AssetLoaderRaw + 'static,
    T: 'static + AssetStore,
>(manager: &mut AssetManager, asset: &str, store: T)
    requires
        old(manager).wf(),
    ensures
        call_requires(AssetManager::register_loader::<A, S>, (manager, asset)),
        call_requires(AssetManager::register_store::<T>, (manager, store)),
{
}

/// What can be done with assets can be done with them afterwards.
pub proof fn law_assets_stay_usable<
    T: 'static,
    A: Send + Sync + 'static,
    S: AssetLoader<A>,
>(assets: &mut Assets, loader: T, name: &str, data: S, result: Option<AssetId>)
    requires
        ({
            ||| call_ensures(Assets::add_loader::<T>, (assets, loader), ())
            ||| call_ensures(Assets::register_asset::<A>, (assets,), ())
            ||| call_ensures(Assets::load_asset_from_data::<A, S>, (assets, name, data), result)
        }),
    ensures
        final(assets).wf(),
{
}

/// What can be done with a manager can be done with it afterwards.
pub proof fn law_manager_stays_usable<
    A: Send + Sync + 'static,
    S: AssetLoader<A> + AssetLoaderRaw + 'static,
    T: 'static + AssetStore,
>(
    manager: &mut AssetManager,
    asset_type: &str,
    store: T,
    name: &str,
    raw: &[u8],
    result: Option<AssetId>,
)
    requires
        ({
            ||| call_ensures(AssetManager::register_loader::<A, S>, (manager, asset_type), ())
            ||| call_ensures(AssetManager::register_store::<T>, (manager, store), ())
            ||| call_ensures(
                AssetManager::load_asset_from_raw::<A>,
                (manager, name, asset_type, raw),
                result,
            )
            ||| call_ensures(AssetManager::load_asset::<A>, (manager, name, asset_type), result)
        }),
    ensures
        final(manager).wf(),
{
}

/// What makes assets well-formed: ids that were given out are finitely many, all assets are kept
/// under such ids, none under that of an asset of another type, and different names stand for
/// different such ids. Nothing else is asked of them.
pub proof fn law_assets_wf(assets: AssetsView)
    ensures
        assets.wf() <==> {
            &&& assets.entities.finite()
            &&& forall|key: TypeId, id: AssetId|
                assets.tables.contains_key(key) && #[trigger] assets.tables[key].contains_key(id)
                    ==> assets.entities.contains(id)
            &&& forall|key: TypeId, other: TypeId, id: AssetId|
                assets.tables.contains_key(key) && assets.tables.contains_key(other)
                    && #[trigger] assets.tables[key].contains_key(id)
                    && #[trigger] assets.tables[other].contains_key(id) ==> key == other
            &&& forall|name: Seq<char>| #[trigger]
                assets.asset_ids.contains_key(name) ==> assets.entities.contains(
                    assets.asset_ids[name],
                )
            &&& forall|name: Seq<char>, other: Seq<char>| #[trigger]
                assets.asset_ids.contains_key(name) && #[trigger] assets.asset_ids.contains_key(
                    other,
                ) && assets.asset_ids[name] == assets.asset_ids[other] ==> name == other
        },
{
    assert forall|key: TypeId, id: AssetId| #[trigger] has_row(assets.tables, key, id) == (
    assets.tables.contains_key(key) && assets.tables[key].contains_key(id)) by {}
    if assets.wf() {
        assert forall|key: TypeId, id: AssetId|
            assets.tables.contains_key(key) && #[trigger] assets.tables[key].contains_key(
                id,
            ) implies assets.entities.contains(id) by {
            assert(has_row(assets.tables, key, id));
        }
        assert forall|key: TypeId, other: TypeId, id: AssetId|
            assets.tables.contains_key(key) && assets.tables.contains_key(other)
                && #[trigger] assets.tables[key].contains_key(id)
                && #[trigger] assets.tables[other].contains_key(id) implies key == other by {
            assert(has_row(assets.tables, key, id) && has_row(assets.tables, other, id));
        }
    }
}

/// What makes a manager well-formed: its assets are, and for all registered types of data there is
/// a loading method. Nothing else is asked of it.
pub proof fn law_manager_wf(manager: AssetManagerView)
    ensures
        manager.wf() <==> {
            &&& manager.assets.wf()
            &&& forall|asset_type: Seq<char>, key: TypeId| #[trigger]
                manager.asset_type_ids.contains_key((asset_type, key))
                    ==> manager.closures.contains_key(
                    (key, manager.asset_type_ids[(asset_type, key)]),
                )
        },
{
    assert forall|route: (Seq<char>, TypeId)|
        #![trigger manager.asset_type_ids.contains_key(route)]
        route == (route.0, route.1) by {}
}

/// Types are told apart by their identifiers.
pub proof fn law_same_type<A: 'static, B: 'static>(same: bool)
    requires
        call_ensures(same_type::<A, B>, (), same),
    ensures
        same <==> type_key::<A>() == type_key::<B>(),
{
}

} // verus!
