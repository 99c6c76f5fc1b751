//! What holds of the asset manager as a whole.

use crate::assets::{law_adds_wf, AssetLoader, AssetLoaderRaw, AssetsView};
use crate::manager::{image_types, AssetManagerView};
use crate::mesh::{all_vertices, parsed_set, Mesh, ObjectView};
use crate::store::AssetStore;
use crate::texture::{image_decoding, Texture};
use crate::type_key::type_key;
use crate::world::{has_row, Asset, AssetId};
use imagefmt::{ColFmt, Image};
use vstd::prelude::*;
use vstd::utf8::{decode_utf8, valid_utf8};
use wavefront_obj::obj::ObjSet;

verus! {

/// A loader resource that was set is the one of its type, in place of an earlier one, and leaves
/// those of other types as they were. Assets are left as they were, too.
pub proof fn law_loader_is_kept<T: 'static, U: 'static>(
    before: AssetsView,
    loader: T,
    after: AssetsView,
    other: U,
)
    requires
        before.sets_loader(loader, after),
    ensures
        after.has_loader(loader),
        type_key::<U>() != type_key::<T>() ==> (after.has_loader(other) <==> before.has_loader(
            other,
        )),
        after.asset_ids == before.asset_ids,
        after.tables == before.tables,
        after.entities == before.entities,
{
}

/// The first asset under a name can be read back, by the id that was returned and by the name.
/// The id is a new one.
pub proof fn law_first_asset_is_kept<A: 'static>(
    before: AssetsView,
    name: Seq<char>,
    asset: A,
    after: AssetsView,
    id: AssetId,
)
    requires
        before.is_registered::<A>(),
        !before.asset_ids.contains_key(name),
        before.adds(name, asset, after, id),
    ensures
        !before.entities.contains(id),
        after.has_asset(id, asset),
        after.named(name, asset),
{
    let new_id = choose|new_id: AssetId| #[trigger] before.gains(name, asset, new_id, after);
    assert(id == new_id);
}

/// An asset under a name that is taken gets the id of the first asset under that name, and that
/// name, like all others, stands for what it stood for.
pub proof fn law_taken_name_is_kept<A: 'static>(
    before: AssetsView,
    name: Seq<char>,
    asset: A,
    after: AssetsView,
    id: AssetId,
)
    requires
        before.asset_ids.contains_key(name),
        before.adds(name, asset, after, id),
    ensures
        id == before.asset_ids[name],
        after.asset_ids == before.asset_ids,
{
}

/// Adding two assets under one name, of whatever types, returns one id.
pub proof fn law_one_name_has_one_id<A: 'static, B: 'static>(
    before: AssetsView,
    name: Seq<char>,
    first: A,
    between: AssetsView,
    first_id: AssetId,
    second: B,
    after: AssetsView,
    second_id: AssetId,
)
    requires
        before.adds(name, first, between, first_id),
        between.adds(name, second, after, second_id),
    ensures
        first_id == second_id,
{
}

/// Loading two assets under one name, of whatever types and from whatever data, returns one id,
/// unless the second loader gives the name to another asset by itself.
pub proof fn law_loading_twice_returns_one_id<
    A: 'static,
    S: AssetLoader<A> + AssetLoaderRaw,
    B: 'static,
    R: AssetLoader<B> + AssetLoaderRaw,
>(
    before: AssetsView,
    name: Seq<char>,
    first: Seq<u8>,
    between: AssetsView,
    first_id: AssetId,
    second: Seq<u8>,
    after: AssetsView,
    second_id: AssetId,
)
    requires
        before.loads_raw::<A, S>(name, first, between, Some(first_id)),
        between.loads_raw::<B, R>(name, second, after, Some(second_id)),
        forall|data: R, loaded: AssetsView, asset: Option<B>| #[trigger]
            R::loads(between, data, loaded, asset) ==> loaded.asset_ids.contains_key(name)
                && loaded.asset_ids[name] == between.asset_ids[name],
    ensures
        first_id == second_id,
{
    let data = choose|data: Option<S>| #[trigger]
        S::decodes(before, first, data) && match data {
            Some(d) => before.loads_data::<A, S>(name, d, between, Some(first_id)),
            None => false,
        };
    assert(before.loads_data::<A, S>(name, data.unwrap(), between, Some(first_id)));
    assert(first_id == between.asset_ids[name]);
}

/// What a loader makes of data can be read back, by the id that was returned and by the name,
/// unless the loader takes the name, or drops the assets of the type, by itself.
pub proof fn law_loaded_asset_is_kept<A: 'static, S: AssetLoader<A>>(
    before: AssetsView,
    name: Seq<char>,
    data: S,
    after: AssetsView,
    id: AssetId,
)
    requires
        before.loads_data::<A, S>(name, data, after, Some(id)),
        forall|loaded: AssetsView, asset: Option<A>| #[trigger]
            S::loads(before, data, loaded, asset) ==> !loaded.asset_ids.contains_key(name)
                && loaded.is_registered::<A>(),
    ensures
        exists|loaded: AssetsView, asset: A|
            {
                &&& #[trigger] S::loads(before, data, loaded, Some(asset))
                &&& after.has_asset(id, asset)
                &&& after.named(name, asset)
            },
{
    let (loaded, outcome) = choose|loaded: AssetsView, outcome: Option<A>| #[trigger]
        S::loads(before, data, loaded, outcome) && loaded.adds_loaded(
            name,
            outcome,
            after,
            Some(id),
        );
    let asset = outcome.unwrap();
    assert(S::loads(before, data, loaded, Some(asset)));
    law_first_asset_is_kept(loaded, name, asset, after, id);
}

/// What the parser reads from raw data is what the mesh under a new name is made of.
pub proof fn law_loaded_mesh_is_kept(
    before: AssetsView,
    name: Seq<char>,
    raw: Seq<u8>,
    after: AssetsView,
    id: AssetId,
)
    requires
        before.is_registered::<Mesh>(),
        !before.asset_ids.contains_key(name),
        before.loads_raw::<Mesh, ObjSet>(name, raw, after, Some(id)),
    ensures
        valid_utf8(raw),
        parsed_set(decode_utf8(raw)) is Some,
        exists|mesh: Mesh|
            {
                &&& #[trigger] after.named(name, mesh)
                &&& after.has_asset(id, mesh)
                &&& mesh.vertices@ == all_vertices(
                    parsed_set(decode_utf8(raw)).unwrap().objects,
                )
            },
{
    let set = choose|set: ObjSet|
        <ObjSet as AssetLoaderRaw>::decodes(before, raw, Some(set)) && #[trigger]
            before.loads_data::<Mesh, ObjSet>(name, set, after, Some(id));
    law_loaded_asset_is_kept::<Mesh, ObjSet>(before, name, set, after, id);
}

/// What the decoder reads from raw data is what the texture under a new name is made of.
pub proof fn law_loaded_texture_is_kept(
    before: AssetsView,
    name: Seq<char>,
    raw: Seq<u8>,
    after: AssetsView,
    id: AssetId,
)
    requires
        before.is_registered::<Texture>(),
        !before.asset_ids.contains_key(name),
        before.loads_raw::<Texture, Image<u8>>(name, raw, after, Some(id)),
    ensures
        image_decoding(raw, ColFmt::RGBA) is Reads,
        exists|texture: Texture|
            {
                let image = image_decoding(raw, ColFmt::RGBA)->Reads_0;
                &&& #[trigger] after.named(name, texture)
                &&& after.has_asset(id, texture)
                &&& texture.kind == image.kind()
                &&& texture.levels@.len() == 1
                &&& image.groups_into(texture.levels@[0]@)
            },
{
    let image = choose|image: Image<u8>|
        <Image<u8> as AssetLoaderRaw>::decodes(before, raw, Some(image)) && #[trigger]
            before.loads_data::<Texture, Image<u8>>(name, image, after, Some(id));
    law_loaded_asset_is_kept::<Texture, Image<u8>>(before, name, image, after, id);
}

/// Adding an asset leaves all other assets, all names in use and all loader resources as they
/// were. Of another type than its own it adds nothing.
pub proof fn law_adding_keeps_the_rest<A: 'static, B: 'static>(
    before: AssetsView,
    name: Seq<char>,
    asset: A,
    after: AssetsView,
    id: AssetId,
    other_name: Seq<char>,
    other_id: AssetId,
    other: B,
)
    requires
        before.wf(),
        before.is_registered::<A>(),
        before.adds(name, asset, after, id),
    ensures
        before.has_asset(other_id, other) ==> after.has_asset(other_id, other),
        before.named(other_name, other) ==> after.named(other_name, other),
        before.asset_ids.contains_key(other_name) ==> after.asset_ids.contains_key(other_name)
            && after.asset_ids[other_name] == before.asset_ids[other_name],
        type_key::<Asset<B>>() != type_key::<Asset<A>>() ==> (after.has_asset(other_id, other)
            <==> before.has_asset(other_id, other)),
        after.loaders == before.loaders,
{
    let new_id = choose|new_id: AssetId| #[trigger] before.gains(name, asset, new_id, after);
    let key = type_key::<Asset<B>>();
    assert forall|kept_id: AssetId| before.has_asset(kept_id, other) implies #[trigger]
        after.has_asset(kept_id, other) by {
        assert(has_row(before.tables, key, kept_id));
        assert(kept_id != new_id);
    }
}

/// Different names stand for different assets.
pub proof fn law_names_differ(assets: AssetsView, name: Seq<char>, other: Seq<char>)
    requires
        assets.wf(),
        assets.asset_ids.contains_key(name),
        assets.asset_ids.contains_key(other),
        name != other,
    ensures
        assets.asset_ids[name] != assets.asset_ids[other],
{
}

/// An id under which an asset is kept is not that of an asset of another type.
pub proof fn law_id_has_one_type<A: 'static, B: 'static>(
    assets: AssetsView,
    id: AssetId,
    asset: B,
    other: A,
)
    requires
        assets.wf(),
        assets.has_asset(id, asset),
        type_key::<Asset<A>>() != type_key::<Asset<B>>(),
    ensures
        !assets.has_asset(id, other),
{
    if assets.has_asset(id, other) {
        assert(has_row(assets.tables, type_key::<Asset<A>>(), id));
        assert(has_row(assets.tables, type_key::<Asset<B>>(), id));
    }
}

/// A name that an asset goes by is not that of an asset of another type.
pub proof fn law_name_has_one_type<A: 'static, B: 'static>(
    assets: AssetsView,
    name: Seq<char>,
    asset: B,
)
    requires
        assets.wf(),
        assets.named(name, asset),
        type_key::<Asset<A>>() != type_key::<Asset<B>>(),
    ensures
        !assets.has_named::<A>(name),
{
    assert forall|other: A| !#[trigger] assets.named(name, other) by {
        law_id_has_one_type(assets, assets.asset_ids[name], asset, other);
    }
}

/// Names are shared by all asset types: loading an asset of type `A` under the name of an asset of
/// type `B` returns the id of the latter. Nothing of type `A` can be read under it, and the asset
/// of type `B` still can, unless the loader gives up that asset or its name by itself.
pub proof fn law_name_of_another_type_is_kept<A: 'static, B: 'static, S: AssetLoader<A>>(
    before: AssetsView,
    name: Seq<char>,
    first: B,
    data: S,
    after: AssetsView,
    id: AssetId,
    other: A,
)
    requires
        before.named(name, first),
        type_key::<Asset<A>>() != type_key::<Asset<B>>(),
        before.loads_data::<A, S>(name, data, after, Some(id)),
        forall|loaded: AssetsView, asset: Option<A>| #[trigger]
            S::loads(before, data, loaded, asset) ==> {
                &&& loaded.wf()
                &&& loaded.is_registered::<A>()
                &&& loaded.named(name, first)
                &&& loaded.asset_ids[name] == before.asset_ids[name]
            },
    ensures
        id == before.asset_ids[name],
        after.asset_ids[name] == id,
        after.has_asset(id, first),
        after.named(name, first),
        !after.has_asset(id, other),
        !after.has_named::<A>(name),
{
    let (loaded, outcome) = choose|loaded: AssetsView, outcome: Option<A>| #[trigger]
        S::loads(before, data, loaded, outcome) && loaded.adds_loaded(
            name,
            outcome,
            after,
            Some(id),
        );
    let asset = outcome.unwrap();
    law_taken_name_is_kept(loaded, name, asset, after, id);
    law_adding_keeps_the_rest(loaded, name, asset, after, id, name, id, first);
    law_adds_wf(loaded, name, asset, after, id);
    law_id_has_one_type(after, id, first, other);
    law_name_has_one_type::<A, B>(after, name, first);
}

/// Registering an asset type drops all assets of that type, and leaves those of other types, all
/// names and all loader resources as they were.
pub proof fn law_registering_clears<A: 'static, B: 'static>(
    before: AssetsView,
    id: AssetId,
    asset: A,
    other: B,
)
    ensures
        before.register::<A>().is_registered::<A>(),
        !before.register::<A>().has_asset(id, asset),
        type_key::<Asset<B>>() != type_key::<Asset<A>>() ==> (before.register::<A>().has_asset(
            id,
            other,
        ) <==> before.has_asset(id, other)),
        before.register::<A>().asset_ids == before.asset_ids,
        before.register::<A>().loaders == before.loaders,
{
}

/// A loading method that was registered is the one that raw data of that asset type goes through.
pub proof fn law_method_is_used<
    A: Send + Sync + 'static,
    S: AssetLoader<A> + AssetLoaderRaw + 'static,
>(
    before: AssetManagerView,
    asset_type: Seq<char>,
    after: AssetManagerView,
    name: Seq<char>,
    raw: Seq<u8>,
    loaded: AssetManagerView,
    result: Option<AssetId>,
)
    requires
        before.registers::<A, S>(asset_type, after),
    ensures
        after.loads_by::<A, S>(asset_type),
        after.can_load_raw::<A>(asset_type, raw) <==> after.assets.can_load_raw::<A, S>(raw),
        after.loads_raw::<A>(name, asset_type, raw, loaded, result) <==> {
            &&& loaded == (AssetManagerView { assets: loaded.assets, ..after })
            &&& after.assets.loads_raw::<A, S>(name, raw, loaded.assets, result)
        },
{
}

/// Loading an asset from raw data is decoding the data with the registered loading method, and then
/// loading the asset from what was decoded, if anything was.
pub proof fn law_raw_load_is_decode_then_load<
    A: Send + Sync + 'static,
    S: AssetLoader<A> + AssetLoaderRaw,
>(
    before: AssetManagerView,
    asset_type: Seq<char>,
    name: Seq<char>,
    raw: Seq<u8>,
    after: AssetManagerView,
    result: Option<AssetId>,
)
    requires
        before.loads_by::<A, S>(asset_type),
    ensures
        before.loads_raw::<A>(name, asset_type, raw, after, result) <==> {
            &&& after == (AssetManagerView { assets: after.assets, ..before })
            &&& exists|data: Option<S>| #[trigger]
                S::decodes(before.assets, raw, data) && match data {
                    Some(d) => before.assets.loads_data::<A, S>(name, d, after.assets, result),
                    None => result is None && after.assets == before.assets,
                }
        },
{
}

/// Of two loading methods for one asset type, each name goes by the one that was registered last
/// for it, in whatever order the methods were registered for other names.
pub proof fn law_names_keep_their_methods<
    A: Send + Sync + 'static,
    S: AssetLoader<A> + AssetLoaderRaw + 'static,
    R: AssetLoader<A> + AssetLoaderRaw + 'static,
>(
    before: AssetManagerView,
    asset_type: Seq<char>,
    first: AssetManagerView,
    second: AssetManagerView,
    other_type: Seq<char>,
    after: AssetManagerView,
)
    requires
        type_key::<S>() != type_key::<R>(),
        asset_type != other_type,
        before.registers::<A, S>(asset_type, first),
        first.registers::<A, R>(asset_type, second),
        second.registers::<A, S>(other_type, after),
    ensures
        after.loads_by::<A, R>(asset_type),
        after.loads_by::<A, S>(other_type),
{
    law_method_is_used::<A, R>(
        first,
        asset_type,
        second,
        Seq::empty(),
        Seq::empty(),
        second,
        None,
    );
    assert(second.asset_type_ids[(asset_type, type_key::<A>())] == type_key::<R>());
    law_other_methods_are_kept::<A, S, A>(second, other_type, after, asset_type);
}

/// Registering a loading method leaves those of other asset types as they were, and those of the
/// same asset type that load by way of other data. One that loads by way of the same data stays
/// one that does.
pub proof fn law_other_methods_are_kept<
    A: Send + Sync + 'static,
    S: AssetLoader<A> + AssetLoaderRaw + 'static,
    B: 'static,
>(
    before: AssetManagerView,
    asset_type: Seq<char>,
    after: AssetManagerView,
    other_type: Seq<char>,
)
    requires
        before.registers::<A, S>(asset_type, after),
    ensures
        before.has_method::<B>(other_type) ==> after.has_method::<B>(other_type),
        before.has_method::<B>(other_type) && type_key::<B>() != type_key::<A>()
            ==> after.method::<B>(other_type) == before.method::<B>(other_type),
        before.has_method::<A>(other_type) && other_type != asset_type
            && before.asset_type_ids[(other_type, type_key::<A>())] != type_key::<S>()
            ==> after.method::<A>(other_type) == before.method::<A>(other_type),
        before.loads_by::<A, S>(other_type) ==> after.loads_by::<A, S>(other_type),
{
}

/// Stores are searched in the order in which they were registered: what an earlier one hands out
/// stays what is loaded, and a new one is asked only if none of the others has the asset.
pub proof fn law_earlier_stores_go_first<T: AssetStore>(
    before: AssetManagerView,
    store: T,
    after: AssetManagerView,
    name: Seq<char>,
    asset_type: Seq<char>,
    raw: Seq<u8>,
)
    requires
        before.adds_store(store, after),
    ensures
        after.fetches(name, asset_type, raw) <==> {
            ||| before.fetches(name, asset_type, raw)
            ||| {
                &&& before.skips(name, asset_type, before.stores.len() as int)
                &&& store.reports(name, asset_type, true)
                &&& exists|count: Option<usize>| #[trigger]
                    store.fills(name, asset_type, Seq::empty(), raw, count)
            }
        },
{
    let n = before.stores.len() as int;
    assert forall|i: int| 0 <= i < n implies #[trigger] after.stores[i] == before.stores[i] by {}
    assert forall|i: int| 0 <= i <= n implies #[trigger] after.skips(name, asset_type, i)
        == before.skips(name, asset_type, i) by {
        assert forall|j: int| 0 <= j < i && after.skips(name, asset_type, i) implies (
        #[trigger] before.stores[j]).value.reports(name, asset_type, false) by {
            assert(after.stores[j] == before.stores[j]);
        }
    }
    assert forall|i: int| 0 <= i < n implies #[trigger] after.fetches_from(
        i,
        name,
        asset_type,
        raw,
    ) == before.fetches_from(i, name, asset_type, raw) by {}
    if before.fetches(name, asset_type, raw) {
        let i = choose|i: int| #[trigger] before.fetches_from(i, name, asset_type, raw);
        assert(after.fetches_from(i, name, asset_type, raw));
    }
    if before.skips(name, asset_type, n) && store.reports(name, asset_type, true) && exists|
        count: Option<usize>,
    | #[trigger] store.fills(name, asset_type, Seq::empty(), raw, count) {
        let count = choose|count: Option<usize>| #[trigger]
            store.fills(name, asset_type, Seq::empty(), raw, count);
        assert(after.stores[n].value.fills(name, asset_type, Seq::empty(), raw, count));
        assert(after.fetches_from(n, name, asset_type, raw));
    }
    if after.fetches(name, asset_type, raw) {
        let i = choose|i: int| #[trigger] after.fetches_from(i, name, asset_type, raw);
        if i < n {
            assert(before.fetches_from(i, name, asset_type, raw));
        } else {
            assert(i == n);
            let count = choose|count: Option<usize>| #[trigger]
                after.stores[n].value.fills(name, asset_type, Seq::empty(), raw, count);
            assert(store.fills(name, asset_type, Seq::empty(), raw, count));
        }
    }
}

/// If no store can have an asset, loading it returns nothing and changes nothing.
pub proof fn law_nothing_is_loaded_from_nowhere<A: 'static>(
    before: AssetManagerView,
    name: Seq<char>,
    asset_type: Seq<char>,
    after: AssetManagerView,
    result: Option<AssetId>,
)
    requires
        forall|i: int|
            0 <= i < before.stores.len() ==> !(#[trigger] before.stores[i]).value.reports(
                name,
                asset_type,
                true,
            ),
        before.loads::<A>(name, asset_type, after, result),
    ensures
        result is None,
        after == before,
{
}

/// If the first store cannot but have an asset, what it hands out is what is loaded.
pub proof fn law_first_store_wins<A: 'static>(
    before: AssetManagerView,
    name: Seq<char>,
    asset_type: Seq<char>,
    after: AssetManagerView,
    result: Option<AssetId>,
)
    requires
        before.stores.len() > 0,
        !before.stores[0].value.reports(name, asset_type, false),
        before.loads::<A>(name, asset_type, after, result),
    ensures
        exists|raw: Seq<u8>, count: Option<usize>|
            {
                &&& #[trigger] before.stores[0].value.fills(
                    name,
                    asset_type,
                    Seq::empty(),
                    raw,
                    count,
                )
                &&& before.loads_raw::<A>(name, asset_type, raw, after, result)
            },
{
}

/// If one store cannot but have an asset and hand out `raw`, and no store before it can have the
/// asset, loading the asset is loading it from `raw`.
pub proof fn law_store_load_is_raw_load<A: 'static>(
    before: AssetManagerView,
    i: int,
    name: Seq<char>,
    asset_type: Seq<char>,
    raw: Seq<u8>,
    count: Option<usize>,
    after: AssetManagerView,
    result: Option<AssetId>,
)
    requires
        0 <= i < before.stores.len(),
        forall|j: int|
            0 <= j < i ==> {
                &&& (#[trigger] before.stores[j]).value.reports(name, asset_type, false)
                &&& !before.stores[j].value.reports(name, asset_type, true)
            },
        before.stores[i].value.reports(name, asset_type, true),
        !before.stores[i].value.reports(name, asset_type, false),
        before.stores[i].value.fills(name, asset_type, Seq::empty(), raw, count),
        forall|other: Seq<u8>, n: Option<usize>| #[trigger]
            before.stores[i].value.fills(name, asset_type, Seq::empty(), other, n) ==> other
                == raw,
    ensures
        before.can_load::<A>(name, asset_type) <==> before.can_load_raw::<A>(asset_type, raw),
        before.loads::<A>(name, asset_type, after, result) <==> before.loads_raw::<A>(
            name,
            asset_type,
            raw,
            after,
            result,
        ),
{
    assert(before.fetches_from(i, name, asset_type, raw));
    assert(before.fetches(name, asset_type, raw));
    assert forall|other: Seq<u8>| #[trigger] before.fetches(name, asset_type, other) implies other
        == raw by {
        let j = choose|j: int| #[trigger] before.fetches_from(j, name, asset_type, other);
        assert(before.stores[j].value.reports(name, asset_type, true));
        if i < j {
            assert(before.stores[i].value.reports(name, asset_type, false));
        }
    }
}

/// Objects are not told apart: the mesh of two lists of objects is that of the first, followed by
/// that of the second.
pub proof fn law_objects_make_one_mesh(first: Seq<ObjectView>, second: Seq<ObjectView>)
    ensures
        all_vertices(first + second) == all_vertices(first) + all_vertices(second),
    decreases second.len(),
{
    let expand = |object: ObjectView| object.mesh_vertices();
    if second.len() == 0 {
        assert(first + second =~= first);
        assert(all_vertices(first) + all_vertices(second) =~= all_vertices(first));
    } else {
        law_objects_make_one_mesh(first, second.drop_last());
        assert(first + second =~= (first + second.drop_last()).push(second.last()));
        assert(second =~= second.drop_last().push(second.last()));
        (first + second.drop_last()).lemma_flat_map_push(expand, second.last());
        second.drop_last().lemma_flat_map_push(expand, second.last());
        assert(all_vertices(first + second) =~= all_vertices(first) + all_vertices(second));
    }
}

/// Where the parser does not panic, loading a mesh from raw data does not panic either.
pub proof fn law_mesh_data_loads(assets: AssetsView, raw: Seq<u8>)
    requires
        <ObjSet as AssetLoaderRaw>::readable(assets, raw),
        assets.has_room::<Mesh>(),
    ensures
        assets.can_load_raw::<Mesh, ObjSet>(raw),
{
}

/// Where the decoder does not panic, loading a texture from raw data does not panic either.
pub proof fn law_texture_data_loads(assets: AssetsView, raw: Seq<u8>)
    requires
        <Image<u8> as AssetLoaderRaw>::readable(assets, raw),
        assets.has_room::<Texture>(),
    ensures
        assets.can_load_raw::<Texture, Image<u8>>(raw),
{
}

/// Raw data that is no mesh changes nothing.
pub proof fn law_failed_mesh_changes_nothing(
    before: AssetsView,
    name: Seq<char>,
    raw: Seq<u8>,
    after: AssetsView,
)
    requires
        before.loads_raw::<Mesh, ObjSet>(name, raw, after, None),
    ensures
        after == before,
{
}

/// Raw data that is no texture changes nothing.
pub proof fn law_failed_texture_changes_nothing(
    before: AssetsView,
    name: Seq<char>,
    raw: Seq<u8>,
    after: AssetsView,
)
    requires
        before.loads_raw::<Texture, Image<u8>>(name, raw, after, None),
    ensures
        after == before,
{
}

/// A new manager can load meshes and textures.
pub proof fn law_new_manager_loads(manager: AssetManagerView, raw: Seq<u8>, asset_type: Seq<char>)
    requires
        manager.is_new::<Mesh, Texture>(),
        (type_key::<Mesh>(), type_key::<ObjSet>()) != (
            type_key::<Texture>(),
            type_key::<Image<u8>>(),
        ),
    ensures
        <ObjSet as AssetLoaderRaw>::readable(manager.assets, raw)
            ==> manager.can_load_raw::<Mesh>("obj"@, raw),
        <Image<u8> as AssetLoaderRaw>::readable(manager.assets, raw) && image_types().contains(
            asset_type,
        ) ==> manager.can_load_raw::<Texture>(asset_type, raw),
{
    if <ObjSet as AssetLoaderRaw>::readable(manager.assets, raw) {
        law_mesh_data_loads(manager.assets, raw);
    }
    if <Image<u8> as AssetLoaderRaw>::readable(manager.assets, raw) {
        law_texture_data_loads(manager.assets, raw);
    }
}

} // verus!
