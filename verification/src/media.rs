//! What becomes of directories, images and objects, said of calls.

use crate::assets::{AssetLoader, AssetLoaderRaw, Assets, AssetsView};
use crate::calls::{
    decoded_and_stored, goes_by, kept_as, law_load_asset_from_raw, lemma_goes_by, lemma_loads_raw,
};
use crate::erased::Erased;
use crate::laws::law_first_asset_is_kept;
use crate::held::Held;
use crate::manager::{image_types, opens, opens_all, AssetManager, AssetManagerView};
use crate::mesh::Mesh;
use crate::store::{
    are_default_stores, default_stores, is_path, is_store, AssetStore, DirectoryStore,
};
use crate::texture::{
    image_decoding, image_view, texture_data, Decoding, ImageView, Texture, TextureLoadData,
};
use crate::type_key::type_key;
use crate::world::{Asset, AssetId};
use gfx::texture::{AaMode, Kind};
use imagefmt::{ColFmt, Image};
use std::any::TypeId;
use std::path::PathBuf;
use vstd::prelude::*;
use wavefront_obj::obj::ObjSet;

verus! {

/// Whenever the directory of the executable is known, however many directories are given, there is
/// exactly one more store than given directories, and the last is that of `resources/assets` in
/// the directory of the executable. The others are those of the given directories, in order.
pub proof fn law_default_stores_are_all_there(
    asset_dirs: Vec<PathBuf>,
    exe_dir: Option<&str>,
    stores: Vec<DirectoryStore>,
    i: int,
)
    requires
        call_ensures(default_stores, (asset_dirs, exe_dir), stores),
    ensures
        0 <= i < asset_dirs@.len() ==> stores@[i].dir() == asset_dirs@[i],
        exe_dir is None ==> stores@.len() == asset_dirs@.len(),
        exe_dir matches Some(dir) ==> {
            &&& stores@.len() == asset_dirs@.len() + 1
            &&& is_path(
                dir@ + seq![
                    '/',
                    'r',
                    'e',
                    's',
                    'o',
                    'u',
                    'r',
                    'c',
                    'e',
                    's',
                    '/',
                    'a',
                    's',
                    's',
                    'e',
                    't',
                    's',
                ],
                stores@.last().dir(),
            )
        },
{
    lemma_sibling();
}

/// The name of the directory beside an executable.
proof fn lemma_sibling()
    ensures
        "/resources/assets"@ == seq![
            '/',
            'r',
            'e',
            's',
            'o',
            'u',
            'r',
            'c',
            'e',
            's',
            '/',
            'a',
            's',
            's',
            'e',
            't',
            's',
        ],
{
    reveal_strlit("/resources/assets");
    assert("/resources/assets"@ =~= seq![
        '/',
        'r',
        'e',
        's',
        'o',
        'u',
        'r',
        'c',
        'e',
        's',
        '/',
        'a',
        's',
        's',
        'e',
        't',
        's',
    ]);
}

/// Whether the stores of a manager are one for each of the given directories, in order, and one
/// more if the directory of the executable is known, and each answers as what `open` made of its
/// directory does.
pub open spec fn stores_are_opened<D: AssetStore, F: Fn(DirectoryStore) -> D>(
    asset_dirs: Seq<PathBuf>,
    exe_dir: Option<&str>,
    open: F,
    stores: Seq<Held<dyn AssetStore>>,
) -> bool {
    &&& stores.len() == asset_dirs.len() + if exe_dir is Some {
        1int
    } else {
        0
    }
    &&& forall|i: int|
        0 <= i < stores.len() ==> is_opened(asset_dirs, exe_dir, open, i, #[trigger] stores[i])
}

/// Whether a store is the one of a manager at an index.
pub open spec fn is_opened<D: AssetStore, F: Fn(DirectoryStore) -> D>(
    asset_dirs: Seq<PathBuf>,
    exe_dir: Option<&str>,
    open: F,
    i: int,
    held: Held<dyn AssetStore>,
) -> bool {
    exists|dir: DirectoryStore, store: D|
        {
            &&& #[trigger] call_ensures(open, (dir,), store)
            &&& i < asset_dirs.len() ==> dir.dir() == asset_dirs[i]
            &&& i == asset_dirs.len() ==> is_path(
                exe_dir.unwrap()@ + "/resources/assets"@,
                dir.dir(),
            )
            &&& answers_as(held, store)
        }
}

/// Whether a store in a manager answers as a store does.
pub open spec fn answers_as<D: AssetStore>(held: Held<dyn AssetStore>, store: D) -> bool {
    &&& forall|name: Seq<char>, asset_type: Seq<char>, found: bool| #[trigger]
        held.value.reports(name, asset_type, found) == store.reports(name, asset_type, found)
    &&& forall|
        name: Seq<char>,
        asset_type: Seq<char>,
        buf: Seq<u8>,
        filled: Seq<u8>,
        count: Option<usize>,
    | #[trigger]
        held.value.fills(name, asset_type, buf, filled, count) == store.fills(
            name,
            asset_type,
            buf,
            filled,
            count,
        )
}

/// The stores that a manager starts with are opened.
proof fn lemma_stores_are_opened<D: AssetStore, F: Fn(DirectoryStore) -> D>(
    manager: AssetManagerView,
    asset_dirs: Seq<PathBuf>,
    exe_dir: Option<&str>,
    open: F,
)
    requires
        manager.has_default_stores(asset_dirs, exe_dir, open),
    ensures
        stores_are_opened(asset_dirs, exe_dir, open, manager.stores),
{
    let dirs = choose|dirs: Seq<DirectoryStore>| #[trigger]
        are_default_stores(asset_dirs, exe_dir, dirs) && opens_all(open, dirs, manager.stores);
    assert forall|i: int| 0 <= i < manager.stores.len() implies is_opened(
        asset_dirs,
        exe_dir,
        open,
        i,
        #[trigger] manager.stores[i],
    ) by {
        assert(opens(open, dirs[i], manager.stores[i]));
        let store = choose|store: D| #[trigger]
            call_ensures(open, (dirs[i],), store) && is_store(manager.stores[i], store);
        assert(call_ensures(open, (dirs[i],), store));
    }
}

/// Whether a manager has no assets and no loader resources, and two asset types, meshes and
/// textures; decodes meshes from `.obj` data and textures from images of five kinds, and has no
/// other loading methods.
pub open spec fn has_defaults<M: Send + Sync + 'static, T: Send + Sync + 'static>(
    manager: AssetManagerView,
) -> bool where ObjSet: AssetLoader<M>, Image<u8>: AssetLoader<T> {
    &&& manager.assets.loaders == Map::<TypeId, Erased>::empty()
    &&& manager.assets.asset_ids == Map::<Seq<char>, AssetId>::empty()
    &&& manager.assets.entities == Set::<AssetId>::empty()
    &&& forall|key: TypeId| #[trigger]
        manager.assets.tables.contains_key(key) <==> key == type_key::<Asset<M>>() || key
            == type_key::<Asset<T>>()
    &&& forall|key: TypeId| #[trigger]
        manager.assets.tables.contains_key(key) ==> manager.assets.tables[key] == Map::<
            AssetId,
            Erased,
        >::empty()
    &&& forall|asset_type: Seq<char>, key: TypeId| #[trigger]
        manager.asset_type_ids.contains_key((asset_type, key)) <==> {
            ||| key == type_key::<M>() && asset_type == seq!['o', 'b', 'j']
            ||| key == type_key::<T>() && is_image_type(asset_type)
        }
    &&& forall|asset_type: Seq<char>| #[trigger]
        is_image_type(asset_type) ==> goes_by::<T, Image<u8>>(manager, asset_type)
    &&& type_key::<M>() != type_key::<T>() || type_key::<ObjSet>() != type_key::<Image<u8>>()
        ==> goes_by::<M, ObjSet>(manager, seq!['o', 'b', 'j'])
}

/// What a new manager holds.
proof fn lemma_has_defaults<M: Send + Sync + 'static, T: Send + Sync + 'static>(
    manager: AssetManagerView,
) where ObjSet: AssetLoader<M>, Image<u8>: AssetLoader<T>
    requires
        manager.wf(),
        manager.is_new::<M, T>(),
    ensures
        has_defaults::<M, T>(manager),
{
    lemma_type_names();
    assert forall|t: Seq<char>| #[trigger] is_image_type(t) <==> image_types().contains(t) by {
        assert(image_types()[0] == "png"@ && image_types()[1] == "bmp"@ && image_types()[2]
            == "jpg"@ && image_types()[3] == "jpeg"@ && image_types()[4] == "tga"@);
        if is_image_type(t) {
            assert(image_types().contains(image_types()[0]));
            assert(image_types().contains(image_types()[1]));
            assert(image_types().contains(image_types()[2]));
            assert(image_types().contains(image_types()[3]));
            assert(image_types().contains(image_types()[4]));
        }
    }
    assert forall|asset_type: Seq<char>, key: TypeId| #[trigger]
        manager.asset_type_ids.contains_key((asset_type, key)) <==> {
            ||| key == type_key::<M>() && asset_type == seq!['o', 'b', 'j']
            ||| key == type_key::<T>() && is_image_type(asset_type)
        } by {
        assert(is_image_type(asset_type) <==> image_types().contains(asset_type));
    }
    assert forall|asset_type: Seq<char>| #[trigger] is_image_type(asset_type) implies goes_by::<
        T,
        Image<u8>,
    >(manager, asset_type) by {
        assert(manager.asset_type_ids.contains_key((asset_type, type_key::<T>())));
        lemma_goes_by::<T, Image<u8>>(manager, asset_type);
    }
    if type_key::<M>() != type_key::<T>() || type_key::<ObjSet>() != type_key::<Image<u8>>() {
        assert(manager.asset_type_ids.contains_key(("obj"@, type_key::<M>())));
        lemma_goes_by::<M, ObjSet>(manager, "obj"@);
    }
}

/// A new manager has the default asset types, loading methods and stores, and nothing else.
pub proof fn law_new_manager<D: AssetStore + 'static, F: Fn(DirectoryStore) -> D>(
    asset_dirs: Vec<PathBuf>,
    exe_dir: Option<&str>,
    open: F,
    manager: AssetManager,
)
    requires
        call_ensures(AssetManager::new::<D, F>, (asset_dirs, exe_dir, open), manager),
    ensures
        manager.wf(),
        has_defaults::<Mesh, Texture>(manager@),
        stores_are_opened(asset_dirs@, exe_dir, open, manager@.stores),
{
    lemma_has_defaults::<Mesh, Texture>(manager@);
    lemma_stores_are_opened(manager@, asset_dirs@, exe_dir, open);
}

/// A new manager for other types of meshes and textures has the default asset types, loading
/// methods and stores, and nothing else.
pub proof fn law_new_manager_with_types<
    M: Send + Sync + 'static,
    T: Send + Sync + 'static,
    D: AssetStore + 'static,
    F: Fn(DirectoryStore) -> D,
>(asset_dirs: Vec<PathBuf>, exe_dir: Option<&str>, open: F, manager: AssetManager) where
    ObjSet: AssetLoader<M>,
    Image<u8>: AssetLoader<T>,

    requires
        call_ensures(
            AssetManager::with_types::<M, T, D, F>,
            (asset_dirs, exe_dir, open),
            manager,
        ),
    ensures
        manager.wf(),
        has_defaults::<M, T>(manager@),
        stores_are_opened(asset_dirs@, exe_dir, open, manager@.stores),
{
    lemma_has_defaults::<M, T>(manager@);
    lemma_stores_are_opened(manager@, asset_dirs@, exe_dir, open);
}

/// A manager can be made with any directories, if they can all be opened.
pub proof fn law_new_manager_returns<D: AssetStore + 'static, F: Fn(DirectoryStore) -> D>(
    asset_dirs: Vec<PathBuf>,
    exe_dir: Option<&str>,
    open: F,
)
    requires
        forall|dir: DirectoryStore| call_requires(open, (dir,)),
    ensures
        call_requires(AssetManager::new::<D, F>, (asset_dirs, exe_dir, open)),
        call_requires(default_stores, (asset_dirs, exe_dir)),
{
}

/// Whether a text is the name of a kind of images.
pub open spec fn is_image_type(asset_type: Seq<char>) -> bool {
    ||| asset_type == seq!['p', 'n', 'g']
    ||| asset_type == seq!['b', 'm', 'p']
    ||| asset_type == seq!['j', 'p', 'g']
    ||| asset_type == seq!['j', 'p', 'e', 'g']
    ||| asset_type == seq!['t', 'g', 'a']
}

/// The names of asset types, by their characters.
proof fn lemma_type_names()
    ensures
        "obj"@ == seq!['o', 'b', 'j'],
        "png"@ == seq!['p', 'n', 'g'],
        "bmp"@ == seq!['b', 'm', 'p'],
        "jpg"@ == seq!['j', 'p', 'g'],
        "jpeg"@ == seq!['j', 'p', 'e', 'g'],
        "tga"@ == seq!['t', 'g', 'a'],
{
    reveal_strlit("obj");
    reveal_strlit("png");
    reveal_strlit("bmp");
    reveal_strlit("jpg");
    reveal_strlit("jpeg");
    reveal_strlit("tga");
    assert("obj"@ =~= seq!['o', 'b', 'j']);
    assert("png"@ =~= seq!['p', 'n', 'g']);
    assert("bmp"@ =~= seq!['b', 'm', 'p']);
    assert("jpg"@ =~= seq!['j', 'p', 'g']);
    assert("jpeg"@ =~= seq!['j', 'p', 'e', 'g']);
    assert("tga"@ =~= seq!['t', 'g', 'a']);
}

/// Whether `texture` is what becomes of an image: its dimensions are those of the image, as far as
/// 16 bits hold them, and its only level has a pixel for every four samples, with these samples.
pub open spec fn is_texture_of(
    kind: Kind,
    levels: Seq<Vec<[u8; 4]>>,
    w: usize,
    h: usize,
    buf: Seq<u8>,
) -> bool {
    &&& kind matches Kind::D2(tw, th, mode) && {
        &&& tw == w as int % 0x1_0000
        &&& th == h as int % 0x1_0000
        &&& mode == AaMode::Single
    }
    &&& levels.len() == 1
    &&& 4 * levels[0]@.len() == buf.len()
    &&& forall|i: int, c: int|
        0 <= i < levels[0]@.len() && 0 <= c < 4 ==> #[trigger] levels[0]@[i]@[c] == buf[4 * i + c]
}

/// The samples of an image, grouped by four, are its pixels.
proof fn lemma_pixels(view: ImageView, kind: Kind, levels: Seq<Vec<[u8; 4]>>)
    requires
        kind == view.kind(),
        levels.len() == 1,
        view.groups_into(levels[0]@),
    ensures
        is_texture_of(kind, levels, view.w, view.h, view.buf),
{
    assert forall|i: int, c: int| 0 <= i < levels[0]@.len() && 0 <= c < 4 implies #[trigger]
        levels[0]@[i]@[c] == view.buf[4 * i + c] by {
        assert(levels[0]@[i]@ == view.buf.subrange(4 * i, 4 * i + 4));
    }
}

/// What a texture is made from has the dimensions and the pixels of the image.
pub proof fn law_texture_data(image: &Image<u8>, data: TextureLoadData)
    requires
        call_ensures(texture_data, (image,), data),
    ensures
        is_texture_of(data.kind, data.raw@, image.w, image.h, image.buf@),
        image.w < 0x1_0000 && image.h < 0x1_0000 ==> (data.kind matches Kind::D2(tw, th, mode)
            && tw as int == image.w as int && th as int == image.h as int),
{
    lemma_pixels(image_view(*image), data.kind, data.raw@);
}

/// A texture can be made from every image whose last pixel is complete.
pub proof fn law_texture_data_returns(image: &Image<u8>)
    requires
        image.buf@.len() % 4 == 0,
    ensures
        call_requires(texture_data, (image,)),
{
}

/// An image always becomes a texture, of its dimensions and pixels, and nothing else changes.
pub proof fn law_image_from_data(assets: &mut Assets, image: Image<u8>, result: Option<Texture>)
    requires
        call_ensures(
            <Image<u8> as AssetLoader<Texture>>::from_data,
            (assets, image),
            result,
        ),
    ensures
        result matches Some(texture) && is_texture_of(
            texture.kind,
            texture.levels@,
            image.w,
            image.h,
            image.buf@,
        ),
        final(assets)@ == old(assets)@,
{
    lemma_pixels(image_view(image), result.unwrap().kind, result.unwrap().levels@);
}

/// What a texture is made from always becomes that texture, and nothing else changes.
pub proof fn law_texture_from_data(
    assets: &mut Assets,
    data: TextureLoadData,
    result: Option<Texture>,
)
    requires
        call_ensures(
            <TextureLoadData as AssetLoader<Texture>>::from_data,
            (assets, data),
            result,
        ),
    ensures
        result matches Some(texture) && texture.kind == data.kind && texture.levels@ == data.raw@,
        final(assets)@ == old(assets)@,
{
}

/// An image is decoded from raw data exactly where the decoder reads one when it is asked for
/// `RGBA`, and it is the one that the decoder reads. Only where the decoder fails, there is none.
pub proof fn law_image_from_raw(assets: &Assets, data: &[u8], result: Option<Image<u8>>)
    requires
        call_ensures(<Image<u8> as AssetLoaderRaw>::from_raw, (assets, data), result),
    ensures
        match result {
            Some(image) => {
                &&& image_decoding(data@, ColFmt::RGBA) == Decoding::Reads(
                    ImageView { w: image.w, h: image.h, fmt: image.fmt, buf: image.buf@ },
                )
                &&& image.buf@.len() == 4 * (image.w * image.h)
            },
            None => image_decoding(data@, ColFmt::RGBA) == Decoding::Fails,
        },
{
}

/// Raw data can be taken for an image wherever the decoder does not panic, and wherever the data
/// starts as no PNG, JPEG or BMP file does.
pub proof fn law_image_from_raw_returns(assets: &Assets, data: &[u8])
    requires
        assets.wf(),
        ({
            ||| image_decoding(data@, ColFmt::RGBA) != Decoding::Panics
            ||| usize::BITS == 64 && (data@.len() > 0 ==> data@[0] != 0x89 && data@[0] != 0xff
                && data@[0] != 0x42)
        }),
    ensures
        call_requires(<Image<u8> as AssetLoaderRaw>::from_raw, (assets, data)),
{
}

/// A texture of a decoded image that fits in 16 bits has as many pixels as its dimensions say.
pub proof fn law_decoded_texture_has_all_pixels(
    assets: &mut Assets,
    data: &[u8],
    image: Image<u8>,
    texture: Texture,
)
    requires
        call_ensures(<Image<u8> as AssetLoaderRaw>::from_raw, (&*old(assets), data), Some(image)),
        call_ensures(
            <Image<u8> as AssetLoader<Texture>>::from_data,
            (assets, image),
            Some(texture),
        ),
        image.w < 0x1_0000,
        image.h < 0x1_0000,
    ensures
        texture.kind matches Kind::D2(tw, th, mode) && {
            &&& tw as int == image.w as int
            &&& th as int == image.h as int
            &&& texture.levels@[0]@.len() == tw * th
        },
{
    law_image_from_raw(&*old(assets), data, Some(image));
    law_image_from_data(assets, image, Some(texture));
}

/// Whether a texture is loaded from raw data exactly where the decoder reads an image, and is made
/// of that image.
pub open spec fn follows_decoder(
    before: AssetsView,
    name: Seq<char>,
    raw: Seq<u8>,
    after: AssetsView,
    result: Option<AssetId>,
) -> bool {
    match image_decoding(raw, ColFmt::RGBA) {
        Decoding::Reads(image) => {
            &&& result is Some
            &&& before.tables.contains_key(type_key::<Asset<Texture>>())
                && !before.asset_ids.contains_key(name) ==> exists|texture: Texture|
                {
                    &&& #[trigger] kept_as(after, name, texture)
                    &&& after.asset_ids[name] == result.unwrap()
                    &&& is_texture_of(
                        texture.kind,
                        texture.levels@,
                        image.w,
                        image.h,
                        image.buf,
                    )
                }
        },
        Decoding::Fails => result is None && after == before,
        Decoding::Panics => false,
    }
}

/// A texture is loaded from raw data wherever the decoder reads an image, and only where it fails
/// nothing is loaded.
pub proof fn law_texture_load_follows_decoder(
    before: AssetsView,
    name: Seq<char>,
    raw: Seq<u8>,
    after: AssetsView,
    result: Option<AssetId>,
)
    requires
        before.loads_raw::<Texture, Image<u8>>(name, raw, after, result),
    ensures
        follows_decoder(before, name, raw, after, result),
        result is None ==> image_decoding(raw, ColFmt::RGBA) is Fails,
        image_decoding(raw, ColFmt::RGBA) is Reads ==> result is Some,
{
    let data = choose|data: Option<Image<u8>>| #[trigger]
        <Image<u8> as AssetLoaderRaw>::decodes(before, raw, data) && match data {
            Some(d) => before.loads_data::<Texture, Image<u8>>(name, d, after, result),
            None => result is None && after == before,
        };
    if let Some(image) = data {
        let (between, asset) = choose|between: AssetsView, asset: Option<Texture>| #[trigger]
            <Image<u8> as AssetLoader<Texture>>::loads(before, image, between, asset)
                && between.adds_loaded(name, asset, after, result);
        let texture = asset.unwrap();
        lemma_pixels(image_view(image), texture.kind, texture.levels@);
        if before.tables.contains_key(type_key::<Asset<Texture>>())
            && !before.asset_ids.contains_key(name) {
            law_first_asset_is_kept(before, name, texture, after, result.unwrap());
            assert(kept_as(after, name, texture));
        }
    }
}

/// Loading a texture from raw data, by a name that goes by images, follows the decoder.
pub proof fn law_load_texture_from_raw(
    manager: &mut AssetManager,
    name: &str,
    asset_type: &str,
    raw: &[u8],
    result: Option<AssetId>,
)
    requires
        goes_by::<Texture, Image<u8>>(old(manager)@, asset_type@),
        call_ensures(
            AssetManager::load_asset_from_raw::<Texture>,
            (manager, name, asset_type, raw),
            result,
        ),
    ensures
        follows_decoder(
            old(manager)@.assets,
            name@,
            raw@,
            final(manager)@.assets,
            result,
        ),
{
    law_load_asset_from_raw::<Texture>(manager, name, asset_type, raw, result);
    let before = old(manager)@.assets;
    assert forall|after: AssetsView| #[trigger]
        decoded_and_stored::<Texture, Image<u8>>(
            before,
            name@,
            raw@,
            after,
            result,
        ) implies follows_decoder(before, name@, raw@, after, result) by {
        lemma_loads_raw::<Texture, Image<u8>>(before, name@, raw@, after, result);
        law_texture_load_follows_decoder(before, name@, raw@, after, result);
    }
}

/// A clone of a texture has its dimensions and its pixels.
pub proof fn law_clone_texture(texture: &Texture, copy: Texture, i: int)
    requires
        call_ensures(<Texture as Clone>::clone, (texture,), copy),
    ensures
        copy.kind == texture.kind,
        copy.levels@.len() == texture.levels@.len(),
        0 <= i < texture.levels@.len() ==> copy.levels@[i]@ == texture.levels@[i]@,
{
}

} // verus!
