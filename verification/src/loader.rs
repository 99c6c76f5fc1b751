//! Loading methods for asset types, with the types of asset and data forgotten.

use crate::assets::{AssetLoader, AssetLoaderRaw, Assets, AssetsView};
use crate::held::Held;
use crate::world::AssetId;
use std::marker::PhantomData;
use vstd::prelude::*;

verus! {

/// A way to load an asset from raw data.
pub trait RawLoader {
    /// Whether `load` returns for these arguments, rather than panic.
    spec fn can_load(&self, assets: AssetsView, raw: Seq<u8>) -> bool;

    /// Whether `load` may turn the assets `before` into `after` and return `result`.
    spec fn loads(
        &self,
        before: AssetsView,
        name: Seq<char>,
        raw: Seq<u8>,
        after: AssetsView,
        result: Option<AssetId>,
    ) -> bool;

    fn load(&self, assets: &mut Assets, name: &str, raw: &[u8]) -> (result: Option<AssetId>)
        requires
            old(assets).wf(),
            self.can_load(old(assets)@, raw@),
        ensures
            final(assets).wf(),
            self.loads(old(assets)@, name@, raw@, final(assets)@, result),
    ;
}

/// Loads assets of type `A` by way of data of type `S`.
pub struct TypedLoader<A, S>(PhantomData<(A, S)>);

impl<A: Send + Sync + 'static, S: AssetLoader<A> + AssetLoaderRaw> RawLoader for TypedLoader<A, S> {
    open spec fn can_load(&self, assets: AssetsView, raw: Seq<u8>) -> bool {
        assets.can_load_raw::<A, S>(raw)
    }

    open spec fn loads(
        &self,
        before: AssetsView,
        name: Seq<char>,
        raw: Seq<u8>,
        after: AssetsView,
        result: Option<AssetId>,
    ) -> bool {
        before.loads_raw::<A, S>(name, raw, after, result)
    }

    fn load(&self, assets: &mut Assets, name: &str, raw: &[u8]) -> (result: Option<AssetId>) {
        let data = S::from_raw(assets, raw);
        let ghost decoded = data;
        assert(S::decodes(old(assets)@, raw@, decoded));
        match data {
            Some(data) => assets.load_asset_from_data::<A, S>(name, data),
            None => None,
        }
    }
}

/// Whether `held` loads assets of type `A` by way of data of type `S`.
pub open spec fn is_loader<A: Send + Sync + 'static, S: AssetLoader<A> + AssetLoaderRaw>(
    held: Held<dyn RawLoader>,
) -> bool {
    &&& forall|assets: AssetsView, raw: Seq<u8>| #[trigger]
        held.value.can_load(assets, raw) == assets.can_load_raw::<A, S>(raw)
    &&& forall|
        before: AssetsView,
        name: Seq<char>,
        raw: Seq<u8>,
        after: AssetsView,
        result: Option<AssetId>,
    | #[trigger]
        held.value.loads(before, name, raw, after, result) == before.loads_raw::<A, S>(
            name,
            raw,
            after,
            result,
        )
}

/// Boxes the way to load assets of type `A` by way of data of type `S`.
pub(crate) fn hold_loader<
    A: Send + Sync + 'static,
    S: AssetLoader<A> + AssetLoaderRaw + 'static,
>() -> (held: Held<dyn RawLoader>)
    ensures
        is_loader::<A, S>(held),
{
    let boxed: Box<dyn RawLoader> = Box::new(TypedLoader::<A, S>(PhantomData));
    let held = Held { value: boxed };
    held
}

} // verus!
