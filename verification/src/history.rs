//! What becomes of assets over many operations.

use crate::assets::{AssetLoader, AssetsView};
use crate::erased::Erased;
use crate::manager::{no_assets, AssetManagerView};
use crate::type_key::type_key;
use crate::world::{has_row, Asset, AssetId, Rows};
use imagefmt::Image;
use std::any::TypeId;
use vstd::prelude::*;
use wavefront_obj::obj::ObjSet;

verus! {

/// An operation that changes assets.
pub enum Operation {
    /// A loader resource is set or changed.
    SetsLoader,
    /// An asset type is registered, given by the identifier under which its assets are kept.
    Registers(TypeId),
    /// An asset of a registered type is added under a name, and an id is returned.
    Adds { name: Seq<char>, key: TypeId, id: AssetId },
}

impl AssetsView {
    /// Whether `after` is `self` with a new asset under the name `name` and the new id `new_id`.
    pub open spec fn gains_any(
        self,
        name: Seq<char>,
        key: TypeId,
        new_id: AssetId,
        row: Erased,
        after: AssetsView,
    ) -> bool {
        &&& self.tables.contains_key(key)
        &&& !self.entities.contains(new_id)
        &&& after == (AssetsView {
            loaders: self.loaders,
            asset_ids: self.name_ids(name, new_id),
            tables: self.tables.insert(key, self.tables[key].insert(new_id, row)),
            entities: self.entities.insert(new_id),
        })
    }

    /// Whether an operation may turn `self` into `after`.
    pub open spec fn steps(self, operation: Operation, after: AssetsView) -> bool {
        match operation {
            Operation::SetsLoader => after == (AssetsView { loaders: after.loaders, ..self }),
            Operation::Registers(key) => after == (AssetsView {
                tables: self.tables.insert(key, Rows::empty()),
                ..self
            }),
            Operation::Adds { name, key, id } => {
                &&& exists|new_id: AssetId, row: Erased| #[trigger]
                    self.gains_any(name, key, new_id, row, after)
                &&& id == after.asset_ids[name]
            },
        }
    }

    /// Whether operations may turn `self` into `after`, one after the other.
    pub open spec fn becomes(self, operations: Seq<Operation>, after: AssetsView) -> bool {
        exists|states: Seq<AssetsView>| #[trigger]
            is_run(states, operations) && states.first() == self && states.last() == after
    }
}

/// Whether each state follows upon the one before it by one of the operations, in order.
pub open spec fn is_run(states: Seq<AssetsView>, operations: Seq<Operation>) -> bool {
    &&& states.len() == operations.len() + 1
    &&& forall|i: int|
        0 <= i < operations.len() ==> (#[trigger] states[i]).steps(operations[i], states[i + 1])
}

/// No operations change nothing.
pub proof fn law_no_operations_change_nothing(
    before: AssetsView,
    operations: Seq<Operation>,
    after: AssetsView,
)
    requires
        operations.len() == 0,
    ensures
        before.becomes(operations, after) <==> after == before,
{
    assert(is_run(seq![before], operations));
}

/// The state before the last operation.
proof fn lemma_last_operation(
    before: AssetsView,
    operations: Seq<Operation>,
    after: AssetsView,
) -> (last: AssetsView)
    requires
        before.becomes(operations, after),
        operations.len() > 0,
    ensures
        before.becomes(operations.drop_last(), last),
        last.steps(operations.last(), after),
{
    let states = choose|states: Seq<AssetsView>| #[trigger]
        is_run(states, operations) && states.first() == before && states.last() == after;
    let n = operations.len() - 1;
    assert(states[n].steps(operations[n], states[n + 1]));
    let earlier = states.drop_last();
    assert forall|i: int| 0 <= i < n implies (#[trigger] earlier[i]).steps(
        operations.drop_last()[i],
        earlier[i + 1],
    ) by {
        assert(states[i].steps(operations[i], states[i + 1]));
    }
    assert(is_run(earlier, operations.drop_last()));
    states[n]
}

/// One more operation.
proof fn lemma_next_operation(
    before: AssetsView,
    operations: Seq<Operation>,
    last: AssetsView,
    operation: Operation,
    after: AssetsView,
)
    requires
        before.becomes(operations, last),
        last.steps(operation, after),
    ensures
        before.becomes(operations.push(operation), after),
{
    let states = choose|states: Seq<AssetsView>| #[trigger]
        is_run(states, operations) && states.first() == before && states.last() == last;
    let longer = states.push(after);
    assert forall|i: int| 0 <= i < operations.len() + 1 implies (#[trigger] longer[i]).steps(
        operations.push(operation)[i],
        longer[i + 1],
    ) by {
        if i < operations.len() {
            assert(states[i].steps(operations[i], states[i + 1]));
        }
    }
    assert(is_run(longer, operations.push(operation)));
}

/// Whether the operation at an index adds an asset under a name.
pub open spec fn adds_at(operations: Seq<Operation>, i: int, name: Seq<char>) -> bool {
    &&& 0 <= i < operations.len()
    &&& operations[i] matches Operation::Adds { name: added, .. } && added == name
}

/// Whether the operation at an index registers an asset type.
pub open spec fn registers_at(operations: Seq<Operation>, i: int, key: TypeId) -> bool {
    0 <= i < operations.len() && operations[i] == Operation::Registers(key)
}

/// Setting a loader resource is an operation.
pub proof fn law_setting_a_loader_is_an_operation<T: 'static>(
    before: AssetsView,
    loader: T,
    after: AssetsView,
)
    requires
        before.sets_loader(loader, after),
    ensures
        before.steps(Operation::SetsLoader, after),
{
}

/// Registering an asset type is an operation.
pub proof fn law_registering_is_an_operation<A: 'static>(before: AssetsView)
    ensures
        before.steps(Operation::Registers(type_key::<Asset<A>>()), before.register::<A>()),
{
}

/// Adding an asset is an operation.
pub proof fn law_adding_is_an_operation<A: 'static>(
    before: AssetsView,
    name: Seq<char>,
    asset: A,
    after: AssetsView,
    id: AssetId,
)
    requires
        before.is_registered::<A>(),
        before.adds(name, asset, after, id),
    ensures
        before.steps(Operation::Adds { name, key: type_key::<Asset<A>>(), id }, after),
{
    let key = type_key::<Asset<A>>();
    let new_id = choose|new_id: AssetId| #[trigger] before.gains(name, asset, new_id, after);
    let row = choose|row: Erased| #[trigger]
        row.holds(Asset(asset)) && after.tables == before.tables.insert(
            key,
            before.tables[key].insert(new_id, row),
        );
    let add = Operation::Adds { name, key, id };
    assert(before.gains_any(add->name, add->key, new_id, row, after));
}

/// Operations may follow upon operations.
pub proof fn law_operations_follow(
    before: AssetsView,
    first: Seq<Operation>,
    between: AssetsView,
    second: Seq<Operation>,
    after: AssetsView,
)
    requires
        before.becomes(first, between),
        between.becomes(second, after),
    ensures
        before.becomes(first + second, after),
    decreases second.len(),
{
    if second.len() == 0 {
        law_no_operations_change_nothing(between, second, after);
        assert(first + second =~= first);
    } else {
        let last = lemma_last_operation(between, second, after);
        law_operations_follow(before, first, between, second.drop_last(), last);
        lemma_next_operation(before, first + second.drop_last(), last, second.last(), after);
        assert((first + second.drop_last()).push(second.last()) =~= first + second);
    }
}

/// Loading an asset is whatever operations the loader performs, followed by adding the asset if
/// there is one.
pub proof fn law_loading_is_operations<A: 'static, S: AssetLoader<A>>(
    before: AssetsView,
    data: S,
    operations: Seq<Operation>,
    loaded: AssetsView,
    asset: Option<A>,
    name: Seq<char>,
    after: AssetsView,
    result: Option<AssetId>,
)
    requires
        S::loads(before, data, loaded, asset),
        before.becomes(operations, loaded),
        asset is Some ==> loaded.is_registered::<A>(),
        loaded.adds_loaded(name, asset, after, result),
    ensures
        before.loads_data::<A, S>(name, data, after, result),
        match result {
            Some(id) => before.becomes(
                operations.push(Operation::Adds { name, key: type_key::<Asset<A>>(), id }),
                after,
            ),
            None => before.becomes(operations, after),
        },
{
    if let Some(id) = result {
        let add = Operation::Adds { name, key: type_key::<Asset<A>>(), id };
        law_adding_is_an_operation(loaded, name, asset.unwrap(), after, id);
        lemma_next_operation(before, operations, loaded, add, after);
    }
}

/// A new manager has registered its two asset types.
pub proof fn law_new_manager_is_registered<M: Send + Sync + 'static, T: Send + Sync + 'static>(
    manager: AssetManagerView,
) where ObjSet: AssetLoader<M>, Image<u8>: AssetLoader<T>
    requires
        manager.is_new::<M, T>(),
    ensures
        no_assets().becomes(
            seq![
                Operation::Registers(type_key::<Asset<M>>()),
                Operation::Registers(type_key::<Asset<T>>()),
            ],
            manager.assets,
        ),
{
    let first = Operation::Registers(type_key::<Asset<M>>());
    let second = Operation::Registers(type_key::<Asset<T>>());
    let meshes = no_assets().register::<M>();
    law_no_operations_change_nothing(no_assets(), Seq::empty(), no_assets());
    lemma_next_operation(no_assets(), Seq::empty(), no_assets(), first, meshes);
    lemma_next_operation(no_assets(), Seq::empty().push(first), meshes, second, manager.assets);
    assert(Seq::empty().push(first).push(second) =~= seq![first, second]);
}

/// Every operation keeps what an `Assets` holds well-formed.
pub proof fn law_operations_keep_wf(
    before: AssetsView,
    operations: Seq<Operation>,
    after: AssetsView,
)
    requires
        before.wf(),
        before.becomes(operations, after),
    ensures
        after.wf(),
    decreases operations.len(),
{
    if operations.len() == 0 {
        law_no_operations_change_nothing(before, operations, after);
    } else {
        let last = lemma_last_operation(before, operations, after);
        law_operations_keep_wf(before, operations.drop_last(), last);
        lemma_step_wf(last, operations.last(), after);
    }
}

/// One operation keeps what an `Assets` holds well-formed.
proof fn lemma_step_wf(before: AssetsView, operation: Operation, after: AssetsView)
    requires
        before.wf(),
        before.steps(operation, after),
    ensures
        after.wf(),
{
    let added = match operation {
        Operation::Adds { name, key, .. } => {
            let (new_id, row) = choose|new_id: AssetId, row: Erased| #[trigger]
                before.gains_any(name, key, new_id, row, after);
            Some((key, new_id))
        },
        _ => None,
    };
    assert forall|key: TypeId, id: AssetId| #[trigger] has_row(after.tables, key, id) implies (
    has_row(before.tables, key, id) || added == Some((key, id))) by {}
    assert forall|key: TypeId, other: TypeId, id: AssetId| #[trigger]
        has_row(after.tables, key, id) && #[trigger] has_row(
            after.tables,
            other,
            id,
        ) implies key == other by {
        if added matches Some(pair) && pair.1 == id {
            assert(!has_row(before.tables, key, id) && !has_row(before.tables, other, id));
        }
    }
}

/// A name that was given keeps its id, whatever operations follow.
pub proof fn law_names_are_kept(
    before: AssetsView,
    operations: Seq<Operation>,
    after: AssetsView,
    name: Seq<char>,
)
    requires
        before.becomes(operations, after),
        before.asset_ids.contains_key(name),
    ensures
        after.asset_ids.contains_key(name),
        after.asset_ids[name] == before.asset_ids[name],
    decreases operations.len(),
{
    if operations.len() == 0 {
        law_no_operations_change_nothing(before, operations, after);
    } else {
        let last = lemma_last_operation(before, operations, after);
        law_names_are_kept(before, operations.drop_last(), last, name);
    }
}

/// A name is known if and only if an asset was added under it, and its id is the one that was
/// returned then, and whenever another asset was added under it.
pub proof fn law_names_are_those_added(
    operations: Seq<Operation>,
    after: AssetsView,
    name: Seq<char>,
)
    requires
        no_assets().becomes(operations, after),
    ensures
        after.asset_ids.contains_key(name) <==> exists|i: int| adds_at(operations, i, name),
        forall|i: int| #[trigger]
            adds_at(operations, i, name) ==> operations[i]->id == after.asset_ids[name],
    decreases operations.len(),
{
    if operations.len() == 0 {
        law_no_operations_change_nothing(no_assets(), operations, after);
    } else {
        let earlier = operations.drop_last();
        let n = operations.len() - 1;
        let last = lemma_last_operation(no_assets(), operations, after);
        law_names_are_those_added(earlier, last, name);
        assert forall|i: int| 0 <= i < n implies #[trigger] adds_at(operations, i, name)
            == adds_at(earlier, i, name) by {}
        if last.asset_ids.contains_key(name) {
            let i = choose|i: int| adds_at(earlier, i, name);
            assert(adds_at(operations, i, name));
        }
        if after.asset_ids.contains_key(name) && !last.asset_ids.contains_key(name) {
            assert(adds_at(operations, n, name));
        }
        assert forall|i: int| #[trigger] adds_at(operations, i, name) implies operations[i]->id
            == after.asset_ids[name] && after.asset_ids.contains_key(name) by {
            if i < n {
                assert(adds_at(earlier, i, name));
            }
        }
    }
}

/// An asset type can be read if and only if it was registered.
pub proof fn law_types_are_those_registered(
    operations: Seq<Operation>,
    after: AssetsView,
    key: TypeId,
)
    requires
        no_assets().becomes(operations, after),
    ensures
        after.tables.contains_key(key) <==> exists|i: int| registers_at(operations, i, key),
    decreases operations.len(),
{
    if operations.len() == 0 {
        law_no_operations_change_nothing(no_assets(), operations, after);
    } else {
        let earlier = operations.drop_last();
        let n = operations.len() - 1;
        let last = lemma_last_operation(no_assets(), operations, after);
        law_types_are_those_registered(earlier, last, key);
        assert forall|i: int| 0 <= i < n implies #[trigger] registers_at(operations, i, key)
            == registers_at(earlier, i, key) by {}
        if last.tables.contains_key(key) {
            let i = choose|i: int| registers_at(earlier, i, key);
            assert(registers_at(operations, i, key));
        }
        if after.tables.contains_key(key) && !last.tables.contains_key(key) {
            assert(registers_at(operations, n, key));
        }
        if exists|i: int| registers_at(operations, i, key) {
            let i = choose|i: int| registers_at(operations, i, key);
            if i < n {
                assert(registers_at(earlier, i, key));
            }
        }
    }
}

/// An asset can be read under its id, whatever operations follow, until its type is registered
/// again.
pub proof fn law_assets_are_kept<A: 'static>(
    before: AssetsView,
    operations: Seq<Operation>,
    after: AssetsView,
    id: AssetId,
    asset: A,
)
    requires
        before.wf(),
        before.has_asset(id, asset),
        before.becomes(operations, after),
        forall|i: int| !#[trigger] registers_at(operations, i, type_key::<Asset<A>>()),
    ensures
        after.has_asset(id, asset),
    decreases operations.len(),
{
    if operations.len() == 0 {
        law_no_operations_change_nothing(before, operations, after);
    } else {
        let key = type_key::<Asset<A>>();
        let earlier = operations.drop_last();
        let n = operations.len() - 1;
        let last = lemma_last_operation(before, operations, after);
        assert forall|i: int| !#[trigger] registers_at(earlier, i, key) by {
            assert(!registers_at(operations, i, key));
        }
        law_assets_are_kept(before, earlier, last, id, asset);
        law_operations_keep_wf(before, earlier, last);
        assert(has_row(last.tables, key, id));
        assert(!registers_at(operations, n, key));
    }
}

} // verus!
