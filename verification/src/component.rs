use std::collections::HashMap;
use vstd::prelude::*;

verus! {

/// `std::any::TypeId`, declared so that type-identity values can flow
/// through verified signatures and fields. Values of it are opaque to the
/// verifier; a scene's registry turns them into small dense integers that
/// contracts can speak about.
#[verifier::external_type_specification]
#[verifier::external_body]
pub struct ExTypeId(core::any::TypeId);

/// The identity of a type.
///
/// Relies on `std::any::TypeId::of`: within a process, every `'static` type
/// has exactly one `TypeId` value, returned at every call, and distinct
/// types have distinct values. Nothing about the value itself can be stated,
/// so callers treat it as an opaque key.
#[verifier::external_body]
pub fn get_type_id<T: 'static>() -> (id: core::any::TypeId) {
    core::any::TypeId::of::<T>()
}

/// Looks a type's identity up in a registry table.
///
/// Relies on `HashMap::get` with `TypeId` keys: `TypeId`'s `Eq` and `Hash`
/// are the derived ones and agree with value equality, so the lookup returns
/// exactly the binding the map's view holds for the key.
#[verifier::external_body]
pub(crate) fn type_id_map_get(
    map: &HashMap<core::any::TypeId, usize>,
    key: &core::any::TypeId,
) -> (r: Option<usize>)
    ensures
        r == if map@.contains_key(*key) {
            Some(map@[*key])
        } else {
            None::<usize>
        },
{
    map.get(key).copied()
}

/// Binds a type's identity in a registry table.
///
/// Relies on `HashMap::insert` with `TypeId` keys, as for the lookup above.
#[verifier::external_body]
pub(crate) fn type_id_map_insert(
    map: &mut HashMap<core::any::TypeId, usize>,
    key: core::any::TypeId,
    value: usize,
)
    ensures
        final(map)@ == old(map)@.insert(key, value),
{
    map.insert(key, value);
}

/// Collects the type identities of a compile-time list of component types,
/// written as nested pairs ending in `()`: `(A, (B, ()))` names the types
/// `A` and `B`, in that order.
pub trait RequireComponents {
    fn required_component_ids() -> Vec<core::any::TypeId>;
}

impl RequireComponents for () {
    fn required_component_ids() -> Vec<core::any::TypeId> {
        Vec::new()
    }
}

impl<Head: 'static, Tail: RequireComponents> RequireComponents for (Head, Tail) {
    fn required_component_ids() -> Vec<core::any::TypeId> {
        let mut ids = vec![get_type_id::<Head>()];
        let mut tail = Tail::required_component_ids();
        ids.append(&mut tail);
        ids
    }
}

} // verus!
