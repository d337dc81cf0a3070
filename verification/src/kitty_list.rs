//! The list of kitty ids an account holds, kept as `frame_support`'s
//! `BoundedVec` bounded by `u32::MAX`, as the kitty market stores it.
use vstd::prelude::*;

use frame_support::traits::ConstU32;
use frame_support::BoundedVec;

verus! {

/// `frame_support::BoundedVec`, a `Vec` that refuses to grow past the bound
/// that its second parameter gives.
#[verifier::external_type_specification]
#[verifier::external_body]
#[verifier::reject_recursive_types(T)]
#[verifier::reject_recursive_types(S)]
pub struct ExBoundedVec<T, S>(BoundedVec<T, S>);

/// `frame_support::traits::ConstU32`, the type whose `get` is `N`.
#[verifier::external_type_specification]
#[verifier::external_body]
pub struct ExConstU32<const N: u32>(ConstU32<N>);

/// The bound of a kitty list: `u32::MAX` entries.
pub const KITTY_LIST_BOUND: u32 = 4294967295;

/// What a kitty list holds, in order.
pub uninterp spec fn kitty_list_items(list: BoundedVec<u32, ConstU32<4294967295>>) -> Seq<u32>;

/// Calls `BoundedVec::new`: an empty list.
#[verifier::external_body]
pub(crate) fn kitty_list_new() -> (r: BoundedVec<u32, ConstU32<4294967295>>)
    ensures
        kitty_list_items(r) == Seq::<u32>::empty(),
{
    BoundedVec::new()
}

/// Calls `len` (through the `Deref` to `Vec`): the number of items.
#[verifier::external_body]
pub(crate) fn kitty_list_len(list: &BoundedVec<u32, ConstU32<4294967295>>) -> (r: usize)
    ensures
        r == kitty_list_items(*list).len(),
{
    list.len()
}

/// Indexes the list (through the `Deref` to `Vec`): the item at `index`.
#[verifier::external_body]
pub(crate) fn kitty_list_get(list: &BoundedVec<u32, ConstU32<4294967295>>, index: usize) -> (r: u32)
    requires
        index < kitty_list_items(*list).len(),
    ensures
        r == kitty_list_items(*list)[index as int],
{
    list[index]
}

/// Calls `BoundedVec::try_push`: the item is appended when the list holds
/// fewer than `u32::MAX` items, and handed back otherwise.
#[verifier::external_body]
pub(crate) fn kitty_list_try_push(list: &mut BoundedVec<u32, ConstU32<4294967295>>, item: u32) -> (r:
    Result<(), u32>)
    ensures
        kitty_list_items(*old(list)).len() < KITTY_LIST_BOUND ==> {
            &&& r == Ok::<(), u32>(())
            &&& kitty_list_items(*final(list)) == kitty_list_items(*old(list)).push(item)
        },
        kitty_list_items(*old(list)).len() >= KITTY_LIST_BOUND ==> {
            &&& r == Err::<(), u32>(item)
            &&& kitty_list_items(*final(list)) == kitty_list_items(*old(list))
        },
{
    list.try_push(item)
}

/// Calls `BoundedVec::remove`: takes out the item at `index`, shifting the
/// rest down by one.
#[verifier::external_body]
pub(crate) fn kitty_list_remove(list: &mut BoundedVec<u32, ConstU32<4294967295>>, index: usize) -> (r:
    u32)
    requires
        index < kitty_list_items(*old(list)).len(),
    ensures
        r == kitty_list_items(*old(list))[index as int],
        kitty_list_items(*final(list)) == kitty_list_items(*old(list)).remove(index as int),
{
    list.remove(index)
}

} // verus!
