//! Length-bounded vectors, as decided by `frame_support::BoundedVec`.
//!
//! The bound is a parameter of the type, so the functions here take it as a
//! constant parameter. They hand plain vectors in and out: what is stored
//! elsewhere in the library is the vector, and that it is within its bound is
//! part of the invariant of whoever stores it.

use frame_support::traits::ConstU32;
use frame_support::BoundedVec;
use vstd::prelude::*;

verus! {

/// `BoundedVec::<u8, ConstU32<BOUND>>::try_from`: the conversion goes through
/// exactly when the vector holds at most `BOUND` items, and then keeps them
/// as they are. A vector that is refused comes back as it was.
#[verifier::external_body]
pub(crate) fn try_bound<const BOUND: u32>(bytes: Vec<u8>) -> (res: Result<Vec<u8>, Vec<u8>>)
    ensures
        res is Ok <==> bytes@.len() <= BOUND,
        res matches Ok(kept) ==> kept@ == bytes@,
        res matches Err(back) ==> back@ == bytes@,
{
    match BoundedVec::<u8, ConstU32<BOUND>>::try_from(bytes) {
        Ok(bounded) => Ok(bounded.into_inner()),
        Err(back) => Err(back),
    }
}

/// `BoundedVec::<u32, ConstU32<BOUND>>::try_push`, on the vector taken as a
/// bounded one by `try_from`: the item is appended when the vector holds
/// fewer than `BOUND` items, and refused otherwise. A vector of more than
/// `BOUND` items is no bounded vector, and is refused as well.
#[verifier::external_body]
pub(crate) fn try_push<const BOUND: u32>(items: Vec<u32>, item: u32) -> (res: Result<Vec<u32>, ()>)
    ensures
        res is Ok <==> items@.len() < BOUND,
        res matches Ok(grown) ==> grown@ == items@.push(item),
{
    match BoundedVec::<u32, ConstU32<BOUND>>::try_from(items) {
        Ok(mut bounded) => match bounded.try_push(item) {
            Ok(_) => Ok(bounded.into_inner()),
            Err(_) => Err(()),
        },
        Err(_) => Err(()),
    }
}

} // verus!
