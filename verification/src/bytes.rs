//! Plain data as bytes and back, as the host lays it out in memory.
use vstd::layout::size_of;
use vstd::prelude::*;

verus! {

/// Number of whole or partial elements of `elem_size` bytes that `len` bytes
/// fill.
pub open spec fn elements_in(len: nat, elem_size: nat) -> nat {
    len / elem_size + if len % elem_size != 0 {
        1nat
    } else {
        0nat
    }
}

/// `bytemuck::cast_slice` from `T` to `u8`, copied into a vector: the bytes
/// of the elements as they lie in memory, `size_of::<T>()` for each. A cast to
/// `u8` cannot fail: `u8` has alignment and size one. Which bytes stand for a
/// value depends on the machine, so only their number is stated.
#[verifier::external_body]
pub(crate) fn to_bytes<T: bytemuck::Pod>(data: &[T]) -> (bytes: Vec<u8>)
    ensures
        bytes@.len() == data@.len() * size_of::<T>(),
{
    bytemuck::cast_slice::<T, u8>(data).to_vec()
}

/// `bytemuck::pod_collect_to_vec` from `u8` to `T`: the bytes copied into
/// new elements, the last one filled up with zero bytes. The call divides by
/// the size of `T`, so a type without size is left out.
#[verifier::external_body]
pub(crate) fn from_bytes<T: bytemuck::Pod>(bytes: &[u8]) -> (values: Vec<T>)
    requires
        size_of::<T>() > 0,
    ensures
        values@.len() == elements_in(bytes@.len(), size_of::<T>()),
{
    bytemuck::pod_collect_to_vec::<u8, T>(bytes)
}

} // verus!
