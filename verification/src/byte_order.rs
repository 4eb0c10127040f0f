//! The order of the bytes of a number in memory.

use vstd::prelude::*;

verus! {

/// The order of the bytes of a number in memory.
#[derive(Debug, Clone, Copy, PartialEq, Eq, Structural)]
pub enum ByteOrder {
    /// The lowest byte first.
    Little,
    /// The highest byte first.
    Big,
}

/// The sixteen bytes of a number, as a machine with this byte order stores them.
pub open spec fn bytes_in_order(n: u128, order: ByteOrder) -> Seq<u8> {
    match order {
        ByteOrder::Little => vstd::bytes::spec_u128_to_le_bytes(n),
        ByteOrder::Big => vstd::bytes::spec_u128_to_le_bytes(n).reverse(),
    }
}

/// The sixteen bytes of a number, as a machine with this byte order stores them.
pub fn to_bytes_in_order(n: u128, order: ByteOrder) -> (bytes: Vec<u8>)
    ensures
        bytes@ == bytes_in_order(n, order),
{
    let low_first = vstd::bytes::u128_to_le_bytes(n);
    match order {
        ByteOrder::Little => low_first,
        ByteOrder::Big => {
            let mut bytes: Vec<u8> = Vec::new();
            let mut left: usize = low_first.len();
            while left > 0
                invariant
                    left <= low_first@.len(),
                    bytes@ == low_first@.skip(left as int).reverse(),
                decreases left,
            {
                left -= 1;
                bytes.push(low_first[left]);
                assert(bytes@ == low_first@.skip(left as int).reverse());
            }
            assert(low_first@.skip(0) == low_first@);
            bytes
        },
    }
}

} // verus!
