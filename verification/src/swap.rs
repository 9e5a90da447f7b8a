//! Encoding of the exchange venue's swap instruction payload.

use vstd::prelude::*;

verus! {

/// The byte payload of the exchange venue's swap call: a one-byte operation
/// code followed by the input amount in little-endian order. The host
/// environment attaches it to the outgoing instruction; the encoding itself
/// is pure computation and is verified here.
pub fn raydium_swap_instruction_data(amount_in: u64) -> (data: Vec<u8>)
    ensures
        data@ == seq![9u8] + vstd::bytes::spec_u64_to_le_bytes(amount_in),
        data@.len() == 9,
{
    let mut data: Vec<u8> = Vec::with_capacity(9);
    data.push(9);
    let mut tail = vstd::bytes::u64_to_le_bytes(amount_in);
    data.append(&mut tail);
    proof {
        vstd::bytes::lemma_auto_spec_u64_to_from_le_bytes();
        assert(data@ =~= seq![9u8] + vstd::bytes::spec_u64_to_le_bytes(amount_in));
    }
    data
}

} // verus!
