use vstd::prelude::*;
use ethers_core::types::{H160, H256, U256, U64};

verus! {

// The ledger's word and hash types are tuple structs with one public array field;
// declaring them lets contracts read that field.
#[verifier::external_type_specification]
pub struct ExU256(U256);

#[verifier::external_type_specification]
pub struct ExU64(U64);

#[verifier::external_type_specification]
pub struct ExH256(H256);

#[verifier::external_type_specification]
pub struct ExH160(H160);

/// 2^64, the base of the limbs of a wide unsigned integer.
pub open spec fn limb_base() -> nat {
    0x1_0000_0000_0000_0000nat
}

/// The number a `U256` stands for: four little-endian 64-bit limbs.
pub open spec fn u256_value(x: U256) -> nat {
    x.0[0] as nat + limb_base() * (x.0[1] as nat + limb_base() * (x.0[2] as nat + limb_base()
        * (x.0[3] as nat)))
}

} // verus!
