//! Checks on the bytes stored in program accounts.
//!
//! Every account the program writes starts with an 8-byte discriminator of
//! its type (see `discriminator`), followed by the Borsh encoding of the
//! value.
use vstd::prelude::*;
use vstd::string::StringSliceAdditionalSpecFns;
use crate::utils::crypto::{discriminator, discriminator_of};

verus! {

/// Whether `data` starts with the discriminator of the type `account_type`;
/// false for data shorter than a discriminator.
pub fn validate_account_discriminator(data: &[u8], account_type: &str) -> (r: bool)
    ensures
        r == (data@.len() >= 8 && data@.subrange(0, 8) == discriminator_of(account_type.spec_bytes())),
{
    if data.len() < 8 {
        return false;
    }
    let expected = discriminator(account_type);
    let mut i: usize = 0;
    while i < 8
        invariant
            data@.len() >= 8,
            expected@.len() == 8,
            expected@ == discriminator_of(account_type.spec_bytes()),
            i <= 8,
            forall|j: int| 0 <= j < i ==> data@[j] == expected@[j],
        decreases 8 - i,
    {
        if data[i] != expected[i] {
            proof {
                assert(data@.subrange(0, 8)[i as int] != expected@[i as int]);
                assert(data@.subrange(0, 8) != expected@);
            }
            return false;
        }
        i = i + 1;
    }
    proof {
        assert(data@.subrange(0, 8) =~= expected@);
    }
    true
}

} // verus!
