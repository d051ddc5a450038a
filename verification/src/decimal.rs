//! Numbers in decimal.

use vstd::prelude::*;

verus! {

/// The ASCII digits of a number in decimal, without leading zeros.
pub open spec fn spec_decimal(n: nat) -> Seq<u8>
    decreases n,
{
    if n < 10 {
        seq![(48 + n) as u8]
    } else {
        spec_decimal(n / 10).push((48 + n % 10) as u8)
    }
}

/// The ASCII digits of a number in decimal.
pub fn decimal(n: u128) -> (digits: Vec<u8>)
    ensures
        digits@ == spec_decimal(n as nat),
    decreases n,
{
    if n < 10 {
        let mut digits: Vec<u8> = Vec::new();
        digits.push(48 + n as u8);
        assert(digits@ =~= spec_decimal(n as nat));
        return digits;
    }
    let mut digits = decimal(n / 10);
    digits.push(48 + (n % 10) as u8);
    digits
}

} // verus!
