use vstd::prelude::*;

verus! {

/// A checker cell takes the even texture when the sum of its integer
/// coordinates is even.
pub open spec fn is_even_cell(x: int, y: int, z: int) -> bool {
    (x + y + z) % 2 == 0
}

/// Whether the checker cell at integer coordinates `(x, y, z)` (the floors
/// of the scaled point) shows the even texture.
pub fn checker_is_even(x: i64, y: i64, z: i64) -> (r: bool)
    ensures
        r == is_even_cell(x as int, y as int, z as int),
{
    // The sum, moved up by an even amount so that it is never negative.
    let s: i128 = x as i128 + y as i128 + z as i128 + 0x4_0000_0000_0000_0000i128;
    proof {
        vstd::arithmetic::div_mod::lemma_mod_multiples_vanish(
            0x2_0000_0000_0000_0000,
            x as int + y as int + z as int,
            2,
        );
        assert(2 * 0x2_0000_0000_0000_0000 + (x as int + y as int + z as int) == s as int);
    }
    (s as u128) % 2 == 0
}

} // verus!
