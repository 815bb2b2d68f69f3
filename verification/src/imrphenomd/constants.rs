//! The fixed breakpoints of the phenomenological model.

use crate::binary64::{
    lemma_position_orders_numbers, lemma_value_follows_position, number_lt, unit, Binary64,
};
use vstd::arithmetic::power2::*;
use vstd::prelude::*;

verus! {

/// Encoding of the frequency at which the inspiral phase ends: the binary64 number
/// nearest to 0.018.
pub const PHI_FJOIN_INS: u64 = 0x3f92_6e97_8d4f_df3b;

/// Encoding of the frequency at which the inspiral amplitude ends: the binary64 number
/// nearest to 0.014.
pub const AMP_FJOIN_INS: u64 = 0x3f8c_ac08_3126_e979;

/// `2^58`: neighbouring binary64 numbers from `2^-6` up to `2^-5` are `2^-58` apart.
pub open spec fn two_to_58() -> real {
    0x400_0000_0000_0000real
}

/// `2^59`: neighbouring binary64 numbers from `2^-7` up to `2^-6` are `2^-59` apart.
pub open spec fn two_to_59() -> real {
    0x800_0000_0000_0000real
}

/// The two encodings stand for the binary64 numbers nearest to 18/1000 and 14/1000. The
/// first is a whole multiple of `2^-58` and no further than `2^-59` from 18/1000; the second
/// is a whole multiple of `2^-59` and no further than `2^-60` from 14/1000.
pub proof fn lemma_join_frequencies()
    ensures
        (Binary64 { bits: PHI_FJOIN_INS })@ is Finite,
        (Binary64 { bits: AMP_FJOIN_INS })@ is Finite,
        (Binary64 { bits: PHI_FJOIN_INS }).value() * two_to_58() == 0x12_6e97_8d4f_df3breal,
        (Binary64 { bits: AMP_FJOIN_INS }).value() * two_to_59() == 0x1c_ac08_3126_e979real,
        -1real <= ((Binary64 { bits: PHI_FJOIN_INS }).value() - 18real / 1000real) * (2real
            * two_to_58()) <= 1real,
        -1real <= ((Binary64 { bits: AMP_FJOIN_INS }).value() - 14real / 1000real) * (2real
            * two_to_59()) <= 1real,
        number_lt((Binary64 { bits: AMP_FJOIN_INS })@, (Binary64 { bits: PHI_FJOIN_INS })@),
{
    let phi = Binary64 { bits: PHI_FJOIN_INS };
    let amp = Binary64 { bits: AMP_FJOIN_INS };
    assert(phi.biased_exponent() == 1017 && phi.fraction() == 0x2_6e97_8d4f_df3b);
    assert(amp.biased_exponent() == 1016 && amp.fraction() == 0xc_ac08_3126_e979);
    lemma2_to64_rest();
    lemma_pow2_adds(1016, 58);
    lemma_pow2_adds(1015, 59);
    lemma_pow2_pos(1074);
    // Both sides are the significand times 2^1074.
    assert(phi.position() * 0x400_0000_0000_0000 == 0x12_6e97_8d4f_df3b * unit());
    assert(amp.position() * 0x800_0000_0000_0000 == 0x1c_ac08_3126_e979 * unit());
    let u = unit() as real;
    let xp = phi.position() as real;
    let xa = amp.position() as real;
    assert(xp / u * 0x400_0000_0000_0000real == 0x12_6e97_8d4f_df3breal) by (nonlinear_arith)
        requires
            u > 0real,
            xp * 0x400_0000_0000_0000real == 0x12_6e97_8d4f_df3breal * u,
    ;
    assert(xa / u * 0x800_0000_0000_0000real == 0x1c_ac08_3126_e979real) by (nonlinear_arith)
        requires
            u > 0real,
            xa * 0x800_0000_0000_0000real == 0x1c_ac08_3126_e979real * u,
    ;
    assert(phi.value() * 0x400_0000_0000_0000real == 0x12_6e97_8d4f_df3breal);
    assert(amp.value() * 0x800_0000_0000_0000real == 0x1c_ac08_3126_e979real);
    lemma_position_orders_numbers(amp, phi);
    lemma_value_follows_position(amp, phi);
}

} // verus!
