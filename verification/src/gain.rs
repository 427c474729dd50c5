//! Conversion from a modulation depth in centidecibels to a Q16 linear gain.
//!
//! A depth is an integer number of centidecibels in `[-6000, 0]`. Its linear
//! gain is `10^(depth / 2000)`, computed in fixed point as a product of
//! `-depth` copies of the Q30 ratio `10^(-1/2000)` (one centidecibel of
//! attenuation), floored after each multiplication, then rescaled from Q30 to
//! Q16. Zero depth gives exactly `UNIT` (unity gain).

use vstd::prelude::*;

use crate::UNIT;

verus! {

/// Lowest representable depth: -60 dB in centidecibels.
pub const DB_MIN_CENTI: i32 = -6000;

/// Q30 fixed-point representation of 1.0.
pub const Q30_ONE: u64 = 1073741824;

/// Q30 fixed-point representation of `10^(-1/2000)`, the gain ratio of one
/// centidecibel of attenuation.
pub const CDB_STEP_Q30: u64 = 1072506344;

/// Ratio between the Q30 and Q16 scales: `Q30_ONE / UNIT` (2^14).
pub const Q30_TO_UNIT: u64 = 16384;

/// The Q30 attenuation factor after `n` centidecibels, flooring after each
/// multiplication exactly as the executable conversion does.
pub open spec fn att_q30(n: nat) -> int
    decreases n,
{
    if n == 0 {
        Q30_ONE as int
    } else {
        (att_q30((n - 1) as nat) * CDB_STEP_Q30) / (Q30_ONE as int)
    }
}

/// Attenuating never leaves `[0, Q30_ONE]`.
pub proof fn lemma_att_q30_bounds(n: nat)
    ensures
        0 <= att_q30(n) <= Q30_ONE,
    decreases n,
{
    if n > 0 {
        lemma_att_q30_bounds((n - 1) as nat);
        let a = att_q30((n - 1) as nat);
        assert(0 <= a * CDB_STEP_Q30 <= a * Q30_ONE) by (nonlinear_arith)
            requires
                0 <= a,
        ;
        assert((a * Q30_ONE) / (Q30_ONE as int) == a) by (nonlinear_arith);
        assert((a * CDB_STEP_Q30) / (Q30_ONE as int) <= (a * Q30_ONE) / (Q30_ONE as int)) by (nonlinear_arith)
            requires
                0 <= a * CDB_STEP_Q30 <= a * Q30_ONE,
        ;
    }
}

/// Each further centidecibel of attenuation can only lower the factor.
pub proof fn lemma_att_q30_antitone(n1: nat, n2: nat)
    requires
        n1 <= n2,
    ensures
        att_q30(n2) <= att_q30(n1),
    decreases n2,
{
    if n2 > n1 {
        lemma_att_q30_antitone(n1, (n2 - 1) as nat);
        lemma_att_q30_bounds((n2 - 1) as nat);
        let a = att_q30((n2 - 1) as nat);
        assert(0 <= a * CDB_STEP_Q30 <= a * Q30_ONE) by (nonlinear_arith)
            requires
                0 <= a,
        ;
        assert((a * Q30_ONE) / (Q30_ONE as int) == a) by (nonlinear_arith);
        assert((a * CDB_STEP_Q30) / (Q30_ONE as int) <= (a * Q30_ONE) / (Q30_ONE as int)) by (nonlinear_arith)
            requires
                0 <= a * CDB_STEP_Q30 <= a * Q30_ONE,
        ;
    }
}

/// Law: the depth-to-gain conversion is monotone -- a deeper cut in
/// centidecibels never yields a larger linear gain.
pub proof fn lemma_gain_of_cdb_monotone(cdb1: int, cdb2: int)
    requires
        DB_MIN_CENTI <= cdb1 <= cdb2 <= 0,
    ensures
        gain_of_cdb(cdb1) <= gain_of_cdb(cdb2),
{
    lemma_att_q30_antitone((-cdb2) as nat, (-cdb1) as nat);
}

/// The Q16 linear gain of a depth in centidecibels.
pub open spec fn gain_of_cdb(cdb: int) -> int
    recommends
        DB_MIN_CENTI <= cdb <= 0,
{
    att_q30((-cdb) as nat) / (Q30_TO_UNIT as int)
}

/// Law: zero depth is exactly unity gain, and no depth ever amplifies: the
/// gain of every depth in `[-6000, 0]` centidecibels lies in `[0, UNIT]`,
/// with `UNIT` reached exactly at depth 0.
pub proof fn lemma_gain_of_cdb_bounds(cdb: int)
    requires
        DB_MIN_CENTI <= cdb <= 0,
    ensures
        0 <= gain_of_cdb(cdb) <= UNIT,
        cdb == 0 ==> gain_of_cdb(cdb) == UNIT,
{
    lemma_att_q30_bounds((-cdb) as nat);
}

/// Converts a depth in centidecibels to its Q16 linear gain.
pub fn gain_from_cdb(cdb: i32) -> (g: u32)
    requires
        DB_MIN_CENTI <= cdb <= 0,
    ensures
        g == gain_of_cdb(cdb as int),
        g <= UNIT,
{
    let n: u32 = (-cdb) as u32;
    let mut acc: u64 = Q30_ONE;
    let mut i: u32 = 0;
    while i < n
        invariant
            i <= n,
            acc == att_q30(i as nat),
            acc <= Q30_ONE,
        decreases n - i,
    {
        acc = acc * CDB_STEP_Q30 / Q30_ONE;
        i = i + 1;
        proof {
            lemma_att_q30_bounds(i as nat);
        }
    }
    proof {
        lemma_gain_of_cdb_bounds(cdb as int);
    }
    (acc / Q30_TO_UNIT) as u32
}

} // verus!
