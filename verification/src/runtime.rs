//! The conversions that a script calls by name.
//!
//! The scripting runtime has to offer the two conversions between booleans
//! and numbers as `toBoolean` and `toNumeric`, and the two constructors of
//! numeric literals as `u64` and `u64_big`. An integer of the script
//! language is a signed 64-bit number; the numbers of a sequence are
//! unsigned.
use crate::ast::Num;
use crate::literal::{
    lemma_num_round_trip, literal_value, small_literal, word_literal, SIGN_BOUNDARY, WORD,
};
use vstd::prelude::*;

verus! {

/// The number that the integer `val` stands for: `val` itself if it is not
/// negative, and its two's complement otherwise.
pub open spec fn int_as_u64(val: i64) -> u64 {
    if val >= 0 {
        val as u64
    } else {
        (val + 0x1_0000_0000_0000_0000) as u64
    }
}

/// The number whose high 32 bits are `high` and whose low 32 bits are `low`.
pub open spec fn words_as_u64(high: i64, low: i64) -> u64 {
    (int_as_u64(high) << 32) | int_as_u64(low)
}

/// `toBoolean(val)`: a number is true if it is not zero.
pub fn bool_of(val: u64) -> (truth: bool)
    ensures
        truth == (val != 0),
{
    val != 0
}

/// `toNumeric(val)`: one for true, zero for false.
pub fn u64_of_bool(val: bool) -> (n: u64)
    ensures
        n == (if val { 1u64 } else { 0u64 }),
{
    if val {
        1
    } else {
        0
    }
}

/// `u64(val)`: the number that an integer literal stands for.
pub fn u64_of_int(val: i64) -> (n: u64)
    ensures
        n == int_as_u64(val),
{
    let n: u64 = #[verifier::truncate] (val as u64);
    proof {
        assert(val >= 0 ==> val as u64 == val) by (bit_vector);
        assert(val < 0 ==> val as u64 == val + 0x1_0000_0000_0000_0000) by (bit_vector);
    }
    n
}

/// `u64_big(high, low)`: `high` shifted left by 32 bits, or'ed with `low`.
pub fn u64_big(high: i64, low: i64) -> (n: u64)
    ensures
        n == words_as_u64(high, low),
        0 <= high < WORD && 0 <= low < WORD ==> n == high * WORD + low,
{
    let h: u64 = u64_of_int(high);
    let l: u64 = u64_of_int(low);
    proof {
        assert(h < 0x1_0000_0000 && l < 0x1_0000_0000 ==> (h << 32) | l == h * 0x1_0000_0000 + l)
            by (bit_vector);
    }
    (h << 32) | l
}

/// The constructors give back what the encoder was given. The literal of a
/// number below the sign boundary is an integer of the script language, and
/// `u64` of it is the number. The two literals of a number from the boundary
/// on are integers too, and `u64_big` of them is the number.
pub proof fn lemma_constructors_read_back(num: Num)
    ensures
        num.0 < SIGN_BOUNDARY ==> ({
            let lit = literal_value(small_literal(num.0, num.1));
            &&& lit <= i64::MAX
            &&& int_as_u64(lit as i64) == num.0
        }),
        num.0 >= SIGN_BOUNDARY ==> ({
            let high = literal_value(word_literal((num.0 / WORD) as nat));
            let low = literal_value(word_literal((num.0 % WORD) as nat));
            &&& high <= i64::MAX
            &&& low <= i64::MAX
            &&& words_as_u64(high as i64, low as i64) == num.0
        }),
{
    lemma_num_round_trip(num);
}

} // verus!
