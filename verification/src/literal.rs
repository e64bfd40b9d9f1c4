//! The literal encoder: numbers as the text of runtime constructor calls.
use crate::ast::{Num, NumStyle};
use crate::emitter::{lemma_write_concat, lemma_write_flat, Writer, WriterView};
use crate::seqs::{lemma_concat_empty, lemma_push_concat, lemma_subrange_one};
use vstd::prelude::*;
use vstd::string::StrSliceExecFns;

verus! {

/// The digits of every radix up to sixteen, in order.
pub open spec fn digit_chars() -> Seq<char> {
    "0123456789abcdef"@
}

/// The character that stands for the digit `d`.
pub open spec fn digit_char(d: nat) -> char
    recommends
        d < 16,
{
    digit_chars()[d as int]
}

/// `n` in decimal, without leading zeros.
pub open spec fn decimal(n: nat) -> Seq<char>
    decreases n,
{
    if n < 10 {
        seq![digit_char(n)]
    } else {
        decimal(n / 10).push(digit_char(n % 10))
    }
}

/// `n` in lower-case hexadecimal, without leading zeros.
pub open spec fn hexadecimal(n: nat) -> Seq<char>
    decreases n,
{
    if n < 16 {
        seq![digit_char(n)]
    } else {
        hexadecimal(n / 16).push(digit_char(n % 16))
    }
}

/// The lowest `width` hexadecimal digits of `n`, leading zeros included.
pub open spec fn hex_fixed(n: nat, width: nat) -> Seq<char>
    decreases width,
{
    if width == 0 {
        Seq::empty()
    } else {
        hex_fixed(n / 16, (width - 1) as nat).push(digit_char(n % 16))
    }
}

/// The sign boundary: from here on a value is written as two words.
pub const SIGN_BOUNDARY: u64 = 0x8000_0000_0000_0000;

/// Number of values that one 32-bit word can hold.
pub const WORD: u64 = 0x1_0000_0000;

/// The argument of the one-word constructor: `value` in the radix of `style`.
pub open spec fn small_literal(value: u64, style: NumStyle) -> Seq<char> {
    match style {
        NumStyle::Dec => decimal(value as nat),
        NumStyle::Hex => "0x"@ + hexadecimal(value as nat),
    }
}

/// An argument of the two-word constructor: eight hexadecimal digits.
pub open spec fn word_literal(word: nat) -> Seq<char> {
    "0x"@ + hex_fixed(word, 8)
}

/// The constructor call that stands for `num`. Below the sign boundary it
/// takes the value as one literal in the radix of `num`; from the boundary on
/// it takes the high and the low 32 bits as two literals.
pub open spec fn num_text(num: Num) -> Seq<char> {
    if num.0 >= SIGN_BOUNDARY {
        "u64_big("@ + word_literal((num.0 / WORD) as nat) + ", "@ + word_literal(
            (num.0 % WORD) as nat,
        ) + ")"@
    } else {
        "u64("@ + small_literal(num.0, num.1) + ")"@
    }
}

/// The digit that `c` stands for: the inverse of [`digit_char`].
pub open spec fn digit_value(c: char) -> nat {
    if '0' <= c && c <= '9' {
        (c as int - '0' as int) as nat
    } else if 'a' <= c && c <= 'f' {
        (c as int - 'a' as int + 10) as nat
    } else {
        0
    }
}

/// The number that the digits `s` stand for in radix `base`.
pub open spec fn number_value(s: Seq<char>, base: nat) -> nat
    decreases s.len(),
{
    if s.len() == 0 {
        0
    } else {
        number_value(s.drop_last(), base) * base + digit_value(s.last())
    }
}

/// The value of an integer literal as the runtime reads it: hexadecimal
/// behind `0x`, decimal otherwise.
pub open spec fn literal_value(lit: Seq<char>) -> nat {
    if lit.len() >= 2 && lit[0] == '0' && lit[1] == 'x' {
        number_value(lit.skip(2), 16)
    } else {
        number_value(lit, 10)
    }
}

/// Sixteen to the power of `width`.
pub open spec fn hex_span(width: nat) -> nat
    decreases width,
{
    if width == 0 {
        1
    } else {
        16 * hex_span((width - 1) as nat)
    }
}

pub proof fn lemma_digit_char(d: nat)
    requires
        d < 16,
    ensures
        digit_value(digit_char(d)) == d,
        digit_char(d) != '\n',
        digit_char(d) != 'x',
{
    reveal_strlit("0123456789abcdef");
}

pub proof fn lemma_decimal_value(n: nat)
    ensures
        number_value(decimal(n), 10) == n,
        decimal(n).len() >= 1,
        forall|i: int| 0 <= i < decimal(n).len() ==> decimal(n)[i] != 'x',
    decreases n,
{
    lemma_digit_char(n % 10);
    if n < 10 {
        assert(decimal(n).drop_last() =~= Seq::<char>::empty());
        assert(number_value(Seq::<char>::empty(), 10) == 0);
    } else {
        lemma_decimal_value(n / 10);
        assert(decimal(n).drop_last() =~= decimal(n / 10));
    }
}

pub proof fn lemma_hexadecimal_value(n: nat)
    ensures
        number_value(hexadecimal(n), 16) == n,
    decreases n,
{
    lemma_digit_char(n % 16);
    if n < 16 {
        assert(hexadecimal(n).drop_last() =~= Seq::<char>::empty());
        assert(number_value(Seq::<char>::empty(), 16) == 0);
    } else {
        lemma_hexadecimal_value(n / 16);
        assert(hexadecimal(n).drop_last() =~= hexadecimal(n / 16));
    }
}

pub proof fn lemma_hex_fixed_value(n: nat, width: nat)
    requires
        n < hex_span(width),
    ensures
        number_value(hex_fixed(n, width), 16) == n,
        hex_fixed(n, width).len() == width,
    decreases width,
{
    if width > 0 {
        lemma_digit_char(n % 16);
        lemma_hex_fixed_value(n / 16, (width - 1) as nat);
        assert(hex_fixed(n, width).drop_last() =~= hex_fixed(n / 16, (width - 1) as nat));
    }
}

/// What the encoder writes reads back as the value. Below the sign boundary
/// the text is the one-word constructor around one literal, which has the
/// value of `num`. From the boundary on it is the two-word constructor
/// around two literals; both are 32-bit words, and the first shifted left by
/// 32 bits, or'ed with the second, is the value of `num`.
pub proof fn lemma_num_round_trip(num: Num)
    ensures
        num.0 < SIGN_BOUNDARY ==> ({
            let lit = small_literal(num.0, num.1);
            &&& num_text(num) == "u64("@ + lit + ")"@
            &&& literal_value(lit) == num.0
        }),
        num.0 >= SIGN_BOUNDARY ==> ({
            let first = word_literal((num.0 / WORD) as nat);
            let second = word_literal((num.0 % WORD) as nat);
            let high = literal_value(first);
            let low = literal_value(second);
            &&& num_text(num) == "u64_big("@ + first + ", "@ + second + ")"@
            &&& high < WORD
            &&& low < WORD
            &&& ((high as u64) << 32) | (low as u64) == num.0
        }),
{
    let v = num.0;
    reveal_strlit("0x");
    if v < SIGN_BOUNDARY {
        match num.1 {
            NumStyle::Dec => {
                lemma_decimal_value(v as nat);
            },
            NumStyle::Hex => {
                lemma_hexadecimal_value(v as nat);
                let lit = small_literal(v, num.1);
                assert(lit.skip(2) =~= hexadecimal(v as nat));
            },
        }
    } else {
        let high = (v / WORD) as nat;
        let low = (v % WORD) as nat;
        assert(hex_span(8) == 0x1_0000_0000) by {
            reveal_with_fuel(hex_span, 9);
        }
        lemma_hex_fixed_value(high, 8);
        lemma_hex_fixed_value(low, 8);
        assert(word_literal(high).skip(2) =~= hex_fixed(high, 8));
        assert(word_literal(low).skip(2) =~= hex_fixed(low, 8));
        let h = (v / WORD) as u64;
        let l = (v % WORD) as u64;
        assert((h << 32) | l == v) by (bit_vector)
            requires
                h == v / 0x1_0000_0000,
                l == v % 0x1_0000_0000,
        ;
    }
}

/// The text of one digit.
fn digit(d: u64) -> (text: &'static str)
    requires
        d < 16,
    ensures
        text@ == seq![digit_char(d as nat)],
{
    proof {
        reveal_strlit("0123456789abcdef");
        lemma_subrange_one(digit_chars(), d as int);
    }
    "0123456789abcdef".substring_char(d as usize, d as usize + 1)
}

/// Writes `n` in decimal.
pub fn write_decimal(w: &mut Writer, n: u64)
    ensures
        final(w)@ == old(w)@.write(decimal(n as nat)),
    decreases n,
{
    if n >= 10 {
        write_decimal(w, n / 10);
    }
    w.write_str(digit(n % 10));
    proof {
        let last = seq![digit_char((n % 10) as nat)];
        if n >= 10 {
            lemma_push_concat(decimal((n / 10) as nat), digit_char((n % 10) as nat));
            lemma_write_concat(old(w)@, decimal((n / 10) as nat), last);
        }
    }
}

/// `n` in decimal, as a string.
pub fn decimal_string(n: u64) -> (text: String)
    ensures
        text@ == decimal(n as nat),
{
    let mut w = Writer::new();
    write_decimal(&mut w, n);
    proof {
        lemma_write_flat(WriterView::fresh(0), decimal(n as nat));
        lemma_concat_empty(decimal(n as nat));
    }
    w.end()
}

/// Writes `n` in hexadecimal.
pub fn write_hexadecimal(w: &mut Writer, n: u64)
    ensures
        final(w)@ == old(w)@.write(hexadecimal(n as nat)),
    decreases n,
{
    if n >= 16 {
        write_hexadecimal(w, n / 16);
    }
    w.write_str(digit(n % 16));
    proof {
        let last = seq![digit_char((n % 16) as nat)];
        if n >= 16 {
            lemma_push_concat(hexadecimal((n / 16) as nat), digit_char((n % 16) as nat));
            lemma_write_concat(old(w)@, hexadecimal((n / 16) as nat), last);
        }
    }
}

/// Writes the lowest `width` hexadecimal digits of `n`.
fn write_hex_fixed(w: &mut Writer, n: u64, width: u8)
    ensures
        final(w)@ == old(w)@.write(hex_fixed(n as nat, width as nat)),
    decreases width,
{
    if width > 0 {
        write_hex_fixed(w, n / 16, width - 1);
        w.write_str(digit(n % 16));
        proof {
            let head = hex_fixed((n / 16) as nat, (width - 1) as nat);
            let last = seq![digit_char((n % 16) as nat)];
            lemma_push_concat(head, digit_char((n % 16) as nat));
            lemma_write_concat(old(w)@, head, last);
        }
    }
}

/// Writes one argument of the two-word constructor.
fn write_word(w: &mut Writer, word: u64)
    ensures
        final(w)@ == old(w)@.write(word_literal(word as nat)),
{
    w.write_str("0x");
    write_hex_fixed(w, word, 8);
    proof {
        lemma_write_concat(old(w)@, "0x"@, hex_fixed(word as nat, 8));
    }
}

/// Writes the constructor call that stands for `num`.
pub fn gen_num(w: &mut Writer, num: Num)
    ensures
        final(w)@ == old(w)@.write(num_text(num)),
{
    let ghost start = w@;
    if num.0 >= SIGN_BOUNDARY {
        let high: u64 = num.0 >> 32;
        let low: u64 = num.0 & 0xffff_ffff;
        proof {
            let v = num.0;
            assert(v >> 32 == v / 0x1_0000_0000) by (bit_vector);
            assert(v & 0xffff_ffff == v % 0x1_0000_0000) by (bit_vector);
        }
        w.write_str("u64_big(");
        write_word(w, high);
        w.write_str(", ");
        write_word(w, low);
        w.write_str(")");
        proof {
            let a = "u64_big("@;
            let b = word_literal(high as nat);
            let c = ", "@;
            let d = word_literal(low as nat);
            let e = ")"@;
            lemma_write_concat(start, a, b);
            lemma_write_concat(start, a + b, c);
            lemma_write_concat(start, a + b + c, d);
            lemma_write_concat(start, a + b + c + d, e);
        }
    } else {
        w.write_str("u64(");
        match num.1 {
            NumStyle::Dec => {
                write_decimal(w, num.0);
            },
            NumStyle::Hex => {
                w.write_str("0x");
                write_hexadecimal(w, num.0);
                proof {
                    lemma_write_concat(start.write("u64("@), "0x"@, hexadecimal(num.0 as nat));
                }
            },
        }
        w.write_str(")");
        proof {
            let a = "u64("@;
            let b = small_literal(num.0, num.1);
            lemma_write_concat(start, a, b);
            lemma_write_concat(start, a + b, ")"@);
        }
    }
}

} // verus!
