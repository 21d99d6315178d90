//! Exact decimal rendering of the numeric values that appear in the
//! exposition text: unsigned integers, signed integers, and fixed-point
//! values with up to nine fractional digits.

use vstd::prelude::*;
use vstd::string::StrSliceExecFns;

verus! {

/// Fixed-point values carry nine fractional decimal digits: a stored value
/// `v` denotes the number `v / 1_000_000_000`.
pub const FIXED_SCALE: u64 = 1_000_000_000;

/// Character for a single decimal digit.
pub open spec fn spec_digit_char(d: nat) -> char {
    if d == 0 {
        '0'
    } else if d == 1 {
        '1'
    } else if d == 2 {
        '2'
    } else if d == 3 {
        '3'
    } else if d == 4 {
        '4'
    } else if d == 5 {
        '5'
    } else if d == 6 {
        '6'
    } else if d == 7 {
        '7'
    } else if d == 8 {
        '8'
    } else {
        '9'
    }
}

/// Decimal representation of a natural number, most significant digit first.
pub open spec fn spec_render_nat(v: nat) -> Seq<char>
    decreases v,
{
    if v < 10 {
        seq![spec_digit_char(v)]
    } else {
        spec_render_nat(v / 10) + seq![spec_digit_char(v % 10)]
    }
}

/// Decimal representation of an integer: a minus sign for negative values,
/// then the digits of the absolute value.
pub open spec fn spec_render_int(v: int) -> Seq<char> {
    if v < 0 {
        seq!['-'] + spec_render_nat((-v) as nat)
    } else {
        spec_render_nat(v as nat)
    }
}

/// The last `width` decimal digits of `v`, zero-padded on the left.
pub open spec fn spec_pad_digits(v: nat, width: nat) -> Seq<char>
    decreases width,
{
    if width == 0 {
        Seq::<char>::empty()
    } else {
        spec_pad_digits(v / 10, (width - 1) as nat) + seq![spec_digit_char(v % 10)]
    }
}

/// Drops trailing zero characters.
pub open spec fn spec_trim_zeros(s: Seq<char>) -> Seq<char>
    decreases s.len(),
{
    if s.len() > 0 && s.last() == '0' {
        spec_trim_zeros(s.drop_last())
    } else {
        s
    }
}

/// Rendering of the fixed-point value `v / FIXED_SCALE`: the integer part,
/// then - if the fractional part is non-zero - a point and the fractional
/// digits with trailing zeros removed.
pub open spec fn spec_render_fixed(v: int) -> Seq<char> {
    let sign: Seq<char> = if v < 0 {
        seq!['-']
    } else {
        Seq::<char>::empty()
    };
    let a = if v < 0 {
        (-v) as nat
    } else {
        v as nat
    };
    let whole = a / (FIXED_SCALE as nat);
    let frac = a % (FIXED_SCALE as nat);
    if frac == 0 {
        sign + spec_render_nat(whole)
    } else {
        sign + spec_render_nat(whole) + seq!['.'] + spec_trim_zeros(spec_pad_digits(frac, 9))
    }
}

/// Single decimal digit as a one-character string slice.
pub fn render_digit(d: u8) -> (r: &'static str)
    requires
        d < 10,
    ensures
        r@ =~= seq![spec_digit_char(d as nat)],
{
    proof {
        reveal_strlit("0");
        reveal_strlit("1");
        reveal_strlit("2");
        reveal_strlit("3");
        reveal_strlit("4");
        reveal_strlit("5");
        reveal_strlit("6");
        reveal_strlit("7");
        reveal_strlit("8");
        reveal_strlit("9");
    }
    match d {
        0 => "0",
        1 => "1",
        2 => "2",
        3 => "3",
        4 => "4",
        5 => "5",
        6 => "6",
        7 => "7",
        8 => "8",
        _ => "9",
    }
}

/// Appends the decimal representation of `v` to `out`.
pub fn append_nat(out: &mut String, v: u128)
    ensures
        final(out)@ == old(out)@ + spec_render_nat(v as nat),
    decreases v,
{
    if v >= 10 {
        append_nat(out, v / 10);
    }
    let d: u8 = (v % 10) as u8;
    out.append(render_digit(d));
    proof {
        assert(final(out)@ =~= old(out)@ + spec_render_nat(v as nat));
    }
}

/// The magnitude of a negative value.
fn i128_magnitude(v: i128) -> (r: u128)
    requires
        v < 0,
    ensures
        r == -(v as int),
{
    if v == i128::MIN {
        170_141_183_460_469_231_731_687_303_715_884_105_728u128
    } else {
        (-v) as u128
    }
}

/// Appends the decimal representation of the signed value `v` to `out`.
pub fn append_int(out: &mut String, v: i128)
    ensures
        final(out)@ == old(out)@ + spec_render_int(v as int),
{
    if v < 0 {
        proof {
            reveal_strlit("-");
        }
        out.append("-");
        append_nat(out, i128_magnitude(v));
        proof {
            assert(final(out)@ =~= old(out)@ + spec_render_int(v as int));
        }
    } else {
        append_nat(out, v as u128);
    }
}

/// Appends the last `width` decimal digits of `v`, zero-padded.
fn append_padded(out: &mut String, v: u128, width: u8)
    ensures
        final(out)@ == old(out)@ + spec_pad_digits(v as nat, width as nat),
    decreases width,
{
    if width > 0 {
        append_padded(out, v / 10, width - 1);
        let d: u8 = (v % 10) as u8;
        out.append(render_digit(d));
        proof {
            assert(final(out)@ =~= old(out)@ + spec_pad_digits(v as nat, width as nat));
        }
    } else {
        proof {
            assert(final(out)@ =~= old(out)@ + spec_pad_digits(v as nat, width as nat));
        }
    }
}

proof fn lemma_digit_char_zero(d: nat)
    requires
        d < 10,
    ensures
        (spec_digit_char(d) == '0') == (d == 0),
{
}

/// Appends the rendering of the fixed-point value `v / FIXED_SCALE`.
pub fn append_fixed(out: &mut String, v: i128)
    ensures
        final(out)@ == old(out)@ + spec_render_fixed(v as int),
{
    if v < 0 {
        proof {
            reveal_strlit("-");
        }
        out.append("-");
    }
    let a: u128 = if v < 0 {
        i128_magnitude(v)
    } else {
        v as u128
    };
    let whole: u128 = a / (FIXED_SCALE as u128);
    let frac: u128 = a % (FIXED_SCALE as u128);
    append_nat(out, whole);
    if frac > 0 {
        proof {
            reveal_strlit(".");
        }
        out.append(".");
        let ghost full = spec_pad_digits(frac as nat, 9);
        proof {
            reveal_with_fuel(pow10, 11);
            assert(pow10(9) == 1_000_000_000);
        }
        let mut f: u128 = frac;
        let mut width: u8 = 9;
        while f % 10 == 0
            invariant
                1 <= width <= 9,
                0 < f < pow10(width as nat),
                spec_trim_zeros(spec_pad_digits(f as nat, width as nat)) == spec_trim_zeros(full),
            decreases f,
        {
            proof {
                lemma_digit_char_zero((f % 10) as nat);
                assert(spec_pad_digits(f as nat, width as nat).last() == '0');
                assert(spec_pad_digits(f as nat, width as nat).drop_last() =~= spec_pad_digits(
                    (f / 10) as nat,
                    (width - 1) as nat,
                ));
                assert(width > 1) by {
                    if width == 1 {
                        assert(pow10(1) == 10) by {
                            reveal_with_fuel(pow10, 3);
                        }
                        assert(f < 10);
                        assert(f % 10 == f);
                        assert(f == 0);
                    }
                }
                lemma_pow10_div(f as nat, (width - 1) as nat);
            }
            f = f / 10;
            width = width - 1;
        }
        proof {
            lemma_digit_char_zero((f % 10) as nat);
            assert(spec_pad_digits(f as nat, width as nat).last() != '0');
            assert(spec_trim_zeros(spec_pad_digits(f as nat, width as nat)) == spec_pad_digits(
                f as nat,
                width as nat,
            ));
        }
        append_padded(out, f, width);
        proof {
            assert(final(out)@ =~= old(out)@ + spec_render_fixed(v as int));
        }
    } else {
        proof {
            assert(final(out)@ =~= old(out)@ + spec_render_fixed(v as int));
        }
    }
}

/// Relies on String::push: appends exactly the given character.
#[verifier::external_body]
pub fn push_char(out: &mut String, c: char)
    ensures
        final(out)@ == old(out)@ + seq![c],
{
    out.push(c);
}

/// Compares two string slices character by character.
pub fn str_eq(a: &str, b: &str) -> (r: bool)
    ensures
        r == (a@ == b@),
{
    let alen = a.unicode_len();
    let blen = b.unicode_len();
    if alen != blen {
        return false;
    }
    let mut i: usize = 0;
    while i < alen
        invariant
            alen == a@.len(),
            blen == b@.len(),
            alen == blen,
            0 <= i <= alen,
            forall|j: int| 0 <= j < i ==> a@[j] == b@[j],
        decreases alen - i,
    {
        if a.get_char(i) != b.get_char(i) {
            return false;
        }
        i += 1;
    }
    proof {
        assert(a@ =~= b@);
    }
    true
}

/// Powers of ten.
pub open spec fn pow10(e: nat) -> nat
    decreases e,
{
    if e == 0 {
        1
    } else {
        10 * pow10((e - 1) as nat)
    }
}

proof fn lemma_pow10_div(v: nat, e: nat)
    requires
        v < 10 * pow10(e),
        v % 10 == 0,
    ensures
        v / 10 < pow10(e),
{
    assert(v / 10 < pow10(e)) by (nonlinear_arith)
        requires
            v < 10 * pow10(e),
            v % 10 == 0,
    ;
}

} // verus!
