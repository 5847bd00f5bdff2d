//! Verified helpers for rendering numbers into strings.
//!
//! `String` is built up through `vstd`'s specified `append`, one literal
//! digit at a time, so every rendered message is pinned down in `ensures`.

use vstd::prelude::*;
use vstd::string::{StringExecFns, StringSliceAdditionalSpecFns};

verus! {

/// The decimal digit character for `d` (0..=9).
pub open spec fn dec_digit_char(d: int) -> char {
    if d == 0 {
        '0'
    } else if d == 1 {
        '1'
    } else if d == 2 {
        '2'
    } else if d == 3 {
        '3'
    } else if d == 4 {
        '4'
    } else if d == 5 {
        '5'
    } else if d == 6 {
        '6'
    } else if d == 7 {
        '7'
    } else if d == 8 {
        '8'
    } else {
        '9'
    }
}

/// The upper-case hexadecimal digit character for `d` (0..=15).
pub open spec fn hex_digit_char(d: int) -> char {
    if d < 10 {
        dec_digit_char(d)
    } else if d == 10 {
        'A'
    } else if d == 11 {
        'B'
    } else if d == 12 {
        'C'
    } else if d == 13 {
        'D'
    } else if d == 14 {
        'E'
    } else {
        'F'
    }
}

/// The lower-case hexadecimal digit character for `d` (0..=15).
pub open spec fn hex_digit_char_lower(d: int) -> char {
    if d < 10 {
        dec_digit_char(d)
    } else if d == 10 {
        'a'
    } else if d == 11 {
        'b'
    } else if d == 12 {
        'c'
    } else if d == 13 {
        'd'
    } else if d == 14 {
        'e'
    } else {
        'f'
    }
}

/// Decimal rendering of a natural number, most significant digit first.
pub open spec fn spec_dec_str(v: nat) -> Seq<char>
    decreases v,
{
    if v < 10 {
        seq![dec_digit_char(v as int)]
    } else {
        spec_dec_str(v / 10) + seq![dec_digit_char((v % 10) as int)]
    }
}

/// Fixed-width upper-case hexadecimal rendering, most significant digit
/// first; the value is shown modulo `16^width`.
pub open spec fn spec_hex_str_fixed(v: int, width: nat) -> Seq<char>
    decreases width,
{
    if width == 0 {
        Seq::empty()
    } else {
        spec_hex_str_fixed(v / 16, (width - 1) as nat) + seq![hex_digit_char((v % 16) as int)]
    }
}

/// Appends the single decimal digit `d` to `s`.
pub fn append_dec_digit(s: &mut String, d: u8)
    requires
        d < 10,
    ensures
        final(s)@ == old(s)@ + seq![dec_digit_char(d as int)],
{
    proof {
        reveal_strlit("0");
        reveal_strlit("1");
        reveal_strlit("2");
        reveal_strlit("3");
        reveal_strlit("4");
        reveal_strlit("5");
        reveal_strlit("6");
        reveal_strlit("7");
        reveal_strlit("8");
        reveal_strlit("9");
    }
    match d {
        0 => s.append("0"),
        1 => s.append("1"),
        2 => s.append("2"),
        3 => s.append("3"),
        4 => s.append("4"),
        5 => s.append("5"),
        6 => s.append("6"),
        7 => s.append("7"),
        8 => s.append("8"),
        _ => s.append("9"),
    }
    assert(s@ =~= old(s)@ + seq![dec_digit_char(d as int)]);
}

/// Appends the single upper-case hexadecimal digit `d` to `s`.
pub fn append_hex_digit(s: &mut String, d: u8)
    requires
        d < 16,
    ensures
        final(s)@ == old(s)@ + seq![hex_digit_char(d as int)],
{
    proof {
        reveal_strlit("A");
        reveal_strlit("B");
        reveal_strlit("C");
        reveal_strlit("D");
        reveal_strlit("E");
        reveal_strlit("F");
    }
    if d < 10 {
        append_dec_digit(s, d);
    } else {
        match d {
            10 => s.append("A"),
            11 => s.append("B"),
            12 => s.append("C"),
            13 => s.append("D"),
            14 => s.append("E"),
            _ => s.append("F"),
        }
    }
    assert(s@ =~= old(s)@ + seq![hex_digit_char(d as int)]);
}

/// The decimal digits of `digits`, read in reverse, as characters.
pub open spec fn rev_digit_chars(digits: Seq<u8>) -> Seq<char> {
    Seq::new(digits.len(), |i: int| dec_digit_char(digits[digits.len() - 1 - i] as int))
}

/// Appends the decimal rendering of `v` to `s`.
pub fn append_u64(s: &mut String, v: u64)
    ensures
        final(s)@ == old(s)@ + spec_dec_str(v as nat),
{
    let mut digits: Vec<u8> = Vec::new();
    if v == 0 {
        digits.push(0);
        assert(rev_digit_chars(digits@) =~= spec_dec_str(v as nat));
    } else {
        let mut x: u64 = v;
        while x > 0
            invariant
                x >= 0,
                forall|i: int| 0 <= i < digits@.len() ==> digits@[i] < 10,
                spec_dec_str(v as nat) == if x > 0 {
                    spec_dec_str(x as nat) + rev_digit_chars(digits@)
                } else {
                    rev_digit_chars(digits@)
                },
                x == v ==> digits@.len() == 0,
                v > 0,
            decreases x,
        {
            let ghost pre = digits@;
            let d: u8 = (x % 10) as u8;
            digits.push(d);
            x = x / 10;
            proof {
                assert(rev_digit_chars(digits@) =~= seq![dec_digit_char(d as int)]
                    + rev_digit_chars(pre));
                if x > 0 {
                    assert(spec_dec_str(v as nat) =~= spec_dec_str(x as nat)
                        + rev_digit_chars(digits@));
                } else {
                    assert(spec_dec_str(v as nat) =~= rev_digit_chars(digits@));
                }
            }
        }
    }
    let n = digits.len();
    let mut i: usize = 0;
    while i < n
        invariant
            n == digits@.len(),
            i <= n,
            forall|k: int| 0 <= k < digits@.len() ==> digits@[k] < 10,
            s@ == old(s)@ + rev_digit_chars(digits@).take(i as int),
        decreases n - i,
    {
        let ghost pre = s@;
        append_dec_digit(s, digits[n - 1 - i]);
        i = i + 1;
        proof {
            assert(s@ =~= old(s)@ + rev_digit_chars(digits@).take(i as int));
        }
    }
    proof {
        assert(rev_digit_chars(digits@).take(n as int) =~= rev_digit_chars(digits@));
    }
}

/// Appends the fixed-width upper-case hexadecimal rendering of `v` to `s`.
pub fn append_hex_fixed(s: &mut String, v: u32, width: u32)
    requires
        width <= 8,
    ensures
        final(s)@ == old(s)@ + spec_hex_str_fixed(v as int, width as nat),
{
    let mut i: u32 = width;
    while i > 0
        invariant
            i <= width,
            width <= 8,
            s@ == old(s)@ + spec_hex_str_fixed((v as int) / vstd::arithmetic::power::pow(
                16,
                i as nat,
            ), (width - i) as nat),
        decreases i,
    {
        let shift: u32 = (i - 1) * 4;
        assert((v >> shift) & 0xF < 16) by (bit_vector);
        let d: u8 = ((v >> shift) & 0xF) as u8;
        let ghost pre = s@;
        append_hex_digit(s, d);
        i = i - 1;
        proof {
            lemma_hex_shift_step(v, i as nat);
            assert(d as int == ((v as int) / vstd::arithmetic::power::pow(16, i as nat)) % 16) by {
                lemma_hex_shift_digit(v, i);
            }
            assert(s@ =~= old(s)@ + spec_hex_str_fixed(
                (v as int) / vstd::arithmetic::power::pow(16, i as nat),
                (width - i) as nat,
            ));
        }
    }
    proof {
        vstd::arithmetic::power::lemma_pow0(16);
        assert(vstd::arithmetic::power::pow(16, 0) == 1);
        assert((v as int) / 1int == v as int);
    }
}

/// One step of the fixed-width rendering: dividing once more by 16 drops the
/// digit that the loop just appended.
proof fn lemma_hex_shift_step(v: u32, i: nat)
    requires
        i < 8,
    ensures
        spec_hex_str_fixed((v as int) / vstd::arithmetic::power::pow(16, (i + 1) as nat), 0)
            == Seq::<char>::empty(),
        (v as int) / vstd::arithmetic::power::pow(16, i as nat) / 16 == (v as int)
            / vstd::arithmetic::power::pow(16, (i + 1) as nat),
{
    let p = vstd::arithmetic::power::pow(16, i as nat);
    vstd::arithmetic::power::lemma_pow_positive(16, i as nat);
    vstd::arithmetic::power::lemma_pow1(16);
    vstd::arithmetic::power::lemma_pow_adds(16, i as nat, 1);
    assert(vstd::arithmetic::power::pow(16, (i + 1) as nat) == p * 16);
    vstd::arithmetic::div_mod::lemma_div_denominator(v as int, p as int, 16);
}

/// The hardware shift-and-mask extraction of hex digit `i` agrees with the
/// arithmetic definition by powers of 16.
proof fn lemma_hex_shift_digit(v: u32, i: u32)
    requires
        i < 8,
    ensures
        ((v >> (i * 4)) & 0xF) as int == ((v as int) / vstd::arithmetic::power::pow(
            16,
            i as nat,
        )) % 16,
{
    let p = vstd::arithmetic::power::pow(16, i as nat);
    assert(p == if i == 0 {
        0x1int
    } else if i == 1 {
        0x10int
    } else if i == 2 {
        0x100int
    } else if i == 3 {
        0x1000int
    } else if i == 4 {
        0x10000int
    } else if i == 5 {
        0x100000int
    } else if i == 6 {
        0x1000000int
    } else {
        0x10000000int
    }) by {
        reveal_with_fuel(vstd::arithmetic::power::pow, 9);
    };
    assert(((v >> (i * 4)) & 0xF) as int == ((v as int) / (if i == 0 {
        0x1int
    } else if i == 1 {
        0x10int
    } else if i == 2 {
        0x100int
    } else if i == 3 {
        0x1000int
    } else if i == 4 {
        0x10000int
    } else if i == 5 {
        0x100000int
    } else if i == 6 {
        0x1000000int
    } else {
        0x10000000int
    })) % 16) by (bit_vector)
        requires
            i < 8,
    ;
}

/// Appends the decimal rendering of a `u32` to `s`.
pub fn append_u32(s: &mut String, v: u32)
    ensures
        final(s)@ == old(s)@ + spec_dec_str(v as nat),
{
    append_u64(s, v as u64);
}

/// Renders `v` in decimal.
pub fn u64_to_string(v: u64) -> (s: String)
    ensures
        s@ == spec_dec_str(v as nat),
{
    let mut s = String::new();
    append_u64(&mut s, v);
    s
}

/// Whether two strings hold the same characters.
pub fn str_eq(a: &str, b: &str) -> (r: bool)
    ensures
        r == (a@ == b@),
{
    let ab = a.as_bytes();
    let bb = b.as_bytes();
    proof {
        vstd::utf8::encode_utf8_decode_utf8(a@);
        vstd::utf8::encode_utf8_decode_utf8(b@);
    }
    if ab.len() != bb.len() {
        return false;
    }
    let n = ab.len();
    let mut i: usize = 0;
    while i < n
        invariant
            n == ab@.len() == bb@.len(),
            i <= n,
            ab@ == a.spec_bytes(),
            bb@ == b.spec_bytes(),
            forall|j: int| 0 <= j < i ==> ab@[j] == bb@[j],
        decreases n - i,
    {
        if ab[i] != bb[i] {
            proof {
                vstd::utf8::encode_utf8_decode_utf8(a@);
                vstd::utf8::encode_utf8_decode_utf8(b@);
                if a@ == b@ {
                    assert(a.spec_bytes() == b.spec_bytes());
                }
            }
            return false;
        }
        i = i + 1;
    }
    proof {
        assert(ab@ =~= bb@);
        assert(vstd::utf8::decode_utf8(a.spec_bytes()) == a@);
        assert(vstd::utf8::decode_utf8(b.spec_bytes()) == b@);
    }
    true
}

/// The lower-case hexadecimal rendering of a byte sequence, two digits per
/// byte.
pub open spec fn spec_hex_lower(data: Seq<u8>) -> Seq<char> {
    Seq::new(
        2 * data.len(),
        |i: int|
            if i % 2 == 0 {
                hex_digit_char_lower((data[i / 2] / 16) as int)
            } else {
                hex_digit_char_lower((data[i / 2] % 16) as int)
            },
    )
}

/// Relies on `hex::encode`: the lower-case hexadecimal string of the
/// bytes, two digits per byte.
#[verifier::external_body]
pub fn to_hex_lower(data: &Vec<u8>) -> (r: String)
    ensures
        r@ == spec_hex_lower(data@),
{
    hex::encode(data)
}

} // verus!
