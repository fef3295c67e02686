//! Lower-case hexadecimal digits, used for JSON control-character escapes
//! and for rendering confirmation tokens.

use vstd::prelude::*;

verus! {

/// The lower-case hexadecimal digit for a value below sixteen.
pub open spec fn spec_hex_digit(n: int) -> char {
    if n == 0 {
        '0'
    } else if n == 1 {
        '1'
    } else if n == 2 {
        '2'
    } else if n == 3 {
        '3'
    } else if n == 4 {
        '4'
    } else if n == 5 {
        '5'
    } else if n == 6 {
        '6'
    } else if n == 7 {
        '7'
    } else if n == 8 {
        '8'
    } else if n == 9 {
        '9'
    } else if n == 10 {
        'a'
    } else if n == 11 {
        'b'
    } else if n == 12 {
        'c'
    } else if n == 13 {
        'd'
    } else if n == 14 {
        'e'
    } else {
        'f'
    }
}

/// A lower-case hexadecimal digit character.
pub open spec fn is_hex_digit_char(c: char) -> bool {
    (48 <= c as u32 <= 57) || (97 <= c as u32 <= 102)
}

/// The one-character string for a hexadecimal digit.
pub fn hex_digit_str(n: u8) -> (r: &'static str)
    requires
        n < 16,
    ensures
        r@.len() == 1,
        r@[0] == spec_hex_digit(n as int),
        is_hex_digit_char(r@[0]),
{
    proof {
        reveal_strlit("0");
        reveal_strlit("1");
        reveal_strlit("2");
        reveal_strlit("3");
        reveal_strlit("4");
        reveal_strlit("5");
        reveal_strlit("6");
        reveal_strlit("7");
        reveal_strlit("8");
        reveal_strlit("9");
        reveal_strlit("a");
        reveal_strlit("b");
        reveal_strlit("c");
        reveal_strlit("d");
        reveal_strlit("e");
        reveal_strlit("f");
    }
    if n == 0 {
        "0"
    } else if n == 1 {
        "1"
    } else if n == 2 {
        "2"
    } else if n == 3 {
        "3"
    } else if n == 4 {
        "4"
    } else if n == 5 {
        "5"
    } else if n == 6 {
        "6"
    } else if n == 7 {
        "7"
    } else if n == 8 {
        "8"
    } else if n == 9 {
        "9"
    } else if n == 10 {
        "a"
    } else if n == 11 {
        "b"
    } else if n == 12 {
        "c"
    } else if n == 13 {
        "d"
    } else if n == 14 {
        "e"
    } else {
        "f"
    }
}

} // verus!

verus! {

/// The hexadecimal rendering of the low `digits` nibbles of an integer,
/// least-significant nibble first.
pub open spec fn spec_hex_digits(n: int, digits: nat) -> Seq<char>
    decreases digits,
{
    if digits == 0 {
        Seq::empty()
    } else {
        seq![spec_hex_digit(n % 16)] + spec_hex_digits(n / 16, (digits - 1) as nat)
    }
}

/// Sixteen to the power `digits`.
pub open spec fn pow16(digits: nat) -> int
    decreases digits,
{
    if digits == 0 {
        1
    } else {
        16 * pow16((digits - 1) as nat)
    }
}

pub proof fn lemma_pow16_pos(digits: nat)
    ensures
        pow16(digits) >= 1,
    decreases digits,
{
    if digits > 0 {
        lemma_pow16_pos((digits - 1) as nat);
    }
}

/// The rendering loses nothing: two values below `16^digits` with the same
/// rendering are the same value.
pub proof fn lemma_hex_digits_injective(a: int, b: int, digits: nat)
    requires
        0 <= a < pow16(digits),
        0 <= b < pow16(digits),
        spec_hex_digits(a, digits) == spec_hex_digits(b, digits),
    ensures
        a == b,
    decreases digits,
{
    if digits == 0 {
    } else {
        let rest = (digits - 1) as nat;
        assert(spec_hex_digits(a, digits)[0] == spec_hex_digit(a % 16));
        assert(spec_hex_digits(b, digits)[0] == spec_hex_digit(b % 16));
        assert(a % 16 == b % 16);
        assert(spec_hex_digits(a, digits).skip(1) =~= spec_hex_digits(a / 16, rest));
        assert(spec_hex_digits(b, digits).skip(1) =~= spec_hex_digits(b / 16, rest));
        lemma_pow16_pos(rest);
        assert(a / 16 < pow16(rest)) by (nonlinear_arith)
            requires
                0 <= a < 16 * pow16(rest),
                pow16(rest) >= 1,
        ;
        assert(b / 16 < pow16(rest)) by (nonlinear_arith)
            requires
                0 <= b < 16 * pow16(rest),
                pow16(rest) >= 1,
        ;
        lemma_hex_digits_injective(a / 16, b / 16, rest);
        assert(a == 16 * (a / 16) + a % 16);
        assert(b == 16 * (b / 16) + b % 16);
    }
}

/// Renders the thirty-two hexadecimal digits of a 128-bit integer,
/// least-significant nibble first: exactly `spec_hex_digits` of the value.
pub fn hex32_of(n: u128) -> (r: String)
    ensures
        r@ == spec_hex_digits(n as int, 32),
        r@.len() == 32,
        forall|i: int| 0 <= i < r@.len() ==> is_hex_digit_char(r@[i]),
{
    let mut m = n;
    let mut out = String::new();
    let mut k: usize = 0;
    proof {
        assert(Seq::<char>::empty() + spec_hex_digits(n as int, 32) =~= spec_hex_digits(
            n as int,
            32,
        ));
    }
    while k < 32
        invariant
            0 <= k <= 32,
            out@.len() == k,
            forall|i: int| 0 <= i < out@.len() ==> is_hex_digit_char(out@[i]),
            spec_hex_digits(n as int, 32) == out@ + spec_hex_digits(m as int, (32 - k) as nat),
        decreases 32 - k,
    {
        let ghost prev_out = out@;
        let d = (m % 16) as u8;
        out.append(hex_digit_str(d));
        proof {
            let rest = spec_hex_digits(m as int / 16, (32 - k - 1) as nat);
            assert(spec_hex_digits(m as int, (32 - k) as nat) == seq![spec_hex_digit(m as int % 16)]
                + rest);
            assert(out@ =~= prev_out + seq![spec_hex_digit(m as int % 16)]);
            assert(prev_out + (seq![spec_hex_digit(m as int % 16)] + rest) =~= (prev_out + seq![
                spec_hex_digit(m as int % 16),
            ]) + rest);
        }
        m = m / 16;
        k += 1;
    }
    proof {
        assert(out@ + spec_hex_digits(m as int, 0) =~= out@);
    }
    out
}

} // verus!
