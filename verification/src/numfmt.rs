use vstd::prelude::*;

verus! {

/// The decimal digit character for `d`, which must lie in `0 ..= 9`.
pub open spec fn digit_char(d: int) -> char {
    if d == 0 {
        '0'
    } else if d == 1 {
        '1'
    } else if d == 2 {
        '2'
    } else if d == 3 {
        '3'
    } else if d == 4 {
        '4'
    } else if d == 5 {
        '5'
    } else if d == 6 {
        '6'
    } else if d == 7 {
        '7'
    } else if d == 8 {
        '8'
    } else {
        '9'
    }
}

/// The decimal digits of a nonnegative number, most significant first.
pub open spec fn dec_digits(n: int) -> Seq<char>
    decreases n,
{
    if n < 10 {
        seq![digit_char(n)]
    } else {
        dec_digits(n / 10).push(digit_char(n % 10))
    }
}

/// The decimal rendering of an integer, with a leading minus sign when
/// negative.
pub open spec fn dec_int(n: int) -> Seq<char> {
    if n < 0 {
        seq!['-'] + dec_digits(-n)
    } else {
        dec_digits(n)
    }
}

/// Appends the single decimal digit `d` to `s`.
fn push_digit(s: &mut String, d: u64)
    requires
        d <= 9,
    ensures
        final(s)@ == old(s)@ + seq![digit_char(d as int)],
{
    proof {
        reveal_strlit("0");
        reveal_strlit("1");
        reveal_strlit("2");
        reveal_strlit("3");
        reveal_strlit("4");
        reveal_strlit("5");
        reveal_strlit("6");
        reveal_strlit("7");
        reveal_strlit("8");
        reveal_strlit("9");
    }
    match d {
        0 => s.append("0"),
        1 => s.append("1"),
        2 => s.append("2"),
        3 => s.append("3"),
        4 => s.append("4"),
        5 => s.append("5"),
        6 => s.append("6"),
        7 => s.append("7"),
        8 => s.append("8"),
        _ => s.append("9"),
    }
    assert(final(s)@ =~= old(s)@ + seq![digit_char(d as int)]);
}

/// Appends the decimal digits of `n` to `s`, most significant first.
fn push_dec_u64(s: &mut String, n: u64)
    ensures
        final(s)@ == old(s)@ + dec_digits(n as int),
    decreases n,
{
    if n >= 10 {
        push_dec_u64(s, n / 10);
        push_digit(s, n % 10);
        assert(final(s)@ =~= old(s)@ + dec_digits(n as int));
    } else {
        push_digit(s, n);
    }
}

/// The decimal rendering of an unsigned number.
pub fn u64_dec_string(n: u64) -> (r: String)
    ensures
        r@ == dec_digits(n as int),
{
    let mut s = String::new();
    push_dec_u64(&mut s, n);
    proof {
        assert(s@ =~= dec_digits(n as int));
    }
    s
}

/// The decimal rendering of a signed number.
pub fn i64_dec_string(n: i64) -> (r: String)
    ensures
        r@ == dec_int(n as int),
{
    if n >= 0 {
        u64_dec_string(n as u64)
    } else {
        proof {
            reveal_strlit("-");
        }
        let mut s = String::from_str("-");
        let magnitude: u64 = ((-(n + 1)) as u64) + 1;
        push_dec_u64(&mut s, magnitude);
        proof {
            assert(s@ =~= dec_int(n as int));
        }
        s
    }
}


/// Appends the decimal digits of a 128-bit number to `s`.
fn push_dec_u128(s: &mut String, n: u128)
    ensures
        final(s)@ == old(s)@ + dec_digits(n as int),
    decreases n,
{
    if n >= 10 {
        push_dec_u128(s, n / 10);
        push_digit(s, (n % 10) as u64);
        assert(final(s)@ =~= old(s)@ + dec_digits(n as int));
    } else {
        push_digit(s, n as u64);
    }
}

/// The decimal rendering of an unsigned 128-bit number.
pub fn u128_dec_string(n: u128) -> (r: String)
    ensures
        r@ == dec_digits(n as int),
{
    let mut s = String::new();
    push_dec_u128(&mut s, n);
    proof {
        assert(s@ =~= dec_digits(n as int));
    }
    s
}

/// The decimal rendering of a signed 128-bit number.
pub fn i128_dec_string(n: i128) -> (r: String)
    ensures
        r@ == dec_int(n as int),
{
    if n >= 0 {
        u128_dec_string(n as u128)
    } else {
        proof {
            reveal_strlit("-");
        }
        let mut s = String::from_str("-");
        let magnitude: u128 = ((-(n + 1)) as u128) + 1;
        push_dec_u128(&mut s, magnitude);
        proof {
            assert(s@ =~= dec_int(n as int));
        }
        s
    }
}

/// The hexadecimal digit character for `d`, which must lie in `0 ..= 15`.
pub open spec fn hex_char(d: int) -> char {
    if d < 10 {
        digit_char(d)
    } else if d == 10 {
        'a'
    } else if d == 11 {
        'b'
    } else if d == 12 {
        'c'
    } else if d == 13 {
        'd'
    } else if d == 14 {
        'e'
    } else {
        'f'
    }
}

/// The hexadecimal digits of a nonnegative number, most significant first.
pub open spec fn hex_digits(n: int) -> Seq<char>
    decreases n,
{
    if n < 16 {
        seq![hex_char(n)]
    } else {
        hex_digits(n / 16).push(hex_char(n % 16))
    }
}

/// Appends the single hexadecimal digit `d` to `s`.
fn push_hex_digit(s: &mut String, d: u64)
    requires
        d <= 15,
    ensures
        final(s)@ == old(s)@ + seq![hex_char(d as int)],
{
    if d < 10 {
        push_digit(s, d);
    } else {
        proof {
            reveal_strlit("a");
            reveal_strlit("b");
            reveal_strlit("c");
            reveal_strlit("d");
            reveal_strlit("e");
            reveal_strlit("f");
        }
        match d {
            10 => s.append("a"),
            11 => s.append("b"),
            12 => s.append("c"),
            13 => s.append("d"),
            14 => s.append("e"),
            _ => s.append("f"),
        }
        assert(final(s)@ =~= old(s)@ + seq![hex_char(d as int)]);
    }
}

/// Appends the hexadecimal digits of `n` to `s`, most significant first.
fn push_hex_u64(s: &mut String, n: u64)
    ensures
        final(s)@ == old(s)@ + hex_digits(n as int),
    decreases n,
{
    if n >= 16 {
        push_hex_u64(s, n / 16);
        push_hex_digit(s, n % 16);
        assert(final(s)@ =~= old(s)@ + hex_digits(n as int));
    } else {
        push_hex_digit(s, n);
    }
}

/// The `0x`-prefixed hexadecimal rendering of an unsigned number.
pub fn u64_hex_string(n: u64) -> (r: String)
    ensures
        r@ == seq!['0', 'x'] + hex_digits(n as int),
{
    proof {
        reveal_strlit("0x");
    }
    let mut s = String::from_str("0x");
    push_hex_u64(&mut s, n);
    proof {
        assert(s@ =~= seq!['0', 'x'] + hex_digits(n as int));
    }
    s
}


} // verus!
