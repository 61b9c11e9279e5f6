use vstd::prelude::*;
use crate::shim::char_from_u32;

verus! {

// Base-type encodings as the debug-information format defines them
// (section 7.8 of the DWARF standard).
pub const ENC_ADDRESS: u8 = 0x01;

pub const ENC_BOOLEAN: u8 = 0x02;

pub const ENC_FLOAT: u8 = 0x04;

pub const ENC_SIGNED: u8 = 0x05;

pub const ENC_SIGNED_CHAR: u8 = 0x06;

pub const ENC_UNSIGNED: u8 = 0x07;

pub const ENC_UNSIGNED_CHAR: u8 = 0x08;

pub const ENC_UTF: u8 = 0x10;

pub const ENC_ASCII: u8 = 0x12;

/// A decoded scalar value.
///
/// Floating-point values are carried as their IEEE-754 bit patterns: the
/// core never computes with them, it only decodes and displays them, and the
/// consumer reinterprets the bits.  Target `usize` / `isize` values are
/// carried as 64-bit numbers of the target's word width.
#[derive(Clone, Copy)]
pub enum SupportedScalar {
    I8(i8),
    I16(i16),
    I32(i32),
    I64(i64),
    I128(i128),
    Isize(i64),
    U8(u8),
    U16(u16),
    U32(u32),
    U64(u64),
    U128(u128),
    Usize(u64),
    F32Bits(u32),
    F64Bits(u64),
    Bool(bool),
    Char(char),
    Empty,
}

/// 256 raised to `n`: the number of values of an `n`-byte buffer.
pub open spec fn pow256(n: nat) -> nat
    decreases n,
{
    if n == 0 {
        1
    } else {
        256 * pow256((n - 1) as nat)
    }
}

/// The unsigned value of a little-endian byte buffer.
pub open spec fn le_value(s: Seq<u8>) -> nat
    decreases s.len(),
{
    if s.len() == 0 {
        0
    } else {
        s[0] as nat + 256 * le_value(s.skip(1))
    }
}

/// The two's-complement value of a little-endian byte buffer.
pub open spec fn le_signed_value(s: Seq<u8>) -> int {
    if le_value(s) < pow256(s.len()) / 2 {
        le_value(s) as int
    } else {
        le_value(s) - pow256(s.len())
    }
}

pub proof fn lemma_le_value_bound(s: Seq<u8>)
    ensures
        le_value(s) < pow256(s.len()),
    decreases s.len(),
{
    if s.len() > 0 {
        lemma_le_value_bound(s.skip(1));
    }
}

/// The concrete powers of 256 the decoder works with.
pub proof fn lemma_pow256_values()
    ensures
        pow256(1) == 0x100,
        pow256(2) == 0x10000,
        pow256(4) == 0x100000000,
        pow256(8) == 0x10000000000000000,
        pow256(16) == 0x100000000000000000000000000000000,
{
    reveal_with_fuel(pow256, 17);
}

proof fn lemma_pow256_mono(a: nat, b: nat)
    requires
        a <= b,
    ensures
        pow256(a) <= pow256(b),
    decreases b,
{
    if a < b && b > 0 {
        lemma_pow256_mono(a, (b - 1) as nat);
    }
}

/// Decodes a little-endian buffer of at most 16 bytes into its unsigned
/// value.
pub fn le_u128(b: &Vec<u8>) -> (r: u128)
    requires
        b@.len() <= 16,
    ensures
        r == le_value(b@),
{
    proof {
        lemma_pow256_values();
    }
    let mut acc: u128 = 0;
    let mut i: usize = b.len();
    while i > 0
        invariant
            i <= b@.len() <= 16,
            acc == le_value(b@.skip(i as int)),
            pow256(16) == 0x100000000000000000000000000000000,
        decreases i,
    {
        proof {
            lemma_le_value_bound(b@.skip(i - 1));
            lemma_pow256_mono(b@.skip(i - 1).len() as nat, 16);
            assert(b@.skip(i - 1).skip(1) =~= b@.skip(i as int));
        }
        i = i - 1;
        acc = acc * 256 + (b[i] as u128);
    }
    proof {
        assert(b@.skip(0) =~= b@);
    }
    acc
}

/// Decodes a little-endian buffer of 1, 2, 4 or 8 bytes into its
/// two's-complement value, widened to `i128`.
fn le_i128_narrow(b: &Vec<u8>) -> (r: i128)
    requires
        b@.len() == 1 || b@.len() == 2 || b@.len() == 4 || b@.len() == 8,
    ensures
        r == le_signed_value(b@),
{
    let u = le_u128(b);
    let half: u128 = if b.len() == 1 {
        0x80
    } else if b.len() == 2 {
        0x8000
    } else if b.len() == 4 {
        0x80000000
    } else {
        0x8000000000000000
    };
    proof {
        lemma_le_value_bound(b@);
        lemma_pow256_values();
    }
    if u < half {
        u as i128
    } else {
        (u as i128) - 2 * (half as i128)
    }
}

/// Decodes a 16-byte little-endian buffer into its two's-complement value.
fn le_i128_wide(b: &Vec<u8>) -> (r: i128)
    requires
        b@.len() == 16,
    ensures
        r as int == le_signed_value(b@),
{
    let u = le_u128(b);
    proof {
        lemma_le_value_bound(b@);
        lemma_pow256_values();
    }
    if u < 0x80000000000000000000000000000000 {
        u as i128
    } else {
        ((u - 0x80000000000000000000000000000000) as i128) + i128::MIN
    }
}

/// The decision table of the scalar decoder: what value a byte buffer holds
/// for a given base-type encoding and byte size.
///
/// A combination outside the table, a missing buffer, and a buffer whose
/// length does not match the declared byte size all decode to `None`; a
/// signed or unsigned declaration of size zero decodes to the unit value.
pub open spec fn spec_decode_scalar(
    encoding: Option<u8>,
    byte_size: Option<u64>,
    bytes: Option<Seq<u8>>,
) -> Option<SupportedScalar> {
    match encoding {
        None => None,
        Some(e) => {
            let sz: int = match byte_size {
                Some(s) => s as int,
                None => 0,
            };
            if e == ENC_SIGNED || e == ENC_UNSIGNED {
                if sz == 0 {
                    Some(SupportedScalar::Empty)
                } else if sz == 1 || sz == 2 || sz == 4 || sz == 8 || sz == 16 {
                    match bytes {
                        Some(b) => if b.len() == sz {
                            Some(spec_decode_integer(e == ENC_SIGNED, b))
                        } else {
                            None
                        },
                        None => None,
                    }
                } else {
                    None
                }
            } else {
                match bytes {
                    Some(b) => spec_decode_sized(e, sz, b),
                    None => None,
                }
            }
        },
    }
}

/// The integer rows of the decision table: a signed or unsigned buffer of
/// size 1, 2, 4, 8 or 16 decodes to the correspondingly tagged integer.
pub open spec fn spec_decode_integer(signed: bool, b: Seq<u8>) -> SupportedScalar {
    if signed {
        if b.len() == 1 {
            SupportedScalar::I8(le_signed_value(b) as i8)
        } else if b.len() == 2 {
            SupportedScalar::I16(le_signed_value(b) as i16)
        } else if b.len() == 4 {
            SupportedScalar::I32(le_signed_value(b) as i32)
        } else if b.len() == 8 {
            SupportedScalar::I64(le_signed_value(b) as i64)
        } else {
            SupportedScalar::I128(le_signed_value(b) as i128)
        }
    } else {
        if b.len() == 1 {
            SupportedScalar::U8(le_value(b) as u8)
        } else if b.len() == 2 {
            SupportedScalar::U16(le_value(b) as u16)
        } else if b.len() == 4 {
            SupportedScalar::U32(le_value(b) as u32)
        } else if b.len() == 8 {
            SupportedScalar::U64(le_value(b) as u64)
        } else {
            SupportedScalar::U128(le_value(b) as u128)
        }
    }
}

/// The remaining rows of the decision table: address, boolean, float,
/// character rows, each defined at a single byte size.
pub open spec fn spec_decode_sized(e: u8, sz: int, b: Seq<u8>) -> Option<SupportedScalar> {
    if b.len() != sz {
        None
    } else if e == ENC_ADDRESS && sz == 8 {
        Some(SupportedScalar::Usize(le_value(b) as u64))
    } else if e == ENC_BOOLEAN && sz == 1 {
        Some(SupportedScalar::Bool(b[0] != 0))
    } else if e == ENC_FLOAT && sz == 4 {
        Some(SupportedScalar::F32Bits(le_value(b) as u32))
    } else if e == ENC_FLOAT && sz == 8 {
        Some(SupportedScalar::F64Bits(le_value(b) as u64))
    } else if e == ENC_SIGNED_CHAR && sz == 1 {
        Some(SupportedScalar::I8(le_signed_value(b) as i8))
    } else if e == ENC_UNSIGNED_CHAR && sz == 1 {
        Some(SupportedScalar::U8(le_value(b) as u8))
    } else if (e == ENC_UTF || e == ENC_ASCII) && sz == 4 {
        let v = le_value(b) as u32;
        if v < 0xD800 || (0xE000 <= v && v <= 0x10FFFF) {
            Some(SupportedScalar::Char(v as char))
        } else {
            None
        }
    } else {
        None
    }
}

/// Decodes a byte buffer as the decision table prescribes.
pub fn decode_scalar(encoding: Option<u8>, byte_size: Option<u64>, bytes: Option<&Vec<u8>>) -> (r:
    Option<SupportedScalar>)
    ensures
        r == spec_decode_scalar(
            encoding,
            byte_size,
            match bytes {
                Some(b) => Some(b@),
                None => None,
            },
        ),
{
    let e = match encoding {
        Some(e) => e,
        None => {
            return None;
        },
    };
    let sz: u64 = match byte_size {
        Some(s) => s,
        None => 0,
    };
    if e == ENC_SIGNED || e == ENC_UNSIGNED {
        if sz == 0 {
            return Some(SupportedScalar::Empty);
        }
        if !(sz == 1 || sz == 2 || sz == 4 || sz == 8 || sz == 16) {
            return None;
        }
        let b = match bytes {
            Some(b) => b,
            None => {
                return None;
            },
        };
        if b.len() as u64 != sz {
            return None;
        }
        Some(decode_integer(e == ENC_SIGNED, b))
    } else {
        let b = match bytes {
            Some(b) => b,
            None => {
                return None;
            },
        };
        decode_sized(e, sz, b)
    }
}

/// Decodes an integer buffer of size 1, 2, 4, 8 or 16.
fn decode_integer(signed: bool, b: &Vec<u8>) -> (r: SupportedScalar)
    requires
        b@.len() == 1 || b@.len() == 2 || b@.len() == 4 || b@.len() == 8 || b@.len() == 16,
    ensures
        r == spec_decode_integer(signed, b@),
{
    proof {
        lemma_le_value_bound(b@);
        lemma_pow256_values();
    }
    if signed {
        if b.len() == 16 {
            SupportedScalar::I128(le_i128_wide(b))
        } else {
            let v = le_i128_narrow(b);
            if b.len() == 1 {
                SupportedScalar::I8(v as i8)
            } else if b.len() == 2 {
                SupportedScalar::I16(v as i16)
            } else if b.len() == 4 {
                SupportedScalar::I32(v as i32)
            } else {
                SupportedScalar::I64(v as i64)
            }
        }
    } else {
        let v = le_u128(b);
        if b.len() == 1 {
            SupportedScalar::U8(v as u8)
        } else if b.len() == 2 {
            SupportedScalar::U16(v as u16)
        } else if b.len() == 4 {
            SupportedScalar::U32(v as u32)
        } else if b.len() == 8 {
            SupportedScalar::U64(v as u64)
        } else {
            SupportedScalar::U128(v)
        }
    }
}

/// Decodes the address, boolean, float and character rows.
fn decode_sized(e: u8, sz: u64, b: &Vec<u8>) -> (r: Option<SupportedScalar>)
    requires
        e != ENC_SIGNED && e != ENC_UNSIGNED,
    ensures
        r == spec_decode_sized(e, sz as int, b@),
{
    if b.len() as u64 != sz {
        return None;
    }
    proof {
        lemma_le_value_bound(b@);
        lemma_pow256_values();
    }
    if e == ENC_ADDRESS && sz == 8 {
        Some(SupportedScalar::Usize(le_u128(b) as u64))
    } else if e == ENC_BOOLEAN && sz == 1 {
        Some(SupportedScalar::Bool(b[0] != 0))
    } else if e == ENC_FLOAT && sz == 4 {
        Some(SupportedScalar::F32Bits(le_u128(b) as u32))
    } else if e == ENC_FLOAT && sz == 8 {
        Some(SupportedScalar::F64Bits(le_u128(b) as u64))
    } else if e == ENC_SIGNED_CHAR && sz == 1 {
        let v = le_i128_narrow(b);
        Some(SupportedScalar::I8(v as i8))
    } else if e == ENC_UNSIGNED_CHAR && sz == 1 {
        Some(SupportedScalar::U8(le_u128(b) as u8))
    } else if (e == ENC_UTF || e == ENC_ASCII) && sz == 4 {
        let v = le_u128(b) as u32;
        match char_from_u32(v) {
            Some(c) => {
                proof {
                    vstd::utf8::char_u32_cast(c, v);
                }
                Some(SupportedScalar::Char(c))
            },
            None => None,
        }
    } else {
        None
    }
}

/// The value `n` wrapped into the range of `i64`: its low 64 bits, read as
/// a two's-complement number.
pub open spec fn wrap_to_i64(n: int) -> int {
    let m = n % 0x10000000000000000;
    if m < 0x8000000000000000 {
        m
    } else {
        m - 0x10000000000000000
    }
}

/// The signed-to-`i64` promotion of a scalar: defined for every signed and
/// unsigned integer tag, absent for floats, booleans, characters and unit.
/// A value outside the range of `i64` wraps, as a plain `as` conversion
/// does.
pub open spec fn spec_try_as_number(v: Option<SupportedScalar>) -> Option<i64> {
    match v {
        Some(SupportedScalar::I8(n)) => Some(n as i64),
        Some(SupportedScalar::I16(n)) => Some(n as i64),
        Some(SupportedScalar::I32(n)) => Some(n as i64),
        Some(SupportedScalar::I64(n)) => Some(n),
        Some(SupportedScalar::I128(n)) => Some(wrap_to_i64(n as int) as i64),
        Some(SupportedScalar::Isize(n)) => Some(n),
        Some(SupportedScalar::U8(n)) => Some(n as i64),
        Some(SupportedScalar::U16(n)) => Some(n as i64),
        Some(SupportedScalar::U32(n)) => Some(n as i64),
        Some(SupportedScalar::U64(n)) => Some(wrap_to_i64(n as int) as i64),
        Some(SupportedScalar::U128(n)) => Some(wrap_to_i64(n as int) as i64),
        Some(SupportedScalar::Usize(n)) => Some(wrap_to_i64(n as int) as i64),
        _ => None,
    }
}

/// Promotes an unsigned 64-bit value to `i64`, wrapping above `i64::MAX`.
pub fn u64_wrap_to_i64(n: u64) -> (r: i64)
    ensures
        r as int == wrap_to_i64(n as int),
{
    proof {
        vstd::arithmetic::div_mod::lemma_small_mod(n as nat, 0x10000000000000000nat);
    }
    if n < 0x8000000000000000 {
        n as i64
    } else {
        ((n - 0x8000000000000000) as i64) + i64::MIN
    }
}

/// Promotes an unsigned 128-bit value to `i64`, keeping its low 64 bits.
pub fn u128_wrap_to_i64(n: u128) -> (r: i64)
    ensures
        r as int == wrap_to_i64(n as int),
{
    let low: u64 = (n % 0x10000000000000000) as u64;
    proof {
        vstd::arithmetic::div_mod::lemma_small_mod(low as nat, 0x10000000000000000nat);
    }
    u64_wrap_to_i64(low)
}

/// Promotes a signed 128-bit value to `i64`, keeping its low 64 bits.
pub fn i128_wrap_to_i64(n: i128) -> (r: i64)
    ensures
        r as int == wrap_to_i64(n as int),
{
    if n >= 0 {
        u128_wrap_to_i64(n as u128)
    } else {
        let shifted: i128 = (n + 0x40000000000000000000000000000000)
            + 0x40000000000000000000000000000000;
        proof {
            vstd::arithmetic::div_mod::lemma_mod_multiples_vanish(
                0x8000000000000000,
                n as int,
                0x10000000000000000,
            );
        }
        u128_wrap_to_i64(shifted as u128)
    }
}

} // verus!
