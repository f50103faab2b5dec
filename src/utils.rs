//! Small conversions: little-endian integers from bytes, numbers to text, and
//! trimming a line ending.
use vstd::prelude::*;
use crate::text::{decimal, decimal_string, push_char};

verus! {

/// The numbers in decimal with a space between them.
pub open spec fn spaced_decimals(v: Seq<usize>) -> Seq<char>
    decreases v.len(),
{
    if v.len() == 0 {
        Seq::empty()
    } else if v.len() == 1 {
        decimal(v[0] as nat)
    } else {
        spaced_decimals(v.drop_last()).push(' ') + decimal(v.last() as nat)
    }
}

/// Writes the numbers in decimal with a space between them.
pub fn vec_to_string(vec: &Vec<usize>) -> (r: String)
    ensures
        r@ == spaced_decimals(vec@),
{
    let mut s = String::new();
    let mut i: usize = 0;
    while i < vec.len()
        invariant
            i <= vec@.len(),
            s@ == spaced_decimals(vec@.take(i as int)),
        decreases vec.len() - i,
    {
        proof {
            assert(vec@.take(i + 1).drop_last() == vec@.take(i as int));
        }
        if i > 0 {
            push_char(&mut s, ' ');
        }
        let d = decimal_string(vec[i] as u64);
        s.append(d.as_str());
        i = i + 1;
    }
    proof {
        assert(vec@.take(vec@.len() as int) == vec@);
    }
    s
}

/// The unsigned value of four bytes, least significant first.
pub open spec fn le_u32(b: Seq<u8>) -> int {
    b[0] as int + 256 * b[1] as int + 65536 * b[2] as int + 16777216 * b[3] as int
}

/// The unsigned value of two bytes, least significant first.
pub open spec fn le_u16(b: Seq<u8>) -> int {
    b[0] as int + 256 * b[1] as int
}

/// Reads a signed 32-bit integer from four bytes, least significant first.
pub fn bytes_to_long(byte_slice: &[u8]) -> (r: i32)
    requires
        byte_slice@.len() == 4,
    ensures
        r as int == (if le_u32(byte_slice@) < 0x8000_0000 {
            le_u32(byte_slice@)
        } else {
            le_u32(byte_slice@) - 0x1_0000_0000
        }),
{
    let u: u64 = byte_slice[0] as u64 + 256 * (byte_slice[1] as u64) + 65536 * (byte_slice[2] as u64)
        + 16777216 * (byte_slice[3] as u64);
    if u < 0x8000_0000 {
        u as i32
    } else {
        (u as i64 - 0x1_0000_0000) as i32
    }
}

/// Reads a signed 16-bit integer from two bytes, least significant first.
pub fn bytes_to_int(byte_slice: &[u8]) -> (r: i16)
    requires
        byte_slice@.len() == 2,
    ensures
        r as int == (if le_u16(byte_slice@) < 0x8000 {
            le_u16(byte_slice@)
        } else {
            le_u16(byte_slice@) - 0x1_0000
        }),
{
    let u: u32 = byte_slice[0] as u32 + 256 * (byte_slice[1] as u32);
    if u < 0x8000 {
        u as i16
    } else {
        (u as i32 - 0x1_0000) as i16
    }
}

/// `s` without a final `\n`, and then without a `\r` before it.
pub open spec fn without_newline(s: Seq<char>) -> Seq<char> {
    if s.len() > 0 && s.last() == '\n' {
        let t = s.drop_last();
        if t.len() > 0 && t.last() == '\r' {
            t.drop_last()
        } else {
            t
        }
    } else {
        s
    }
}

/// Removes a final line ending, `\n` or `\r\n`.
pub fn trim_newline(s: &mut String)
    ensures
        final(s)@ == without_newline(old(s)@),
{
    let n = s.as_str().unicode_len();
    if n > 0 && s.as_str().get_char(n - 1) == '\n' {
        let t = String::from_str(s.as_str().substring_char(0, n - 1));
        let m = n - 1;
        if m > 0 && t.as_str().get_char(m - 1) == '\r' {
            *s = String::from_str(t.as_str().substring_char(0, m - 1));
        } else {
            *s = t;
        }
    }
}

} // verus!
