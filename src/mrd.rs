//! The raw acquisition file's header: dimensions and sample type, and where each
//! volume's samples lie. Samples start at byte 512; only complex 32-bit floats
//! are read.
use vstd::prelude::*;
use crate::cfl::{cfl_header, data_bytes, encodes_le, header_text};
use crate::grid::{zero_fill, zero_fill_result, GridError};
use crate::utils::{bytes_to_int, bytes_to_long, le_u16, le_u32};

verus! {

/// Where the samples start.
pub const OFFSET_TO_DATA: u64 = 512;

/// How many header bytes are read.
pub const HEADER_SIZE: usize = 256;

/// The signed value of four bytes at `off`, least significant first.
pub open spec fn long_at(h: Seq<u8>, off: int) -> int {
    let u = le_u32(h.subrange(off, off + 4));
    if u < 0x8000_0000 {
        u
    } else {
        u - 0x1_0000_0000
    }
}

/// The byte offsets of the six dimensions.
pub open spec fn dim_offset(k: int) -> int {
    if k < 4 {
        4 * k
    } else {
        152 + 4 * (k - 4)
    }
}

/// The charcode: a signed 16-bit value at bytes 18 and 19.
pub open spec fn charcode_at(h: Seq<u8>) -> int {
    let u = le_u16(h.subrange(18, 20));
    if u < 0x8000 {
        u
    } else {
        u - 0x1_0000
    }
}

/// The bytes per sample value of a base type, if it is one.
pub open spec fn charbytes_of(base: int) -> Option<nat> {
    if base == 0 || base == 1 {
        Some(1)
    } else if base == 2 || base == 3 {
        Some(2)
    } else if base == 4 || base == 5 {
        Some(4)
    } else if base == 6 {
        Some(8)
    } else {
        None
    }
}

/// The name of a base type code.
pub open spec fn sample_type_name(code: int) -> Option<Seq<char>> {
    if code == 0 {
        Some("uchar"@)
    } else if code == 1 {
        Some("char"@)
    } else if code == 2 {
        Some("short"@)
    } else if code == 3 {
        Some("int"@)
    } else if code == 4 {
        Some("long"@)
    } else if code == 5 {
        Some("float"@)
    } else if code == 6 {
        Some("double"@)
    } else {
        None
    }
}

/// The largest sample count that this reader takes: eight bytes per sample must fit in 64 bits.
pub const MAX_SAMPLES: u64 = 0x1fff_ffff_ffff_ffff;

/// Why a raw header cannot be read.
#[derive(PartialEq, Eq, Debug, Clone, Copy, Structural)]
pub enum MrdError {
    /// Fewer than the header's bytes.
    ShortHeader,
    /// The samples are not complex 32-bit floats.
    UnsupportedRawFormat,
    /// A dimension is below one.
    BadDimensions,
    /// The sample count is beyond what 64-bit byte counts hold.
    TooLarge,
}

/// The header of a raw file.
#[derive(Debug)]
pub struct Mrd {
    pub dimension: [i32; 6],
    pub is_complex: bool,
    pub charbytes: usize,
    /// The base type code, 16 less than the stored charcode for complex data.
    pub charcode: i16,
    /// The number of complex samples of the whole file.
    pub numel: u64,
    /// The number of float values of the whole file.
    pub num_chars: u64,
    pub data_bytes: u64,
    pub bytes_per_vol: u64,
    pub num_vols: u64,
}

pub open spec fn dims_ok(h: Seq<u8>) -> bool {
    forall|k: int| 0 <= k < 6 ==> long_at(h, #[trigger] dim_offset(k)) >= 1
}

pub open spec fn dim(h: Seq<u8>, k: int) -> int {
    long_at(h, dim_offset(k))
}

pub open spec fn sample_count(h: Seq<u8>) -> int {
    dim(h, 0) * dim(h, 1) * dim(h, 2) * dim(h, 3) * dim(h, 4) * dim(h, 5)
}

/// A complex-float charcode: 16 plus 4 or 5.
pub open spec fn complex_float(h: Seq<u8>) -> bool {
    charcode_at(h) >= 16 && charbytes_of(charcode_at(h) - 16) == Some(4nat)
}

fn long_at_exec(h: &[u8], off: usize) -> (r: i32)
    requires
        off + 4 <= h@.len(),
    ensures
        r as int == long_at(h@, off as int),
{
    let b: Vec<u8> = vec![h[off], h[off + 1], h[off + 2], h[off + 3]];
    proof {
        assert(b@ =~= h@.subrange(off as int, off + 4));
    }
    bytes_to_long(b.as_slice())
}

impl Mrd {
    /// Reads a raw file's header bytes.
    pub fn new(header: &[u8]) -> (r: Result<Mrd, MrdError>)
        ensures
            match r {
                Ok(m) => {
                    &&& header@.len() >= HEADER_SIZE
                    &&& complex_float(header@)
                    &&& dims_ok(header@)
                    &&& sample_count(header@) <= MAX_SAMPLES
                    &&& forall|k: int| 0 <= k < 6 ==> m.dimension@[k] as int == #[trigger] dim(header@, k)
                    &&& m.is_complex
                    &&& m.charbytes == 4
                    &&& m.charcode as int == charcode_at(header@) - 16
                    &&& m.numel as int == sample_count(header@)
                    &&& m.num_chars as int == 2 * sample_count(header@)
                    &&& m.data_bytes as int == 8 * sample_count(header@)
                    &&& m.num_vols as int == dim(header@, 3) * dim(header@, 4) * dim(header@, 5)
                    &&& m.bytes_per_vol as int == 8 * (dim(header@, 0) * dim(header@, 1) * dim(header@, 2))
                },
                Err(MrdError::ShortHeader) => header@.len() < HEADER_SIZE,
                Err(MrdError::UnsupportedRawFormat) => header@.len() >= HEADER_SIZE && !complex_float(header@),
                Err(MrdError::BadDimensions) => header@.len() >= HEADER_SIZE && complex_float(header@) && !dims_ok(header@),
                Err(MrdError::TooLarge) => header@.len() >= HEADER_SIZE && complex_float(header@) && dims_ok(header@)
                    && sample_count(header@) > MAX_SAMPLES,
            },
    {
        if header.len() < HEADER_SIZE {
            return Err(MrdError::ShortHeader);
        }
        let cb: Vec<u8> = vec![header[18], header[19]];
        proof {
            assert(cb@ =~= header@.subrange(18, 20));
        }
        let mut charcode = bytes_to_int(cb.as_slice());
        let is_complex = charcode >= 16;
        if is_complex {
            charcode = charcode - 16;
        }
        let charbytes: usize = if charcode == 0 || charcode == 1 {
            1
        } else if charcode == 2 || charcode == 3 {
            2
        } else if charcode == 4 || charcode == 5 {
            4
        } else if charcode == 6 {
            8
        } else {
            0
        };
        if charbytes != 4 || !is_complex {
            return Err(MrdError::UnsupportedRawFormat);
        }
        let d0 = long_at_exec(header, 0);
        let d1 = long_at_exec(header, 4);
        let d2 = long_at_exec(header, 8);
        let d3 = long_at_exec(header, 12);
        let d4 = long_at_exec(header, 152);
        let d5 = long_at_exec(header, 156);
        let dimension: [i32; 6] = [d0, d1, d2, d3, d4, d5];
        proof {
            assert(dim_offset(0) == 0 && dim_offset(1) == 4 && dim_offset(2) == 8);
            assert(dim_offset(3) == 12 && dim_offset(4) == 152 && dim_offset(5) == 156);
        }
        if d0 < 1 || d1 < 1 || d2 < 1 || d3 < 1 || d4 < 1 || d5 < 1 {
            proof {
                assert(!dims_ok(header@)) by {
                    if d0 < 1 {
                        assert(long_at(header@, dim_offset(0)) < 1);
                    } else if d1 < 1 {
                        assert(long_at(header@, dim_offset(1)) < 1);
                    } else if d2 < 1 {
                        assert(long_at(header@, dim_offset(2)) < 1);
                    } else if d3 < 1 {
                        assert(long_at(header@, dim_offset(3)) < 1);
                    } else if d4 < 1 {
                        assert(long_at(header@, dim_offset(4)) < 1);
                    } else {
                        assert(long_at(header@, dim_offset(5)) < 1);
                    }
                }
            }
            return Err(MrdError::BadDimensions);
        }
        proof {
            assert forall|k: int| 0 <= k < 6 implies long_at(header@, #[trigger] dim_offset(k)) >= 1 by {
                if k == 0 {} else if k == 1 {} else if k == 2 {} else if k == 3 {} else if k == 4 {} else {}
            }
        }
        // Products of positive factors below 2^31 each; checked against the cap before
        // every multiplication.
        proof {
            assert((d0 as int) * (d1 as int) < 0x4000_0000_0000_0000) by (nonlinear_arith)
                requires 1 <= d0 < 0x8000_0000, 1 <= d1 < 0x8000_0000;
            assert((d0 as int) * (d1 as int) * (d2 as int) < 0x2000_0000_0000_0000_0000_0000) by (nonlinear_arith)
                requires 1 <= d0 < 0x8000_0000, 1 <= d1 < 0x8000_0000, 1 <= d2 < 0x8000_0000;
            assert((d3 as int) * (d4 as int) < 0x4000_0000_0000_0000) by (nonlinear_arith)
                requires 1 <= d3 < 0x8000_0000, 1 <= d4 < 0x8000_0000;
            assert((d3 as int) * (d4 as int) * (d5 as int) < 0x2000_0000_0000_0000_0000_0000) by (nonlinear_arith)
                requires 1 <= d3 < 0x8000_0000, 1 <= d4 < 0x8000_0000, 1 <= d5 < 0x8000_0000;
        }
        let a: u128 = (d0 as u128) * (d1 as u128);
        let b: u128 = a * (d2 as u128);
        let v: u128 = (d3 as u128) * (d4 as u128);
        let w: u128 = v * (d5 as u128);
        proof {
            assert(b <= 0x7fff_ffff_ffff_ffff_ffff_ffff) by (nonlinear_arith)
                requires b == a * d2, a == d0 * d1, 1 <= d0 < 0x8000_0000, 1 <= d1 < 0x8000_0000, 1 <= d2 < 0x8000_0000;
            assert(w <= 0x7fff_ffff_ffff_ffff_ffff_ffff) by (nonlinear_arith)
                requires w == v * d5, v == d3 * d4, 1 <= d3 < 0x8000_0000, 1 <= d4 < 0x8000_0000, 1 <= d5 < 0x8000_0000;
        }
        proof {
            assert(b >= 1 && w >= 1) by (nonlinear_arith)
                requires b == a * d2, a == d0 * d1, w == v * d5, v == d3 * d4, d0 >= 1, d1 >= 1, d2 >= 1, d3 >= 1, d4 >= 1, d5 >= 1;
            assert(b <= MAX_SAMPLES && w <= MAX_SAMPLES ==> b * w <= MAX_SAMPLES * MAX_SAMPLES) by (nonlinear_arith);
        }
        if b > MAX_SAMPLES as u128 || w > MAX_SAMPLES as u128 || b * w > MAX_SAMPLES as u128 {
            proof {
                assert(sample_count(header@) == b * w) by (nonlinear_arith)
                    requires b == d0 * d1 * d2, w == d3 * d4 * d5,
                        sample_count(header@) == d0 * d1 * d2 * d3 * d4 * d5;
                assert(b * w >= b && b * w >= w) by (nonlinear_arith)
                    requires b >= 1, w >= 1;
            }
            return Err(MrdError::TooLarge);
        }
        proof {
            assert(sample_count(header@) == b * w) by (nonlinear_arith)
                requires b == d0 * d1 * d2, w == d3 * d4 * d5,
                    sample_count(header@) == d0 * d1 * d2 * d3 * d4 * d5;
        }
        let numel: u64 = (b * w) as u64;
        Ok(
            Mrd {
                dimension,
                is_complex,
                charbytes,
                charcode,
                numel,
                num_chars: 2 * numel,
                data_bytes: 8 * numel,
                bytes_per_vol: 8 * (b as u64),
                num_vols: w as u64,
            },
        )
    }

    /// The byte offset of volume `vol_idx` in the file; none past 64-bit offsets.
    pub fn volume_offset(&self, vol_idx: u16) -> (r: Option<u64>)
        ensures
            match r {
                Some(o) => o as int == OFFSET_TO_DATA + vol_idx * self.bytes_per_vol,
                None => OFFSET_TO_DATA + vol_idx * self.bytes_per_vol > u64::MAX,
            },
    {
        proof {
            assert((vol_idx as int) * (self.bytes_per_vol as int) <= 0xffff * 0xffff_ffff_ffff_ffff) by (nonlinear_arith)
                requires vol_idx <= 0xffff, self.bytes_per_vol <= 0xffff_ffff_ffff_ffff;
        }
        let o: u128 = OFFSET_TO_DATA as u128 + (vol_idx as u128) * (self.bytes_per_vol as u128);
        if o > u64::MAX as u128 {
            None
        } else {
            Some(o as u64)
        }
    }

    /// The shape of one volume's samples: lines, readout length, and the complex pair.
    pub fn dim_tuple(&self) -> (r: (u64, u64, u64))
        requires
            self.dimension@[1] >= 1 && self.dimension@[2] >= 1 && self.dimension@[0] >= 1,
        ensures
            r == ((self.dimension@[1] * self.dimension@[2]) as u64, self.dimension@[0] as u64, (if self.is_complex {
                2u64
            } else {
                1u64
            })),
    {
        proof {
            assert((self.dimension@[1] as int) * (self.dimension@[2] as int) < 0x1_0000_0000_0000_0000) by (nonlinear_arith)
                requires 1 <= self.dimension@[1] < 0x8000_0000, 1 <= self.dimension@[2] < 0x8000_0000;
        }
        let l: u64 = (self.dimension[1] as u64) * (self.dimension[2] as u64);
        (l, self.dimension[0] as u64, if self.is_complex { 2 } else { 1 })
    }

    /// The name of the base sample type.
    pub fn data_type(&self) -> (r: Option<&'static str>)
        ensures
            match r {
                Some(n) => sample_type_name(self.charcode as int) == Some(n@),
                None => sample_type_name(self.charcode as int).is_none(),
            },
    {
        match self.charcode {
            0 => Some("uchar"),
            1 => Some("char"),
            2 => Some("short"),
            3 => Some("int"),
            4 => Some("long"),
            5 => Some("float"),
            6 => Some("double"),
            _ => None,
        }
    }

    /// Zero-fills one volume's sample words onto a `size` by `size` grid at the cells
    /// `indices`: each line holds `2 * d0` words (the readout's complex pairs).
    pub fn zero_fill(&self, vol_words: &Vec<u32>, size: usize, indices: &Vec<(usize, usize)>) -> (r: Result<Vec<u32>, GridError>)
        requires
            self.dimension@[0] >= 1,
        ensures
            zero_fill_result(vol_words@, (2 * self.dimension@[0]) as usize, size, indices@, r),
    {
        let row: usize = 2 * (self.dimension[0] as usize);
        zero_fill(vol_words, row, size, indices)
    }

    /// The number of float values of one volume: readout length, the two phase
    /// dimensions, and the complex pair.
    pub fn numel(&self) -> (r: u128)
        requires
            1 <= self.dimension@[0] && 1 <= self.dimension@[1] && 1 <= self.dimension@[2],
        ensures
            r as int == self.dimension@[0] * self.dimension@[1] * self.dimension@[2] * (if self.is_complex {
                2int
            } else {
                1int
            }),
    {
        let d0 = self.dimension[0] as u128;
        let d1 = self.dimension[1] as u128;
        let d2 = self.dimension[2] as u128;
        proof {
            assert(1 <= d0 * d1 < 0x4000_0000_0000_0000) by (nonlinear_arith)
                requires 1 <= d0 < 0x8000_0000, 1 <= d1 < 0x8000_0000;
        }
        let a = d0 * d1;
        proof {
            assert(a * d2 < 0x2000_0000_0000_0000_0000_0000) by (nonlinear_arith)
                requires 1 <= a < 0x4000_0000_0000_0000, 1 <= d2 < 0x8000_0000;
        }
        let n = a * d2;
        if self.is_complex {
            n * 2
        } else {
            n
        }
    }

    /// The array files of one zero-filled volume: the data bytes of the grid, and the
    /// header of a `d0` by `size` by `size` array.
    pub fn write_zero_filled_cfl(&self, vol_words: &Vec<u32>, size: usize, indices: &Vec<(usize, usize)>) -> (r: Result<(Vec<u8>, String), GridError>)
        requires
            self.dimension@[0] >= 1,
        ensures
            match r {
                Ok((bytes, header)) => exists|g: Vec<u32>|
                    {
                        &&& #[trigger] zero_fill_result(vol_words@, (2 * self.dimension@[0]) as usize, size, indices@, Ok(g))
                        &&& encodes_le(g@, bytes@)
                        &&& header@ == header_text(seq![self.dimension@[0] as usize, size, size])
                    },
                Err(GridError::TooLarge) => 4 * (size * size * (2 * self.dimension@[0])) > usize::MAX,
                Err(e) => zero_fill_result(vol_words@, (2 * self.dimension@[0]) as usize, size, indices@, Err(e)),
            },
    {
        let zr = self.zero_fill(vol_words, size, indices);
        let g = match zr {
            Ok(g) => g,
            Err(e) => {
                proof {
                    if e == GridError::TooLarge {
                        let m = size * size * (2 * self.dimension@[0]);
                        assert(m > usize::MAX);
                        assert(4 * m > usize::MAX) by (nonlinear_arith)
                            requires m > usize::MAX;
                    }
                }
                return Err(e);
            },
        };
        proof {
            assert(zero_fill_result(vol_words@, (2 * self.dimension@[0]) as usize, size, indices@, Ok(g)));
            assert(g@.len() == size * size * ((2 * self.dimension@[0]) as usize));
        }
        if g.len() > usize::MAX / 4 {
            proof {
                let m = size * size * (2 * self.dimension@[0]);
                assert(4 * m > usize::MAX) by (nonlinear_arith)
                    requires m == g@.len(), g@.len() > usize::MAX / 4;
            }
            return Err(GridError::TooLarge);
        }
        let bytes = data_bytes(&g);
        let dims: Vec<usize> = vec![self.dimension[0] as usize, size, size];
        proof {
            assert(dims@ =~= seq![self.dimension@[0] as usize, size, size]);
        }
        let header = cfl_header(&dims);
        proof {
            assert(zero_fill_result(vol_words@, (2 * self.dimension@[0]) as usize, size, indices@, Ok(g))
                && encodes_le(g@, bytes@) && header@ == header_text(seq![self.dimension@[0] as usize, size, size]));
        }
        Ok((bytes, header))
    }
}

} // verus!
