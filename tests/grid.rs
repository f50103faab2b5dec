use cs_reco::cfl::{cfl_header, data_bytes, get_dims, load, load_cfl_header, u16_bytes, CflError};
use cs_reco::grid::{zero_fill, GridError};
use cs_reco::mrd::{Mrd, MrdError};
use cs_reco::quantize::{scale_index, slice_bytes, slice_values};

#[test]
fn phase_table_miscount_writes_only_listed_lines() {
    let n_readout = 3;
    let row = 2 * n_readout;
    let n_lines = 100;
    let raw: Vec<u32> = (0..(n_lines * row) as u32).map(|v| v + 1).collect();
    let size = 10;
    let idx: Vec<(usize, usize)> = (0..99).map(|i| (i / 10, i % 10)).collect();
    let g = zero_fill(&raw, row, size, &idx).unwrap();
    assert_eq!(g.len(), size * size * row);
    for i in 0..99 {
        let (ky, kz) = idx[i];
        for t in 0..row {
            assert_eq!(g[(ky * size + kz) * row + t], raw[i * row + t]);
        }
    }
    for t in 0..row {
        assert_eq!(g[(9 * size + 9) * row + t], 0);
    }
}

#[test]
fn later_line_replaces_earlier_at_same_cell() {
    let raw = vec![1, 2, 3, 4];
    let g = zero_fill(&raw, 2, 2, &vec![(1, 0), (1, 0)]).unwrap();
    assert_eq!(g, vec![0, 0, 0, 0, 3, 4, 0, 0]);
}

#[test]
fn zero_fill_errors() {
    let raw = vec![1, 2, 3, 4];
    assert_eq!(zero_fill(&raw, 2, 2, &vec![(2, 0)]), Err(GridError::OutOfGrid));
    assert_eq!(zero_fill(&raw, 2, 2, &vec![(0, 0), (0, 1), (1, 1)]), Err(GridError::TooManyLines));
    assert_eq!(zero_fill(&raw, 2, usize::MAX, &vec![]), Err(GridError::TooLarge));
}

#[test]
fn grid_round_trip() {
    let words: Vec<u32> = vec![0, 1, 0x3f80_0000, 0xdead_beef, u32::MAX];
    let bytes = data_bytes(&words);
    assert_eq!(&bytes[..8], &[0, 0, 0, 0, 1, 0, 0, 0]);
    assert_eq!(&bytes[8..12], &[0x00, 0x00, 0x80, 0x3f]);
    assert_eq!(load(&bytes), Some(words.clone()));
    let floats: Vec<f32> = load(&bytes).unwrap().into_iter().map(f32::from_bits).collect();
    assert_eq!(floats[2], 1.0f32);
    assert_eq!(load(&vec![1, 2, 3]), None);
    let h = cfl_header(&vec![480, 1, 256]);
    assert_eq!(h, "# Dimensions\n480 1 256 1 1");
    assert_eq!(get_dims(&h), Ok(vec![480, 1, 256]));
    assert_eq!(get_dims(&cfl_header(&vec![4, 1, 3])), Ok(vec![4, 1, 3]));
    assert_eq!(get_dims(&cfl_header(&vec![4, 3, 1])), Ok(vec![4, 3]));
    let h3 = cfl_header(&vec![64, 480, 480]);
    assert_eq!(h3, "# Dimensions\n64 480 480 1 1");
    assert_eq!(get_dims(&h3), Ok(vec![64, 480, 480]));
}

#[test]
fn header_errors() {
    assert_eq!(get_dims("# Size\n3 4"), Err(CflError::NoDimensions));
    assert!(matches!(load_cfl_header("x\n# Dimensions"), Err(CflError::MissingValue)));
    assert_eq!(get_dims("# Dimensions\n 2 x 1 5\n# Other\ny"), Ok(vec![2, 1, 5]));
}

fn header_bytes(dims: [i32; 6], charcode: i16) -> Vec<u8> {
    let mut h = vec![0u8; 512];
    let offs = [0usize, 4, 8, 12, 152, 156];
    for k in 0..6 {
        h[offs[k]..offs[k] + 4].copy_from_slice(&dims[k].to_le_bytes());
    }
    h[18..20].copy_from_slice(&charcode.to_le_bytes());
    h
}

#[test]
fn raw_header_reading() {
    let h = header_bytes([64, 10, 10, 3, 1, 1], 21);
    let m = Mrd::new(&h).unwrap();
    assert_eq!(m.dimension, [64, 10, 10, 3, 1, 1]);
    assert_eq!(m.charbytes, 4);
    assert_eq!(m.charcode, 5);
    assert_eq!(m.numel, 64 * 100 * 3);
    assert_eq!(m.data_bytes, 8 * 64 * 100 * 3);
    assert_eq!(m.num_vols, 3);
    assert_eq!(m.bytes_per_vol, 8 * 6400);
    assert_eq!(m.volume_offset(2), Some(512 + 2 * 8 * 6400));
    assert_eq!(m.dim_tuple(), (100, 64, 2));
    assert_eq!(m.data_type(), Some("float"));
    assert!(matches!(Mrd::new(&h[..100]), Err(MrdError::ShortHeader)));
    assert!(matches!(Mrd::new(&header_bytes([64, 10, 10, 3, 1, 1], 5)), Err(MrdError::UnsupportedRawFormat)));
    assert!(matches!(Mrd::new(&header_bytes([64, 10, 10, 3, 1, 1], 22)), Err(MrdError::UnsupportedRawFormat)));
    assert!(matches!(Mrd::new(&header_bytes([64, 0, 10, 3, 1, 1], 20)), Err(MrdError::BadDimensions)));
    assert!(matches!(Mrd::new(&header_bytes([i32::MAX; 6], 20)), Err(MrdError::TooLarge)));
}

#[test]
fn raw_volume_zero_fill() {
    let m = Mrd::new(&header_bytes([2, 2, 1, 1, 1, 1], 20)).unwrap();
    let words = vec![1, 2, 3, 4, 5, 6, 7, 8];
    let g = m.zero_fill(&words, 2, &vec![(1, 1), (0, 0)]).unwrap();
    assert_eq!(g, vec![5, 6, 7, 8, 0, 0, 0, 0, 0, 0, 0, 0, 1, 2, 3, 4]);
}

#[test]
fn slices_and_scale_index() {
    let values: Vec<u16> = (0..24).collect();
    let s = slice_values(&values, 4, 3, 2, 1);
    assert_eq!(s, vec![4, 5, 6, 7, 16, 17, 18, 19]);
    let b = slice_bytes(&values, 4, 3, 2, 1);
    assert_eq!(b, vec![0, 4, 0, 5, 0, 6, 0, 7, 0, 16, 0, 17, 0, 18, 0, 19]);
    assert_eq!(u16_bytes(&vec![0x1234]), vec![0x12, 0x34]);
    assert_eq!(scale_index(10000, 5), Some(9996));
    assert_eq!(scale_index(10, 0), Some(9));
    assert_eq!(scale_index(10, 1), Some(9));
    assert_eq!(scale_index(10, 2), Some(9));
    assert_eq!(scale_index(3, 4), Some(0));
    assert_eq!(scale_index(3, 9), Some(0));
    assert_eq!(scale_index(0, 0), None);
}

#[test]
fn zero_filled_array_files() {
    let m = Mrd::new(&header_bytes([1, 2, 1, 1, 1, 1], 20)).unwrap();
    assert_eq!(m.numel(), 4);
    let (data, header) = m.write_zero_filled_cfl(&vec![7, 8, 9, 10], 2, &vec![(0, 1), (1, 0)]).unwrap();
    assert_eq!(header, "# Dimensions\n1 2 2 1 1");
    assert_eq!(load(&data), Some(vec![0, 0, 7, 8, 9, 10, 0, 0]));
    assert_eq!(get_dims(&header), Ok(vec![1, 2, 2]));
    assert!(matches!(m.write_zero_filled_cfl(&vec![7, 8], 2, &vec![(0, 2)]), Err(GridError::OutOfGrid)));
}
