use cs_reco::pe_table::{PeTableError, Petable};

#[test]
fn pe_table_test() {
    let (size, compression) = Petable::table_params("stream_CS480_8x_pa18_pb54").unwrap();
    println!("compression = {}", compression);
    println!("size = {}", size);
    assert_eq!(size, 480);
    assert_eq!(compression, 8);
}

#[test]
fn table_name_errors() {
    assert_eq!(Petable::table_params("stream_cs256_16x_a").unwrap(), (256, 16));
    assert_eq!(Petable::table_params("stream_256_8x_"), Err(PeTableError::NameMismatch));
    assert_eq!(Petable::table_params("_CS99999999999999999999999_8x_"), Err(PeTableError::BadSize));
    assert_eq!(Petable::table_params("_CS4_99999999999x_"), Err(PeTableError::BadCompression));
}

#[test]
fn table_values_and_indices() {
    let t = Petable::new("stream_CS4_2x_p", "-2\r\n1\r\n0\r\n-1\r\nx\r\n1\n2\r\n3").unwrap();
    assert_eq!(t.values, vec![-2, 1, 0, -1, 3]);
    assert_eq!(t.coordinates(), vec![(-2, 1), (0, -1)]);
    assert_eq!(t.indices(), Ok(vec![(0, 3), (2, 1)]));
    let bad = Petable::new("a_CS2_2x_", "-5\r\n0").unwrap();
    assert_eq!(bad.indices(), Err(PeTableError::OutOfRange));
    assert!(matches!(Petable::new("plain", "1\r\n2"), Err(PeTableError::NameMismatch)));
}

#[test]
fn group_texts_to_params() {
    assert_eq!(Petable::params_from_groups("480", "8"), Ok((480, 8)));
    assert_eq!(Petable::params_from_groups("", "8"), Err(PeTableError::BadSize));
    assert_eq!(Petable::params_from_groups("4", "x"), Err(PeTableError::BadCompression));
}
