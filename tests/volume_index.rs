use cs_reco::volume_index::{IndexError, VolumeIndex};

#[test]
fn volume_index_test() {
    let text = "220816T11_m00.mrd 0\n220816T11_m01.mrd\n220816T11_m02.mrd 2\n";
    let h = VolumeIndex::read_ready(text);
    let h1 = VolumeIndex::read_all(text).unwrap();
    println!("{:?}", h);
    println!("{:?}", h1);
    assert_eq!(h, vec![
        ("220816T11_m00.mrd".to_string(), "0".to_string()),
        ("220816T11_m02.mrd".to_string(), "2".to_string()),
    ]);
    assert_eq!(h1.len(), 3);
    assert_eq!(h1[1].name, "220816T11_m01.mrd");
    assert_eq!(h1[1].index, None);
    assert_eq!(h1[2].index, Some("2".to_string()));
}

#[test]
fn read_all_rejects_a_corrupt_line() {
    let text = "a.raw 0\nb.raw 1 extra\n";
    assert!(matches!(VolumeIndex::read_all(text), Err(IndexError::Corrupt)));
}

#[test]
fn read_ready_handles_crlf_and_empty_text() {
    assert!(VolumeIndex::read_ready("").is_empty());
    let r = VolumeIndex::read_ready("a.raw\t3\r\nb.raw\r\n");
    assert_eq!(r, vec![("a.raw".to_string(), "3".to_string())]);
}
