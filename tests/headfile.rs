use cs_reco::headfile::{Headfile, HeadfileError};

fn value(h: &Headfile, k: &str) -> Option<String> {
    h.items.entries.iter().find(|e| e.0 == k).map(|e| e.1.clone())
}

#[test]
fn test_make_headfile() {
    let text = "fov_read=0.02\nacq_Sequence=ICO61\nppr_no_echoes=+04\nno equals here\nnote=a=b\n";
    let mut hf = Headfile::txt_to_hash(text).unwrap();
    assert_eq!(value(&hf, "S_PSDname"), Some("ICO61".to_string()));
    assert_eq!(value(&hf, "ne"), Some("4".to_string()));
    assert_eq!(value(&hf, "F_imgformat"), Some("raw".to_string()));
    assert_eq!(value(&hf, "note"), Some("a=b".to_string()));
    assert_eq!(value(&hf, "no equals here"), None);
    hf.append_field("DUMMYFIELD", "6.5");
    let out = hf.render();
    assert!(out.contains("DUMMYFIELD=6.5\n"));
    assert!(out.contains("F_imgformat=raw\n"));
    assert!(out.starts_with("fov_read=0.02\n"));
}

#[test]
fn headfile_rules() {
    let rules = Headfile::float_rules();
    assert_eq!(rules.len(), 7);
    assert_eq!(rules[4].source, "rep_time");
    assert_eq!(rules[4].target, "tr");
    assert_eq!(rules[4].num, 1000000);
    assert_eq!(rules[6].den, 2);
    let h = Headfile::txt_to_hash("").unwrap();
    assert_eq!(h.render(), "F_imgformat=raw\n");
    assert!(matches!(Headfile::txt_to_hash("ppr_no_echoes=two"), Err(HeadfileError::BadInteger)));
    let n = Headfile::txt_to_hash("ppr_no_echoes=-7\nppr_no_echoes=-8\n").unwrap();
    assert_eq!(value(&n, "ne"), Some("-8".to_string()));
}
