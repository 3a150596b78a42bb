use contentin::text::{has_suffix, partition_name, same_text, strip_suffix};

#[test]
fn suffixes() {
    assert_eq!("simple.tar", strip_suffix("simple.tar.gz", ".gz"));
    assert_eq!("", strip_suffix("simple.tar", ".gz"));
    assert_eq!("", strip_suffix(".gz", ".gz"));
    assert_eq!("", strip_suffix("gz", ".gz"));
    assert_eq!("", strip_suffix("", ".bz2"));
    assert_eq!("a.bz2", strip_suffix("a.bz2.bz2", ".bz2"));
    assert_eq!("whole", strip_suffix("whole", ""));
    assert_eq!("gr\u{fc}\u{df}e", strip_suffix("gr\u{fc}\u{df}e.xz", ".xz"));
    assert!(has_suffix("x.xz", ".xz"));
    assert!(!has_suffix("x.xz", ".gz"));
    assert!(!has_suffix("xz", ".xz"));
}

#[test]
fn partition_names() {
    assert_eq!("p0", partition_name(0));
    assert_eq!("p3", partition_name(3));
    assert_eq!("p10", partition_name(10));
    assert_eq!("p127", partition_name(127));
    assert_eq!("p4294967295", partition_name(4294967295));
}

#[test]
fn texts() {
    assert!(same_text("pax_global_header", "pax_global_header"));
    assert!(!same_text("pax_global_header", "pax_global_headers"));
    assert!(!same_text("a", "b"));
    assert!(same_text("", ""));
}
