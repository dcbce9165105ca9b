use branchless::oid::NonZeroOid;
use branchless::reference::ReferenceName;

#[test]
fn object_ids_are_read_and_written() {
    let full = "f777ecc9b0db5ed372b2615695191a8a17f79f24";
    let oid = NonZeroOid::parse(full).unwrap();
    assert_eq!(oid.as_str(), full);
    assert_eq!(NonZeroOid::parse(oid.as_str()), Some(oid.clone()));
    assert_eq!(NonZeroOid::parse(&full.to_uppercase()), Some(oid));
}

#[test]
fn digits_left_out_are_zero() {
    let oid = NonZeroOid::parse("aB1").unwrap();
    assert_eq!(oid.as_str(), "ab10000000000000000000000000000000000000");
}

#[test]
fn other_texts_are_no_object_ids() {
    for text in [
        "",
        "0",
        "0000000000000000000000000000000000000000",
        "xyz",
        "12g4",
        " 12",
        "f777ecc9b0db5ed372b2615695191a8a17f79f240",
    ] {
        assert_eq!(NonZeroOid::parse(text), None, "{text}");
    }
}

#[test]
fn branches_have_short_names() {
    let branch = ReferenceName::from_local_branch("feature/topic");
    assert_eq!(branch.as_str(), "refs/heads/feature/topic");
    assert_eq!(branch.short_name(), "feature/topic");
    let remote = ReferenceName::from_text("refs/remotes/origin/main");
    assert_eq!(remote.short_name(), "refs/remotes/origin/main");
}
