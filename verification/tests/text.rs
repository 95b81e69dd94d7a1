use screenshare::text::{decimal, join2, join3};

#[test]
fn numbers_are_written_in_decimal() {
    assert_eq!(decimal(0), "0");
    assert_eq!(decimal(9), "9");
    assert_eq!(decimal(10), "10");
    assert_eq!(decimal(4_194_304), "4194304");
    assert_eq!(decimal(u64::MAX), u64::MAX.to_string());
}

#[test]
fn parts_are_joined() {
    assert_eq!(join2("a", "bc"), "abc");
    assert_eq!(join3("a", "", "d"), "ad");
}
