//! Status codes.

use response_decoder::Status;

#[test]
fn numbers_from_100_to_999_are_status_codes() {
    for code in 0..=u16::MAX {
        let status = Status::from_u16(code);
        assert_eq!(status.is_some(), (100..=999).contains(&code), "number {}", code);
        if let Some(status) = status {
            assert_eq!(status.as_u16(), code);
        }
    }
}

#[test]
fn status_codes_compare_by_number() {
    assert_eq!(Status::from_u16(200), Status::from_u16(200));
    assert_ne!(Status::from_u16(200), Status::from_u16(201));
    assert_eq!(Status::from_u16(99), None);
    assert_eq!(Status::from_u16(1000), None);
}
