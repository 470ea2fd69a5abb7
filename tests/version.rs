use vulkant::version::{Version, VersionError};

#[test]
fn pack_known_value() {
    let v = Version::new(0, 1, 4, 0).unwrap();
    assert_eq!(v.0, 4_210_688);
    assert_eq!(v, Version((1 << 22) | (4 << 12)));
}

#[test]
fn round_trip_of_every_field() {
    for &(variant, major, minor, patch) in &[(0u8, 0u8, 0u16, 0u16), (7, 127, 1023, 4095), (1, 2, 3, 4), (5, 64, 512, 2048)] {
        let v = Version::new(variant, major, minor, patch).unwrap();
        assert_eq!(v.variant(), variant);
        assert_eq!(v.major(), major);
        assert_eq!(v.minor(), minor);
        assert_eq!(v.patch(), patch);
    }
}

#[test]
fn patch_out_of_range() {
    assert_eq!(Version::new(0, 0, 0, 4096), Err(VersionError::OutOfRange));
}

#[test]
fn other_fields_out_of_range() {
    assert_eq!(Version::new(8, 0, 0, 0), Err(VersionError::OutOfRange));
    assert_eq!(Version::new(0, 128, 0, 0), Err(VersionError::OutOfRange));
    assert_eq!(Version::new(0, 0, 1024, 0), Err(VersionError::OutOfRange));
    assert!(Version::new(7, 127, 1023, 4095).is_ok());
}

#[test]
fn unpack_is_total() {
    let v = Version(u32::MAX);
    assert_eq!((v.variant(), v.major(), v.minor(), v.patch()), (7, 127, 1023, 4095));
    let z = Version(0);
    assert_eq!((z.variant(), z.major(), z.minor(), z.patch()), (0, 0, 0, 0));
}

#[test]
fn dotted_text() {
    assert_eq!(Version::new(0, 1, 4, 0).unwrap().text(), "0.1.4.0");
    assert_eq!(Version(u32::MAX).text(), "7.127.1023.4095");
    assert_eq!(Version::new(1, 10, 205, 99).unwrap().text(), "1.10.205.99");
}
