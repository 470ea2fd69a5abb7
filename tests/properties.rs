use vulkant::names::{check_capabilities, contains_name, missing_capability, name_from_buf, names_from_listing, same_name, text_from_buf};
use vulkant::properties::{
    ConformanceVersion, PhysicalDeviceType, Properties, PropertiesError, QueueFamilyProperties,
    RawProperties,
};

fn raw(device_type: u32, device_name: Vec<u8>, geometry: u32) -> RawProperties {
    RawProperties {
        api_version: 0x0040_3000,
        conformance_version: ConformanceVersion { major: 1, minor: 3, subminor: 2, patch: 1 },
        device_type,
        device_name,
        driver_name: b"drv\0".to_vec(),
        driver_info: b"\0".to_vec(),
        max_geometry_shader_invocations: geometry,
    }
}

#[test]
fn device_type_codes() {
    assert_eq!(PhysicalDeviceType::from_int(0), Some(PhysicalDeviceType::Other));
    assert_eq!(PhysicalDeviceType::from_int(1), Some(PhysicalDeviceType::IntegratedGpu));
    assert_eq!(PhysicalDeviceType::from_int(2), Some(PhysicalDeviceType::DiscreteGpu));
    assert_eq!(PhysicalDeviceType::from_int(3), Some(PhysicalDeviceType::VirtualGpu));
    assert_eq!(PhysicalDeviceType::from_int(4), Some(PhysicalDeviceType::Cpu));
    assert_eq!(PhysicalDeviceType::from_int(5), None);
}

#[test]
fn properties_read() {
    let p = Properties::from_raw(&raw(1, b"Integrated\0junk".to_vec(), 0)).unwrap();
    assert_eq!(p.api_version.major(), 1);
    assert_eq!(p.api_version.minor(), 3);
    assert_eq!(p.device_type, PhysicalDeviceType::IntegratedGpu);
    assert_eq!(p.device_name, "Integrated");
    assert_eq!(p.driver_name, "drv");
    assert_eq!(p.driver_info, "");
    assert_eq!(p.conformance_version, ConformanceVersion { major: 1, minor: 3, subminor: 2, patch: 1 });
    assert!(!p.has_geometry_shader);
}

#[test]
fn properties_errors() {
    assert_eq!(
        Properties::from_raw(&raw(9, b"x\0".to_vec(), 1)).unwrap_err(),
        PropertiesError::UnknownDeviceType(9)
    );
    assert_eq!(
        Properties::from_raw(&raw(0, b"no terminator".to_vec(), 1)).unwrap_err(),
        PropertiesError::MalformedName
    );
    assert_eq!(
        Properties::from_raw(&raw(0, vec![0xff, 0xfe, 0], 1)).unwrap_err(),
        PropertiesError::MalformedName
    );
}

#[test]
fn queue_family_flags() {
    let q = QueueFamilyProperties::from_raw(4, 0b1010);
    assert_eq!(q.queue_count, 4);
    assert!(!q.has_graphics);
    assert!(q.has_compute);
    assert!(!q.has_transfer);
    assert!(q.has_sparse_binding);
    let all = QueueFamilyProperties::from_raw(1, 0xffff_ffff);
    assert!(all.has_graphics && all.has_compute && all.has_transfer && all.has_sparse_binding);
}

#[test]
fn names_until_nul() {
    assert_eq!(name_from_buf(b"abc\0xyz"), Some(b"abc".to_vec()));
    assert_eq!(name_from_buf(b"\0"), Some(vec![]));
    assert_eq!(name_from_buf(b"abc"), None);
    assert_eq!(name_from_buf(b""), None);
}

#[test]
fn text_decoding() {
    assert_eq!(text_from_buf(b"layer.one\0\0\0"), Some(String::from("layer.one")));
    assert_eq!(text_from_buf("h\u{e9}\0".as_bytes()), Some(String::from("h\u{e9}")));
    assert_eq!(text_from_buf(&[0x80, 0x41, 0]), None);
}

#[test]
fn listing_names() {
    let entries = vec![b"one\0\0".to_vec(), b"two\0".to_vec()];
    assert_eq!(names_from_listing(&entries), Some(vec![b"one".to_vec(), b"two".to_vec()]));
    let bad = vec![b"one\0".to_vec(), b"two".to_vec()];
    assert_eq!(names_from_listing(&bad), None);
}

#[test]
fn capability_matching_is_exact() {
    let available = vec![b"VK_KHR_surface".to_vec(), b"cap.alpha".to_vec()];
    assert!(same_name(&b"cap".to_vec(), &b"cap".to_vec()));
    assert!(!same_name(&b"cap".to_vec(), &b"Cap".to_vec()));
    assert!(contains_name(&available, &b"cap.alpha".to_vec()));
    assert!(!contains_name(&available, &b"CAP.ALPHA".to_vec()));
    assert!(!contains_name(&available, &b"cap.alph".to_vec()));
    assert_eq!(
        missing_capability(&vec![b"cap.alpha".to_vec(), b"cap.beta".to_vec()], &available),
        Some(1)
    );
    assert_eq!(missing_capability(&vec![], &available), None);
    assert!(check_capabilities(&vec![b"VK_KHR_surface".to_vec()], &available).is_ok());
    assert!(check_capabilities(&vec![b"x".to_vec()], &vec![]).is_err());
}
