use vulkant::graph::{GraphError, Instance, QueueRequest, Queue, ERROR_EXTENSION_NOT_PRESENT};
use vulkant::names::check_capabilities;
use vulkant::properties::{
    ConformanceVersion, PhysicalDeviceType, Properties, QueueFamilyProperties, RawProperties,
};
use vulkant::version::Version;

fn name_buf(s: &str, size: usize) -> Vec<u8> {
    let mut b = s.as_bytes().to_vec();
    b.resize(size, 0);
    b
}

#[test]
fn test_entry() {
    let inst = Instance::create(0, 0x1000).unwrap();
    assert_eq!(inst.handle(), 0x1000);
    assert!(!inst.is_destroyed());
    assert_eq!(inst.live_sessions(), 0);
}

#[test]
fn creation_failure_keeps_code() {
    assert_eq!(Instance::create(-3, 0x1000).unwrap_err(), GraphError::CreationFailed(-3));
    assert_eq!(Instance::create(0, 0).unwrap_err(), GraphError::NullHandle);
}

#[test]
fn session_blocks_context_destruction() {
    let mut inst = Instance::create(0, 0x1000).unwrap();
    let adapters = inst.enumerate_physical_devices(&vec![0x20]).unwrap();
    let dev = adapters[0]
        .create_logical(&mut inst, vec![QueueRequest { family_index: 0, count: 1 }], 0, 0x300)
        .unwrap();
    assert_eq!(inst.live_sessions(), 1);
    assert_eq!(inst.destroy(), Err(GraphError::SessionsLive));
    assert!(!inst.is_destroyed());
    assert_eq!(dev.destroy(&mut inst), Ok(0x300));
    assert_eq!(inst.live_sessions(), 0);
    assert_eq!(inst.destroy(), Ok(0x1000));
    assert!(inst.is_destroyed());
}

#[test]
fn sessions_destroyed_in_any_order() {
    let mut inst = Instance::create(0, 0x1000).unwrap();
    let adapters = inst.enumerate_physical_devices(&vec![0x20, 0x30]).unwrap();
    let a = adapters[0].create_logical(&mut inst, vec![], 0, 0x300).unwrap();
    let b = adapters[1].create_logical(&mut inst, vec![], 0, 0x400).unwrap();
    assert_eq!(inst.live_sessions(), 2);
    assert_eq!(a.destroy(&mut inst), Ok(0x300));
    assert_eq!(inst.destroy(), Err(GraphError::SessionsLive));
    assert_eq!(b.destroy(&mut inst), Ok(0x400));
    assert_eq!(inst.destroy(), Ok(0x1000));
}

#[test]
fn session_of_another_context_refused() {
    let mut one = Instance::create(0, 0x1000).unwrap();
    let mut two = Instance::create(0, 0x2000).unwrap();
    let adapters = one.enumerate_physical_devices(&vec![0x20]).unwrap();
    let dev = adapters[0].create_logical(&mut one, vec![], 0, 0x300).unwrap();
    assert_eq!(dev.destroy(&mut two), Err(GraphError::ForeignSession));
    assert_eq!(one.live_sessions(), 1);
}

#[test]
fn session_creation_failure() {
    let mut inst = Instance::create(0, 0x1000).unwrap();
    let adapters = inst.enumerate_physical_devices(&vec![0x20]).unwrap();
    let r = adapters[0].create_logical(&mut inst, vec![], -7, 0);
    assert_eq!(r.unwrap_err(), GraphError::CreationFailed(-7));
    let r = adapters[0].create_logical(&mut inst, vec![], 0, 0);
    assert_eq!(r.unwrap_err(), GraphError::NullHandle);
    assert_eq!(inst.live_sessions(), 0);
}

#[test]
fn null_adapter_handle_refused() {
    let inst = Instance::create(0, 0x1000).unwrap();
    assert_eq!(inst.enumerate_physical_devices(&vec![0x20, 0]).unwrap_err(), GraphError::NullHandle);
    assert!(inst.enumerate_physical_devices(&vec![]).unwrap().is_empty());
}

#[test]
fn queues_only_as_requested() {
    let mut inst = Instance::create(0, 0x1000).unwrap();
    let adapters = inst.enumerate_physical_devices(&vec![0x20]).unwrap();
    let dev = adapters[0]
        .create_logical(
            &mut inst,
            vec![QueueRequest { family_index: 0, count: 1 }, QueueRequest { family_index: 2, count: 3 }],
            0,
            0x300,
        )
        .unwrap();
    assert_eq!(
        dev.get_queue(0, 0, 0x500),
        Ok(Queue { handle: 0x500, device: 0x300, family_index: 0, index: 0 })
    );
    assert_eq!(dev.get_queue(2, 2, 0x600).unwrap().index, 2);
    assert_eq!(dev.get_queue(0, 1, 0x500), Err(GraphError::InvalidQueueIndex));
    assert_eq!(dev.get_queue(1, 0, 0x500), Err(GraphError::InvalidQueueIndex));
    assert_eq!(dev.get_queue(0, 0, 0), Err(GraphError::InvalidQueueIndex));
    assert!(dev.has_queue(2, 0));
    assert!(!dev.has_queue(2, 3));
}

#[test]
fn end_to_end_bring_up() {
    let available = vec![b"cap.beta".to_vec(), b"cap.gamma".to_vec()];
    assert_eq!(
        check_capabilities(&vec![b"cap.alpha".to_vec()], &available),
        Err(GraphError::CreationFailed(ERROR_EXTENSION_NOT_PRESENT))
    );
    assert_eq!(check_capabilities(&vec![b"cap.gamma".to_vec()], &available), Ok(()));

    let mut inst = Instance::create(0, 0x1000).unwrap();
    let adapters = inst.enumerate_physical_devices(&vec![0x20, 0x30]).unwrap();
    assert_eq!(adapters.len(), 2);
    assert_eq!(adapters[0].id(), 0x20);
    assert_eq!(adapters[1].instance, 0x1000);

    let raw = RawProperties {
        api_version: Version::new(0, 1, 4, 0).unwrap().0,
        conformance_version: ConformanceVersion { major: 1, minor: 4, subminor: 0, patch: 0 },
        device_type: 2,
        device_name: name_buf("Stub GPU", 256),
        driver_name: name_buf("stub", 256),
        driver_info: name_buf("1.0", 256),
        max_geometry_shader_invocations: 32,
    };
    let props = Properties::from_raw(&raw).unwrap();
    assert_eq!(props.api_version.0, 4_210_688);
    assert_eq!(props.api_version.minor(), 4);
    assert_eq!(props.device_type, PhysicalDeviceType::DiscreteGpu);
    assert_eq!(props.device_name, "Stub GPU");
    assert_eq!(props.conformance_version.major, 1);
    assert!(props.has_geometry_shader);

    let families = QueueFamilyProperties::from_listing(&vec![(16, 0b1111), (2, 0b0100)]);
    assert!(families[0].has_graphics);
    assert!(!families[1].has_graphics);

    let dev = adapters[0]
        .create_logical(&mut inst, vec![QueueRequest { family_index: 0, count: 1 }], 0, 0x300)
        .unwrap();
    assert!(dev.get_queue(0, 0, 0x500).is_ok());
    assert_eq!(dev.destroy(&mut inst), Ok(0x300));
    assert_eq!(inst.destroy(), Ok(0x1000));
}
