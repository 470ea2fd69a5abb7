use vstd::prelude::*;
use crate::chain::{Block, BlockKind, linked, tag_of};
use crate::names::{buf_text, text_from_buf};
use crate::version::Version;

verus! {

/// The read-mode chain of property blocks filled by one adapter query:
/// the base properties, then the 1.1, 1.2, 1.3 and 1.4 property blocks.
#[derive(Debug)]
pub struct CombinedProperties(pub Block, pub Block, pub Block, pub Block, pub Block);

impl CombinedProperties {
    pub open spec fn blocks(&self) -> Seq<Block> {
        seq![self.0, self.1, self.2, self.3, self.4]
    }

    /// Five empty blocks of the right kinds, not linked yet.
    pub fn new() -> (r: CombinedProperties)
        ensures
            r.0.kind == BlockKind::PhysicalDeviceProperties2,
            r.1.kind == BlockKind::Vulkan11Properties,
            r.2.kind == BlockKind::Vulkan12Properties,
            r.3.kind == BlockKind::Vulkan13Properties,
            r.4.kind == BlockKind::Vulkan14Properties,
            forall|i: int| 0 <= i < 5 ==> (#[trigger] r.blocks()[i]).s_type == 0 && r.blocks()[i].next
                is None && r.blocks()[i].payload@.len() == 0,
    {
        CombinedProperties(
            Block { kind: BlockKind::PhysicalDeviceProperties2, s_type: 0, next: None, payload: Vec::new() },
            Block { kind: BlockKind::Vulkan11Properties, s_type: 0, next: None, payload: Vec::new() },
            Block { kind: BlockKind::Vulkan12Properties, s_type: 0, next: None, payload: Vec::new() },
            Block { kind: BlockKind::Vulkan13Properties, s_type: 0, next: None, payload: Vec::new() },
            Block { kind: BlockKind::Vulkan14Properties, s_type: 0, next: None, payload: Vec::new() },
        )
    }

    /// Tags each block with its structure type and links each to the next,
    /// in field order; the last block ends the chain.
    pub fn init(&mut self)
        ensures
            final(self).0.kind == BlockKind::PhysicalDeviceProperties2,
            final(self).1.kind == BlockKind::Vulkan11Properties,
            final(self).2.kind == BlockKind::Vulkan12Properties,
            final(self).3.kind == BlockKind::Vulkan13Properties,
            final(self).4.kind == BlockKind::Vulkan14Properties,
            linked(final(self).blocks()),
            forall|i: int| 0 <= i < 5 ==> (#[trigger] final(self).blocks()[i]).payload@ == old(
                self,
            ).blocks()[i].payload@,
    {
        self.0.kind = BlockKind::PhysicalDeviceProperties2;
        self.1.kind = BlockKind::Vulkan11Properties;
        self.2.kind = BlockKind::Vulkan12Properties;
        self.3.kind = BlockKind::Vulkan13Properties;
        self.4.kind = BlockKind::Vulkan14Properties;
        self.0.s_type = self.0.kind.structure_type();
        self.1.s_type = self.1.kind.structure_type();
        self.2.s_type = self.2.kind.structure_type();
        self.3.s_type = self.3.kind.structure_type();
        self.4.s_type = self.4.kind.structure_type();
        self.0.next = Some(1);
        self.1.next = Some(2);
        self.2.next = Some(3);
        self.3.next = Some(4);
        self.4.next = None;
        proof {
            let b = self.blocks();
            assert forall|i: int| 0 <= i < b.len() implies {
                &&& (#[trigger] b[i]).s_type == tag_of(b[i].kind)
                &&& b[i].next == if i + 1 < b.len() {
                    Some((i + 1) as usize)
                } else {
                    None::<usize>
                }
            } by {
                assert(i == 0 || i == 1 || i == 2 || i == 3 || i == 4);
            }
        }
    }
}

/// The class of an adapter.
#[derive(Debug, Clone, Copy, PartialEq, Eq, Structural)]
pub enum PhysicalDeviceType {
    Other,
    IntegratedGpu,
    DiscreteGpu,
    VirtualGpu,
    Cpu,
}

pub open spec fn device_type_of(x: u32) -> Option<PhysicalDeviceType> {
    if x == 0 {
        Some(PhysicalDeviceType::Other)
    } else if x == 1 {
        Some(PhysicalDeviceType::IntegratedGpu)
    } else if x == 2 {
        Some(PhysicalDeviceType::DiscreteGpu)
    } else if x == 3 {
        Some(PhysicalDeviceType::VirtualGpu)
    } else if x == 4 {
        Some(PhysicalDeviceType::Cpu)
    } else {
        None
    }
}

impl PhysicalDeviceType {
    /// The class that a foreign device-type code stands for.
    pub fn from_int(x: u32) -> (r: Option<PhysicalDeviceType>)
        ensures
            r == device_type_of(x),
    {
        match x {
            0 => Some(PhysicalDeviceType::Other),
            1 => Some(PhysicalDeviceType::IntegratedGpu),
            2 => Some(PhysicalDeviceType::DiscreteGpu),
            3 => Some(PhysicalDeviceType::VirtualGpu),
            4 => Some(PhysicalDeviceType::Cpu),
            _ => None,
        }
    }
}

/// The conformance-test version an adapter's driver passed.
#[derive(Debug, Clone, Copy, PartialEq, Eq, Structural)]
pub struct ConformanceVersion {
    pub major: u8,
    pub minor: u8,
    pub subminor: u8,
    pub patch: u8,
}

/// The property fields as a filled property chain holds them.
pub struct RawProperties {
    pub api_version: u32,
    pub conformance_version: ConformanceVersion,
    pub device_type: u32,
    pub device_name: Vec<u8>,
    pub driver_name: Vec<u8>,
    pub driver_info: Vec<u8>,
    pub max_geometry_shader_invocations: u32,
}

/// Why a filled property chain could not be read.
#[derive(Debug, Clone, Copy, PartialEq, Eq, Structural)]
pub enum PropertiesError {
    /// The device-type code is none of the known classes.
    UnknownDeviceType(u32),
    /// A name buffer holds no NUL, or its text is not UTF-8.
    MalformedName,
}

/// A snapshot of what an adapter reports about itself.
#[derive(Debug)]
pub struct Properties {
    pub api_version: Version,
    pub conformance_version: ConformanceVersion,
    pub device_type: PhysicalDeviceType,
    pub device_name: String,
    pub driver_name: String,
    pub driver_info: String,
    pub has_geometry_shader: bool,
}

impl Properties {
    /// Reads a property snapshot out of the fields of a filled chain.
    pub fn from_raw(raw: &RawProperties) -> (r: Result<Properties, PropertiesError>)
        ensures
            device_type_of(raw.device_type) is None ==> r == Err::<Properties, PropertiesError>(
                PropertiesError::UnknownDeviceType(raw.device_type),
            ),
            device_type_of(raw.device_type) is Some && (buf_text(raw.device_name@) is None
                || buf_text(raw.driver_name@) is None || buf_text(raw.driver_info@) is None) ==> r
                == Err::<Properties, PropertiesError>(PropertiesError::MalformedName),
            r matches Ok(p) ==> {
                &&& device_type_of(raw.device_type) == Some(p.device_type)
                &&& p.api_version == Version(raw.api_version)
                &&& p.conformance_version == raw.conformance_version
                &&& buf_text(raw.device_name@) == Some(p.device_name@)
                &&& buf_text(raw.driver_name@) == Some(p.driver_name@)
                &&& buf_text(raw.driver_info@) == Some(p.driver_info@)
                &&& p.has_geometry_shader == (raw.max_geometry_shader_invocations != 0)
            },
            device_type_of(raw.device_type) is Some && buf_text(raw.device_name@) is Some
                && buf_text(raw.driver_name@) is Some && buf_text(raw.driver_info@) is Some
                ==> r is Ok,
    {
        let device_type = match PhysicalDeviceType::from_int(raw.device_type) {
            Some(t) => t,
            None => return Err(PropertiesError::UnknownDeviceType(raw.device_type)),
        };
        let device_name = match text_from_buf(raw.device_name.as_slice()) {
            Some(s) => s,
            None => return Err(PropertiesError::MalformedName),
        };
        let driver_name = match text_from_buf(raw.driver_name.as_slice()) {
            Some(s) => s,
            None => return Err(PropertiesError::MalformedName),
        };
        let driver_info = match text_from_buf(raw.driver_info.as_slice()) {
            Some(s) => s,
            None => return Err(PropertiesError::MalformedName),
        };
        Ok(Properties {
            api_version: Version(raw.api_version),
            conformance_version: raw.conformance_version,
            device_type,
            device_name,
            driver_name,
            driver_info,
            has_geometry_shader: raw.max_geometry_shader_invocations != 0,
        })
    }
}

/// What one queue family of an adapter offers.
#[derive(Debug, Clone, Copy, PartialEq, Eq, Structural)]
pub struct QueueFamilyProperties {
    pub queue_count: u32,
    pub has_graphics: bool,
    pub has_compute: bool,
    pub has_transfer: bool,
    pub has_sparse_binding: bool,
}

/// Whether bit `bit` of a foreign flag word is set.
pub open spec fn flag_set(flags: u32, bit: u32) -> bool {
    (flags >> bit) & 1 == 1
}

impl QueueFamilyProperties {
    /// Reads a family's queue count and its capability flags: bit 0
    /// graphics, bit 1 compute, bit 2 transfer, bit 3 sparse binding.
    pub fn from_raw(queue_count: u32, queue_flags: u32) -> (r: QueueFamilyProperties)
        ensures
            r.queue_count == queue_count,
            r.has_graphics == flag_set(queue_flags, 0),
            r.has_compute == flag_set(queue_flags, 1),
            r.has_transfer == flag_set(queue_flags, 2),
            r.has_sparse_binding == flag_set(queue_flags, 3),
    {
        QueueFamilyProperties {
            queue_count,
            has_graphics: (queue_flags >> 0u32) & 1 == 1,
            has_compute: (queue_flags >> 1u32) & 1 == 1,
            has_transfer: (queue_flags >> 2u32) & 1 == 1,
            has_sparse_binding: (queue_flags >> 3u32) & 1 == 1,
        }
    }

    /// Reads every family of a queue-family listing, in listing order;
    /// `families` holds (queue count, flags) pairs.
    pub fn from_listing(families: &Vec<(u32, u32)>) -> (r: Vec<QueueFamilyProperties>)
        ensures
            r@.len() == families@.len(),
            forall|i: int|
                0 <= i < r@.len() ==> {
                    &&& (#[trigger] r@[i]).queue_count == families@[i].0
                    &&& r@[i].has_graphics == flag_set(families@[i].1, 0)
                    &&& r@[i].has_compute == flag_set(families@[i].1, 1)
                    &&& r@[i].has_transfer == flag_set(families@[i].1, 2)
                    &&& r@[i].has_sparse_binding == flag_set(families@[i].1, 3)
                },
    {
        let mut out: Vec<QueueFamilyProperties> = Vec::new();
        let mut k: usize = 0;
        while k < families.len()
            invariant
                k <= families@.len(),
                out@.len() == k,
                forall|i: int|
                    0 <= i < k ==> {
                        &&& (#[trigger] out@[i]).queue_count == families@[i].0
                        &&& out@[i].has_graphics == flag_set(families@[i].1, 0)
                        &&& out@[i].has_compute == flag_set(families@[i].1, 1)
                        &&& out@[i].has_transfer == flag_set(families@[i].1, 2)
                        &&& out@[i].has_sparse_binding == flag_set(families@[i].1, 3)
                    },
            decreases families@.len() - k,
        {
            let (count, flags) = families[k];
            out.push(QueueFamilyProperties::from_raw(count, flags));
            k = k + 1;
        }
        out
    }
}

} // verus!
