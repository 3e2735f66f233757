//! The Access Bootstrap Register Map of the emulated device: the fixed head
//! of its register memory.

use vstd::prelude::*;

use crate::elem_type::Endianness;
use crate::emulator::memory::{
    descriptor_views, entries_of, initial_bytes, kind_of, lemma_layout_fits, lemma_preloaded_entry,
    lemma_total_len_step,
    preloaded, total_len, AccessRight, Entry, EntryDescriptor, EntryDescriptorView, EntryValue,
    EntryValueView, MemoryError, RegisterLayout,
};
use crate::int_codec::lemma_pow256_values;

verus! {

/// The address of the Streaming Bootstrap Register Map.
pub const SBRM_ADDRESS: u64 = 0xffff;

/// What the device is capable of, bit by bit:
///
/// | Bits  | Value | Meaning                                             |
/// |-------|-------|-----------------------------------------------------|
/// | 0     | 1     | A user defined name is supported.                   |
/// | 1     | 0     | Access privilege and heartbeat are not supported.   |
/// | 2     | 0     | A message channel is not supported.                 |
/// | 3     | 1     | A timestamp is supported.                           |
/// | 7-4   | 0000  | Strings are encoded in ASCII.                       |
/// | 8     | 1     | A family name is supported.                         |
/// | 9     | 1     | The SBRM is supported.                              |
/// | 10    | 1     | The endianness register is supported.               |
/// | 11    | 1     | The written length field is supported.              |
/// | 12    | 0     | Multiple events are not supported.                  |
/// | 13    | 1     | Stacked commands are supported.                     |
/// | 14    | 1     | The device software interface version is supported. |
/// | 63-15 | 0     | Reserved.                                           |
pub const DEVICE_CAPABILITY: u64 = 0b110_1111_0000_1001;

/// The number of entries of the register map.
pub const ABRM_ENTRIES: usize = 23;

/// The size of the register map in bytes.
pub const ABRM_SIZE: usize = 592;

/// The entries of the register map, in the order in which they lie.
#[derive(Clone, Copy, Debug, PartialEq, Eq, Structural)]
pub enum ABRM {
    GenCpVersionMinor,
    GenCpVersionMajor,
    ManufacturerName,
    ModelName,
    FamilyName,
    DeviceVersion,
    ManufacturerInfo,
    SerialNumber,
    UserDefinedName,
    DeviceCapability,
    MaximumDeviceResponseTime,
    ManifestTableAddress,
    SBRMAddress,
    DeviceConfiguration,
    HeartbeatTimeout,
    MessageChannelId,
    Timestamp,
    TimestampLatch,
    TimestampIncrement,
    AccessPrivilege,
    ProtocolEndianess,
    ImplementationEndianess,
    DeviceSoftwareInterfaceVersion,
}

impl ABRM {
    /// The position of the entry in the register map.
    pub open spec fn spec_index(self) -> usize {
        match self {
            ABRM::GenCpVersionMinor => 0,
            ABRM::GenCpVersionMajor => 1,
            ABRM::ManufacturerName => 2,
            ABRM::ModelName => 3,
            ABRM::FamilyName => 4,
            ABRM::DeviceVersion => 5,
            ABRM::ManufacturerInfo => 6,
            ABRM::SerialNumber => 7,
            ABRM::UserDefinedName => 8,
            ABRM::DeviceCapability => 9,
            ABRM::MaximumDeviceResponseTime => 10,
            ABRM::ManifestTableAddress => 11,
            ABRM::SBRMAddress => 12,
            ABRM::DeviceConfiguration => 13,
            ABRM::HeartbeatTimeout => 14,
            ABRM::MessageChannelId => 15,
            ABRM::Timestamp => 16,
            ABRM::TimestampLatch => 17,
            ABRM::TimestampIncrement => 18,
            ABRM::AccessPrivilege => 19,
            ABRM::ProtocolEndianess => 20,
            ABRM::ImplementationEndianess => 21,
            ABRM::DeviceSoftwareInterfaceVersion => 22,
        }
    }

    /// The length of the entry in bytes.
    pub open spec fn spec_len(self) -> usize {
        match self {
            ABRM::GenCpVersionMinor => 2,
            ABRM::GenCpVersionMajor => 2,
            ABRM::ManufacturerName => 64,
            ABRM::ModelName => 64,
            ABRM::FamilyName => 64,
            ABRM::DeviceVersion => 64,
            ABRM::ManufacturerInfo => 64,
            ABRM::SerialNumber => 64,
            ABRM::UserDefinedName => 64,
            ABRM::DeviceCapability => 8,
            ABRM::MaximumDeviceResponseTime => 4,
            ABRM::ManifestTableAddress => 8,
            ABRM::SBRMAddress => 8,
            ABRM::DeviceConfiguration => 8,
            ABRM::HeartbeatTimeout => 4,
            ABRM::MessageChannelId => 4,
            ABRM::Timestamp => 8,
            ABRM::TimestampLatch => 4,
            ABRM::TimestampIncrement => 8,
            ABRM::AccessPrivilege => 4,
            ABRM::ProtocolEndianess => 4,
            ABRM::ImplementationEndianess => 4,
            ABRM::DeviceSoftwareInterfaceVersion => 64,
        }
    }

    /// The access right of the entry.
    pub open spec fn spec_access(self) -> AccessRight {
        match self {
            ABRM::GenCpVersionMinor => AccessRight::RO,
            ABRM::GenCpVersionMajor => AccessRight::RO,
            ABRM::ManufacturerName => AccessRight::RO,
            ABRM::ModelName => AccessRight::RO,
            ABRM::FamilyName => AccessRight::RO,
            ABRM::DeviceVersion => AccessRight::RO,
            ABRM::ManufacturerInfo => AccessRight::RO,
            ABRM::SerialNumber => AccessRight::RO,
            ABRM::UserDefinedName => AccessRight::RW,
            ABRM::DeviceCapability => AccessRight::RO,
            ABRM::MaximumDeviceResponseTime => AccessRight::RO,
            ABRM::ManifestTableAddress => AccessRight::RO,
            ABRM::SBRMAddress => AccessRight::RO,
            ABRM::DeviceConfiguration => AccessRight::RO,
            ABRM::HeartbeatTimeout => AccessRight::NA,
            ABRM::MessageChannelId => AccessRight::NA,
            ABRM::Timestamp => AccessRight::RO,
            ABRM::TimestampLatch => AccessRight::WO,
            ABRM::TimestampIncrement => AccessRight::RO,
            ABRM::AccessPrivilege => AccessRight::NA,
            ABRM::ProtocolEndianess => AccessRight::RO,
            ABRM::ImplementationEndianess => AccessRight::NA,
            ABRM::DeviceSoftwareInterfaceVersion => AccessRight::RO,
        }
    }

    /// The number that the entry starts with, where it is an integer.
    pub open spec fn spec_initial(self) -> Option<u64> {
        match self {
            ABRM::GenCpVersionMinor => Some(1),
            ABRM::GenCpVersionMajor => Some(1),
            ABRM::DeviceCapability => Some(DEVICE_CAPABILITY),
            ABRM::MaximumDeviceResponseTime => Some(100),
            ABRM::ManifestTableAddress => Some(0),
            ABRM::SBRMAddress => Some(SBRM_ADDRESS),
            ABRM::DeviceConfiguration => Some(0),
            ABRM::HeartbeatTimeout => Some(0),
            ABRM::MessageChannelId => Some(0),
            ABRM::Timestamp => Some(0),
            ABRM::TimestampLatch => Some(0),
            ABRM::TimestampIncrement => Some(1000),
            ABRM::AccessPrivilege => Some(0),
            ABRM::ProtocolEndianess => Some(0xFFFF_FFFF),
            ABRM::ImplementationEndianess => Some(0),
            _ => None,
        }
    }

    /// The name of the entry.
    pub open spec fn spec_name(self) -> Seq<char> {
        match self {
            ABRM::GenCpVersionMinor => "GenCpVersionMinor"@,
            ABRM::GenCpVersionMajor => "GenCpVersionMajor"@,
            ABRM::ManufacturerName => "ManufacturerName"@,
            ABRM::ModelName => "ModelName"@,
            ABRM::FamilyName => "FamilyName"@,
            ABRM::DeviceVersion => "DeviceVersion"@,
            ABRM::ManufacturerInfo => "ManufacturerInfo"@,
            ABRM::SerialNumber => "SerialNumber"@,
            ABRM::UserDefinedName => "UserDefinedName"@,
            ABRM::DeviceCapability => "DeviceCapability"@,
            ABRM::MaximumDeviceResponseTime => "MaximumDeviceResponseTime"@,
            ABRM::ManifestTableAddress => "ManifestTableAddress"@,
            ABRM::SBRMAddress => "SBRMAddress"@,
            ABRM::DeviceConfiguration => "DeviceConfiguration"@,
            ABRM::HeartbeatTimeout => "HeartbeatTimeout"@,
            ABRM::MessageChannelId => "MessageChannelId"@,
            ABRM::Timestamp => "Timestamp"@,
            ABRM::TimestampLatch => "TimestampLatch"@,
            ABRM::TimestampIncrement => "TimestampIncrement"@,
            ABRM::AccessPrivilege => "AccessPrivilege"@,
            ABRM::ProtocolEndianess => "ProtocolEndianess"@,
            ABRM::ImplementationEndianess => "ImplementationEndianess"@,
            ABRM::DeviceSoftwareInterfaceVersion => "DeviceSoftwareInterfaceVersion"@,
        }
    }

    /// The text that the entry starts with, where it is a string.
    pub open spec fn spec_text(self) -> Option<Seq<char>> {
        match self {
            ABRM::ManufacturerName => Some("cameleon"@),
            ABRM::ModelName => Some("cameleon model"@),
            ABRM::FamilyName => Some("cameleon family"@),
            ABRM::DeviceVersion => Some("none"@),
            ABRM::ManufacturerInfo => Some("none"@),
            ABRM::SerialNumber => Some(""@),
            ABRM::UserDefinedName => Some(""@),
            ABRM::DeviceSoftwareInterfaceVersion => Some("1.0.0"@),
            _ => None,
        }
    }

    /// What the entry starts with: a number or a text.
    pub open spec fn spec_value(self) -> EntryValueView {
        match self.spec_initial() {
            Some(v) => EntryValueView::Unsigned(v),
            None => EntryValueView::Str(
                vstd::utf8::encode_utf8(self.spec_text().unwrap_or(Seq::empty())),
            ),
        }
    }

    /// The entry at the position `index`.
    pub open spec fn spec_from_index(index: usize) -> Option<ABRM> {
        match index {
            0 => Some(ABRM::GenCpVersionMinor),
            1 => Some(ABRM::GenCpVersionMajor),
            2 => Some(ABRM::ManufacturerName),
            3 => Some(ABRM::ModelName),
            4 => Some(ABRM::FamilyName),
            5 => Some(ABRM::DeviceVersion),
            6 => Some(ABRM::ManufacturerInfo),
            7 => Some(ABRM::SerialNumber),
            8 => Some(ABRM::UserDefinedName),
            9 => Some(ABRM::DeviceCapability),
            10 => Some(ABRM::MaximumDeviceResponseTime),
            11 => Some(ABRM::ManifestTableAddress),
            12 => Some(ABRM::SBRMAddress),
            13 => Some(ABRM::DeviceConfiguration),
            14 => Some(ABRM::HeartbeatTimeout),
            15 => Some(ABRM::MessageChannelId),
            16 => Some(ABRM::Timestamp),
            17 => Some(ABRM::TimestampLatch),
            18 => Some(ABRM::TimestampIncrement),
            19 => Some(ABRM::AccessPrivilege),
            20 => Some(ABRM::ProtocolEndianess),
            21 => Some(ABRM::ImplementationEndianess),
            22 => Some(ABRM::DeviceSoftwareInterfaceVersion),
            _ => None,
        }
    }

    /// Where the entry starts, counted in bytes from the start of the
    /// register map.
    pub open spec fn spec_offset(self) -> usize {
        match self {
            ABRM::GenCpVersionMinor => 0,
            ABRM::GenCpVersionMajor => 2,
            ABRM::ManufacturerName => 4,
            ABRM::ModelName => 68,
            ABRM::FamilyName => 132,
            ABRM::DeviceVersion => 196,
            ABRM::ManufacturerInfo => 260,
            ABRM::SerialNumber => 324,
            ABRM::UserDefinedName => 388,
            ABRM::DeviceCapability => 452,
            ABRM::MaximumDeviceResponseTime => 460,
            ABRM::ManifestTableAddress => 464,
            ABRM::SBRMAddress => 472,
            ABRM::DeviceConfiguration => 480,
            ABRM::HeartbeatTimeout => 488,
            ABRM::MessageChannelId => 492,
            ABRM::Timestamp => 496,
            ABRM::TimestampLatch => 504,
            ABRM::TimestampIncrement => 508,
            ABRM::AccessPrivilege => 516,
            ABRM::ProtocolEndianess => 520,
            ABRM::ImplementationEndianess => 524,
            ABRM::DeviceSoftwareInterfaceVersion => 528,
        }
    }

    /// The entry as plain values.
    pub open spec fn spec_descriptor(self) -> EntryDescriptorView {
        EntryDescriptorView {
            name: self.spec_name(),
            len: self.spec_len(),
            access: self.spec_access(),
            value: self.spec_value(),
        }
    }

    /// The entry as it lies in the register map.
    pub open spec fn spec_entry(self) -> Entry {
        Entry {
            offset: self.spec_offset(),
            len: self.spec_len(),
            access: self.spec_access(),
            kind: kind_of(self.spec_value()),
        }
    }

    /// The bytes that the entry starts with.
    pub open spec fn spec_bytes(self) -> Seq<u8> {
        initial_bytes(self.spec_len() as nat, self.spec_value(), Endianness::LE).unwrap()
    }

    /// The entries of the register map as plain values, in the order in
    /// which they lie.
    pub open spec fn spec_descriptors() -> Seq<EntryDescriptorView> {
        Seq::new(
            ABRM_ENTRIES as nat,
            |i: int| Self::spec_from_index(i as usize).unwrap().spec_descriptor(),
        )
    }

    /// The position of the entry in the register map.
    #[verifier::when_used_as_spec(spec_index)]
    pub fn index(self) -> (r: usize)
        ensures
            r == self.spec_index(),
            r < ABRM_ENTRIES,
            Self::spec_from_index(r) == Some(self),
    {
        match self {
            ABRM::GenCpVersionMinor => 0,
            ABRM::GenCpVersionMajor => 1,
            ABRM::ManufacturerName => 2,
            ABRM::ModelName => 3,
            ABRM::FamilyName => 4,
            ABRM::DeviceVersion => 5,
            ABRM::ManufacturerInfo => 6,
            ABRM::SerialNumber => 7,
            ABRM::UserDefinedName => 8,
            ABRM::DeviceCapability => 9,
            ABRM::MaximumDeviceResponseTime => 10,
            ABRM::ManifestTableAddress => 11,
            ABRM::SBRMAddress => 12,
            ABRM::DeviceConfiguration => 13,
            ABRM::HeartbeatTimeout => 14,
            ABRM::MessageChannelId => 15,
            ABRM::Timestamp => 16,
            ABRM::TimestampLatch => 17,
            ABRM::TimestampIncrement => 18,
            ABRM::AccessPrivilege => 19,
            ABRM::ProtocolEndianess => 20,
            ABRM::ImplementationEndianess => 21,
            ABRM::DeviceSoftwareInterfaceVersion => 22,
        }
    }

    /// The entry at the position `index`.
    #[verifier::when_used_as_spec(spec_from_index)]
    pub fn from_index(index: usize) -> (r: Option<ABRM>)
        ensures
            r == Self::spec_from_index(index),
            r is Some <==> index < ABRM_ENTRIES,
            r matches Some(e) ==> e.spec_index() == index,
    {
        match index {
            0 => Some(ABRM::GenCpVersionMinor),
            1 => Some(ABRM::GenCpVersionMajor),
            2 => Some(ABRM::ManufacturerName),
            3 => Some(ABRM::ModelName),
            4 => Some(ABRM::FamilyName),
            5 => Some(ABRM::DeviceVersion),
            6 => Some(ABRM::ManufacturerInfo),
            7 => Some(ABRM::SerialNumber),
            8 => Some(ABRM::UserDefinedName),
            9 => Some(ABRM::DeviceCapability),
            10 => Some(ABRM::MaximumDeviceResponseTime),
            11 => Some(ABRM::ManifestTableAddress),
            12 => Some(ABRM::SBRMAddress),
            13 => Some(ABRM::DeviceConfiguration),
            14 => Some(ABRM::HeartbeatTimeout),
            15 => Some(ABRM::MessageChannelId),
            16 => Some(ABRM::Timestamp),
            17 => Some(ABRM::TimestampLatch),
            18 => Some(ABRM::TimestampIncrement),
            19 => Some(ABRM::AccessPrivilege),
            20 => Some(ABRM::ProtocolEndianess),
            21 => Some(ABRM::ImplementationEndianess),
            22 => Some(ABRM::DeviceSoftwareInterfaceVersion),
            _ => None,
        }
    }

    /// What the entry is: its name, its length, its access right, and the
    /// value that it starts with.
    pub fn descriptor(self) -> (r: EntryDescriptor)
        ensures
            r.name@ == self.spec_name(),
            r.len == self.spec_len(),
            r.access == self.spec_access(),
            r.value@ == self.spec_value(),
    {
        match self {
            ABRM::GenCpVersionMinor => EntryDescriptor {
                name: "GenCpVersionMinor".to_owned(),
                len: 2,
                access: AccessRight::RO,
                value: EntryValue::Unsigned(1),
            },
            ABRM::GenCpVersionMajor => EntryDescriptor {
                name: "GenCpVersionMajor".to_owned(),
                len: 2,
                access: AccessRight::RO,
                value: EntryValue::Unsigned(1),
            },
            ABRM::ManufacturerName => EntryDescriptor {
                name: "ManufacturerName".to_owned(),
                len: 64,
                access: AccessRight::RO,
                value: EntryValue::Str("cameleon".to_owned()),
            },
            ABRM::ModelName => EntryDescriptor {
                name: "ModelName".to_owned(),
                len: 64,
                access: AccessRight::RO,
                value: EntryValue::Str("cameleon model".to_owned()),
            },
            ABRM::FamilyName => EntryDescriptor {
                name: "FamilyName".to_owned(),
                len: 64,
                access: AccessRight::RO,
                value: EntryValue::Str("cameleon family".to_owned()),
            },
            ABRM::DeviceVersion => EntryDescriptor {
                name: "DeviceVersion".to_owned(),
                len: 64,
                access: AccessRight::RO,
                value: EntryValue::Str("none".to_owned()),
            },
            ABRM::ManufacturerInfo => EntryDescriptor {
                name: "ManufacturerInfo".to_owned(),
                len: 64,
                access: AccessRight::RO,
                value: EntryValue::Str("none".to_owned()),
            },
            ABRM::SerialNumber => EntryDescriptor {
                name: "SerialNumber".to_owned(),
                len: 64,
                access: AccessRight::RO,
                value: EntryValue::Str("".to_owned()),
            },
            ABRM::UserDefinedName => EntryDescriptor {
                name: "UserDefinedName".to_owned(),
                len: 64,
                access: AccessRight::RW,
                value: EntryValue::Str("".to_owned()),
            },
            ABRM::DeviceCapability => EntryDescriptor {
                name: "DeviceCapability".to_owned(),
                len: 8,
                access: AccessRight::RO,
                value: EntryValue::Unsigned(DEVICE_CAPABILITY),
            },
            ABRM::MaximumDeviceResponseTime => EntryDescriptor {
                name: "MaximumDeviceResponseTime".to_owned(),
                len: 4,
                access: AccessRight::RO,
                value: EntryValue::Unsigned(100),
            },
            ABRM::ManifestTableAddress => EntryDescriptor {
                name: "ManifestTableAddress".to_owned(),
                len: 8,
                access: AccessRight::RO,
                value: EntryValue::Unsigned(0),
            },
            ABRM::SBRMAddress => EntryDescriptor {
                name: "SBRMAddress".to_owned(),
                len: 8,
                access: AccessRight::RO,
                value: EntryValue::Unsigned(SBRM_ADDRESS),
            },
            ABRM::DeviceConfiguration => EntryDescriptor {
                name: "DeviceConfiguration".to_owned(),
                len: 8,
                access: AccessRight::RO,
                value: EntryValue::Unsigned(0),
            },
            ABRM::HeartbeatTimeout => EntryDescriptor {
                name: "HeartbeatTimeout".to_owned(),
                len: 4,
                access: AccessRight::NA,
                value: EntryValue::Unsigned(0),
            },
            ABRM::MessageChannelId => EntryDescriptor {
                name: "MessageChannelId".to_owned(),
                len: 4,
                access: AccessRight::NA,
                value: EntryValue::Unsigned(0),
            },
            ABRM::Timestamp => EntryDescriptor {
                name: "Timestamp".to_owned(),
                len: 8,
                access: AccessRight::RO,
                value: EntryValue::Unsigned(0),
            },
            ABRM::TimestampLatch => EntryDescriptor {
                name: "TimestampLatch".to_owned(),
                len: 4,
                access: AccessRight::WO,
                value: EntryValue::Unsigned(0),
            },
            ABRM::TimestampIncrement => EntryDescriptor {
                name: "TimestampIncrement".to_owned(),
                len: 8,
                access: AccessRight::RO,
                value: EntryValue::Unsigned(1000),
            },
            ABRM::AccessPrivilege => EntryDescriptor {
                name: "AccessPrivilege".to_owned(),
                len: 4,
                access: AccessRight::NA,
                value: EntryValue::Unsigned(0),
            },
            ABRM::ProtocolEndianess => EntryDescriptor {
                name: "ProtocolEndianess".to_owned(),
                len: 4,
                access: AccessRight::RO,
                value: EntryValue::Unsigned(0xFFFF_FFFF),
            },
            ABRM::ImplementationEndianess => EntryDescriptor {
                name: "ImplementationEndianess".to_owned(),
                len: 4,
                access: AccessRight::NA,
                value: EntryValue::Unsigned(0),
            },
            ABRM::DeviceSoftwareInterfaceVersion => EntryDescriptor {
                name: "DeviceSoftwareInterfaceVersion".to_owned(),
                len: 64,
                access: AccessRight::RO,
                value: EntryValue::Str("1.0.0".to_owned()),
            },
        }
    }

    /// The entries of the register map, in the order in which they lie.
    pub fn descriptors() -> (r: Vec<EntryDescriptor>)
        ensures
            r@.len() == ABRM_ENTRIES,
            descriptor_views(r@) == Self::spec_descriptors(),
    {
        let mut r: Vec<EntryDescriptor> = Vec::new();
        let mut i: usize = 0;
        while i < ABRM_ENTRIES
            invariant
                i <= ABRM_ENTRIES,
                r@.len() == i,
                forall|k: int|
                    0 <= k < i ==> {
                        let e = Self::spec_from_index(k as usize).unwrap();
                        &&& (#[trigger] r@[k]).name@ == e.spec_name()
                        &&& r@[k].len == e.spec_len()
                        &&& r@[k].access == e.spec_access()
                        &&& r@[k].value@ == e.spec_value()
                    },
            decreases ABRM_ENTRIES - i,
        {
            let entry = ABRM::from_index(i).unwrap();
            r.push(entry.descriptor());
            i += 1;
        }
        proof {
            assert(descriptor_views(r@) =~= Self::spec_descriptors());
        }
        r
    }

    /// The layout of the register map: little-endian, from the address 0,
    /// each entry where `spec_offset` says, holding the value that it starts
    /// with.
    pub fn layout() -> (r: Result<RegisterLayout, MemoryError>)
        ensures
            match r {
                Ok(l) => {
                    &&& l.well_formed()
                    &&& l.spec_base() == 0
                    &&& l.spec_endianness() == Endianness::LE
                    &&& l.entries() == Seq::new(
                        ABRM_ENTRIES as nat,
                        |i: int| Self::spec_from_index(i as usize).unwrap().spec_entry(),
                    )
                    &&& l.names() == Seq::new(
                        ABRM_ENTRIES as nat,
                        |i: int| Self::spec_from_index(i as usize).unwrap().spec_name(),
                    )
                    &&& l.bytes() == preloaded(Self::spec_descriptors(), Endianness::LE)
                    &&& l.bytes().len() == ABRM_SIZE
                    &&& forall|e: ABRM|
                        l.bytes().subrange(e.spec_offset() as int, e.spec_offset() + e.spec_len())
                            == #[trigger] e.spec_bytes()
                },
                Err(_) => false,
            },
    {
        let descriptors = ABRM::descriptors();
        proof {
            let ds = Self::spec_descriptors();
            lemma_offsets();
            lemma_values_fit();
            lemma_layout_fits(ds, 0, Endianness::LE);
            assert(entries_of(ds) =~= Seq::new(
                ABRM_ENTRIES as nat,
                |i: int| Self::spec_from_index(i as usize).unwrap().spec_entry(),
            ));
            assert(Seq::new(ds.len(), |i: int| ds[i].name) =~= Seq::new(
                ABRM_ENTRIES as nat,
                |i: int| Self::spec_from_index(i as usize).unwrap().spec_name(),
            ));
            assert forall|e: ABRM|
                preloaded(ds, Endianness::LE).subrange(
                    e.spec_offset() as int,
                    e.spec_offset() + e.spec_len(),
                ) == #[trigger] e.spec_bytes() by {
                let i = e.spec_index() as int;
                assert(Self::spec_from_index(i as usize) == Some(e));
                assert(ds[i] == e.spec_descriptor());
                lemma_preloaded_entry(ds, Endianness::LE, i);
                assert(total_len(ds.take(i)) == e.spec_offset());
            }
        }
        RegisterLayout::new(0, Endianness::LE, descriptors)
    }
}

/// The texts that the entries start with are as long in bytes as in
/// characters.
proof fn lemma_texts()
    ensures
        vstd::utf8::encode_utf8("cameleon"@).len() == 8,
        vstd::utf8::encode_utf8("cameleon model"@).len() == 14,
        vstd::utf8::encode_utf8("cameleon family"@).len() == 15,
        vstd::utf8::encode_utf8("none"@).len() == 4,
        vstd::utf8::encode_utf8(""@).len() == 0,
        vstd::utf8::encode_utf8("1.0.0"@).len() == 5,
{
    reveal_strlit("cameleon");
    reveal_strlit("cameleon model");
    reveal_strlit("cameleon family");
    reveal_strlit("none");
    reveal_strlit("");
    reveal_strlit("1.0.0");
    vstd::utf8::is_ascii_chars_encode_utf8("cameleon"@);
    vstd::utf8::is_ascii_chars_encode_utf8("cameleon model"@);
    vstd::utf8::is_ascii_chars_encode_utf8("cameleon family"@);
    vstd::utf8::is_ascii_chars_encode_utf8("none"@);
    vstd::utf8::is_ascii_chars_encode_utf8(""@);
    vstd::utf8::is_ascii_chars_encode_utf8("1.0.0"@);
}

/// Each entry of the register map starts with a value that fits it.
pub proof fn lemma_values_fit()
    ensures
        forall|i: int|
            0 <= i < ABRM_ENTRIES ==> initial_bytes(
                (#[trigger] ABRM::spec_descriptors()[i]).len as nat,
                ABRM::spec_descriptors()[i].value,
                Endianness::LE,
            ) is Some,
{
    lemma_texts();
    lemma_pow256_values();
    let ds = ABRM::spec_descriptors();
    assert forall|i: int| 0 <= i < ABRM_ENTRIES implies initial_bytes(
        (#[trigger] ds[i]).len as nat,
        ds[i].value,
        Endianness::LE,
    ) is Some by {
        let e = ABRM::spec_from_index(i as usize).unwrap();
        assert(ds[i] == e.spec_descriptor());
    }
}

/// Each entry of the register map starts where the entries before it end,
/// and the last ends at the size of the register map.
pub proof fn lemma_offsets()
    ensures
        forall|i: int|
            0 <= i < ABRM_ENTRIES ==> total_len(#[trigger] ABRM::spec_descriptors().take(i))
                == ABRM::spec_from_index(i as usize).unwrap().spec_offset(),
        total_len(ABRM::spec_descriptors()) == ABRM_SIZE,
{
    let ds = ABRM::spec_descriptors();
    assert(ds.take(0) =~= Seq::<EntryDescriptorView>::empty());
    assert(total_len(ds.take(0)) == 0);
        lemma_total_len_step(ds, 0);
        assert(ds[0].len == 2);
        assert(total_len(ds.take(1)) == 2);
        lemma_total_len_step(ds, 1);
        assert(ds[1].len == 2);
        assert(total_len(ds.take(2)) == 4);
        lemma_total_len_step(ds, 2);
        assert(ds[2].len == 64);
        assert(total_len(ds.take(3)) == 68);
        lemma_total_len_step(ds, 3);
        assert(ds[3].len == 64);
        assert(total_len(ds.take(4)) == 132);
        lemma_total_len_step(ds, 4);
        assert(ds[4].len == 64);
        assert(total_len(ds.take(5)) == 196);
        lemma_total_len_step(ds, 5);
        assert(ds[5].len == 64);
        assert(total_len(ds.take(6)) == 260);
        lemma_total_len_step(ds, 6);
        assert(ds[6].len == 64);
        assert(total_len(ds.take(7)) == 324);
        lemma_total_len_step(ds, 7);
        assert(ds[7].len == 64);
        assert(total_len(ds.take(8)) == 388);
        lemma_total_len_step(ds, 8);
        assert(ds[8].len == 64);
        assert(total_len(ds.take(9)) == 452);
        lemma_total_len_step(ds, 9);
        assert(ds[9].len == 8);
        assert(total_len(ds.take(10)) == 460);
        lemma_total_len_step(ds, 10);
        assert(ds[10].len == 4);
        assert(total_len(ds.take(11)) == 464);
        lemma_total_len_step(ds, 11);
        assert(ds[11].len == 8);
        assert(total_len(ds.take(12)) == 472);
        lemma_total_len_step(ds, 12);
        assert(ds[12].len == 8);
        assert(total_len(ds.take(13)) == 480);
        lemma_total_len_step(ds, 13);
        assert(ds[13].len == 8);
        assert(total_len(ds.take(14)) == 488);
        lemma_total_len_step(ds, 14);
        assert(ds[14].len == 4);
        assert(total_len(ds.take(15)) == 492);
        lemma_total_len_step(ds, 15);
        assert(ds[15].len == 4);
        assert(total_len(ds.take(16)) == 496);
        lemma_total_len_step(ds, 16);
        assert(ds[16].len == 8);
        assert(total_len(ds.take(17)) == 504);
        lemma_total_len_step(ds, 17);
        assert(ds[17].len == 4);
        assert(total_len(ds.take(18)) == 508);
        lemma_total_len_step(ds, 18);
        assert(ds[18].len == 8);
        assert(total_len(ds.take(19)) == 516);
        lemma_total_len_step(ds, 19);
        assert(ds[19].len == 4);
        assert(total_len(ds.take(20)) == 520);
        lemma_total_len_step(ds, 20);
        assert(ds[20].len == 4);
        assert(total_len(ds.take(21)) == 524);
        lemma_total_len_step(ds, 21);
        assert(ds[21].len == 4);
        assert(total_len(ds.take(22)) == 528);
        lemma_total_len_step(ds, 22);
        assert(ds[22].len == 64);
        assert(total_len(ds.take(23)) == 592);
    assert(ds.take(23) =~= ds);
}

} // verus!
