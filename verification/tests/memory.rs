use cameleon::elem_type::Endianness;
use cameleon::emulator::abrm::{ABRM, ABRM_ENTRIES, ABRM_SIZE, DEVICE_CAPABILITY, SBRM_ADDRESS};
use cameleon::Device;
use cameleon::emulator::memory::{
    AccessRight, EntryDescriptor, EntryValue, Memory, MemoryError, RegisterLayout,
};

fn entry(name: &str, len: usize, access: AccessRight, value: EntryValue) -> EntryDescriptor {
    EntryDescriptor {
        name: name.to_owned(),
        len,
        access,
        value,
    }
}

fn small_layout(endianness: Endianness) -> RegisterLayout {
    RegisterLayout::new(
        0,
        endianness,
        vec![
            entry("GenCpVersionMinor", 2, AccessRight::RO, EntryValue::Unsigned(321)),
            entry("GenCpVersionMajor", 2, AccessRight::RO, EntryValue::Unsigned(0)),
            entry(
                "ManufacturerName",
                64,
                AccessRight::RW,
                EntryValue::Str("Cameleon".to_owned()),
            ),
            entry("SBRMAddress", 8, AccessRight::RO, EntryValue::Unsigned(0x1000)),
        ],
    )
    .unwrap()
}

#[test]
fn register_layout_of_four_entries() {
    let layout = small_layout(Endianness::LE);
    assert_eq!(layout.size(), 76);

    let raw_entry_local = layout.local_raw_entry(1).unwrap();
    assert_eq!(raw_entry_local.offset, 2);
    assert_eq!(raw_entry_local.len, 2);

    let protection = layout.memory_protection();
    assert_eq!(protection.access_right_with_range(0..2), AccessRight::RO);
    assert_eq!(
        protection.access_right_with_range(4..4 + 64),
        AccessRight::RW
    );

    let fragment = layout.fragment();
    assert_eq!(u16::from_le_bytes([fragment[0], fragment[1]]), 321);

    let name = layout.local_raw_entry(2).unwrap();
    assert_eq!(&fragment[name.offset..name.offset + 9], b"Cameleon\0");
    assert!(fragment[name.offset + 8..name.offset + 64]
        .iter()
        .all(|b| *b == 0));

    let sbrm = layout.local_raw_entry(3).unwrap();
    let mut raw = [0u8; 8];
    raw.copy_from_slice(&fragment[sbrm.offset..sbrm.offset + 8]);
    assert_eq!(u64::from_le_bytes(raw), 0x1000);
}

#[test]
fn big_endian_layout_stores_most_significant_byte_first() {
    let layout = small_layout(Endianness::BE);
    let fragment = layout.fragment();
    assert_eq!(&fragment[0..2], &[0x01, 0x41]);
    assert_eq!(&fragment[68..76], &[0, 0, 0, 0, 0, 0, 0x10, 0]);
}

#[test]
fn abrm_layout_matches_the_declared_entries() {
    let layout = ABRM::layout().unwrap();
    assert_eq!(layout.len(), ABRM_ENTRIES);
    let declared: usize = ABRM::descriptors().iter().map(|d| d.len).sum();
    assert_eq!(declared, 592);
    assert_eq!(layout.size(), declared);

    let memory = Memory::new(layout);
    let minor = memory.read(0..2).unwrap();
    assert_eq!(u16::from_le_bytes([minor[0], minor[1]]), 1);
    assert_eq!(memory.read_unsigned(ABRM::GenCpVersionMinor.index()), Ok(1));
    assert_eq!(memory.read_unsigned(ABRM::GenCpVersionMajor.index()), Ok(1));

    let sbrm = memory
        .layout_ref()
        .raw_entry(ABRM::SBRMAddress.index())
        .unwrap();
    let bytes = memory.read(sbrm.offset..sbrm.offset + 8).unwrap();
    let mut raw = [0u8; 8];
    raw.copy_from_slice(&bytes);
    assert_eq!(u64::from_le_bytes(raw), 0xFFFF);
    assert_eq!(SBRM_ADDRESS, 0xFFFF);

    let name = memory
        .layout_ref()
        .local_raw_entry(ABRM::UserDefinedName.index())
        .unwrap();
    assert_eq!(
        memory
            .memory_protection()
            .access_right_with_range(name.offset..name.offset + name.len),
        AccessRight::RW
    );

    assert_eq!(
        memory.read_unsigned(ABRM::DeviceCapability.index()),
        Ok(DEVICE_CAPABILITY)
    );
    assert_eq!(DEVICE_CAPABILITY, 0x6f09);
    assert_eq!(
        memory.read_unsigned(ABRM::MaximumDeviceResponseTime.index()),
        Ok(100)
    );
    assert_eq!(
        memory.read_unsigned(ABRM::TimestampIncrement.index()),
        Ok(1000)
    );
    assert_eq!(
        memory.read_unsigned(ABRM::ProtocolEndianess.index()),
        Ok(0xFFFF_FFFF)
    );
    assert_eq!(
        memory.read_string(ABRM::ManufacturerName.index()).unwrap(),
        "cameleon"
    );
    assert_eq!(
        memory
            .read_string(ABRM::DeviceSoftwareInterfaceVersion.index())
            .unwrap(),
        "1.0.0"
    );
    assert_eq!(memory.read_string(ABRM::SerialNumber.index()).unwrap(), "");
}

#[test]
fn abrm_entries_lie_where_their_lengths_put_them() {
    let layout = ABRM::layout().unwrap();
    let mut offset = 0;
    for i in 0..ABRM_ENTRIES {
        let raw = layout.local_raw_entry(i).unwrap();
        assert_eq!(raw.offset, offset);
        assert_eq!(ABRM::from_index(i).unwrap().index(), i);
        offset += raw.len;
    }
    assert_eq!(offset, layout.size());
    assert_eq!(layout.local_raw_entry(ABRM_ENTRIES), None);
    assert_eq!(ABRM::from_index(ABRM_ENTRIES), None);
    assert_eq!(layout.index_of("SBRMAddress"), Some(ABRM::SBRMAddress.index()));
    assert_eq!(layout.index_of("NoSuchEntry"), None);
}

#[test]
fn access_right_is_the_strictest_of_the_ranges_touched() {
    let layout = ABRM::layout().unwrap();
    let protection = layout.memory_protection();
    let of = |e: ABRM| layout.local_raw_entry(e.index()).unwrap();

    let user = of(ABRM::UserDefinedName);
    let capability = of(ABRM::DeviceCapability);
    // `RW` and `RO` meet in `RO`.
    assert_eq!(
        protection.access_right_with_range(user.offset..capability.offset + 1),
        AccessRight::RO
    );
    // `RO` and `WO` meet in `NA`.
    let timestamp = of(ABRM::Timestamp);
    let latch = of(ABRM::TimestampLatch);
    assert_eq!(
        protection.access_right_with_range(timestamp.offset..timestamp.offset + 8),
        AccessRight::RO
    );
    assert_eq!(
        protection.access_right_with_range(latch.offset..latch.offset + 4),
        AccessRight::WO
    );
    assert_eq!(
        protection.access_right_with_range(timestamp.offset + 7..latch.offset + 1),
        AccessRight::NA
    );
    // An empty range and a range that leaves the layout have no rights.
    assert_eq!(protection.access_right_with_range(4..4), AccessRight::NA);
    assert_eq!(protection.access_right_with_range(5..4), AccessRight::NA);
    assert_eq!(
        protection.access_right_with_range(0..layout.size() + 1),
        AccessRight::NA
    );
    assert_eq!(
        protection.access_right_with_range(0..layout.size()),
        AccessRight::NA
    );
    assert_eq!(protection.size(), layout.size());
}

#[test]
fn meet_of_access_rights() {
    let (na, ro, wo, rw) = (
        AccessRight::NA,
        AccessRight::RO,
        AccessRight::WO,
        AccessRight::RW,
    );
    assert_eq!(rw.meet(rw), rw);
    assert_eq!(rw.meet(ro), ro);
    assert_eq!(rw.meet(wo), wo);
    assert_eq!(ro.meet(wo), na);
    assert_eq!(wo.meet(ro), na);
    assert_eq!(ro.meet(ro), ro);
    assert_eq!(na.meet(rw), na);
    assert!(ro.is_readable() && !ro.is_writable());
    assert!(!wo.is_readable() && wo.is_writable());
    assert!(rw.is_readable() && rw.is_writable());
    assert!(!na.is_readable() && !na.is_writable());
    assert_eq!(AccessRight::from_flags(true, false), ro);
}

#[test]
fn memory_write_respects_access_rights() {
    let mut memory = Memory::new(ABRM::layout().unwrap());
    let user = memory
        .layout_ref()
        .raw_entry(ABRM::UserDefinedName.index())
        .unwrap();
    let name = b"camera one";
    assert_eq!(
        memory.write(user.offset..user.offset + name.len(), name),
        Ok(())
    );
    assert_eq!(
        memory.read(user.offset..user.offset + name.len()).unwrap(),
        name
    );
    assert_eq!(
        memory.read_string(ABRM::UserDefinedName.index()).unwrap(),
        "camera one"
    );
    // The bytes in front of and behind the range are as they were.
    assert_eq!(
        memory.read_string(ABRM::SerialNumber.index()).unwrap(),
        ""
    );
    assert_eq!(
        memory.read_unsigned(ABRM::DeviceCapability.index()),
        Ok(DEVICE_CAPABILITY)
    );

    // A byte of a read-only entry in the range denies the write as a whole.
    let before = memory.read(user.offset - 1..user.offset + 1).unwrap();
    assert_eq!(
        memory.write(user.offset - 1..user.offset + 1, &[1, 2]),
        Err(MemoryError::AccessDenied)
    );
    assert_eq!(
        memory.read(user.offset - 1..user.offset + 1).unwrap(),
        before
    );

    assert_eq!(
        memory.write(0..2, &[0, 0]),
        Err(MemoryError::AccessDenied)
    );
    assert_eq!(
        memory.write(user.offset..user.offset + 2, &[0]),
        Err(MemoryError::InvalidLength)
    );
    assert_eq!(
        memory.write(600..602, &[0, 0]),
        Err(MemoryError::InvalidAddress)
    );
    assert_eq!(memory.read(590..593), Err(MemoryError::InvalidAddress));
    assert_eq!(memory.read(3..2), Err(MemoryError::InvalidAddress));
    assert_eq!(memory.read(5..5), Ok(vec![]));

    // Entries without the right to read cannot be read through the memory.
    let heartbeat = memory
        .layout_ref()
        .raw_entry(ABRM::HeartbeatTimeout.index())
        .unwrap();
    assert_eq!(
        memory.read(heartbeat.offset..heartbeat.offset + 4),
        Err(MemoryError::AccessDenied)
    );
    let latch = memory
        .layout_ref()
        .raw_entry(ABRM::TimestampLatch.index())
        .unwrap();
    assert_eq!(
        memory.read(latch.offset..latch.offset + 4),
        Err(MemoryError::AccessDenied)
    );
    assert_eq!(
        memory.write(latch.offset..latch.offset + 4, &[1, 0, 0, 0]),
        Ok(())
    );
    assert_eq!(memory.read_unsigned(ABRM::TimestampLatch.index()), Ok(1));
}

#[test]
fn typed_accessors_encode_and_decode() {
    let layout = RegisterLayout::new(
        0x100,
        Endianness::BE,
        vec![
            entry("Counter", 4, AccessRight::RO, EntryValue::Unsigned(7)),
            entry("Offset", 2, AccessRight::RW, EntryValue::Signed(-2)),
            entry("Label", 8, AccessRight::RW, EntryValue::Str("abc".to_owned())),
            entry("Blob", 3, AccessRight::RW, EntryValue::Bytes(vec![9, 8])),
            entry("Empty", 0, AccessRight::RW, EntryValue::Bytes(vec![])),
        ],
    )
    .unwrap();
    assert_eq!(layout.base(), 0x100);
    assert_eq!(layout.size(), 17);
    assert_eq!(layout.raw_entry(1).unwrap().offset, 0x104);
    assert_eq!(layout.local_raw_entry(4).unwrap().offset, 17);
    assert_eq!(
        layout.fragment(),
        vec![0, 0, 0, 7, 0xff, 0xfe, b'a', b'b', b'c', 0, 0, 0, 0, 0, 9, 8, 0]
    );

    let mut memory = Memory::new(layout);
    assert_eq!(memory.read_unsigned(0), Ok(7));
    assert_eq!(memory.read_signed(1), Ok(-2));
    assert_eq!(memory.read_string(2).unwrap(), "abc");

    // A typed write is the device's own and ignores the access right.
    assert_eq!(memory.write_unsigned(0, 0x0102_0304), Ok(()));
    assert_eq!(memory.read(0x100..0x104).unwrap(), vec![1, 2, 3, 4]);
    assert_eq!(memory.write(0x100..0x104, &[0; 4]), Err(MemoryError::AccessDenied));
    assert_eq!(memory.write_signed(1, -32768), Ok(()));
    assert_eq!(memory.read_signed(1), Ok(-32768));
    assert_eq!(memory.write_signed(1, 32767), Ok(()));
    assert_eq!(memory.read_signed(1), Ok(32767));
    assert_eq!(memory.write_signed(1, 32768), Err(MemoryError::InvalidLength));
    assert_eq!(memory.write_signed(1, -32769), Err(MemoryError::InvalidLength));
    assert_eq!(memory.read_signed(1), Ok(32767));
    assert_eq!(
        memory.write_unsigned(0, 0x1_0000_0000),
        Err(MemoryError::InvalidLength)
    );
    assert_eq!(memory.write_string(2, "12345678"), Ok(()));
    assert_eq!(memory.read_string(2).unwrap(), "12345678");
    assert_eq!(memory.write_string(2, "xy"), Ok(()));
    assert_eq!(memory.read_string(2).unwrap(), "xy");
    assert_eq!(
        memory.read(0x106..0x10e).unwrap(),
        vec![b'x', b'y', 0, 0, 0, 0, 0, 0]
    );
    assert_eq!(
        memory.write_string(2, "123456789"),
        Err(MemoryError::InvalidLength)
    );

    // The type of the entry has to match.
    assert_eq!(memory.read_unsigned(1), Err(MemoryError::InvalidEntry));
    assert_eq!(memory.read_signed(0), Err(MemoryError::InvalidEntry));
    assert_eq!(memory.read_string(3), Err(MemoryError::InvalidEntry));
    assert_eq!(memory.read_unsigned(5), Err(MemoryError::InvalidEntry));
    assert_eq!(memory.write_unsigned(2, 0), Err(MemoryError::InvalidEntry));

    // Bytes that are no UTF-8 in front of the first NUL are rejected.
    assert_eq!(memory.write(0x106..0x108, &[0xff, 0xfe]), Ok(()));
    assert_eq!(memory.read_string(2), Err(MemoryError::InvalidUtf8));
    // Behind the first NUL anything may stand.
    assert_eq!(memory.write(0x106..0x109, &[b'o', 0, 0xff]), Ok(()));
    assert_eq!(memory.read_string(2).unwrap(), "o");
}

#[test]
fn layouts_that_cannot_be_made() {
    let too_long = RegisterLayout::new(
        0,
        Endianness::LE,
        vec![
            entry("A", 1, AccessRight::RO, EntryValue::Unsigned(255)),
            entry("B", 1, AccessRight::RO, EntryValue::Unsigned(256)),
        ],
    );
    assert_eq!(too_long.err(), Some(MemoryError::InvalidInitializer(1)));
    let wide = RegisterLayout::new(
        0,
        Endianness::LE,
        vec![entry("A", 9, AccessRight::RO, EntryValue::Unsigned(0))],
    );
    assert_eq!(wide.err(), Some(MemoryError::InvalidInitializer(0)));
    let text = RegisterLayout::new(
        0,
        Endianness::LE,
        vec![entry("A", 2, AccessRight::RO, EntryValue::Str("abc".to_owned()))],
    );
    assert_eq!(text.err(), Some(MemoryError::InvalidInitializer(0)));
    let signed = RegisterLayout::new(
        0,
        Endianness::LE,
        vec![entry("A", 1, AccessRight::RO, EntryValue::Signed(128))],
    );
    assert_eq!(signed.err(), Some(MemoryError::InvalidInitializer(0)));
    let huge = RegisterLayout::new(
        usize::MAX - 1,
        Endianness::LE,
        vec![entry("A", 2, AccessRight::RO, EntryValue::Bytes(vec![]))],
    );
    assert_eq!(huge.err(), Some(MemoryError::TooLarge));
    let empty = RegisterLayout::new(0, Endianness::LE, vec![]).unwrap();
    assert_eq!(empty.size(), 0);
    assert_eq!(empty.len(), 0);
    assert!(empty.fragment().is_empty());
}

#[test]
fn abrm_layout_is_always_made_and_lies_at_fixed_offsets() {
    let layout = ABRM::layout().expect("the register map can always be laid out");
    assert_eq!(layout.base(), 0);
    assert_eq!(layout.endianness(), Endianness::LE);
    assert_eq!(layout.size(), ABRM_SIZE);
    assert_eq!(ABRM_SIZE, 592);
    let offsets: [usize; 23] = [
        0, 2, 4, 68, 132, 196, 260, 324, 388, 452, 460, 464, 472, 480, 488, 492, 496, 504, 508,
        516, 520, 524, 528,
    ];
    for (i, offset) in offsets.iter().enumerate() {
        let e = layout.local_raw_entry(i).unwrap();
        assert_eq!(e.offset, *offset);
        assert_eq!(layout.index_of(&ABRM::descriptors()[i].name), Some(i));
    }
    let fragment = layout.fragment();
    assert_eq!(&fragment[0..4], &[1, 0, 1, 0]);
    assert_eq!(&fragment[4..13], b"cameleon\0");
    assert_eq!(&fragment[68..83], b"cameleon model\0");
    assert_eq!(&fragment[132..148], b"cameleon family\0");
    assert_eq!(&fragment[452..460], &[0x09, 0x6f, 0, 0, 0, 0, 0, 0]);
    assert_eq!(&fragment[460..464], &[100, 0, 0, 0]);
    assert_eq!(&fragment[472..480], &[0xff, 0xff, 0, 0, 0, 0, 0, 0]);
    assert_eq!(&fragment[508..516], &[0xe8, 0x03, 0, 0, 0, 0, 0, 0]);
    assert_eq!(&fragment[520..524], &[0xff, 0xff, 0xff, 0xff]);
    assert_eq!(&fragment[528..534], b"1.0.0\0");
}

#[test]
fn register_memory_tells_a_device_why_an_access_fails() {
    let mut memory = Memory::new(ABRM::layout().unwrap());
    let mut buf = [7u8; 4];

    // Beyond the end of the memory, and beyond what can be addressed.
    let e = memory.read_mem(590, &mut buf).unwrap_err();
    assert_eq!(e.message, "no register at the address");
    let e = memory.read_mem(u64::MAX, &mut buf).unwrap_err();
    assert_eq!(e.message, "no register at the address");
    let e = memory.write_mem(590, &[1, 2, 3]).unwrap_err();
    assert_eq!(e.message, "no register at the address");
    assert_eq!(buf, [7u8; 4]);

    // The heartbeat timeout may not be read, the version not be written.
    let e = memory.read_mem(488, &mut buf).unwrap_err();
    assert_eq!(e.message, "access to the register is denied");
    let e = memory.write_mem(0, &[9, 9]).unwrap_err();
    assert_eq!(e.message, "access to the register is denied");
    assert_eq!(buf, [7u8; 4]);
    assert_eq!(memory.read_unsigned(ABRM::GenCpVersionMinor.index()), Ok(1));

    // What may be accessed is.
    assert!(memory.write_mem(388, b"abcd").is_ok());
    assert!(memory.read_mem(388, &mut buf).is_ok());
    assert_eq!(&buf, b"abcd");
}
