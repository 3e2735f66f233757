use cameleon::elem_type::{
    AccessMode, BitMask, CachingMode, Endianness, ImmOrPNode, IntegerRepresentation,
    MergePriority, NameSpace, Sign,
};
use cameleon::int_codec::{decode_int, decode_unsigned, encode_int, encode_unsigned};
use cameleon::masked_int_reg::MaskedIntRegNode;
use cameleon::node_base::{NodeAttributeBase, NodeElementBase};
use cameleon::store::{
    CacheStore, CacheStoreBuilder, DefaultCacheStore, NodeId,
};
use cameleon::{Device, DeviceError, GenApiError, IntRegNode, RegisterBase};

/// A device that is a plain memory and counts the calls made to it.
struct CountingDevice {
    memory: Vec<u8>,
    reads: usize,
    writes: usize,
    fail: bool,
}

impl CountingDevice {
    fn new(size: usize) -> Self {
        CountingDevice {
            memory: vec![0; size],
            reads: 0,
            writes: 0,
            fail: false,
        }
    }
}

impl Device for CountingDevice {
    fn read_mem(&mut self, address: u64, buf: &mut [u8]) -> Result<(), DeviceError> {
        self.reads += 1;
        let start = address as usize;
        if self.fail || start + buf.len() > self.memory.len() {
            return Err(DeviceError {
                message: "read failed".to_owned(),
            });
        }
        buf.copy_from_slice(&self.memory[start..start + buf.len()]);
        Ok(())
    }

    fn write_mem(&mut self, address: u64, data: &[u8]) -> Result<(), DeviceError> {
        self.writes += 1;
        let start = address as usize;
        if self.fail || start + data.len() > self.memory.len() {
            return Err(DeviceError {
                message: "write failed".to_owned(),
            });
        }
        self.memory[start..start + data.len()].copy_from_slice(data);
        Ok(())
    }
}

fn attr_base(id: usize) -> NodeAttributeBase {
    NodeAttributeBase {
        id: NodeId(id),
        name_space: NameSpace::Custom,
        merge_priority: MergePriority::Mid,
        expose_static: None,
    }
}

fn register_base(access_mode: AccessMode, cacheable: CachingMode) -> RegisterBase {
    RegisterBase {
        elem_base: NodeElementBase::default(),
        streamable: false,
        address_kinds: vec![],
        length: ImmOrPNode::Imm(0),
        access_mode,
        p_port: NodeId(99),
        cacheable,
        polling_time: None,
        p_invalidators: vec![],
    }
}

fn int_reg(
    id: usize,
    access_mode: AccessMode,
    cacheable: CachingMode,
    sign: Sign,
    endianness: Endianness,
) -> IntRegNode {
    IntRegNode {
        attr_base: attr_base(id),
        register_base: register_base(access_mode, cacheable),
        sign,
        endianness,
        unit: None,
        representation: IntegerRepresentation::PureNumber,
        p_selected: vec![],
    }
}

fn masked(
    id: usize,
    cacheable: CachingMode,
    bit_mask: BitMask,
    sign: Sign,
    endianness: Endianness,
) -> MaskedIntRegNode {
    MaskedIntRegNode {
        attr_base: attr_base(id),
        register_base: register_base(AccessMode::RW, cacheable),
        bit_mask,
        sign,
        endianness,
        unit: None,
        representation: IntegerRepresentation::PureNumber,
        p_selected: vec![],
    }
}

#[test]
fn integers_as_bytes() {
    assert_eq!(
        encode_int(0x0102, 2, Endianness::LE, Sign::Unsigned),
        Some(vec![0x02, 0x01])
    );
    assert_eq!(
        encode_int(0x0102, 2, Endianness::BE, Sign::Unsigned),
        Some(vec![0x01, 0x02])
    );
    assert_eq!(
        encode_int(-2, 4, Endianness::LE, Sign::Signed),
        Some(vec![0xfe, 0xff, 0xff, 0xff])
    );
    assert_eq!(
        encode_int(-2, 4, Endianness::BE, Sign::Signed),
        Some(vec![0xff, 0xff, 0xff, 0xfe])
    );
    assert_eq!(encode_int(255, 1, Endianness::LE, Sign::Unsigned), Some(vec![255]));
    assert_eq!(encode_int(256, 1, Endianness::LE, Sign::Unsigned), None);
    assert_eq!(encode_int(-1, 1, Endianness::LE, Sign::Unsigned), None);
    assert_eq!(encode_int(127, 1, Endianness::LE, Sign::Signed), Some(vec![127]));
    assert_eq!(encode_int(128, 1, Endianness::LE, Sign::Signed), None);
    assert_eq!(encode_int(-128, 1, Endianness::LE, Sign::Signed), Some(vec![128]));
    assert_eq!(encode_int(-129, 1, Endianness::LE, Sign::Signed), None);
    assert_eq!(encode_int(0, 0, Endianness::LE, Sign::Signed), Some(vec![]));
    assert_eq!(encode_int(1, 0, Endianness::LE, Sign::Unsigned), None);
    assert_eq!(encode_int(0, 9, Endianness::LE, Sign::Unsigned), None);
    assert_eq!(
        encode_int(i64::MIN, 8, Endianness::BE, Sign::Signed),
        Some(vec![0x80, 0, 0, 0, 0, 0, 0, 0])
    );
    assert_eq!(
        encode_int(i64::MAX, 8, Endianness::LE, Sign::Unsigned),
        Some(vec![0xff, 0xff, 0xff, 0xff, 0xff, 0xff, 0xff, 0x7f])
    );

    assert_eq!(decode_int(&[0x02, 0x01], Endianness::LE, Sign::Unsigned), Some(0x0102));
    assert_eq!(decode_int(&[0x02, 0x01], Endianness::BE, Sign::Unsigned), Some(0x0201));
    assert_eq!(decode_int(&[0xff], Endianness::LE, Sign::Signed), Some(-1));
    assert_eq!(decode_int(&[0xff], Endianness::LE, Sign::Unsigned), Some(255));
    assert_eq!(decode_int(&[0x80, 0], Endianness::BE, Sign::Signed), Some(-32768));
    assert_eq!(decode_int(&[], Endianness::BE, Sign::Signed), Some(0));
    assert_eq!(decode_int(&[0xff; 8], Endianness::LE, Sign::Signed), Some(-1));
    // An unsigned number beyond the signed 64 bits has no value.
    assert_eq!(decode_int(&[0xff; 8], Endianness::LE, Sign::Unsigned), None);
    assert_eq!(decode_int(&[0; 9], Endianness::LE, Sign::Unsigned), None);

    assert_eq!(decode_unsigned(&[0xff; 8], Endianness::LE), Some(u64::MAX));
    assert_eq!(decode_unsigned(&[1, 0, 0], Endianness::BE), Some(0x01_0000));
    assert_eq!(decode_unsigned(&[0; 9], Endianness::BE), None);
    assert_eq!(encode_unsigned(0x01_0000, 3, Endianness::BE), Some(vec![1, 0, 0]));
    assert_eq!(encode_unsigned(0x100_0000, 3, Endianness::BE), None);
    assert_eq!(encode_unsigned(u64::MAX, 8, Endianness::LE), Some(vec![0xff; 8]));
}

#[test]
fn int_reg_returns_what_was_written() {
    for endianness in [Endianness::LE, Endianness::BE] {
        for sign in [Sign::Signed, Sign::Unsigned] {
            for cacheable in [
                CachingMode::WriteThrough,
                CachingMode::WriteAround,
                CachingMode::NoCache,
            ] {
                for length in 1..=8i64 {
                    let bits = 8 * length as u32;
                    let (min, max): (i64, i64) = match sign {
                        Sign::Signed => (
                            (-(1i128 << (bits - 1))) as i64,
                            ((1i128 << (bits - 1)) - 1) as i64,
                        ),
                        Sign::Unsigned => {
                            (0, (((1i128 << bits) - 1).min(i64::MAX as i128)) as i64)
                        }
                    };
                    for value in [min, min / 2, 0, 1, max / 3, max - 1, max] {
                        if value < min || value > max {
                            continue;
                        }
                        let reg = int_reg(1, AccessMode::RW, cacheable, sign, endianness);
                        let mut device = CountingDevice::new(32);
                        let mut cache = DefaultCacheStore::new();
                        reg.set_value_at(value, 16, length, &mut device, &mut cache)
                            .unwrap();
                        assert_eq!((device.writes, device.reads), (1, 0));
                        let read = reg.value_at(16, length, &mut device, &mut cache).unwrap();
                        assert_eq!(read, value);
                        let reads = if cacheable == CachingMode::WriteThrough { 0 } else { 1 };
                        assert_eq!((device.writes, device.reads), (1, reads));
                        // A second read is served from the cache unless nothing is cached.
                        assert_eq!(
                            reg.value_at(16, length, &mut device, &mut cache).unwrap(),
                            value
                        );
                        let reads = match cacheable {
                            CachingMode::WriteThrough => 0,
                            CachingMode::WriteAround => 1,
                            CachingMode::NoCache => 2,
                        };
                        assert_eq!((device.writes, device.reads), (1, reads));
                        // The bytes around the register are untouched.
                        assert!(device.memory[..16].iter().all(|b| *b == 0));
                        assert!(device.memory[16 + length as usize..].iter().all(|b| *b == 0));
                    }
                }
            }
        }
    }
}

#[test]
fn int_reg_rejects_values_out_of_range() {
    let reg = int_reg(
        1,
        AccessMode::RW,
        CachingMode::WriteThrough,
        Sign::Unsigned,
        Endianness::LE,
    );
    let mut device = CountingDevice::new(16);
    let mut cache = DefaultCacheStore::new();
    for (value, length) in [(256, 1), (-1, 1), (65536, 2), (0, 9), (0, -1)] {
        let r = reg.set_value_at(value, 0, length, &mut device, &mut cache);
        assert!(matches!(r, Err(GenApiError::InvalidData(_))));
    }
    let r = reg.set_value_at(0, -4, 2, &mut device, &mut cache);
    assert!(matches!(r, Err(GenApiError::InvalidData(_))));
    assert_eq!((device.writes, device.reads), (0, 0));
    assert!(matches!(
        reg.value_at(-1, 2, &mut device, &mut cache),
        Err(GenApiError::InvalidData(_))
    ));
    assert!(matches!(
        reg.value_at(0, 9, &mut device, &mut cache),
        Err(GenApiError::InvalidData(_))
    ));
    // Unsigned eight bytes beyond the signed 64 bits cannot be handed out.
    device.memory[..8].copy_from_slice(&[0xff; 8]);
    assert!(matches!(
        reg.value_at(0, 8, &mut device, &mut cache),
        Err(GenApiError::InvalidData(_))
    ));
    assert!(matches!(reg.value_of_bytes(&[1, 2]), Ok(0x0201)));
    assert_eq!(reg.bytes_of_value(0x0201, 2).unwrap(), vec![1, 2]);
}

#[test]
fn read_only_register_denies_writes_without_touching_the_device() {
    let reg = int_reg(
        1,
        AccessMode::RO,
        CachingMode::WriteThrough,
        Sign::Unsigned,
        Endianness::LE,
    );
    let mut device = CountingDevice::new(16);
    let mut cache = DefaultCacheStore::new();
    for value in [0, 1, -1, i64::MAX, i64::MIN] {
        let r = reg.set_value_at(value, 0, 4, &mut device, &mut cache);
        assert!(matches!(r, Err(GenApiError::AccessDenied(_))));
    }
    assert_eq!(device.writes, 0);
    assert_eq!(device.reads, 0);
    assert_eq!(reg.value_at(0, 4, &mut device, &mut cache).unwrap(), 0);

    // The imposed access mode restricts the mode of the register.
    let mut imposed = int_reg(
        2,
        AccessMode::RW,
        CachingMode::WriteThrough,
        Sign::Unsigned,
        Endianness::LE,
    );
    imposed.register_base.elem_base.imposed_access_mode = AccessMode::RO;
    assert!(matches!(
        imposed.set_value_at(1, 0, 4, &mut device, &mut cache),
        Err(GenApiError::AccessDenied(_))
    ));
    assert_eq!(device.writes, 0);
    imposed.register_base.elem_base.imposed_access_mode = AccessMode::WO;
    assert!(matches!(
        imposed.value_at(0, 4, &mut device, &mut cache),
        Err(GenApiError::AccessDenied(_))
    ));
    assert!(imposed.set_value_at(1, 0, 4, &mut device, &mut cache).is_ok());
    assert_eq!(device.writes, 1);

    let write_only = int_reg(
        3,
        AccessMode::WO,
        CachingMode::NoCache,
        Sign::Unsigned,
        Endianness::LE,
    );
    let reads = device.reads;
    assert!(matches!(
        write_only.value_at(0, 4, &mut device, &mut cache),
        Err(GenApiError::AccessDenied(_))
    ));
    assert_eq!(device.reads, reads);
}

#[test]
fn device_errors_are_handed_on_and_skip_the_cache() {
    let reg = int_reg(
        1,
        AccessMode::RW,
        CachingMode::WriteThrough,
        Sign::Unsigned,
        Endianness::LE,
    );
    let mut device = CountingDevice::new(16);
    let mut cache = DefaultCacheStore::new();
    device.fail = true;
    assert!(matches!(
        reg.set_value_at(5, 0, 2, &mut device, &mut cache),
        Err(GenApiError::Device(_))
    ));
    assert_eq!(cache.get_cache(NodeId(1), 0, 2), None);
    assert!(matches!(
        reg.value_at(0, 2, &mut device, &mut cache),
        Err(GenApiError::Device(_))
    ));
    assert_eq!(cache.get_cache(NodeId(1), 0, 2), None);
    device.fail = false;
    reg.set_value_at(5, 0, 2, &mut device, &mut cache).unwrap();
    assert_eq!(cache.get_cache(NodeId(1), 0, 2), Some(&[5u8, 0][..]));
    // The cache answers for the address and the length that it was filled for.
    assert_eq!(cache.get_cache(NodeId(1), 0, 4), None);
    assert_eq!(cache.get_cache(NodeId(1), 2, 2), None);
    assert_eq!(cache.get_cache(NodeId(2), 0, 2), None);
}

#[test]
fn write_invalidates_through_chains() {
    let (a, b, c, d) = (NodeId(0), NodeId(1), NodeId(2), NodeId(3));
    let mut cache = DefaultCacheStore::new();
    // `a` is an invalidator of `b`, and `b` one of `c`.
    cache.store_invalidator(a, b);
    cache.store_invalidator(b, c);
    cache.cache(a, 0, 1, &[1]);
    cache.cache(b, 1, 1, &[2]);
    cache.cache(c, 2, 1, &[3]);
    cache.cache(d, 3, 1, &[4]);

    let reg = int_reg(
        0,
        AccessMode::RW,
        CachingMode::WriteThrough,
        Sign::Unsigned,
        Endianness::LE,
    );
    let mut device = CountingDevice::new(16);
    reg.set_value_at(9, 0, 1, &mut device, &mut cache).unwrap();
    assert_eq!(cache.get_cache(a, 0, 1), Some(&[9u8][..]));
    assert_eq!(cache.get_cache(b, 1, 1), None);
    assert_eq!(cache.get_cache(c, 2, 1), None);
    assert_eq!(cache.get_cache(d, 3, 1), Some(&[4u8][..]));

    // The next read of an invalidated register goes to the device.
    let reg_c = int_reg(
        2,
        AccessMode::RW,
        CachingMode::WriteThrough,
        Sign::Unsigned,
        Endianness::LE,
    );
    device.memory[2] = 42;
    let reads = device.reads;
    assert_eq!(reg_c.value_at(2, 1, &mut device, &mut cache).unwrap(), 42);
    assert_eq!(device.reads, reads + 1);
}

#[test]
fn invalidation_of_the_cache_store() {
    let ids: Vec<NodeId> = (0..6).map(NodeId).collect();
    let mut cache = DefaultCacheStore::new();
    // 0 -> 1 -> 2 -> 0 is a cycle, 2 -> 3 leaves it, 4 -> 5 is apart.
    cache.store_invalidator(ids[0], ids[1]);
    cache.store_invalidator(ids[1], ids[2]);
    cache.store_invalidator(ids[2], ids[0]);
    cache.store_invalidator(ids[2], ids[3]);
    cache.store_invalidator(ids[4], ids[5]);
    let fill = |cache: &mut DefaultCacheStore| {
        for id in &ids {
            cache.cache(*id, 0, 1, &[id.0 as u8]);
        }
    };
    let valid = |cache: &DefaultCacheStore| -> Vec<usize> {
        ids.iter()
            .filter(|id| cache.get_cache(**id, 0, 1).is_some())
            .map(|id| id.0)
            .collect()
    };
    fill(&mut cache);
    assert_eq!(valid(&cache), vec![0, 1, 2, 3, 4, 5]);
    cache.invalidate_by(ids[1]);
    assert_eq!(valid(&cache), vec![4, 5]);
    fill(&mut cache);
    cache.invalidate_by(ids[3]);
    assert_eq!(valid(&cache), vec![0, 1, 2, 3, 4, 5]);
    cache.invalidate_by(ids[4]);
    assert_eq!(valid(&cache), vec![0, 1, 2, 3, 4]);
    cache.invalidate_by(NodeId(100));
    assert_eq!(valid(&cache), vec![0, 1, 2, 3, 4]);
    cache.invalidate_of(ids[2]);
    assert_eq!(valid(&cache), vec![0, 1, 3, 4]);
    cache.invalidate_of(NodeId(100));
    assert_eq!(valid(&cache), vec![0, 1, 3, 4]);
    cache.clear();
    assert_eq!(valid(&cache), Vec::<usize>::new());
    // The invalidators outlive the entries.
    fill(&mut cache);
    cache.invalidate_by(ids[4]);
    assert_eq!(valid(&cache), vec![0, 1, 2, 3, 4]);
}

#[test]
fn masked_register_reads_its_field() {
    // Bits 1 to 10 of a big-endian register of four bytes, counted from the
    // most significant bit: bits 21 to 30 counted from the least significant.
    let reg = masked(
        1,
        CachingMode::NoCache,
        BitMask::Range { lsb: 10, msb: 1 },
        Sign::Signed,
        Endianness::BE,
    );
    assert_eq!(reg.bit_mask.field(4, Endianness::BE), Some((21, 10)));
    assert_eq!(reg.value_of_bytes(&[0, 0, 0, 0]).unwrap(), 0);
    assert_eq!(reg.value_of_bytes(&[0x00, 0x20, 0, 0]).unwrap(), 1);
    assert_eq!(reg.value_of_bytes(&[0x7f, 0xe0, 0, 0]).unwrap(), -1);
    assert_eq!(reg.value_of_bytes(&[0x40, 0x00, 0, 0]).unwrap(), -512);
    assert_eq!(reg.value_of_bytes(&[0x3f, 0xe0, 0, 0]).unwrap(), 511);
    // The bits around the field do not count.
    assert_eq!(reg.value_of_bytes(&[0x80, 0x3f, 0xff, 0xff]).unwrap(), 1);

    let bit = masked(
        2,
        CachingMode::NoCache,
        BitMask::SingleBit(24),
        Sign::Unsigned,
        Endianness::BE,
    );
    assert_eq!(bit.bit_mask.field(4, Endianness::BE), Some((7, 1)));
    assert_eq!(bit.value_of_bytes(&[0, 0, 0, 0x80]).unwrap(), 1);
    assert_eq!(bit.value_of_bytes(&[0xff, 0xff, 0xff, 0x7f]).unwrap(), 0);

    let little = masked(
        3,
        CachingMode::NoCache,
        BitMask::Range { lsb: 4, msb: 11 },
        Sign::Unsigned,
        Endianness::LE,
    );
    assert_eq!(little.bit_mask.field(2, Endianness::LE), Some((4, 8)));
    assert_eq!(little.value_of_bytes(&[0xa0, 0x0b]).unwrap(), 0xba);

    // Masks that do not lie within the register are not valid.
    assert_eq!(BitMask::SingleBit(32).field(4, Endianness::LE), None);
    assert_eq!(BitMask::Range { lsb: 4, msb: 3 }.field(4, Endianness::LE), None);
    assert_eq!(BitMask::Range { lsb: 3, msb: 4 }.field(4, Endianness::BE), None);
    assert_eq!(BitMask::Range { lsb: 0, msb: 63 }.field(8, Endianness::LE), Some((0, 64)));
    assert_eq!(BitMask::SingleBit(0).field(9, Endianness::LE), None);
    assert_eq!(BitMask::SingleBit(0).field(0, Endianness::LE), None);
    assert!(matches!(
        little.value_of_bytes(&[0xa0]),
        Err(GenApiError::InvalidData(_))
    ));
}

#[test]
fn masked_register_keeps_the_other_bits() {
    for cacheable in [
        CachingMode::WriteThrough,
        CachingMode::WriteAround,
        CachingMode::NoCache,
    ] {
        let reg = masked(
            1,
            cacheable,
            BitMask::Range { lsb: 10, msb: 1 },
            Sign::Signed,
            Endianness::BE,
        );
        for before in [[0u8; 4], [0xff; 4], [0x12, 0x34, 0x56, 0x78]] {
            for value in [-512i64, -1, 0, 1, 300, 511] {
                let mut device = CountingDevice::new(16);
                let mut cache = DefaultCacheStore::new();
                device.memory[4..8].copy_from_slice(&before);
                reg.set_value_at(value, 4, 4, &mut device, &mut cache).unwrap();
                assert_eq!((device.reads, device.writes), (1, 1));
                assert_eq!(reg.value_at(4, 4, &mut device, &mut cache).unwrap(), value);
                let old = u32::from_be_bytes(before);
                let mut raw = [0u8; 4];
                raw.copy_from_slice(&device.memory[4..8]);
                let new = u32::from_be_bytes(raw);
                let mask = 0x3ffu32 << 21;
                assert_eq!(new & !mask, old & !mask);
                assert_eq!((new & mask) >> 21, (value as u32) & 0x3ff);
                assert!(device.memory[..4].iter().all(|b| *b == 0));
                assert!(device.memory[8..].iter().all(|b| *b == 0));
            }
        }
        let mut device = CountingDevice::new(16);
        let mut cache = DefaultCacheStore::new();
        for value in [-513, 512, i64::MAX, i64::MIN] {
            assert!(matches!(
                reg.set_value_at(value, 4, 4, &mut device, &mut cache),
                Err(GenApiError::InvalidData(_))
            ));
        }
        assert!(matches!(
            reg.set_value_at(0, 4, 1, &mut device, &mut cache),
            Err(GenApiError::InvalidData(_))
        ));
        assert_eq!((device.reads, device.writes), (0, 0));
    }
}

#[test]
fn masked_register_exact_bytes() {
    let reg = masked(
        1,
        CachingMode::NoCache,
        BitMask::Range { lsb: 4, msb: 11 },
        Sign::Unsigned,
        Endianness::LE,
    );
    assert_eq!(
        reg.bytes_with_value(&[0xff, 0xff], 0).unwrap(),
        vec![0x0f, 0xf0]
    );
    assert_eq!(
        reg.bytes_with_value(&[0x00, 0x00], 0xab).unwrap(),
        vec![0xb0, 0x0a]
    );
    assert!(matches!(
        reg.bytes_with_value(&[0, 0], 256),
        Err(GenApiError::InvalidData(_))
    ));
    assert!(matches!(
        reg.bytes_with_value(&[0, 0], -1),
        Err(GenApiError::InvalidData(_))
    ));
    let wide = masked(
        2,
        CachingMode::NoCache,
        BitMask::Range { lsb: 0, msb: 63 },
        Sign::Signed,
        Endianness::LE,
    );
    assert_eq!(wide.bytes_with_value(&[0; 8], -1).unwrap(), vec![0xff; 8]);
    assert_eq!(wide.value_of_bytes(&[0xff; 8]).unwrap(), -1);
    assert_eq!(
        wide.value_of_bytes(&[0, 0, 0, 0, 0, 0, 0, 0x80]).unwrap(),
        i64::MIN
    );
    let wide_unsigned = masked(
        3,
        CachingMode::NoCache,
        BitMask::Range { lsb: 0, msb: 63 },
        Sign::Unsigned,
        Endianness::LE,
    );
    assert!(matches!(
        wide_unsigned.value_of_bytes(&[0xff; 8]),
        Err(GenApiError::InvalidData(_))
    ));
    assert_eq!(
        wide_unsigned.bytes_with_value(&[0; 8], i64::MAX).unwrap(),
        vec![0xff, 0xff, 0xff, 0xff, 0xff, 0xff, 0xff, 0x7f]
    );
}
