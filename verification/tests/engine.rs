use cameleon::elem_type::{
    AccessMode, AddressKind, BitMask, CachingMode, Endianness, ImmOrPNode, IntegerRepresentation,
    MergePriority, NameSpace, RegPIndex, Sign,
};
use cameleon::engine::{int_value, set_int_value};
use cameleon::formula::parser::parse;
use cameleon::formula::FormulaError;
use cameleon::masked_int_reg::MaskedIntRegNode;
use cameleon::node::{IntConverterNode, IntSwissKnifeNode, NamedConstant, NodeData, Variable};
use cameleon::node_base::{NodeAttributeBase, NodeElementBase};
use cameleon::store::{
    CacheStore, CacheStoreBuilder, DefaultCacheStore, DefaultNodeStore, NodeId, NodeStoreBuilder,
};
use cameleon::{Device, DeviceError, GenApiError, IntRegNode, RegisterBase};

struct CountingDevice {
    memory: Vec<u8>,
    reads: usize,
    writes: usize,
}

impl CountingDevice {
    fn new(size: usize) -> Self {
        CountingDevice {
            memory: vec![0; size],
            reads: 0,
            writes: 0,
        }
    }
}

impl Device for CountingDevice {
    fn read_mem(&mut self, address: u64, buf: &mut [u8]) -> Result<(), DeviceError> {
        self.reads += 1;
        let start = address as usize;
        if start + buf.len() > self.memory.len() {
            return Err(DeviceError {
                message: "out of range".to_owned(),
            });
        }
        buf.copy_from_slice(&self.memory[start..start + buf.len()]);
        Ok(())
    }

    fn write_mem(&mut self, address: u64, data: &[u8]) -> Result<(), DeviceError> {
        self.writes += 1;
        let start = address as usize;
        if start + data.len() > self.memory.len() {
            return Err(DeviceError {
                message: "out of range".to_owned(),
            });
        }
        self.memory[start..start + data.len()].copy_from_slice(data);
        Ok(())
    }
}

fn attr_base(id: NodeId) -> NodeAttributeBase {
    NodeAttributeBase {
        id,
        name_space: NameSpace::Custom,
        merge_priority: MergePriority::Mid,
        expose_static: None,
    }
}

fn register_base(
    address_kinds: Vec<AddressKind>,
    length: ImmOrPNode<i64>,
    access_mode: AccessMode,
    cacheable: CachingMode,
) -> RegisterBase {
    RegisterBase {
        elem_base: NodeElementBase::default(),
        streamable: false,
        address_kinds,
        length,
        access_mode,
        p_port: NodeId(1000),
        cacheable,
        polling_time: None,
        p_invalidators: vec![],
    }
}

fn int_reg(id: NodeId, address: i64, length: i64, access_mode: AccessMode) -> NodeData {
    NodeData::IntReg(IntRegNode {
        attr_base: attr_base(id),
        register_base: register_base(
            vec![AddressKind::Address(ImmOrPNode::Imm(address))],
            ImmOrPNode::Imm(length),
            access_mode,
            CachingMode::WriteThrough,
        ),
        sign: Sign::Signed,
        endianness: Endianness::LE,
        unit: None,
        representation: IntegerRepresentation::PureNumber,
        p_selected: vec![],
    })
}

fn knife(id: NodeId, formula: &str, vars: &[(&str, NodeId)], constants: &[(&str, i64)]) -> NodeData {
    NodeData::IntSwissKnife(IntSwissKnifeNode {
        attr_base: attr_base(id),
        elem_base: NodeElementBase::default(),
        p_variables: vars
            .iter()
            .map(|(name, node)| Variable {
                name: (*name).to_owned(),
                node: *node,
            })
            .collect(),
        constants: constants
            .iter()
            .map(|(name, value)| NamedConstant {
                name: (*name).to_owned(),
                value: *value,
            })
            .collect(),
        formula: parse(formula).unwrap(),
        unit: None,
        representation: IntegerRepresentation::PureNumber,
    })
}

fn converter(id: NodeId, p_value: NodeId, from: &str, to: &str) -> NodeData {
    NodeData::IntConverter(IntConverterNode {
        attr_base: attr_base(id),
        elem_base: NodeElementBase::default(),
        p_variables: vec![],
        constants: vec![],
        formula_to: parse(to).unwrap(),
        formula_from: parse(from).unwrap(),
        p_value,
        unit: None,
        representation: IntegerRepresentation::PureNumber,
    })
}

#[test]
fn swiss_knife_over_a_register() {
    let mut store = DefaultNodeStore::new();
    let x = store.get_or_intern("X");
    let k = store.get_or_intern("Knife");
    store.store_node(x, int_reg(x, 4, 2, AccessMode::RW));
    store.store_node(k, knife(k, "(X + 3) * 2 >> 1", &[("X", x)], &[]));
    let mut device = CountingDevice::new(16);
    let mut cache = DefaultCacheStore::new();

    set_int_value(&store, x, 5, &mut device, &mut cache).unwrap();
    assert_eq!(&device.memory[4..6], &[5, 0]);
    assert_eq!(int_value(&store, k, &mut device, &mut cache).unwrap(), 8);
    set_int_value(&store, x, 0, &mut device, &mut cache).unwrap();
    assert_eq!(int_value(&store, k, &mut device, &mut cache).unwrap(), 3);
    // The register is written through: no read reaches the device.
    assert_eq!((device.writes, device.reads), (2, 0));

    assert!(matches!(
        set_int_value(&store, k, 1, &mut device, &mut cache),
        Err(GenApiError::InvalidNode(_))
    ));
    assert_eq!(device.writes, 2);
}

#[test]
fn swiss_knife_constants_and_errors() {
    let mut store = DefaultNodeStore::new();
    let x = store.get_or_intern("X");
    let k = store.get_or_intern("K");
    let bad = store.get_or_intern("Bad");
    let unbound = store.get_or_intern("Unbound");
    let missing = store.get_or_intern("Missing");
    let absent = store.get_or_intern("Absent");
    store.store_node(x, int_reg(x, 0, 1, AccessMode::RW));
    store.store_node(k, knife(k, "X * SCALE + OFFSET", &[("X", x)], &[("SCALE", 10), ("OFFSET", -1)]));
    store.store_node(bad, knife(bad, "1 / X", &[("X", x)], &[]));
    store.store_node(unbound, knife(unbound, "Y", &[("X", x)], &[]));
    store.store_node(missing, knife(missing, "V", &[("V", absent)], &[]));
    let mut device = CountingDevice::new(4);
    let mut cache = DefaultCacheStore::new();
    device.memory[0] = 7;
    assert_eq!(int_value(&store, k, &mut device, &mut cache).unwrap(), 69);
    assert_eq!(int_value(&store, bad, &mut device, &mut cache).unwrap(), 0);
    device.memory[0] = 0;
    cache.clear();
    assert!(matches!(
        int_value(&store, bad, &mut device, &mut cache),
        Err(GenApiError::Formula(FormulaError::ArithmeticError))
    ));
    assert!(matches!(
        int_value(&store, unbound, &mut device, &mut cache),
        Err(GenApiError::Formula(FormulaError::UnboundVariable))
    ));
    assert!(matches!(
        int_value(&store, missing, &mut device, &mut cache),
        Err(GenApiError::InvalidNode(_))
    ));
    assert!(matches!(
        int_value(&store, absent, &mut device, &mut cache),
        Err(GenApiError::InvalidNode(_))
    ));
    assert!(matches!(
        int_value(&store, NodeId(1234), &mut device, &mut cache),
        Err(GenApiError::InvalidNode(_))
    ));
}

#[test]
fn converters_that_refer_to_each_other_are_a_cycle() {
    let mut store = DefaultNodeStore::new();
    let a = store.get_or_intern("A");
    let b = store.get_or_intern("B");
    store.store_node(a, converter(a, b, "FROM + 1", "TO - 1"));
    store.store_node(b, converter(b, a, "FROM * 2", "TO / 2"));
    let mut device = CountingDevice::new(4);
    let mut cache = DefaultCacheStore::new();
    assert!(matches!(
        int_value(&store, a, &mut device, &mut cache),
        Err(GenApiError::CycleDetected)
    ));
    assert!(matches!(
        int_value(&store, b, &mut device, &mut cache),
        Err(GenApiError::CycleDetected)
    ));
    assert!(matches!(
        set_int_value(&store, a, 3, &mut device, &mut cache),
        Err(GenApiError::CycleDetected)
    ));
    assert_eq!((device.reads, device.writes), (0, 0));

    // A swiss knife over itself, and a register whose address is its own value.
    let mut store = DefaultNodeStore::new();
    let k = store.get_or_intern("K");
    let r = store.get_or_intern("R");
    store.store_node(k, knife(k, "K + 1", &[("K", k)], &[]));
    store.store_node(
        r,
        NodeData::IntReg(IntRegNode {
            attr_base: attr_base(r),
            register_base: register_base(
                vec![AddressKind::Address(ImmOrPNode::PNode(r))],
                ImmOrPNode::Imm(1),
                AccessMode::RW,
                CachingMode::NoCache,
            ),
            sign: Sign::Unsigned,
            endianness: Endianness::LE,
            unit: None,
            representation: IntegerRepresentation::PureNumber,
            p_selected: vec![],
        }),
    );
    assert!(matches!(
        int_value(&store, k, &mut device, &mut cache),
        Err(GenApiError::CycleDetected)
    ));
    assert!(matches!(
        int_value(&store, r, &mut device, &mut cache),
        Err(GenApiError::CycleDetected)
    ));
    // A node that is used twice is no cycle.
    let mut store = DefaultNodeStore::new();
    let x = store.get_or_intern("X");
    let twice = store.get_or_intern("Twice");
    store.store_node(x, int_reg(x, 0, 1, AccessMode::RW));
    store.store_node(twice, knife(twice, "A + B", &[("A", x), ("B", x)], &[]));
    device.memory[0] = 21;
    assert_eq!(int_value(&store, twice, &mut device, &mut cache).unwrap(), 42);
}

#[test]
fn converter_reads_and_writes_through_its_formulas() {
    let mut store = DefaultNodeStore::new();
    let raw = store.get_or_intern("Raw");
    let scaled = store.get_or_intern("Scaled");
    let outer = store.get_or_intern("Outer");
    store.store_node(raw, int_reg(raw, 2, 2, AccessMode::RW));
    store.store_node(scaled, converter(scaled, raw, "FROM * 10", "TO / 10"));
    store.store_node(outer, converter(outer, scaled, "FROM + 1", "TO - 1"));
    let mut device = CountingDevice::new(8);
    let mut cache = DefaultCacheStore::new();

    set_int_value(&store, scaled, 120, &mut device, &mut cache).unwrap();
    assert_eq!(&device.memory[2..4], &[12, 0]);
    assert_eq!(int_value(&store, raw, &mut device, &mut cache).unwrap(), 12);
    assert_eq!(int_value(&store, scaled, &mut device, &mut cache).unwrap(), 120);
    assert_eq!(int_value(&store, outer, &mut device, &mut cache).unwrap(), 121);
    set_int_value(&store, outer, 31, &mut device, &mut cache).unwrap();
    assert_eq!(int_value(&store, raw, &mut device, &mut cache).unwrap(), 3);
    assert_eq!(int_value(&store, outer, &mut device, &mut cache).unwrap(), 31);
    // A value that the register does not hold is refused by the register.
    assert!(matches!(
        set_int_value(&store, scaled, 400_000, &mut device, &mut cache),
        Err(GenApiError::InvalidData(_))
    ));
    assert_eq!(int_value(&store, raw, &mut device, &mut cache).unwrap(), 3);
}

#[test]
fn address_and_length_from_other_nodes() {
    let mut store = DefaultNodeStore::new();
    let index = store.get_or_intern("Index");
    let base = store.get_or_intern("Base");
    let len = store.get_or_intern("Len");
    let reg = store.get_or_intern("Reg");
    let plain = store.get_or_intern("Plain");
    store.store_node(index, int_reg(index, 0, 1, AccessMode::RW));
    store.store_node(base, int_reg(base, 1, 1, AccessMode::RW));
    store.store_node(len, int_reg(len, 2, 1, AccessMode::RW));
    // address = 4 + Base + Index * 2, in bytes of Len.
    store.store_node(
        reg,
        NodeData::IntReg(IntRegNode {
            attr_base: attr_base(reg),
            register_base: register_base(
                vec![
                    AddressKind::Address(ImmOrPNode::Imm(4)),
                    AddressKind::Address(ImmOrPNode::PNode(base)),
                    AddressKind::PIndex(RegPIndex {
                        offset: Some(ImmOrPNode::Imm(2)),
                        p_index: index,
                    }),
                ],
                ImmOrPNode::PNode(len),
                AccessMode::RW,
                CachingMode::NoCache,
            ),
            sign: Sign::Unsigned,
            endianness: Endianness::BE,
            unit: None,
            representation: IntegerRepresentation::PureNumber,
            p_selected: vec![],
        }),
    );
    // An index without an offset counts as it is.
    store.store_node(
        plain,
        NodeData::IntReg(IntRegNode {
            attr_base: attr_base(plain),
            register_base: register_base(
                vec![AddressKind::PIndex(RegPIndex {
                    offset: None,
                    p_index: index,
                })],
                ImmOrPNode::Imm(1),
                AccessMode::RO,
                CachingMode::NoCache,
            ),
            sign: Sign::Unsigned,
            endianness: Endianness::BE,
            unit: None,
            representation: IntegerRepresentation::PureNumber,
            p_selected: vec![],
        }),
    );
    let mut device = CountingDevice::new(32);
    let mut cache = DefaultCacheStore::new();
    device.memory[0] = 3; // Index
    device.memory[1] = 2; // Base
    device.memory[2] = 2; // Len
    device.memory[12] = 0xab;
    device.memory[13] = 0xcd;
    assert_eq!(int_value(&store, reg, &mut device, &mut cache).unwrap(), 0xabcd);
    set_int_value(&store, reg, 0x0102, &mut device, &mut cache).unwrap();
    assert_eq!(&device.memory[12..14], &[1, 2]);
    assert_eq!(int_value(&store, plain, &mut device, &mut cache).unwrap(), 0);
    device.memory[3] = 77;
    assert_eq!(int_value(&store, plain, &mut device, &mut cache).unwrap(), 77);
    assert!(matches!(
        set_int_value(&store, plain, 1, &mut device, &mut cache),
        Err(GenApiError::AccessDenied(_))
    ));
    // Address elements add up.
    cache.clear();
    device.memory[0] = 0;
    device.memory[1] = 0;
    device.memory[4] = 9;
    device.memory[5] = 9;
    assert_eq!(int_value(&store, reg, &mut device, &mut cache).unwrap(), 0x0909);
    // A register that the device does not have is an error of the device.
    cache.clear();
    device.memory[1] = 100;
    assert!(matches!(
        int_value(&store, reg, &mut device, &mut cache),
        Err(GenApiError::Device(_))
    ));
}

#[test]
fn read_only_register_is_denied_before_any_access() {
    let mut store = DefaultNodeStore::new();
    let r = store.get_or_intern("R");
    store.store_node(r, int_reg(r, 0, 4, AccessMode::RO));
    let mut device = CountingDevice::new(8);
    let mut cache = DefaultCacheStore::new();
    for value in [0, 1, -1, i64::MAX] {
        assert!(matches!(
            set_int_value(&store, r, value, &mut device, &mut cache),
            Err(GenApiError::AccessDenied(_))
        ));
    }
    assert_eq!((device.reads, device.writes), (0, 0));
}

#[test]
fn write_through_the_engine_invalidates_chains() {
    let mut store = DefaultNodeStore::new();
    let a = store.get_or_intern("A");
    let b = store.get_or_intern("B");
    let c = store.get_or_intern("C");
    store.store_node(a, int_reg(a, 0, 1, AccessMode::RW));
    store.store_node(b, int_reg(b, 1, 1, AccessMode::RW));
    store.store_node(c, int_reg(c, 2, 1, AccessMode::RW));
    let mut device = CountingDevice::new(8);
    let mut cache = DefaultCacheStore::new();
    cache.store_invalidator(a, b);
    cache.store_invalidator(b, c);
    device.memory[1] = 10;
    device.memory[2] = 20;
    assert_eq!(int_value(&store, b, &mut device, &mut cache).unwrap(), 10);
    assert_eq!(int_value(&store, c, &mut device, &mut cache).unwrap(), 20);
    assert_eq!(device.reads, 2);
    // The device changes behind the cache; the cache still answers.
    device.memory[1] = 11;
    device.memory[2] = 21;
    assert_eq!(int_value(&store, b, &mut device, &mut cache).unwrap(), 10);
    assert_eq!(int_value(&store, c, &mut device, &mut cache).unwrap(), 20);
    assert_eq!(device.reads, 2);
    set_int_value(&store, a, 1, &mut device, &mut cache).unwrap();
    assert_eq!(cache.get_cache(b, 1, 1), None);
    assert_eq!(cache.get_cache(c, 2, 1), None);
    assert_eq!(int_value(&store, b, &mut device, &mut cache).unwrap(), 11);
    assert_eq!(int_value(&store, c, &mut device, &mut cache).unwrap(), 21);
    assert_eq!(device.reads, 4);
}

#[test]
fn masked_register_through_the_engine() {
    let mut store = DefaultNodeStore::new();
    let m = store.get_or_intern("M");
    store.store_node(
        m,
        NodeData::MaskedIntReg(MaskedIntRegNode {
            attr_base: attr_base(m),
            register_base: register_base(
                vec![AddressKind::Address(ImmOrPNode::Imm(0x10))],
                ImmOrPNode::Imm(4),
                AccessMode::RW,
                CachingMode::WriteThrough,
            ),
            bit_mask: BitMask::Range { lsb: 10, msb: 1 },
            sign: Sign::Signed,
            endianness: Endianness::BE,
            unit: None,
            representation: IntegerRepresentation::PureNumber,
            p_selected: vec![],
        }),
    );
    let mut device = CountingDevice::new(0x20);
    let mut cache = DefaultCacheStore::new();
    device.memory[0x10..0x14].copy_from_slice(&[0x80, 0x1f, 0xff, 0xff]);
    set_int_value(&store, m, -3, &mut device, &mut cache).unwrap();
    assert_eq!(&device.memory[0x10..0x14], &[0xff, 0xbf, 0xff, 0xff]);
    assert_eq!(int_value(&store, m, &mut device, &mut cache).unwrap(), -3);
    assert_eq!((device.reads, device.writes), (1, 1));
    assert_eq!(store.name_by_id(m), Some("M"));
    assert_eq!(store.id_by_name("M"), Some(m));
    assert_eq!(store.id_by_name("N"), None);
    assert_eq!(store.name_by_id(NodeId(5)), None);
}

fn gated(
    id: NodeId,
    address: i64,
    implemented: Option<NodeId>,
    available: Option<NodeId>,
    locked: Option<NodeId>,
) -> NodeData {
    match int_reg(id, address, 1, AccessMode::RW) {
        NodeData::IntReg(mut reg) => {
            reg.register_base.cacheable = CachingMode::NoCache;
            reg.register_base.elem_base.p_is_implemented = implemented;
            reg.register_base.elem_base.p_is_available = available;
            reg.register_base.elem_base.p_is_locked = locked;
            NodeData::IntReg(reg)
        }
        other => other,
    }
}

#[test]
fn predicates_of_a_node_gate_its_access() {
    let mut store = DefaultNodeStore::new();
    let implemented = store.get_or_intern("Implemented");
    let available = store.get_or_intern("Available");
    let locked = store.get_or_intern("Locked");
    let node = store.get_or_intern("Node");
    let selfish = store.get_or_intern("Selfish");
    store.store_node(implemented, gated(implemented, 0, None, None, None));
    store.store_node(available, gated(available, 1, None, None, None));
    store.store_node(locked, gated(locked, 2, None, None, None));
    store.store_node(
        node,
        gated(node, 3, Some(implemented), Some(available), Some(locked)),
    );
    // A node that is its own predicate depends on itself.
    store.store_node(selfish, gated(selfish, 4, None, Some(selfish), None));
    let mut device = CountingDevice::new(8);
    let mut cache = DefaultCacheStore::new();
    device.memory[3] = 33;

    let flags = |device: &mut CountingDevice, i: u8, a: u8, l: u8| {
        device.memory[0] = i;
        device.memory[1] = a;
        device.memory[2] = l;
    };
    // Implemented, available and not locked: read and write go through.
    flags(&mut device, 1, 1, 0);
    assert_eq!(int_value(&store, node, &mut device, &mut cache).unwrap(), 33);
    set_int_value(&store, node, 34, &mut device, &mut cache).unwrap();
    assert_eq!(device.memory[3], 34);
    // Locked: read only.
    flags(&mut device, 1, 7, 1);
    assert_eq!(int_value(&store, node, &mut device, &mut cache).unwrap(), 34);
    let writes = device.writes;
    assert!(matches!(
        set_int_value(&store, node, 35, &mut device, &mut cache),
        Err(GenApiError::AccessDenied(_))
    ));
    assert_eq!(device.writes, writes);
    assert_eq!(device.memory[3], 34);
    // Not available, not implemented: no access at all.
    for (i, a) in [(1, 0), (0, 1), (0, 0)] {
        flags(&mut device, i, a, 0);
        assert!(matches!(
            int_value(&store, node, &mut device, &mut cache),
            Err(GenApiError::AccessDenied(_))
        ));
        assert!(matches!(
            set_int_value(&store, node, 36, &mut device, &mut cache),
            Err(GenApiError::AccessDenied(_))
        ));
    }
    assert_eq!(device.memory[3], 34);
    // The first predicate that denies ends the evaluation.
    flags(&mut device, 0, 1, 0);
    let reads = device.reads;
    assert!(int_value(&store, node, &mut device, &mut cache).is_err());
    assert_eq!(device.reads, reads + 1);

    assert!(matches!(
        int_value(&store, selfish, &mut device, &mut cache),
        Err(GenApiError::CycleDetected)
    ));
    assert!(matches!(
        set_int_value(&store, selfish, 1, &mut device, &mut cache),
        Err(GenApiError::CycleDetected)
    ));
}

#[test]
fn what_does_not_ask_the_device_does_not_fail_with_its_error() {
    let mut store = DefaultNodeStore::new();
    let x = store.get_or_intern("X");
    let k = store.get_or_intern("K");
    let sum = store.get_or_intern("Sum");
    let ro = store.get_or_intern("ReadOnly");
    store.store_node(x, int_reg(x, 4, 2, AccessMode::RW));
    store.store_node(k, knife(k, "A * 6 + B", &[], &[("A", 7), ("B", -2)]));
    store.store_node(sum, knife(sum, "X + K", &[("X", x), ("K", k)], &[]));
    store.store_node(ro, int_reg(ro, 0, 2, AccessMode::RO));
    // A device without memory fails every access.
    let mut device = CountingDevice::new(0);
    let mut cache = DefaultCacheStore::new();

    // Constants alone need no device.
    assert_eq!(int_value(&store, k, &mut device, &mut cache).unwrap(), 40);
    assert_eq!(device.reads, 0);
    // A register that is not cached asks the device, and so does what
    // depends on it.
    assert!(matches!(
        int_value(&store, x, &mut device, &mut cache),
        Err(GenApiError::Device(_))
    ));
    assert!(matches!(
        int_value(&store, sum, &mut device, &mut cache),
        Err(GenApiError::Device(_))
    ));
    assert_eq!(device.reads, 2);
    // Once the cache holds the register, the device is not asked.
    cache.cache(x, 4, 2, &[2, 0]);
    assert_eq!(int_value(&store, x, &mut device, &mut cache).unwrap(), 2);
    assert_eq!(int_value(&store, sum, &mut device, &mut cache).unwrap(), 42);
    assert_eq!(device.reads, 2);
    // A write that is refused does not reach the device; one that is let
    // through does.
    assert!(matches!(
        set_int_value(&store, ro, 1, &mut device, &mut cache),
        Err(GenApiError::AccessDenied(_))
    ));
    assert!(matches!(
        set_int_value(&store, k, 1, &mut device, &mut cache),
        Err(GenApiError::InvalidNode(_))
    ));
    assert_eq!(device.writes, 0);
    assert!(matches!(
        set_int_value(&store, x, 1, &mut device, &mut cache),
        Err(GenApiError::Device(_))
    ));
    assert_eq!(device.writes, 1);
}
