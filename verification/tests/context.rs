use cameleon::elem_type::{
    AccessMode, AddressKind, BitMask, CachingMode, Endianness, ImmOrPNode, IntegerRepresentation,
    MergePriority, NameSpace, Sign, StandardNameSpace, Visibility,
};
use cameleon::emulator::abrm::ABRM;
use cameleon::emulator::memory::{
    AccessRight, EntryDescriptor, EntryValue, Memory, RegisterLayout,
};
use cameleon::masked_int_reg::MaskedIntRegNode;
use cameleon::node_base::{NodeAttributeBase, NodeElementBase};
use cameleon::store::{
    CacheStore, DefaultCacheStore, DefaultNodeStore, DefaultValueStore, NodeId,
    NodeStoreBuilder, ValueData, ValueId, ValueStore, ValueStoreBuilder,
};
use cameleon::{Device, GenApiError, IntRegNode, RegisterBase, ValueCtxt};

#[test]
fn value_context_hands_out_its_stores() {
    let mut values = DefaultValueStore::new();
    let first = values.store(ValueData::Integer(42));
    let second = values.store(ValueData::Str("text".to_owned()));
    assert_eq!((first, second), (ValueId(0), ValueId(1)));
    let mut cx = ValueCtxt::new(values, DefaultCacheStore::new());

    assert!(matches!(
        cx.value_store().value_opt(first),
        Some(ValueData::Integer(42))
    ));
    assert!(matches!(
        cx.value_store().value_opt(second),
        Some(ValueData::Str(s)) if s == "text"
    ));
    assert!(cx.value_store().value_opt(ValueId(2)).is_none());

    let third = cx.value_store_mut().store(ValueData::Boolean(true));
    assert_eq!(third, ValueId(2));
    let old = cx.value_store_mut().update(first, ValueData::Float(1.5f64.to_bits()));
    assert!(matches!(old, Some(ValueData::Integer(42))));
    assert!(matches!(
        cx.value_store().value_opt(first),
        Some(ValueData::Float(bits)) if f64::from_bits(*bits) == 1.5
    ));
    assert!(cx
        .value_store_mut()
        .update(ValueId(9), ValueData::Integer(0))
        .is_none());
    assert!(matches!(
        cx.value_store().value_opt(third),
        Some(ValueData::Boolean(true))
    ));

    cx.cache_store_mut().cache(NodeId(3), 8, 2, &[1, 2]);
    assert_eq!(cx.cache_store().get_cache(NodeId(3), 8, 2), Some(&[1u8, 2][..]));
    cx.cache_store_mut().invalidate_of(NodeId(3));
    assert_eq!(cx.cache_store().get_cache(NodeId(3), 8, 2), None);
}

#[test]
fn interning_is_idempotent() {
    let mut nodes = DefaultNodeStore::new();
    let a = nodes.get_or_intern("A");
    let b = nodes.get_or_intern("B");
    assert_ne!(a, b);
    assert_eq!(nodes.get_or_intern("A"), a);
    assert_eq!(nodes.get_or_intern("B"), b);
    assert_eq!(nodes.get_or_intern(""), NodeId(2));
    assert_eq!(nodes.name_count(), 3);
    assert_eq!(nodes.name_by_id(a), Some("A"));
    assert_eq!(nodes.name_by_id(NodeId(2)), Some(""));
    assert_eq!(nodes.id_by_name("B"), Some(b));
    assert_eq!(nodes.id_by_name("C"), None);
    assert_eq!(nodes.node_capacity(), 0);
}

#[test]
fn texts_of_element_types_read_back() {
    for v in [AccessMode::RO, AccessMode::WO, AccessMode::RW] {
        assert_eq!(AccessMode::from_text(v.to_text()), Some(v));
    }
    for v in [NameSpace::Standard, NameSpace::Custom] {
        assert_eq!(NameSpace::from_text(v.to_text()), Some(v));
    }
    for v in [
        Visibility::Beginner,
        Visibility::Expert,
        Visibility::Guru,
        Visibility::Invisible,
    ] {
        assert_eq!(Visibility::from_text(v.to_text()), Some(v));
    }
    for v in [MergePriority::High, MergePriority::Mid, MergePriority::Low] {
        assert_eq!(MergePriority::from_text(v.to_text()), Some(v));
    }
    for v in [
        CachingMode::WriteThrough,
        CachingMode::WriteAround,
        CachingMode::NoCache,
    ] {
        assert_eq!(CachingMode::from_text(v.to_text()), Some(v));
    }
    for v in [Endianness::LE, Endianness::BE] {
        assert_eq!(Endianness::from_text(v.to_text()), Some(v));
    }
    for v in [Sign::Signed, Sign::Unsigned] {
        assert_eq!(Sign::from_text(v.to_text()), Some(v));
    }
    for v in [
        IntegerRepresentation::Linear,
        IntegerRepresentation::Logarithmic,
        IntegerRepresentation::Boolean,
        IntegerRepresentation::PureNumber,
        IntegerRepresentation::HexNumber,
        IntegerRepresentation::IpV4Address,
        IntegerRepresentation::MacAddress,
    ] {
        assert_eq!(IntegerRepresentation::from_text(v.to_text()), Some(v));
    }
    for v in [
        StandardNameSpace::Unspecified,
        StandardNameSpace::IIDC,
        StandardNameSpace::GEV,
        StandardNameSpace::CL,
        StandardNameSpace::USB,
    ] {
        assert_eq!(StandardNameSpace::from_text(v.to_text()), Some(v));
    }
    assert_eq!(AccessMode::from_text("ro"), None);
    assert_eq!(Endianness::from_text(""), None);
    assert_eq!(MergePriority::from_text("-1"), Some(MergePriority::Low));
    assert_eq!(IntegerRepresentation::from_text("IPV4Address").unwrap().to_text(), "IPV4Address");
}

#[test]
fn defaults_of_element_types() {
    assert_eq!(NameSpace::default(), NameSpace::Custom);
    assert_eq!(Visibility::default(), Visibility::Beginner);
    assert_eq!(MergePriority::default(), MergePriority::Mid);
    assert_eq!(CachingMode::default(), CachingMode::WriteThrough);
    assert_eq!(Endianness::default(), Endianness::LE);
    assert_eq!(Sign::default(), Sign::Unsigned);
    assert_eq!(
        IntegerRepresentation::default(),
        IntegerRepresentation::PureNumber
    );
    assert!(AccessMode::RO.is_readable() && !AccessMode::RO.is_writable());
    assert!(!AccessMode::WO.is_readable() && AccessMode::WO.is_writable());
    assert!(AccessMode::RW.is_readable() && AccessMode::RW.is_writable());
    let base = NodeElementBase::default();
    assert_eq!(base.visibility, Visibility::Beginner);
    assert_eq!(base.imposed_access_mode, AccessMode::RW);
    assert!(base.tooltip.is_none() && base.p_errors.is_empty() && !base.is_deprecated);
}

fn register(id: usize, address: i64, length: i64) -> IntRegNode {
    IntRegNode {
        attr_base: NodeAttributeBase {
            id: NodeId(id),
            name_space: NameSpace::Standard,
            merge_priority: MergePriority::High,
            expose_static: Some(true),
        },
        register_base: RegisterBase {
            elem_base: NodeElementBase {
                tooltip: Some("tip".to_owned()),
                description: Some("what it is".to_owned()),
                display_name: Some("shown".to_owned()),
                visibility: Visibility::Guru,
                docu_url: Some("url".to_owned()),
                is_deprecated: true,
                event_id: Some(0x1f),
                p_is_implemented: Some(NodeId(10)),
                p_is_available: Some(NodeId(11)),
                p_is_locked: Some(NodeId(12)),
                p_block_polling: Some(NodeId(13)),
                imposed_access_mode: AccessMode::RW,
                p_errors: vec![NodeId(14)],
                p_alias: Some(NodeId(15)),
                p_cast_alias: Some(NodeId(16)),
            },
            streamable: true,
            address_kinds: vec![AddressKind::Address(ImmOrPNode::Imm(address))],
            length: ImmOrPNode::Imm(length),
            access_mode: AccessMode::RW,
            p_port: NodeId(17),
            cacheable: CachingMode::NoCache,
            polling_time: Some(5),
            p_invalidators: vec![NodeId(18)],
        },
        sign: Sign::Unsigned,
        endianness: Endianness::LE,
        unit: Some("Hz".to_owned()),
        representation: IntegerRepresentation::HexNumber,
        p_selected: vec![NodeId(19)],
    }
}

#[test]
fn nodes_hand_out_what_they_carry() {
    let reg = register(1, 0, 2);
    let node = reg.node_base();
    assert_eq!(node.id(), NodeId(1));
    assert_eq!(node.name_space(), NameSpace::Standard);
    assert_eq!(node.merge_priority(), MergePriority::High);
    assert_eq!(node.expose_static(), Some(true));
    assert_eq!(node.tooltip(), Some("tip"));
    assert_eq!(node.description(), Some("what it is"));
    assert_eq!(node.display_name(), Some("shown"));
    assert_eq!(node.visibility(), Visibility::Guru);
    assert_eq!(node.docu_url(), Some("url"));
    assert!(node.is_deprecated());
    assert_eq!(node.event_id(), Some(0x1f));
    assert_eq!(node.p_is_implemented(), Some(NodeId(10)));
    assert_eq!(node.p_is_available(), Some(NodeId(11)));
    assert_eq!(node.p_is_locked(), Some(NodeId(12)));
    assert_eq!(node.p_block_polling(), Some(NodeId(13)));
    assert_eq!(node.imposed_access_mode(), AccessMode::RW);
    assert_eq!(node.p_errors(), &[NodeId(14)]);
    assert_eq!(node.p_alias(), Some(NodeId(15)));
    assert_eq!(node.p_cast_alias(), Some(NodeId(16)));

    let base = reg.register_base();
    assert!(base.streamable());
    assert_eq!(
        base.address_kinds(),
        &[AddressKind::Address(ImmOrPNode::Imm(0))]
    );
    assert_eq!(base.length(), ImmOrPNode::Imm(2));
    assert_eq!(base.access_mode(), AccessMode::RW);
    assert_eq!(base.p_port(), NodeId(17));
    assert_eq!(base.cacheable(), CachingMode::NoCache);
    assert_eq!(base.polling_time(), Some(5));
    assert_eq!(base.p_invalidators(), &[NodeId(18)]);
    assert_eq!(base.elem_base().tooltip.as_deref(), Some("tip"));
    assert!(base.is_readable() && base.is_writable());

    assert_eq!(reg.sign(), Sign::Unsigned);
    assert_eq!(reg.endianness(), Endianness::LE);
    assert_eq!(reg.unit(), Some("Hz"));
    assert_eq!(reg.representation(), IntegerRepresentation::HexNumber);
    assert_eq!(reg.p_selected(), &[NodeId(19)]);

    let copy = reg.register_base.clone();
    assert_eq!(format!("{:?}", copy), format!("{:?}", reg.register_base));

    let masked = MaskedIntRegNode {
        attr_base: reg.attr_base,
        register_base: copy,
        bit_mask: BitMask::SingleBit(3),
        sign: Sign::Signed,
        endianness: Endianness::BE,
        unit: None,
        representation: IntegerRepresentation::Boolean,
        p_selected: vec![],
    };
    assert_eq!(masked.bit_mask(), BitMask::SingleBit(3));
    assert_eq!(masked.sign(), Sign::Signed);
    assert_eq!(masked.endianness(), Endianness::BE);
    assert_eq!(masked.unit(), None);
    assert_eq!(masked.representation(), IntegerRepresentation::Boolean);
    assert!(masked.p_selected().is_empty());
    assert_eq!(masked.node_base().id(), NodeId(1));
    assert_eq!(masked.register_base().p_port(), NodeId(17));
}

#[test]
fn register_memory_is_a_device() {
    let mut memory = Memory::new(ABRM::layout().unwrap());
    let user = memory
        .layout_ref()
        .raw_entry(ABRM::UserDefinedName.index())
        .unwrap();
    let minor = memory
        .layout_ref()
        .raw_entry(ABRM::GenCpVersionMinor.index())
        .unwrap();
    let mut cache = DefaultCacheStore::new();

    // The version is read only.
    let version = register(1, minor.offset as i64, 2);
    assert_eq!(version.value_at(0, 2, &mut memory, &mut cache).unwrap(), 1);
    assert!(matches!(
        version.set_value_at(2, 0, 2, &mut memory, &mut cache),
        Err(GenApiError::Device(_))
    ));
    assert_eq!(version.value_at(0, 2, &mut memory, &mut cache).unwrap(), 1);

    // The user defined name may be written.
    let name = register(2, user.offset as i64, 4);
    name.set_value_at(0x64636261, user.offset as i64, 4, &mut memory, &mut cache)
        .unwrap();
    assert_eq!(
        name.value_at(user.offset as i64, 4, &mut memory, &mut cache)
            .unwrap(),
        0x64636261
    );
    assert_eq!(
        memory.read_string(ABRM::UserDefinedName.index()).unwrap(),
        "abcd"
    );

    let mut buf = [0u8; 4];
    memory.read_mem(user.offset as u64, &mut buf).unwrap();
    assert_eq!(&buf, b"abcd");
    assert!(memory.read_mem(590, &mut buf).is_err());
    assert_eq!(&buf, b"abcd");
    assert!(memory.read_mem(u64::MAX, &mut buf).is_err());
    assert!(memory.write_mem(0, &[9, 9]).is_err());
    assert!(memory.write_mem(user.offset as u64, b"wxyz").is_ok());
    memory.read_mem(user.offset as u64, &mut buf).unwrap();
    assert_eq!(&buf, b"wxyz");
    // A device behind a reference is a device.
    let mut by_reference = &mut memory;
    by_reference.read_mem(0, &mut buf[..2]).unwrap();
    assert_eq!(&buf[..2], &[1, 0]);

    let layout = RegisterLayout::new(
        16,
        Endianness::LE,
        vec![EntryDescriptor {
            name: "Only".to_owned(),
            len: 4,
            access: AccessRight::RW,
            value: EntryValue::Unsigned(7),
        }],
    )
    .unwrap();
    let mut small = Memory::new(layout);
    let only = register(3, 16, 4);
    assert_eq!(only.value_at(16, 4, &mut small, &mut cache).unwrap(), 7);
    assert!(matches!(
        only.value_at(15, 4, &mut small, &mut cache),
        Err(GenApiError::Device(_))
    ));
    assert!(matches!(
        only.value_at(17, 4, &mut small, &mut cache),
        Err(GenApiError::Device(_))
    ));
}

#[test]
fn new_stores_are_empty() {
    let mut nodes = DefaultNodeStore::new();
    assert_eq!(nodes.name_count(), 0);
    assert_eq!(nodes.node_capacity(), 0);
    assert_eq!(nodes.get_or_intern("First"), NodeId(0));
    assert_eq!(nodes.get_or_intern("Second"), NodeId(1));
    assert_eq!(nodes.name_count(), 2);

    let mut values = DefaultValueStore::new();
    assert!(values.value_opt(ValueId(0)).is_none());
    assert_eq!(values.store(ValueData::Integer(5)), ValueId(0));
    assert_eq!(values.store(ValueData::Integer(6)), ValueId(1));

    let mut cache = DefaultCacheStore::new();
    assert_eq!(cache.get_cache(NodeId(0), 0, 1), None);
    cache.invalidate_by(NodeId(0));
    cache.cache(NodeId(0), 0, 1, &[3]);
    assert_eq!(cache.get_cache(NodeId(0), 0, 1), Some(&[3u8][..]));
}
