use cameleon::elem_type::{
    AccessMode, BitMask, CachingMode, Endianness, IntegerRepresentation, Sign,
};
use cameleon::parser::struct_reg::StructRegNode;
use cameleon::parser::xml::{Element, Node};
use cameleon::parser::ParseError;
use cameleon::store::{
    DefaultCacheStore, DefaultNodeStore, DefaultValueStore, NodeStoreBuilder,
};

fn to_element(node: roxmltree::Node) -> Element {
    let mut elem = Element::with_text(node.tag_name().name(), node.text().unwrap_or(""));
    for attr in node.attributes() {
        elem.push_attribute(attr.name(), attr.value());
    }
    for child in node.children() {
        if child.is_element() {
            elem.push_child(to_element(child));
        }
    }
    elem
}

fn parse_default(
    xml: &str,
) -> (
    Result<StructRegNode, ParseError>,
    DefaultNodeStore,
    DefaultValueStore,
    DefaultCacheStore,
) {
    let document = roxmltree::Document::parse(xml).unwrap();
    let root = to_element(document.root_element());
    let mut node_builder = DefaultNodeStore::new();
    let mut value_builder = DefaultValueStore::new();
    let mut cache_builder = DefaultCacheStore::new();
    let parsed = StructRegNode::parse(
        &mut Node::new(&root),
        &mut node_builder,
        &mut value_builder,
        &mut cache_builder,
    );
    (parsed, node_builder, value_builder, cache_builder)
}

const STRUCT_REG: &str = r#"
            <StructReg Comment="Struct Reg Comment">
                <ToolTip>Struct Reg ToolTip</ToolTip>
                <Address>0x10000</Address>
                <Length>4</Length>
                <pPort>Device</pPort>
                <Endianess>BigEndian</Endianess>

                <StructEntry Name="StructEntry0">
                    <ToolTip>StructEntry0 ToolTip</ToolTip>
                    <ImposedAccessMode>RO</ImposedAccessMode>
                    <pInvalidator>Invalidator0</pInvalidator>
                    <pInvalidator>Invalidator1</pInvalidator>
                    <AccessMode>RW</AccessMode>
                    <Cachable>WriteAround</Cachable>
                    <PollingTime>1000</PollingTime>
                    <Streamable>Yes</Streamable>
                    <LSB>10</LSB>
                    <MSB>1</MSB>
                    <Sign>Signed</Sign>
                    <Unit>Hz</Unit>
                    <Representation>Logarithmic</Representation>
                    <pSelected>Selected0</pSelected>
                    <pSelected>Selected1</pSelected>
                </StructEntry>

                <StructEntry Name="StructEntry1">
                    <Bit>24</Bit>
                </StructEntry>

            </StructReg>
            "#;

#[test]
fn test_to_masked_int_regs() {
    let xml = STRUCT_REG;
    let (node, mut node_builder, _, mut cache_builder) = parse_default(xml);
    let node = node.unwrap();
    let masked_int_regs: Vec<_> = node.into_masked_int_regs(&mut cache_builder);

    assert_eq!(masked_int_regs.len(), 2);

    let masked_int_reg0 = &masked_int_regs[0];
    assert_eq!(
        masked_int_reg0.node_base().id(),
        node_builder.get_or_intern("StructEntry0")
    );
    assert_eq!(
        masked_int_reg0.node_base().imposed_access_mode(),
        AccessMode::RO
    );
    assert_eq!(
        masked_int_reg0.node_base().tooltip().unwrap(),
        "StructEntry0 ToolTip"
    );
    assert_eq!(
        masked_int_reg0.register_base().access_mode(),
        AccessMode::RW,
    );

    let masked_int_reg1 = &masked_int_regs[1];
    assert_eq!(
        masked_int_reg1.node_base().id(),
        node_builder.get_or_intern("StructEntry1")
    );
    assert_eq!(
        masked_int_reg1.node_base().imposed_access_mode(),
        AccessMode::RW
    );
    assert_eq!(
        masked_int_reg1.node_base().tooltip().unwrap(),
        "Struct Reg ToolTip"
    );
    assert_eq!(
        masked_int_reg1.register_base().access_mode(),
        AccessMode::RO,
    );
}

#[test]
fn struct_entry_fields_are_read_and_merged() {
    let (node, mut node_builder, _, mut cache_builder) = parse_default(STRUCT_REG);
    let node = node.unwrap();
    assert_eq!(node.comment, "Struct Reg Comment");
    assert_eq!(node.endianness, Endianness::BE);
    let regs = node.into_masked_int_regs(&mut cache_builder);

    let reg0 = &regs[0];
    assert_eq!(reg0.endianness, Endianness::BE);
    assert_eq!(reg0.bit_mask, BitMask::Range { lsb: 10, msb: 1 });
    assert_eq!(reg0.sign, Sign::Signed);
    assert_eq!(reg0.unit.as_deref(), Some("Hz"));
    assert_eq!(reg0.representation, IntegerRepresentation::Logarithmic);
    assert_eq!(reg0.register_base.cacheable, CachingMode::WriteAround);
    assert_eq!(reg0.register_base.polling_time, Some(1000));
    assert!(reg0.register_base.streamable);
    assert_eq!(
        reg0.register_base.p_invalidators,
        vec![
            node_builder.get_or_intern("Invalidator0"),
            node_builder.get_or_intern("Invalidator1")
        ]
    );
    assert_eq!(
        reg0.p_selected,
        vec![
            node_builder.get_or_intern("Selected0"),
            node_builder.get_or_intern("Selected1")
        ]
    );
    assert_eq!(reg0.register_base.p_port, node_builder.get_or_intern("Device"));

    let reg1 = &regs[1];
    assert_eq!(reg1.bit_mask, BitMask::SingleBit(24));
    assert_eq!(reg1.sign, Sign::Unsigned);
    assert_eq!(reg1.unit, None);
    assert_eq!(reg1.representation, IntegerRepresentation::PureNumber);
    assert_eq!(reg1.register_base.cacheable, CachingMode::WriteThrough);
    assert_eq!(reg1.register_base.polling_time, None);
    assert!(!reg1.register_base.streamable);
    assert!(reg1.register_base.p_invalidators.is_empty());
    assert!(reg1.p_selected.is_empty());
}
