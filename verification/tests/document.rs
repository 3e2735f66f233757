use cameleon::elem_type::StandardNameSpace;
use cameleon::engine::{int_value, set_int_value};
use cameleon::node::NodeData;
use cameleon::parser::document::parse_document;
use cameleon::parser::utils::{convert_to_int, convert_to_uint, int_to_text, uint_to_text};
use cameleon::parser::writer::write_document;
use cameleon::parser::xml::Element;
use cameleon::parser::ParseError;
use cameleon::store::{
    CacheStore, CacheStoreBuilder, DefaultCacheStore, DefaultNodeStore, DefaultValueStore, NodeId,
    NodeStoreBuilder,
};
use cameleon::{Device, DeviceError, GenApiError, RegisterDescription};

fn to_element(node: roxmltree::Node) -> Element {
    let mut elem = Element::with_text(node.tag_name().name(), node.text().unwrap_or(""));
    for attr in node.attributes() {
        elem.push_attribute(attr.name(), attr.value());
    }
    for child in node.children() {
        if child.is_element() {
            elem.push_child(to_element(child));
        }
    }
    elem
}

fn load(
    xml: &str,
) -> (
    Result<RegisterDescription, ParseError>,
    DefaultNodeStore,
    DefaultCacheStore,
) {
    let document = roxmltree::Document::parse(xml).unwrap();
    let root = to_element(document.root_element());
    let mut nodes = DefaultNodeStore::new();
    let mut values = DefaultValueStore::new();
    let mut caches = DefaultCacheStore::new();
    let description = parse_document(&root, &mut nodes, &mut values, &mut caches);
    (description, nodes, caches)
}

fn document(nodes: &str) -> String {
    format!(
        r#"<RegisterDescription
              ModelName="CameleonModel"
              VendorName="CameleonVendor"
              ToolTip="A test description"
              StandardNameSpace="USB"
              SchemaMajorVersion="1"
              SchemaMinorVersion="1"
              SchemaSubMinorVersion="0"
              MajorVersion="1"
              MinorVersion="2"
              SubMinorVersion="3"
              ProductGuid="01234567-0123-0123-0123-0123456789ab"
              VersionGuid="76543210-3210-3210-3210-ba9876543210"
              xmlns="http://www.genicam.org/GenApi/Version_1_1">
            {}
           </RegisterDescription>"#,
        nodes
    )
}

struct Memory {
    bytes: Vec<u8>,
    reads: usize,
}

impl Device for Memory {
    fn read_mem(&mut self, address: u64, buf: &mut [u8]) -> Result<(), DeviceError> {
        self.reads += 1;
        let start = address as usize;
        buf.copy_from_slice(&self.bytes[start..start + buf.len()]);
        Ok(())
    }

    fn write_mem(&mut self, address: u64, data: &[u8]) -> Result<(), DeviceError> {
        let start = address as usize;
        self.bytes[start..start + data.len()].copy_from_slice(data);
        Ok(())
    }
}

const NODES: &str = r#"
    <IntReg Name="Gain">
        <ToolTip>The gain</ToolTip>
        <Address>0x10</Address>
        <Length>2</Length>
        <AccessMode>RW</AccessMode>
        <pPort>Device</pPort>
        <Sign>Signed</Sign>
        <Endianess>BigEndian</Endianess>
    </IntReg>

    <MaskedIntReg Name="Mode">
        <Address>0x20</Address>
        <Length>1</Length>
        <AccessMode>RW</AccessMode>
        <pPort>Device</pPort>
        <pInvalidator>Gain</pInvalidator>
        <LSB>4</LSB>
        <MSB>6</MSB>
    </MaskedIntReg>

    <StructReg Comment="Flags">
        <Address>0x30</Address>
        <Length>4</Length>
        <AccessMode>RW</AccessMode>
        <pPort>Device</pPort>
        <Endianess>BigEndian</Endianess>
        <StructEntry Name="FlagHigh">
            <Bit>0</Bit>
        </StructEntry>
        <StructEntry Name="Field">
            <AccessMode>RO</AccessMode>
            <LSB>31</LSB>
            <MSB>24</MSB>
        </StructEntry>
    </StructReg>

    <IntSwissKnife Name="GainTimesTen">
        <pVariable Name="G">Gain</pVariable>
        <Constant Name="TEN">10</Constant>
        <Formula>G * TEN</Formula>
    </IntSwissKnife>

    <IntConverter Name="GainPercent">
        <pVariable Name="M">Mode</pVariable>
        <FormulaTo>TO / 100 + M * 0</FormulaTo>
        <FormulaFrom>FROM * 100</FormulaFrom>
        <pValue>Gain</pValue>
        <Unit>%</Unit>
        <Representation>Linear</Representation>
    </IntConverter>
"#;

#[test]
fn description_is_read_and_evaluated() {
    let (description, nodes, mut caches) = load(&document(NODES));
    let description = description.unwrap();
    assert_eq!(description.model_name(), "CameleonModel");
    assert_eq!(description.vendor_name(), "CameleonVendor");
    assert_eq!(description.tool_tip(), Some("A test description"));
    assert_eq!(description.standard_name_space(), StandardNameSpace::USB);
    assert_eq!(description.schema_major_version(), 1);
    assert_eq!(description.schema_minor_version(), 1);
    assert_eq!(description.schema_subminor_version(), 0);
    assert_eq!(description.major_version(), 1);
    assert_eq!(description.minor_version(), 2);
    assert_eq!(description.subminor_version(), 3);
    assert_eq!(
        description.product_guid(),
        "01234567-0123-0123-0123-0123456789ab"
    );
    assert_eq!(
        description.version_guid(),
        "76543210-3210-3210-3210-ba9876543210"
    );

    let id = |name: &str| nodes.id_by_name(name).unwrap();
    for name in [
        "Gain",
        "Mode",
        "FlagHigh",
        "Field",
        "GainTimesTen",
        "GainPercent",
    ] {
        assert_eq!(nodes.node_opt(id(name)).unwrap().id(), id(name));
    }
    // The port is referred to, but is no node of the description.
    assert!(nodes.node_opt(id("Device")).is_none());
    assert!(matches!(
        nodes.node_opt(id("Field")),
        Some(NodeData::MaskedIntReg(_))
    ));
    match nodes.node_opt(id("GainPercent")) {
        Some(NodeData::IntConverter(c)) => {
            assert_eq!(c.unit.as_deref(), Some("%"));
            assert_eq!(c.p_value, id("Gain"));
            assert_eq!(c.p_variables[0].name, "M");
            assert_eq!(c.p_variables[0].node, id("Mode"));
        }
        _ => panic!("no converter"),
    }

    let mut device = Memory {
        bytes: vec![0; 0x40],
        reads: 0,
    };
    set_int_value(&nodes, id("Gain"), -2, &mut device, &mut caches).unwrap();
    assert_eq!(&device.bytes[0x10..0x12], &[0xff, 0xfe]);
    assert_eq!(
        int_value(&nodes, id("GainTimesTen"), &mut device, &mut caches).unwrap(),
        -20
    );
    assert_eq!(
        int_value(&nodes, id("GainPercent"), &mut device, &mut caches).unwrap(),
        -200
    );
    set_int_value(&nodes, id("GainPercent"), 700, &mut device, &mut caches).unwrap();
    assert_eq!(
        int_value(&nodes, id("Gain"), &mut device, &mut caches).unwrap(),
        7
    );

    device.bytes[0x20] = 0b1010_1111;
    assert_eq!(
        int_value(&nodes, id("Mode"), &mut device, &mut caches).unwrap(),
        0b010
    );
    set_int_value(&nodes, id("Mode"), 0b101, &mut device, &mut caches).unwrap();
    assert_eq!(device.bytes[0x20], 0b1101_1111);
    // `Gain` is an invalidator of `Mode`: a write to `Gain` drops the cache of
    // `Mode`, and the next read of `Mode` goes to the device.
    assert_eq!(
        caches.get_cache(id("Mode"), 0x20, 1),
        Some(&[0b1101_1111u8][..])
    );
    set_int_value(&nodes, id("Gain"), 9, &mut device, &mut caches).unwrap();
    assert_eq!(caches.get_cache(id("Mode"), 0x20, 1), None);
    device.bytes[0x20] = 0b0011_0000;
    let reads = device.reads;
    assert_eq!(
        int_value(&nodes, id("Mode"), &mut device, &mut caches).unwrap(),
        0b011
    );
    assert_eq!(device.reads, reads + 1);

    device.bytes[0x30..0x34].copy_from_slice(&[0x80, 0, 0, 0x5a]);
    assert_eq!(
        int_value(&nodes, id("FlagHigh"), &mut device, &mut caches).unwrap(),
        1
    );
    assert_eq!(
        int_value(&nodes, id("Field"), &mut device, &mut caches).unwrap(),
        0x5a
    );
    set_int_value(&nodes, id("FlagHigh"), 0, &mut device, &mut caches).unwrap();
    assert_eq!(&device.bytes[0x30..0x34], &[0, 0, 0, 0x5a]);
    // `RO` is the default of an entry and does not override the access mode
    // of the struct register, which is `RW`.
    set_int_value(&nodes, id("Field"), 0xa5, &mut device, &mut caches).unwrap();
    assert_eq!(&device.bytes[0x30..0x34], &[0, 0, 0, 0xa5]);
    assert!(matches!(
        set_int_value(&nodes, id("Field"), 0x100, &mut device, &mut caches),
        Err(GenApiError::InvalidData(_))
    ));
}

fn error_of(nodes: &str) -> String {
    format!("{:?}", load(&document(nodes)).0.unwrap_err())
}

#[test]
fn descriptions_that_are_rejected() {
    assert_eq!(
        error_of("<Boolean Name=\"B\"/>"),
        "UnexpectedElement(\"Boolean\")"
    );
    assert_eq!(
        error_of("<IntReg Name=\"R\"><Address>0</Address><pPort>P</pPort></IntReg>"),
        "UnexpectedElement(\"pPort\")"
    );
    assert_eq!(
        error_of("<IntReg Name=\"R\"><Address>0</Address></IntReg>"),
        "MissingElement(\"Length\")"
    );
    assert_eq!(
        error_of("<IntReg Name=\"R\"><Address>0</Address><Length>1</Length></IntReg>"),
        "MissingElement(\"pPort\")"
    );
    assert_eq!(
        error_of("<IntReg><Address>0</Address><Length>1</Length><pPort>P</pPort></IntReg>"),
        "BadAttribute(\"Name\")"
    );
    assert_eq!(
        error_of("<IntReg Name=\"R\"><Address>zero</Address><Length>1</Length><pPort>P</pPort></IntReg>"),
        "BadAttribute(\"Address\")"
    );
    assert_eq!(
        error_of(
            "<IntReg Name=\"R\"><Length>1</Length><AccessMode>XX</AccessMode><pPort>P</pPort></IntReg>"
        ),
        "BadAttribute(\"AccessMode\")"
    );
    assert_eq!(
        error_of(
            "<IntReg Name=\"R\" NameSpace=\"Mine\"><Length>1</Length><pPort>P</pPort></IntReg>"
        ),
        "BadAttribute(\"NameSpace\")"
    );
    assert_eq!(
        error_of("<MaskedIntReg Name=\"R\"><Length>1</Length><pPort>P</pPort></MaskedIntReg>"),
        "MissingElement(\"Bit\")"
    );
    assert_eq!(
        error_of(
            "<MaskedIntReg Name=\"R\"><Length>1</Length><pPort>P</pPort><LSB>1</LSB></MaskedIntReg>"
        ),
        "MissingElement(\"MSB\")"
    );
    assert_eq!(
        error_of(
            "<MaskedIntReg Name=\"R\"><Length>1</Length><pPort>P</pPort><Sign>Signed</Sign></MaskedIntReg>"
        ),
        "UnexpectedElement(\"Sign\")"
    );
    assert_eq!(
        error_of("<StructReg><Length>1</Length><pPort>P</pPort></StructReg>"),
        "BadAttribute(\"Comment\")"
    );
    assert_eq!(
        error_of(
            "<StructReg Comment=\"\"><Length>1</Length><pPort>P</pPort><Entry Name=\"E\"/></StructReg>"
        ),
        "UnexpectedElement(\"Entry\")"
    );
    assert_eq!(
        error_of("<IntSwissKnife Name=\"K\"><pVariable Name=\"X\">N</pVariable></IntSwissKnife>"),
        "MissingElement(\"Formula\")"
    );
    assert_eq!(
        error_of("<IntSwissKnife Name=\"K\"><Formula>1 +</Formula></IntSwissKnife>"),
        "BadAttribute(\"Formula\")"
    );
    assert_eq!(
        error_of("<IntSwissKnife Name=\"K\"><pVariable>N</pVariable><Formula>1</Formula></IntSwissKnife>"),
        "BadAttribute(\"Name\")"
    );
    assert_eq!(
        error_of(
            "<IntSwissKnife Name=\"K\"><Constant Name=\"C\">x</Constant><Formula>1</Formula></IntSwissKnife>"
        ),
        "BadAttribute(\"Constant\")"
    );
    assert_eq!(
        error_of(
            "<IntConverter Name=\"C\"><FormulaTo>TO</FormulaTo><FormulaFrom>FROM</FormulaFrom></IntConverter>"
        ),
        "MissingElement(\"pValue\")"
    );
    assert_eq!(
        error_of("<IntConverter Name=\"C\"><FormulaFrom>FROM</FormulaFrom></IntConverter>"),
        "MissingElement(\"FormulaTo\")"
    );
    // The first error in document order is reported.
    assert_eq!(
        error_of(
            "<IntReg Name=\"R\"><Visibility>Nobody</Visibility><Address>zero</Address></IntReg><Boolean/>"
        ),
        "BadAttribute(\"Visibility\")"
    );
}

#[test]
fn heads_that_are_rejected() {
    let head = |attrs: &str| -> String {
        let xml = format!("<RegisterDescription {}></RegisterDescription>", attrs);
        format!("{:?}", load(&xml).0.unwrap_err())
    };
    assert_eq!(head(""), "BadAttribute(\"ModelName\")");
    assert_eq!(head("ModelName=\"m\""), "BadAttribute(\"VendorName\")");
    assert_eq!(
        head("ModelName=\"m\" VendorName=\"v\""),
        "BadAttribute(\"StandardNameSpace\")"
    );
    assert_eq!(
        head("ModelName=\"m\" VendorName=\"v\" StandardNameSpace=\"Other\""),
        "BadAttribute(\"StandardNameSpace\")"
    );
    assert_eq!(
        head("ModelName=\"m\" VendorName=\"v\" StandardNameSpace=\"None\""),
        "BadAttribute(\"SchemaMajorVersion\")"
    );
    assert_eq!(
        head(
            "ModelName=\"m\" VendorName=\"v\" StandardNameSpace=\"GEV\" SchemaMajorVersion=\"-1\""
        ),
        "BadAttribute(\"SchemaMajorVersion\")"
    );
    let (wrong, _, _) = load("<Description/>");
    assert_eq!(
        format!("{:?}", wrong.unwrap_err()),
        "UnexpectedElement(\"Description\")"
    );
    let minimal = "<RegisterDescription ModelName=\"m\" VendorName=\"v\" \
                   StandardNameSpace=\"None\" SchemaMajorVersion=\"1\" \
                   SchemaMinorVersion=\"0x10\" SchemaSubMinorVersion=\"0\" MajorVersion=\"1\" \
                   MinorVersion=\"0\" SubMinorVersion=\"0\" ProductGuid=\"p\" VersionGuid=\"g\"/>";
    let (description, _, _) = load(minimal);
    let description = description.unwrap();
    assert_eq!(description.tool_tip(), None);
    assert_eq!(
        description.standard_name_space(),
        StandardNameSpace::Unspecified
    );
    assert_eq!(description.schema_minor_version(), 16);
}

const REGISTERS: &str = r#"
    <IntReg Name="Gain" NameSpace="Standard" MergePriority="1" ExposeStatic="Yes">
        <ToolTip>The gain</ToolTip>
        <Description>How much the signal is amplified</Description>
        <DisplayName>Gain (raw)</DisplayName>
        <Visibility>Expert</Visibility>
        <DocuURL>http://example.com/gain</DocuURL>
        <IsDeprecated>Yes</IsDeprecated>
        <EventID>1aF</EventID>
        <pIsImplemented>Implemented</pIsImplemented>
        <pIsAvailable>Available</pIsAvailable>
        <pIsLocked>Locked</pIsLocked>
        <pBlockPolling>Block</pBlockPolling>
        <ImposedAccessMode>WO</ImposedAccessMode>
        <pError>Error0</pError>
        <pError>Error1</pError>
        <pAlias>Alias</pAlias>
        <pCastAlias>CastAlias</pCastAlias>
        <Streamable>Yes</Streamable>
        <Address>0x10</Address>
        <pAddress>Base</pAddress>
        <pIndex Offset="-4">Index</pIndex>
        <pIndex pOffset="Stride">Index</pIndex>
        <pIndex>Index</pIndex>
        <pLength>Len</pLength>
        <AccessMode>RW</AccessMode>
        <pPort>Device</pPort>
        <Cachable>WriteAround</Cachable>
        <PollingTime>1000</PollingTime>
        <pInvalidator>Mode</pInvalidator>
        <pInvalidator>Base</pInvalidator>
        <Sign>Signed</Sign>
        <Endianess>BigEndian</Endianess>
        <Unit>dB</Unit>
        <Representation>Logarithmic</Representation>
        <pSelected>Mode</pSelected>
    </IntReg>

    <MaskedIntReg Name="Mode">
        <Address>-1</Address>
        <Length>1</Length>
        <pPort>Device</pPort>
        <LSB>4</LSB>
        <MSB>6</MSB>
    </MaskedIntReg>

    <StructReg Comment="Flags">
        <ToolTip>The flags</ToolTip>
        <Address>0x30</Address>
        <Length>4</Length>
        <pPort>Device</pPort>
        <pInvalidator>Gain</pInvalidator>
        <Endianess>BigEndian</Endianess>
        <StructEntry Name="Base">
            <Bit>0</Bit>
        </StructEntry>
        <StructEntry Name="Len">
            <pInvalidator>Mode</pInvalidator>
            <AccessMode>RW</AccessMode>
            <LSB>31</LSB>
            <MSB>24</MSB>
            <Sign>Signed</Sign>
        </StructEntry>
    </StructReg>
"#;

/// The names of `nodes` in the order of their ids, interned anew.
fn same_names(nodes: &DefaultNodeStore) -> DefaultNodeStore {
    let mut fresh = DefaultNodeStore::new();
    for i in 0..nodes.name_count() {
        let id = fresh.get_or_intern(nodes.name_by_id(NodeId(i)).unwrap());
        assert_eq!(id, NodeId(i));
    }
    fresh
}

#[test]
fn written_description_reads_back() {
    let (description, nodes, mut caches) = load(&document(REGISTERS));
    let description = description.unwrap();
    let root = write_document(&description, &nodes).unwrap();

    let mut nodes_again = same_names(&nodes);
    let mut values = DefaultValueStore::new();
    let mut caches_again = DefaultCacheStore::new();
    let description_again =
        parse_document(&root, &mut nodes_again, &mut values, &mut caches_again).unwrap();

    assert_eq!(format!("{:?}", description_again), format!("{:?}", description));
    assert_eq!(nodes_again.name_count(), nodes.name_count());
    assert_eq!(nodes_again.node_capacity(), nodes.node_capacity());
    let mut written = 0;
    for i in 0..nodes.node_capacity() {
        let id = NodeId(i);
        assert_eq!(nodes_again.name_by_id(id), nodes.name_by_id(id));
        assert_eq!(
            format!("{:?}", nodes_again.node_opt(id)),
            format!("{:?}", nodes.node_opt(id))
        );
        if nodes.node_opt(id).is_some() {
            written += 1;
        }
    }
    assert_eq!(written, 4);
    assert_eq!(root.children.len(), 4);

    // The invalidators are the same: a write invalidates the same caches.
    let ids: Vec<NodeId> = (0..nodes.name_count()).map(NodeId).collect();
    for invalidator in &ids {
        for store in [&mut caches, &mut caches_again] {
            for id in &ids {
                store.cache(*id, 0, 1, &[1]);
            }
            store.invalidate_by(*invalidator);
        }
        for id in &ids {
            assert_eq!(
                caches.get_cache(*id, 0, 1).is_some(),
                caches_again.get_cache(*id, 0, 1).is_some()
            );
        }
    }
    let id = |name: &str| nodes.id_by_name(name).unwrap();
    caches.store_invalidator(id("Device"), id("Device"));
    for id in &ids {
        caches.cache(*id, 0, 1, &[1]);
    }
    // `Gain` is an invalidator of `Base`, which inherits it from the struct
    // register, and `Base` is one of `Gain`; `Len` names its own invalidator.
    caches.invalidate_by(id("Gain"));
    assert!(caches.get_cache(id("Base"), 0, 1).is_none());
    assert!(caches.get_cache(id("Gain"), 0, 1).is_none());
    assert!(caches.get_cache(id("Len"), 0, 1).is_some());
    assert!(caches.get_cache(id("Mode"), 0, 1).is_some());
    assert!(caches.get_cache(id("Device"), 0, 1).is_some());
    caches.invalidate_by(id("Mode"));
    assert!(caches.get_cache(id("Len"), 0, 1).is_none());
    assert!(caches.get_cache(id("Mode"), 0, 1).is_some());

    // What was written is written again in the same way.
    let root_again = write_document(&description_again, &nodes_again).unwrap();
    assert_eq!(element_text(&root_again), element_text(&root));
    assert!(element_text(&root).contains("<pIndex Offset=\"-4\">Index</pIndex>"));
    assert!(element_text(&root).contains("<EventID>1af</EventID>"));
    assert!(element_text(&root).contains("<Address>16</Address>"));
}

fn element_text(e: &Element) -> String {
    let mut text = format!("<{}", e.tag);
    for a in &e.attributes {
        text += &format!(" {}=\"{}\"", a.name, a.value);
    }
    text += ">";
    text += e.text.trim();
    for c in &e.children {
        text += &element_text(c);
    }
    text + &format!("</{}>", e.tag)
}

#[test]
fn descriptions_that_cannot_be_written() {
    // Formulas have no written form.
    let (description, nodes, _) = load(&document(NODES));
    assert!(write_document(&description.unwrap(), &nodes).is_none());
    // A description without nodes is written as its head.
    let (description, nodes, _) = load(&document(""));
    let root = write_document(&description.unwrap(), &nodes).unwrap();
    assert!(root.children.is_empty());
    assert_eq!(root.tag, "RegisterDescription");
    assert_eq!(root.attribute_of("ModelName"), Some("CameleonModel"));
    assert_eq!(root.attribute_of("SchemaMajorVersion"), Some("1"));
    assert_eq!(root.attribute_of("StandardNameSpace"), Some("USB"));
    assert_eq!(root.attribute_of("ToolTip"), Some("A test description"));
    assert_eq!(root.attribute_of("Nothing"), None);
}

#[test]
fn numbers_as_text() {
    for v in [0i64, 1, -1, 9, 10, 99, 100, -100, 1234567890, i64::MAX, i64::MIN] {
        let text = int_to_text(v);
        assert_eq!(text, v.to_string());
        assert_eq!(convert_to_int(&text), Some(v));
    }
    for v in [0u64, 7, 10, 255, 1 << 40, u64::MAX] {
        let text = uint_to_text(v);
        assert_eq!(text, v.to_string());
        assert_eq!(convert_to_uint(&text), Some(v));
    }
    assert_eq!(convert_to_int("0x10"), Some(16));
    assert_eq!(convert_to_int("0XfF"), Some(255));
    assert_eq!(convert_to_int("0xffffffffffffffff"), Some(-1));
    assert_eq!(convert_to_int("0x8000000000000000"), Some(i64::MIN));
    assert_eq!(convert_to_int("-9223372036854775808"), Some(i64::MIN));
    assert_eq!(convert_to_int("9223372036854775807"), Some(i64::MAX));
    assert_eq!(convert_to_uint("18446744073709551615"), Some(u64::MAX));
    for text in [
        "", "-", "+1", " 1", "1 ", "0x", "-0x10", "1.0", "9223372036854775808",
        "-9223372036854775809", "0x10000000000000000", "18446744073709551616", "12a", "--1",
        "\u{663}",
    ] {
        assert_eq!(convert_to_int(text), None, "{:?}", text);
    }
    assert_eq!(convert_to_uint("-1"), None);
    assert_eq!(convert_to_uint("0x1f"), Some(31));
}
