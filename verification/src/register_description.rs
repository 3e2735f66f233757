//! The head of a register description: which device it describes, and in
//! which version of the schema and of itself.

use vstd::prelude::*;

use crate::elem_type::StandardNameSpace;
use crate::node_base::{attr_value, opt_view};
use crate::parser::elem_name::{
    MAJOR_VERSION, MINOR_VERSION, MODEL_NAME, PRODUCT_GUID, REGISTER_DESCRIPTION,
    SCHEMA_MAJOR_VERSION, SCHEMA_MINOR_VERSION, SCHEMA_SUB_MINOR_VERSION, STANDARD_NAME_SPACE,
    SUB_MINOR_VERSION, TOOL_TIP, VENDOR_NAME, VERSION_GUID,
};
use crate::parser::elem_name::lemma_name_marks;
use crate::parser::utils::{convert_to_uint, spec_uint_of_text, uint_to_text};
use crate::parser::xml::{
    lemma_attribute_absent, lemma_attribute_found, spec_attribute, Attribute, Element, Node,
};
use crate::parser::{bad_attribute, unexpected_element, ParseError, ParseErrorView};
use crate::utils::str_eq;

verus! {

/// The attributes of the root element of a register description.
#[derive(Debug)]
pub struct RegisterDescription {
    pub model_name: String,
    pub vendor_name: String,
    pub tool_tip: Option<String>,
    pub standard_name_space: StandardNameSpace,
    pub schema_major_version: u64,
    pub schema_minor_version: u64,
    pub schema_subminor_version: u64,
    pub major_version: u64,
    pub minor_version: u64,
    pub subminor_version: u64,
    pub product_guid: String,
    pub version_guid: String,
}

/// A `RegisterDescription` as plain values.
pub struct RegisterDescriptionView {
    pub model_name: Seq<char>,
    pub vendor_name: Seq<char>,
    pub tool_tip: Option<Seq<char>>,
    pub standard_name_space: StandardNameSpace,
    pub schema_major_version: u64,
    pub schema_minor_version: u64,
    pub schema_subminor_version: u64,
    pub major_version: u64,
    pub minor_version: u64,
    pub subminor_version: u64,
    pub product_guid: Seq<char>,
    pub version_guid: Seq<char>,
}

impl View for RegisterDescription {
    type V = RegisterDescriptionView;

    open spec fn view(&self) -> RegisterDescriptionView {
        RegisterDescriptionView {
            model_name: self.model_name@,
            vendor_name: self.vendor_name@,
            tool_tip: opt_view(self.tool_tip),
            standard_name_space: self.standard_name_space,
            schema_major_version: self.schema_major_version,
            schema_minor_version: self.schema_minor_version,
            schema_subminor_version: self.schema_subminor_version,
            major_version: self.major_version,
            minor_version: self.minor_version,
            subminor_version: self.subminor_version,
            product_guid: self.product_guid@,
            version_guid: self.version_guid@,
        }
    }
}

/// The attribute `name` is missing from `attrs`.
pub open spec fn lacks(attrs: Seq<Attribute>, name: Seq<char>) -> bool {
    spec_attribute(attrs, name) is None
}

/// The attribute `name` of `attrs` is missing or is no unsigned number.
pub open spec fn lacks_uint(attrs: Seq<Attribute>, name: Seq<char>) -> bool {
    lacks(attrs, name) || spec_uint_of_text(spec_attribute(attrs, name).unwrap()) is None
}

/// The unsigned number in the attribute `name` of `attrs`.
pub open spec fn uint_attr(attrs: Seq<Attribute>, name: Seq<char>) -> u64 {
    spec_uint_of_text(spec_attribute(attrs, name).unwrap()).unwrap()
}

/// Reads the required attribute `name` that holds an unsigned number.
fn parse_uint_attr(node: &Node, name: &str) -> (r: Result<u64, ParseError>)
    ensures
        match r {
            Ok(v) => !lacks_uint(node.element().attributes@, name@) && v == uint_attr(
                node.element().attributes@,
                name@,
            ),
            Err(e) => lacks_uint(node.element().attributes@, name@) && e@
                == ParseErrorView::BadAttribute(name@),
        },
{
    match node.attribute_of(name) {
        Some(t) => match convert_to_uint(t) {
            Some(v) => Ok(v),
            None => Err(bad_attribute(name)),
        },
        None => Err(bad_attribute(name)),
    }
}

/// Reads the required attribute `name` that holds text.
fn parse_text_attr(node: &Node, name: &str) -> (r: Result<String, ParseError>)
    ensures
        match r {
            Ok(v) => Some(v@) == spec_attribute(node.element().attributes@, name@),
            Err(e) => lacks(node.element().attributes@, name@) && e@
                == ParseErrorView::BadAttribute(name@),
        },
{
    match node.attribute_of(name) {
        Some(t) => Ok(t.to_owned()),
        None => Err(bad_attribute(name)),
    }
}

impl RegisterDescription {
    /// The first thing that the schema rejects in a root element with the
    /// tag `tag` and the attributes `attrs`: another tag than
    /// `RegisterDescription`, or the first attribute, in the order
    /// given here, that is missing or has no meaning.
    pub open spec fn spec_error(tag: Seq<char>, attrs: Seq<Attribute>) -> Option<ParseErrorView> {
        let name_space = attr_value(
            attrs,
            STANDARD_NAME_SPACE@,
            |t| StandardNameSpace::spec_from_text(t),
        );
        if tag != REGISTER_DESCRIPTION@ {
            Some(ParseErrorView::UnexpectedElement(tag))
        } else if lacks(attrs, MODEL_NAME@) {
            Some(ParseErrorView::BadAttribute(MODEL_NAME@))
        } else if lacks(attrs, VENDOR_NAME@) {
            Some(ParseErrorView::BadAttribute(VENDOR_NAME@))
        } else if name_space is None || name_space == Some(None::<StandardNameSpace>) {
            Some(ParseErrorView::BadAttribute(STANDARD_NAME_SPACE@))
        } else if lacks_uint(attrs, SCHEMA_MAJOR_VERSION@) {
            Some(ParseErrorView::BadAttribute(SCHEMA_MAJOR_VERSION@))
        } else if lacks_uint(attrs, SCHEMA_MINOR_VERSION@) {
            Some(ParseErrorView::BadAttribute(SCHEMA_MINOR_VERSION@))
        } else if lacks_uint(attrs, SCHEMA_SUB_MINOR_VERSION@) {
            Some(ParseErrorView::BadAttribute(SCHEMA_SUB_MINOR_VERSION@))
        } else if lacks_uint(attrs, MAJOR_VERSION@) {
            Some(ParseErrorView::BadAttribute(MAJOR_VERSION@))
        } else if lacks_uint(attrs, MINOR_VERSION@) {
            Some(ParseErrorView::BadAttribute(MINOR_VERSION@))
        } else if lacks_uint(attrs, SUB_MINOR_VERSION@) {
            Some(ParseErrorView::BadAttribute(SUB_MINOR_VERSION@))
        } else if lacks(attrs, PRODUCT_GUID@) {
            Some(ParseErrorView::BadAttribute(PRODUCT_GUID@))
        } else if lacks(attrs, VERSION_GUID@) {
            Some(ParseErrorView::BadAttribute(VERSION_GUID@))
        } else {
            None
        }
    }

    /// What the attributes `attrs` of a root element mean where none is
    /// rejected.
    pub open spec fn spec_value(attrs: Seq<Attribute>) -> RegisterDescriptionView {
        RegisterDescriptionView {
            model_name: spec_attribute(attrs, MODEL_NAME@).unwrap(),
            vendor_name: spec_attribute(attrs, VENDOR_NAME@).unwrap(),
            tool_tip: spec_attribute(attrs, TOOL_TIP@),
            standard_name_space: StandardNameSpace::spec_from_text(
                spec_attribute(attrs, STANDARD_NAME_SPACE@).unwrap(),
            ).unwrap(),
            schema_major_version: uint_attr(attrs, SCHEMA_MAJOR_VERSION@),
            schema_minor_version: uint_attr(attrs, SCHEMA_MINOR_VERSION@),
            schema_subminor_version: uint_attr(attrs, SCHEMA_SUB_MINOR_VERSION@),
            major_version: uint_attr(attrs, MAJOR_VERSION@),
            minor_version: uint_attr(attrs, MINOR_VERSION@),
            subminor_version: uint_attr(attrs, SUB_MINOR_VERSION@),
            product_guid: spec_attribute(attrs, PRODUCT_GUID@).unwrap(),
            version_guid: spec_attribute(attrs, VERSION_GUID@).unwrap(),
        }
    }

    /// Reads the attributes of the root element under the cursor.
    pub fn parse(node: &Node) -> (r: Result<RegisterDescription, ParseError>)
        ensures
            match r {
                Ok(v) => Self::spec_error(node.element().tag@, node.element().attributes@) is None
                    && v@ == Self::spec_value(node.element().attributes@),
                Err(e) => Self::spec_error(node.element().tag@, node.element().attributes@)
                    == Some(e@),
            },
    {
        if !str_eq(node.tag_name(), REGISTER_DESCRIPTION) {
            return Err(unexpected_element(node.tag_name()));
        }
        let model_name = parse_text_attr(node, MODEL_NAME)?;
        let vendor_name = parse_text_attr(node, VENDOR_NAME)?;
        let tool_tip = match node.attribute_of(TOOL_TIP) {
            Some(t) => Some(t.to_owned()),
            None => None,
        };
        let standard_name_space = match node.attribute_of(STANDARD_NAME_SPACE) {
            Some(t) => match StandardNameSpace::from_text(t) {
                Some(v) => v,
                None => {
                    return Err(bad_attribute(STANDARD_NAME_SPACE));
                },
            },
            None => {
                return Err(bad_attribute(STANDARD_NAME_SPACE));
            },
        };
        let schema_major_version = parse_uint_attr(node, SCHEMA_MAJOR_VERSION)?;
        let schema_minor_version = parse_uint_attr(node, SCHEMA_MINOR_VERSION)?;
        let schema_subminor_version = parse_uint_attr(node, SCHEMA_SUB_MINOR_VERSION)?;
        let major_version = parse_uint_attr(node, MAJOR_VERSION)?;
        let minor_version = parse_uint_attr(node, MINOR_VERSION)?;
        let subminor_version = parse_uint_attr(node, SUB_MINOR_VERSION)?;
        let product_guid = parse_text_attr(node, PRODUCT_GUID)?;
        let version_guid = parse_text_attr(node, VERSION_GUID)?;
        Ok(
            RegisterDescription {
                model_name,
                vendor_name,
                tool_tip,
                standard_name_space,
                schema_major_version,
                schema_minor_version,
                schema_subminor_version,
                major_version,
                minor_version,
                subminor_version,
                product_guid,
                version_guid,
            },
        )
    }

    /// Name of the device model.
    #[must_use]
    pub fn model_name(&self) -> (r: &str)
        ensures
            r@ == self@.model_name,
    {
        self.model_name.as_str()
    }

    /// Name of the vendor.
    #[must_use]
    pub fn vendor_name(&self) -> (r: &str)
        ensures
            r@ == self@.vendor_name,
    {
        self.vendor_name.as_str()
    }

    /// Tool tip of the description, if it has one.
    #[must_use]
    pub fn tool_tip(&self) -> (r: Option<&str>)
        ensures
            r is Some <==> self@.tool_tip is Some,
            r matches Some(t) ==> Some(t@) == self@.tool_tip,
    {
        match &self.tool_tip {
            Some(t) => Some(t.as_str()),
            None => None,
        }
    }

    /// Standard that defines the names of the description.
    #[must_use]
    pub fn standard_name_space(&self) -> (r: StandardNameSpace)
        ensures
            r == self@.standard_name_space,
    {
        self.standard_name_space
    }

    /// Major version of the schema.
    #[must_use]
    pub fn schema_major_version(&self) -> (r: u64)
        ensures
            r == self@.schema_major_version,
    {
        self.schema_major_version
    }

    /// Sub-minor version of the schema.
    #[must_use]
    pub fn schema_subminor_version(&self) -> (r: u64)
        ensures
            r == self@.schema_subminor_version,
    {
        self.schema_subminor_version
    }

    /// Minor version of the schema.
    #[must_use]
    pub fn schema_minor_version(&self) -> (r: u64)
        ensures
            r == self@.schema_minor_version,
    {
        self.schema_minor_version
    }

    /// Major version of the description.
    #[must_use]
    pub fn major_version(&self) -> (r: u64)
        ensures
            r == self@.major_version,
    {
        self.major_version
    }

    /// Minor version of the description.
    #[must_use]
    pub fn minor_version(&self) -> (r: u64)
        ensures
            r == self@.minor_version,
    {
        self.minor_version
    }

    /// Sub-minor version of the description.
    #[must_use]
    pub fn subminor_version(&self) -> (r: u64)
        ensures
            r == self@.subminor_version,
    {
        self.subminor_version
    }

    /// Identifier of the product.
    #[must_use]
    pub fn product_guid(&self) -> (r: &str)
        ensures
            r@ == self@.product_guid,
    {
        self.product_guid.as_str()
    }

    /// Identifier of the version of the description.
    #[must_use]
    pub fn version_guid(&self) -> (r: &str)
        ensures
            r@ == self@.version_guid,
    {
        self.version_guid.as_str()
    }
}


impl RegisterDescription {
    /// The root element that stands for the description, without children.
    /// It reads back as the description.
    pub fn to_element(&self) -> (e: Element)
        ensures
            e.children@.len() == 0,
            Self::spec_error(e.tag@, e.attributes@) is None,
            Self::spec_value(e.attributes@) == self@,
    {
        let mut e = Element::new(REGISTER_DESCRIPTION);
        e.push_attribute(MODEL_NAME, self.model_name.as_str());
        e.push_attribute(VENDOR_NAME, self.vendor_name.as_str());
        e.push_attribute(STANDARD_NAME_SPACE, self.standard_name_space.to_text());
        e.push_attribute(
            SCHEMA_MAJOR_VERSION,
            uint_to_text(self.schema_major_version).as_str(),
        );
        e.push_attribute(
            SCHEMA_MINOR_VERSION,
            uint_to_text(self.schema_minor_version).as_str(),
        );
        e.push_attribute(
            SCHEMA_SUB_MINOR_VERSION,
            uint_to_text(self.schema_subminor_version).as_str(),
        );
        e.push_attribute(MAJOR_VERSION, uint_to_text(self.major_version).as_str());
        e.push_attribute(MINOR_VERSION, uint_to_text(self.minor_version).as_str());
        e.push_attribute(SUB_MINOR_VERSION, uint_to_text(self.subminor_version).as_str());
        e.push_attribute(PRODUCT_GUID, self.product_guid.as_str());
        e.push_attribute(VERSION_GUID, self.version_guid.as_str());
        let ghost fixed = e.attributes@;
        match &self.tool_tip {
            Some(t) => {
                e.push_attribute(TOOL_TIP, t.as_str());
            },
            None => {},
        }
        proof {
            let attrs = e.attributes@;
            lemma_name_marks();
            self.standard_name_space.lemma_text_reads_back();
            assert(fixed.len() == 11);
            assert forall|k: int| 0 <= k < 11 implies attrs[k] == fixed[k] by {
                if attrs.len() > 11 {
                    assert(attrs.drop_last()[k] == fixed[k]);
                }
            }
            assert(attrs[0].name@ == MODEL_NAME@);
            assert(attrs[1].name@ == VENDOR_NAME@);
            assert(attrs[2].name@ == STANDARD_NAME_SPACE@);
            assert(attrs[3].name@ == SCHEMA_MAJOR_VERSION@);
            assert(attrs[4].name@ == SCHEMA_MINOR_VERSION@);
            assert(attrs[5].name@ == SCHEMA_SUB_MINOR_VERSION@);
            assert(attrs[6].name@ == MAJOR_VERSION@);
            assert(attrs[7].name@ == MINOR_VERSION@);
            assert(attrs[8].name@ == SUB_MINOR_VERSION@);
            assert(attrs[9].name@ == PRODUCT_GUID@);
            assert(attrs[10].name@ == VERSION_GUID@);
            lemma_attribute_found(attrs, 0);
            lemma_attribute_found(attrs, 1);
            lemma_attribute_found(attrs, 2);
            lemma_attribute_found(attrs, 3);
            lemma_attribute_found(attrs, 4);
            lemma_attribute_found(attrs, 5);
            lemma_attribute_found(attrs, 6);
            lemma_attribute_found(attrs, 7);
            lemma_attribute_found(attrs, 8);
            lemma_attribute_found(attrs, 9);
            lemma_attribute_found(attrs, 10);
            if self.tool_tip is Some {
                assert(attrs[11].name@ == TOOL_TIP@);
                lemma_attribute_found(attrs, 11);
            } else {
                lemma_attribute_absent(attrs, TOOL_TIP@);
            }
        }
        e
    }
}

} // verus!
