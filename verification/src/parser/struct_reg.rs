//! `StructReg`: a register described once and split into masked integer
//! registers, one for each of its entries.

use vstd::prelude::*;

use crate::elem_type::{
    bool_from_text, spec_bool_from_text, AccessMode, BitMask, CachingMode, Endianness,
    IntegerRepresentation, Sign,
};
use crate::masked_int_reg::{MaskedIntRegNode, MaskedIntRegView};
use crate::node_base::{
    elem_value, opt_view, NodeAttributeBase, NodeElementBase, NodeElementBaseView,
};
use crate::parser::elem_name::{
    ACCESS_MODE, BIT, CACHEABLE, COMMENT, ENDIANNESS, LSB, MSB, POLLING_TIME, P_INVALIDATOR,
    P_SELECTED, REPRESENTATION, SIGN, STREAMABLE, STRUCT_ENTRY, STRUCT_REG, UNIT,
};
use crate::parser::utils::{convert_to_uint, spec_uint_of_text};
use crate::parser::xml::{
    after_opt, after_run, has_tag, opt_text, run_texts, spec_attribute, Attribute, Element, Node,
};
use crate::parser::{
    bad_attribute, bad_text, first_error, missing_element, parse_ids_while, parse_opt_string,
    spec_intern_all, unexpected_element, value_opt, value_or, ParseError, ParseErrorView, Parsed,
};
use crate::register_base::{RegisterBase, RegisterBaseView};
use crate::node_base::{merge_ids, merge_opt};
use crate::store::{CacheStoreBuilder, NodeId, NodeStoreBuilder, ValueStoreBuilder};
use crate::utils::str_eq;

verus! {

/// What the bit mask at the front of `rest` means: a `Bit`, or an `LSB`
/// followed by an `MSB`.
pub open spec fn spec_bit_mask(rest: Seq<Element>) -> Parsed<BitMask> {
    if has_tag(rest, BIT@) {
        let bit = spec_uint_of_text(rest[0].text@);
        Parsed {
            value: BitMask::SingleBit(value_or(Some(bit), 0)),
            error: bad_text(BIT@, Some(bit)),
            rest: rest.skip(1),
            names: Seq::empty(),
        }
    } else if has_tag(rest, LSB@) {
        let lsb = spec_uint_of_text(rest[0].text@);
        let r1 = rest.skip(1);
        let msb = elem_value(r1, MSB@, |t| spec_uint_of_text(t));
        Parsed {
            value: BitMask::Range { lsb: value_or(Some(lsb), 0), msb: value_or(msb, 0) },
            error: first_error(
                bad_text(LSB@, Some(lsb)),
                if msb is None {
                    Some(ParseErrorView::MissingElement(MSB@))
                } else {
                    bad_text(MSB@, msb)
                },
            ),
            rest: after_opt(r1, MSB@),
            names: Seq::empty(),
        }
    } else {
        Parsed {
            value: BitMask::SingleBit(0),
            error: if rest.len() == 0 {
                Some(ParseErrorView::MissingElement(BIT@))
            } else {
                Some(ParseErrorView::UnexpectedElement(rest[0].tag@))
            },
            rest,
            names: Seq::empty(),
        }
    }
}

/// Reads the bit mask at the cursor.
pub fn parse_bit_mask(node: &mut Node) -> (r: Result<BitMask, ParseError>)
    ensures
        final(node).element() == old(node).element(),
        match r {
            Ok(v) => {
                let p = spec_bit_mask(old(node).rest());
                p.error is None && v == p.value && final(node).rest() == p.rest
            },
            Err(e) => spec_bit_mask(old(node).rest()).error == Some(e@),
        },
{
    if let Some(t) = node.next_text_if(BIT) {
        match convert_to_uint(t) {
            Some(bit) => Ok(BitMask::SingleBit(bit)),
            None => Err(bad_attribute(BIT)),
        }
    } else if let Some(t) = node.next_text_if(LSB) {
        let lsb = match convert_to_uint(t) {
            Some(v) => v,
            None => {
                return Err(bad_attribute(LSB));
            },
        };
        match node.next_text_if(MSB) {
            Some(t) => match convert_to_uint(t) {
                Some(msb) => Ok(BitMask::Range { lsb, msb }),
                None => Err(bad_attribute(MSB)),
            },
            None => Err(missing_element(MSB)),
        }
    } else {
        match node.peek() {
            Some(e) => Err(unexpected_element(e.tag.as_str())),
            None => Err(missing_element(BIT)),
        }
    }
}

/// One entry of a struct register, as it is written down.
#[derive(Debug)]
pub struct StructEntryNode {
    pub attr_base: NodeAttributeBase,
    pub elem_base: NodeElementBase,
    pub p_invalidators: Vec<NodeId>,
    pub access_mode: AccessMode,
    pub cacheable: CachingMode,
    pub polling_time: Option<u64>,
    pub streamable: bool,
    pub bit_mask: BitMask,
    pub sign: Sign,
    pub unit: Option<String>,
    pub representation: IntegerRepresentation,
    pub p_selected: Vec<NodeId>,
}

/// A `StructEntryNode` as plain values.
pub struct StructEntryView {
    pub attr_base: NodeAttributeBase,
    pub elem_base: NodeElementBaseView,
    pub p_invalidators: Seq<NodeId>,
    pub access_mode: AccessMode,
    pub cacheable: CachingMode,
    pub polling_time: Option<u64>,
    pub streamable: bool,
    pub bit_mask: BitMask,
    pub sign: Sign,
    pub unit: Option<Seq<char>>,
    pub representation: IntegerRepresentation,
    pub p_selected: Seq<NodeId>,
}

impl View for StructEntryNode {
    type V = StructEntryView;

    open spec fn view(&self) -> StructEntryView {
        StructEntryView {
            attr_base: self.attr_base,
            elem_base: self.elem_base@,
            p_invalidators: self.p_invalidators@,
            access_mode: self.access_mode,
            cacheable: self.cacheable,
            polling_time: self.polling_time,
            streamable: self.streamable,
            bit_mask: self.bit_mask,
            sign: self.sign,
            unit: opt_view(self.unit),
            representation: self.representation,
            p_selected: self.p_selected@,
        }
    }
}

impl StructEntryNode {
    /// What a `StructEntry` element with the tag `tag`, the attributes
    /// `attrs` and the children `rest` means.
    ///
    /// The attributes are those of every node. The children are, in document
    /// order: the descriptive elements of every node; any number of
    /// `pInvalidator`; `AccessMode`, `RO` by default; `Cachable`,
    /// `WriteThrough` by default; `PollingTime`; `Streamable`; the bit mask,
    /// which is required; `Sign`, `Unsigned` by default; `Unit`;
    /// `Representation`, `PureNumber` by default; any number of `pSelected`.
    pub open spec fn spec_parse(
        tag: Seq<char>,
        attrs: Seq<Attribute>,
        rest: Seq<Element>,
        names: Seq<Seq<char>>,
    ) -> Parsed<StructEntryView> {
        let n0 = if spec_attribute(attrs, crate::parser::elem_name::NAME@) is Some {
            crate::store::names_with(
                names,
                spec_attribute(attrs, crate::parser::elem_name::NAME@).unwrap(),
            )
        } else {
            names
        };
        let base = NodeElementBase::spec_parse(rest, n0);
        let r1 = after_run(base.rest, P_INVALIDATOR@);
        let r2 = after_opt(r1, ACCESS_MODE@);
        let r3 = after_opt(r2, CACHEABLE@);
        let r4 = after_opt(r3, POLLING_TIME@);
        let r5 = after_opt(r4, STREAMABLE@);
        let mask = spec_bit_mask(r5);
        let r7 = after_opt(mask.rest, SIGN@);
        let r8 = after_opt(r7, UNIT@);
        let r9 = after_opt(r8, REPRESENTATION@);
        let r10 = after_run(r9, P_SELECTED@);
        let invalidators = spec_intern_all(base.names, run_texts(base.rest, P_INVALIDATOR@));
        let access_mode = elem_value(r1, ACCESS_MODE@, |t| AccessMode::spec_from_text(t));
        let cacheable = elem_value(r2, CACHEABLE@, |t| CachingMode::spec_from_text(t));
        let polling_time = elem_value(r3, POLLING_TIME@, |t| spec_uint_of_text(t));
        let streamable = elem_value(r4, STREAMABLE@, |t| spec_bool_from_text(t));
        let sign = elem_value(mask.rest, SIGN@, |t| Sign::spec_from_text(t));
        let representation = elem_value(
            r8,
            REPRESENTATION@,
            |t| IntegerRepresentation::spec_from_text(t),
        );
        let selected = spec_intern_all(invalidators.0, run_texts(r9, P_SELECTED@));
        Parsed {
            value: StructEntryView {
                attr_base: NodeAttributeBase::spec_value(attrs, names),
                elem_base: base.value,
                p_invalidators: invalidators.1,
                access_mode: value_or(access_mode, AccessMode::RO),
                cacheable: value_or(cacheable, CachingMode::WriteThrough),
                polling_time: value_opt(polling_time),
                streamable: value_or(streamable, false),
                bit_mask: mask.value,
                sign: value_or(sign, Sign::Unsigned),
                unit: opt_text(r7, UNIT@),
                representation: value_or(representation, IntegerRepresentation::PureNumber),
                p_selected: selected.1,
            },
            error: if tag != STRUCT_ENTRY@ {
                Some(ParseErrorView::UnexpectedElement(tag))
            } else {
                first_error(
                    NodeAttributeBase::spec_error(attrs),
                    first_error(
                        base.error,
                        first_error(
                            bad_text(ACCESS_MODE@, access_mode),
                            first_error(
                                bad_text(CACHEABLE@, cacheable),
                                first_error(
                                    bad_text(POLLING_TIME@, polling_time),
                                    first_error(
                                        bad_text(STREAMABLE@, streamable),
                                        first_error(
                                            mask.error,
                                            first_error(
                                                bad_text(SIGN@, sign),
                                                bad_text(REPRESENTATION@, representation),
                                            ),
                                        ),
                                    ),
                                ),
                            ),
                        ),
                    ),
                )
            },
            rest: r10,
            names: selected.0,
        }
    }
}


impl StructEntryNode {
    /// Reads a `StructEntry` element; `node` is the cursor over its children.
    #[allow(unused_variables)]
    pub fn parse<NB: NodeStoreBuilder, VB: ValueStoreBuilder, CB: CacheStoreBuilder>(
        node: &mut Node,
        node_builder: &mut NB,
        value_builder: &mut VB,
        cache_builder: &mut CB,
    ) -> (r: Result<StructEntryNode, ParseError>)
        ensures
            final(node_builder).stored() == old(node_builder).stored(),
            final(node).element() == old(node).element(),
            final(value_builder).values() == old(value_builder).values(),
            final(cache_builder).invalidators() == old(cache_builder).invalidators(),
            match r {
                Ok(v) => {
                    let p = Self::spec_parse(
                        old(node).element().tag@,
                        old(node).element().attributes@,
                        old(node).rest(),
                        old(node_builder).names(),
                    );
                    &&& p.error is None
                    &&& v@ == p.value
                    &&& final(node).rest() == p.rest
                    &&& final(node_builder).names() == p.names
                },
                Err(e) => Self::spec_parse(
                    old(node).element().tag@,
                    old(node).element().attributes@,
                    old(node).rest(),
                    old(node_builder).names(),
                ).error == Some(e@),
            },
    {
        if !str_eq(node.tag_name(), STRUCT_ENTRY) {
            return Err(unexpected_element(node.tag_name()));
        }
        let attr_base = NodeAttributeBase::parse(node, node_builder)?;
        let elem_base = NodeElementBase::parse(node, node_builder)?;
        let p_invalidators = parse_ids_while(node, P_INVALIDATOR, node_builder);
        let access_mode = match node.next_text_if(ACCESS_MODE) {
            None => AccessMode::RO,
            Some(t) => match AccessMode::from_text(t) {
                Some(v) => v,
                None => {
                    return Err(bad_attribute(ACCESS_MODE));
                },
            },
        };
        let cacheable = match node.next_text_if(CACHEABLE) {
            None => CachingMode::WriteThrough,
            Some(t) => match CachingMode::from_text(t) {
                Some(v) => v,
                None => {
                    return Err(bad_attribute(CACHEABLE));
                },
            },
        };
        let polling_time = match node.next_text_if(POLLING_TIME) {
            None => None,
            Some(t) => match convert_to_uint(t) {
                Some(v) => Some(v),
                None => {
                    return Err(bad_attribute(POLLING_TIME));
                },
            },
        };
        let streamable = match node.next_text_if(STREAMABLE) {
            None => false,
            Some(t) => match bool_from_text(t) {
                Some(v) => v,
                None => {
                    return Err(bad_attribute(STREAMABLE));
                },
            },
        };
        let bit_mask = parse_bit_mask(node)?;
        let sign = match node.next_text_if(SIGN) {
            None => Sign::Unsigned,
            Some(t) => match Sign::from_text(t) {
                Some(v) => v,
                None => {
                    return Err(bad_attribute(SIGN));
                },
            },
        };
        let unit = parse_opt_string(node, UNIT);
        let representation = match node.next_text_if(REPRESENTATION) {
            None => IntegerRepresentation::PureNumber,
            Some(t) => match IntegerRepresentation::from_text(t) {
                Some(v) => v,
                None => {
                    return Err(bad_attribute(REPRESENTATION));
                },
            },
        };
        let p_selected = parse_ids_while(node, P_SELECTED, node_builder);
        Ok(
            StructEntryNode {
                attr_base,
                elem_base,
                p_invalidators,
                access_mode,
                cacheable,
                polling_time,
                streamable,
                bit_mask,
                sign,
                unit,
                representation,
                p_selected,
            },
        )
    }

    /// Turns the entry into the masked integer register that it stands for,
    /// within a struct register with the elements `register_base` and the
    /// byte order `endianness`, and records the invalidators of the new
    /// register with `cache_builder`.
    pub fn into_masked_int_reg<CB: CacheStoreBuilder>(
        self,
        register_base: RegisterBase,
        endianness: Endianness,
        cache_builder: &mut CB,
    ) -> (r: MaskedIntRegNode)
        ensures
            r@ == self@.to_masked_int_reg(register_base@, endianness),
            final(cache_builder).invalidators() == old(cache_builder).invalidators().union(
                r@.register_base.invalidator_pairs(r@.attr_base.id),
            ),
    {
        let mut register_base = register_base;
        let StructEntryNode {
            attr_base,
            elem_base,
            p_invalidators,
            access_mode,
            cacheable,
            polling_time,
            streamable,
            bit_mask,
            sign,
            unit,
            representation,
            p_selected,
        } = self;
        register_base.elem_base.merge(elem_base);
        register_base.streamable = streamable || register_base.streamable;
        // `RO` is the default of the access mode.
        register_base.access_mode = if access_mode != AccessMode::RO {
            access_mode
        } else {
            register_base.access_mode
        };
        register_base.cacheable = if cacheable != CachingMode::WriteThrough {
            cacheable
        } else {
            register_base.cacheable
        };
        merge_opt(&mut register_base.polling_time, polling_time);
        merge_ids(&mut register_base.p_invalidators, p_invalidators);
        register_base.store_invalidators(attr_base.id, cache_builder);
        MaskedIntRegNode {
            attr_base,
            register_base,
            bit_mask,
            sign,
            endianness,
            unit,
            representation,
            p_selected,
        }
    }
}

impl StructEntryView {
    /// The masked integer register that the entry stands for, within a
    /// struct register with the elements `register_base` and the byte order
    /// `endianness`.
    ///
    /// The register has the address, the length and the port of the struct
    /// register. Of the other elements, one that the entry sets wins; one
    /// that it leaves out, or leaves at its default, is inherited. The
    /// defaults are "not streamable", `RO` for the access mode,
    /// `WriteThrough` for the caching mode, and the empty list of
    /// invalidators.
    pub open spec fn to_masked_int_reg(
        self,
        register_base: RegisterBaseView,
        endianness: Endianness,
    ) -> MaskedIntRegView {
        MaskedIntRegView {
            attr_base: self.attr_base,
            register_base: RegisterBaseView {
                elem_base: register_base.elem_base.merge(self.elem_base),
                streamable: self.streamable || register_base.streamable,
                address_kinds: register_base.address_kinds,
                length: register_base.length,
                access_mode: if self.access_mode != AccessMode::RO {
                    self.access_mode
                } else {
                    register_base.access_mode
                },
                p_port: register_base.p_port,
                cacheable: if self.cacheable != CachingMode::WriteThrough {
                    self.cacheable
                } else {
                    register_base.cacheable
                },
                polling_time: if self.polling_time is Some {
                    self.polling_time
                } else {
                    register_base.polling_time
                },
                p_invalidators: if self.p_invalidators.len() > 0 {
                    self.p_invalidators
                } else {
                    register_base.p_invalidators
                },
            },
            bit_mask: self.bit_mask,
            sign: self.sign,
            endianness,
            unit: self.unit,
            representation: self.representation,
            p_selected: self.p_selected,
        }
    }
}


/// A struct register, as it is written down.
#[derive(Debug)]
pub struct StructRegNode {
    pub comment: String,
    pub register_base: RegisterBase,
    pub endianness: Endianness,
    pub entries: Vec<StructEntryNode>,
}

/// A `StructRegNode` as plain values.
pub struct StructRegView {
    pub comment: Seq<char>,
    pub register_base: RegisterBaseView,
    pub endianness: Endianness,
    pub entries: Seq<StructEntryView>,
}

/// The entries `entries` as plain values.
pub open spec fn entry_views(entries: Seq<StructEntryNode>) -> Seq<StructEntryView> {
    Seq::new(entries.len(), |i: int| entries[i]@)
}

impl View for StructRegNode {
    type V = StructRegView;

    open spec fn view(&self) -> StructRegView {
        StructRegView {
            comment: self.comment@,
            register_base: self.register_base@,
            endianness: self.endianness,
            entries: entry_views(self.entries@),
        }
    }
}

/// What the children `rest` mean where each of them is a `StructEntry`.
pub open spec fn spec_entries(rest: Seq<Element>, names: Seq<Seq<char>>) -> Parsed<
    Seq<StructEntryView>,
>
    decreases rest.len(),
{
    if rest.len() == 0 {
        Parsed { value: Seq::empty(), error: None, rest, names }
    } else {
        let head = StructEntryNode::spec_parse(
            rest[0].tag@,
            rest[0].attributes@,
            rest[0].children@,
            names,
        );
        let tail = spec_entries(rest.skip(1), head.names);
        Parsed {
            value: seq![head.value] + tail.value,
            error: first_error(head.error, tail.error),
            rest: tail.rest,
            names: tail.names,
        }
    }
}

impl StructRegView {
    /// The masked integer registers that the struct register expands into,
    /// one for each entry, in the order of the entries.
    pub open spec fn masked_int_regs(self) -> Seq<MaskedIntRegView> {
        Seq::new(
            self.entries.len(),
            |i: int| self.entries[i].to_masked_int_reg(self.register_base, self.endianness),
        )
    }
}

/// The pairs of an invalidator and its target that the registers `regs`
/// bring with them.
pub open spec fn invalidator_pairs_of(regs: Seq<MaskedIntRegView>) -> Set<(NodeId, NodeId)> {
    Set::new(
        |p: (NodeId, NodeId)|
            exists|i: int|
                0 <= i < regs.len() && #[trigger] regs[i].register_base.invalidator_pairs(
                    regs[i].attr_base.id,
                ).contains(p),
    )
}

impl StructRegNode {
    /// What a `StructReg` element with the tag `tag`, the attributes `attrs`
    /// and the children `rest` means.
    ///
    /// The attribute `Comment` is required. The children are, in document
    /// order: the elements of a register; `Endianess`, `LittleEndian` by
    /// default; and the entries, each a `StructEntry`.
    pub open spec fn spec_parse(
        tag: Seq<char>,
        attrs: Seq<Attribute>,
        rest: Seq<Element>,
        names: Seq<Seq<char>>,
    ) -> Parsed<StructRegView> {
        let base = RegisterBase::spec_parse(rest, names);
        let endianness = elem_value(base.rest, ENDIANNESS@, |t| Endianness::spec_from_text(t));
        let entries = spec_entries(after_opt(base.rest, ENDIANNESS@), base.names);
        Parsed {
            value: StructRegView {
                comment: spec_attribute(attrs, COMMENT@).unwrap(),
                register_base: base.value,
                endianness: value_or(endianness, Endianness::LE),
                entries: entries.value,
            },
            error: if tag != STRUCT_REG@ {
                Some(ParseErrorView::UnexpectedElement(tag))
            } else if spec_attribute(attrs, COMMENT@) is None {
                Some(ParseErrorView::BadAttribute(COMMENT@))
            } else {
                first_error(
                    base.error,
                    first_error(bad_text(ENDIANNESS@, endianness), entries.error),
                )
            },
            rest: entries.rest,
            names: entries.names,
        }
    }

    /// Reads a `StructReg` element; `node` is the cursor over its children.
    #[verifier::loop_isolation(false)]
    pub fn parse<NB: NodeStoreBuilder, VB: ValueStoreBuilder, CB: CacheStoreBuilder>(
        node: &mut Node,
        node_builder: &mut NB,
        value_builder: &mut VB,
        cache_builder: &mut CB,
    ) -> (r: Result<StructRegNode, ParseError>)
        ensures
            final(node_builder).stored() == old(node_builder).stored(),
            final(node).element() == old(node).element(),
            final(value_builder).values() == old(value_builder).values(),
            final(cache_builder).invalidators() == old(cache_builder).invalidators(),
            match r {
                Ok(v) => {
                    let p = Self::spec_parse(
                        old(node).element().tag@,
                        old(node).element().attributes@,
                        old(node).rest(),
                        old(node_builder).names(),
                    );
                    &&& p.error is None
                    &&& v@ == p.value
                    &&& final(node).rest() == p.rest
                    &&& final(node_builder).names() == p.names
                },
                Err(e) => Self::spec_parse(
                    old(node).element().tag@,
                    old(node).element().attributes@,
                    old(node).rest(),
                    old(node_builder).names(),
                ).error == Some(e@),
            },
    {
        if !str_eq(node.tag_name(), STRUCT_REG) {
            return Err(unexpected_element(node.tag_name()));
        }
        let comment = match node.attribute_of(COMMENT) {
            Some(c) => c.to_owned(),
            None => {
                return Err(bad_attribute(COMMENT));
            },
        };
        let register_base = RegisterBase::parse(node, node_builder)?;
        let endianness = match node.next_text_if(ENDIANNESS) {
            None => Endianness::LE,
            Some(t) => match Endianness::from_text(t) {
                Some(v) => v,
                None => {
                    return Err(bad_attribute(ENDIANNESS));
                },
            },
        };
        let mut entries: Vec<StructEntryNode> = Vec::new();
        let ghost whole = spec_entries(node.rest(), node_builder.names());
        assert(entry_views(entries@) + whole.value =~= whole.value);
        loop
            invariant
                node_builder.stored() == old(node_builder).stored(),
                node.element() == old(node).element(),
                value_builder.values() == old(value_builder).values(),
                cache_builder.invalidators() == old(cache_builder).invalidators(),
                ({
                    let tail = spec_entries(node.rest(), node_builder.names());
                    &&& whole.value == entry_views(entries@) + tail.value
                    &&& whole.error == tail.error
                    &&& whole.rest == tail.rest
                    &&& whole.names == tail.names
                }),
            decreases node.rest().len(),
        {
            let ghost before = entry_views(entries@);
            let ghost tail = spec_entries(node.rest(), node_builder.names());
            match node.next() {
                Some(mut entry_node) => {
                    let entry = StructEntryNode::parse(
                        &mut entry_node,
                        node_builder,
                        value_builder,
                        cache_builder,
                    )?;
                    let ghost view = entry@;
                    entries.push(entry);
                    proof {
                        let next = spec_entries(node.rest(), node_builder.names());
                        assert(tail.value == seq![view] + next.value);
                        assert(entry_views(entries@) =~= before.push(view));
                        assert(before + tail.value =~= before.push(view) + next.value);
                    }
                },
                None => {
                    assert(entry_views(entries@) + tail.value =~= entry_views(entries@));
                    return Ok(StructRegNode { comment, register_base, endianness, entries });
                },
            }
        }
    }

    /// Expands the struct register into its masked integer registers and
    /// records their invalidators with `cache_builder`.
    #[must_use]
    #[verifier::loop_isolation(false)]
    pub fn into_masked_int_regs<CB: CacheStoreBuilder>(self, cache_builder: &mut CB) -> (r: Vec<
        MaskedIntRegNode,
    >)
        ensures
            r@.len() == self@.entries.len(),
            forall|i: int| 0 <= i < r@.len() ==> (#[trigger] r@[i])@ == self@.masked_int_regs()[i],
            final(cache_builder).invalidators() == old(cache_builder).invalidators().union(
                invalidator_pairs_of(self@.masked_int_regs()),
            ),
    {
        let StructRegNode { comment: _, register_base, endianness, entries } = self;
        let ghost expected = self@.masked_int_regs();
        let mut entries = entries;
        let mut reversed: Vec<MaskedIntRegNode> = Vec::new();
        let n = entries.len();
        assert(invalidator_pairs_of(expected.skip(n as int)) =~= Set::<(NodeId, NodeId)>::empty());
        while entries.len() > 0
            invariant
                entries@.len() <= n,
                n == expected.len(),
                register_base@ == self@.register_base,
                endianness == self@.endianness,
                entry_views(entries@) == self@.entries.take(entries@.len() as int),
                reversed@.len() == n - entries@.len(),
                forall|j: int|
                    0 <= j < reversed@.len() ==> (#[trigger] reversed@[j])@ == expected[n - 1 - j],
                cache_builder.invalidators() == old(cache_builder).invalidators().union(
                    invalidator_pairs_of(expected.skip(entries@.len() as int)),
                ),
            decreases entries@.len(),
        {
            let ghost k = entries@.len() - 1;
            let ghost before = entries@;
            let entry = entries.pop().unwrap();
            proof {
                assert(before[k] == entry);
                assert(entry@ == entry_views(before)[k]);
                assert(entry@ == self@.entries[k]);
                assert forall|i: int| 0 <= i < k implies entry_views(entries@)[i]
                    == self@.entries.take(k)[i] by {
                    assert(entries@[i] == before[i]);
                    assert(entry_views(before)[i] == before[i]@);
                }
                assert(entry_views(entries@) =~= self@.entries.take(k));
            }
            let reg = entry.into_masked_int_reg(register_base.clone(), endianness, cache_builder);
            proof {
                assert(reg@ == expected[k]);
                let done = invalidator_pairs_of(expected.skip(k + 1));
                let grown = invalidator_pairs_of(expected.skip(k));
                let own = reg@.register_base.invalidator_pairs(reg@.attr_base.id);
                assert forall|p: (NodeId, NodeId)| grown.contains(p) <==> done.union(own).contains(
                    p,
                ) by {
                    if grown.contains(p) {
                        let i = choose|i: int|
                            0 <= i < expected.skip(k).len() && #[trigger] expected.skip(
                                k,
                            )[i].register_base.invalidator_pairs(
                                expected.skip(k)[i].attr_base.id,
                            ).contains(p);
                        if i > 0 {
                            assert(expected.skip(k + 1)[i - 1] == expected.skip(k)[i]);
                        }
                    }
                    if done.contains(p) {
                        let i = choose|i: int|
                            0 <= i < expected.skip(k + 1).len() && #[trigger] expected.skip(
                                k + 1,
                            )[i].register_base.invalidator_pairs(
                                expected.skip(k + 1)[i].attr_base.id,
                            ).contains(p);
                        assert(expected.skip(k)[i + 1] == expected.skip(k + 1)[i]);
                    }
                    if own.contains(p) {
                        assert(expected.skip(k)[0] == reg@);
                    }
                }
                assert(grown =~= done.union(own));
                assert(old(cache_builder).invalidators().union(done).union(own) =~= old(
                    cache_builder,
                ).invalidators().union(grown));
            }
            reversed.push(reg);
        }
        assert(expected.skip(0) =~= expected);
        let mut regs: Vec<MaskedIntRegNode> = Vec::new();
        while reversed.len() > 0
            invariant
                reversed@.len() + regs@.len() == n,
                n == expected.len(),
                forall|j: int|
                    0 <= j < reversed@.len() ==> (#[trigger] reversed@[j])@ == expected[n - 1 - j],
                forall|j: int| 0 <= j < regs@.len() ==> (#[trigger] regs@[j])@ == expected[j],
            decreases reversed@.len(),
        {
            let reg = reversed.pop().unwrap();
            regs.push(reg);
        }
        regs
    }
}

} // verus!
