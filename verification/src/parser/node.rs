//! The parsers of the nodes that yield an integer: `IntReg`,
//! `MaskedIntReg`, `IntSwissKnife` and `IntConverter`.

use vstd::prelude::*;

use crate::elem_type::{Endianness, IntegerRepresentation, Sign};
use crate::formula::parser::{parse, spec_parse};
use crate::formula::{Expr, ExprView};
use crate::int_reg::{IntRegNode, IntRegView};
use crate::masked_int_reg::{MaskedIntRegNode, MaskedIntRegView};
use crate::node::{
    constant_views, variable_views, IntConverterNode, IntConverterView, IntSwissKnifeNode,
    IntSwissKnifeView, NamedConstant, Variable,
};
use crate::node_base::{elem_value, NodeAttributeBase, NodeElementBase};
use crate::parser::elem_name::{
    CONSTANT, ENDIANNESS, FORMULA, FORMULA_FROM, FORMULA_TO, INT_CONVERTER, INT_REG,
    INT_SWISS_KNIFE, MASKED_INT_REG, NAME, P_SELECTED, P_VALUE, P_VARIABLE, REPRESENTATION, SIGN,
    UNIT,
};
use crate::parser::struct_reg::{parse_bit_mask, spec_bit_mask};
use crate::elem_type::BitMask;
use crate::node_base::{attr_base_attrs, lemma_attr_base_reads_back};
use crate::parser::shape::{
    all_after, all_named, attr_views, lemma_all_after, lemma_all_after_any, lemma_intern_all_named,
    lemma_read_opt, lemma_read_run, lemma_shapes_skip, lemma_tag_orders, named, names_of, opt_shape,
    run_shape, shape_of, shapes, tag_order, text_shape, Shape,
};
use crate::parser::utils::{
    convert_to_int, lemma_number_texts_read_back, spec_int_of_text, spec_uint_text,
};
use crate::parser::elem_name::{BIT, LSB, MSB};
use crate::register_base::lemma_register_base_reads_back;
use crate::parser::xml::{
    after_opt, after_run, has_tag, opt_text, run_texts, spec_attribute, Attribute, Element, Node,
};
use crate::parser::{
    bad_attribute, bad_text, first_error, missing_element, parse_ids_while, parse_opt_string,
    spec_intern_all, unexpected_element, value_or, ParseError, ParseErrorView, Parsed,
};
use crate::register_base::RegisterBase;
use crate::store::{id_in, names_with, NodeStoreBuilder};
use crate::utils::str_eq;

verus! {

/// The names after the attribute `Name` of `attrs` has been interned.
pub open spec fn names_with_name(attrs: Seq<Attribute>, names: Seq<Seq<char>>) -> Seq<Seq<char>> {
    if spec_attribute(attrs, NAME@) is Some {
        names_with(names, spec_attribute(attrs, NAME@).unwrap())
    } else {
        names
    }
}

/// What the sign, the byte order, the unit, the representation and the
/// selected nodes at the front of `rest` mean, each of which may be left
/// out.
pub struct IntegerTail {
    pub sign: Sign,
    pub endianness: Endianness,
    pub unit: Option<Seq<char>>,
    pub representation: IntegerRepresentation,
    pub p_selected: Seq<crate::store::NodeId>,
}

/// What the elements `Sign`, `Endianess`, `Unit`, `Representation` and
/// `pSelected` at the front of `rest` mean, in this order.
pub open spec fn spec_integer_tail(rest: Seq<Element>, names: Seq<Seq<char>>) -> Parsed<
    IntegerTail,
> {
    let sign = elem_value(rest, SIGN@, |t| Sign::spec_from_text(t));
    let r1 = after_opt(rest, SIGN@);
    let endianness = elem_value(r1, ENDIANNESS@, |t| Endianness::spec_from_text(t));
    let r2 = after_opt(r1, ENDIANNESS@);
    let r3 = after_opt(r2, UNIT@);
    let representation = elem_value(
        r3,
        REPRESENTATION@,
        |t| IntegerRepresentation::spec_from_text(t),
    );
    let r4 = after_opt(r3, REPRESENTATION@);
    let selected = spec_intern_all(names, run_texts(r4, P_SELECTED@));
    Parsed {
        value: IntegerTail {
            sign: value_or(sign, Sign::Unsigned),
            endianness: value_or(endianness, Endianness::LE),
            unit: opt_text(r2, UNIT@),
            representation: value_or(representation, IntegerRepresentation::PureNumber),
            p_selected: selected.1,
        },
        error: first_error(
            bad_text(SIGN@, sign),
            first_error(bad_text(ENDIANNESS@, endianness), bad_text(REPRESENTATION@, representation)),
        ),
        rest: after_run(r4, P_SELECTED@),
        names: selected.0,
    }
}

/// The exec counterpart of `IntegerTail`.
struct Tail {
    sign: Sign,
    endianness: Endianness,
    unit: Option<String>,
    representation: IntegerRepresentation,
    p_selected: Vec<crate::store::NodeId>,
}

/// Reads the elements `Sign`, `Endianess`, `Unit`, `Representation` and
/// `pSelected` at the cursor.
fn parse_integer_tail<NB: NodeStoreBuilder>(node: &mut Node, node_builder: &mut NB) -> (r: Result<
    Tail,
    ParseError,
>)
    ensures
        final(node_builder).stored() == old(node_builder).stored(),
        final(node).element() == old(node).element(),
        match r {
            Ok(v) => {
                let p = spec_integer_tail(old(node).rest(), old(node_builder).names());
                &&& p.error is None
                &&& v.sign == p.value.sign
                &&& v.endianness == p.value.endianness
                &&& crate::node_base::opt_view(v.unit) == p.value.unit
                &&& v.representation == p.value.representation
                &&& v.p_selected@ == p.value.p_selected
                &&& final(node).rest() == p.rest
                &&& final(node_builder).names() == p.names
            },
            Err(e) => spec_integer_tail(old(node).rest(), old(node_builder).names()).error
                == Some(e@),
        },
{
    let sign = match node.next_text_if(SIGN) {
        None => Sign::Unsigned,
        Some(t) => match Sign::from_text(t) {
            Some(v) => v,
            None => {
                return Err(bad_attribute(SIGN));
            },
        },
    };
    let endianness = match node.next_text_if(ENDIANNESS) {
        None => Endianness::LE,
        Some(t) => match Endianness::from_text(t) {
            Some(v) => v,
            None => {
                return Err(bad_attribute(ENDIANNESS));
            },
        },
    };
    let unit = parse_opt_string(node, UNIT);
    let representation = match node.next_text_if(REPRESENTATION) {
        None => IntegerRepresentation::PureNumber,
        Some(t) => match IntegerRepresentation::from_text(t) {
            Some(v) => v,
            None => {
                return Err(bad_attribute(REPRESENTATION));
            },
        },
    };
    let p_selected = parse_ids_while(node, P_SELECTED, node_builder);
    Ok(Tail { sign, endianness, unit, representation, p_selected })
}

impl IntRegNode {
    /// What an `IntReg` element with the tag `tag`, the attributes `attrs`
    /// and the children `rest` means.
    ///
    /// The attributes are those of every node. The children are, in
    /// document order: the elements of a register; `Sign`, `Unsigned` by
    /// default; `Endianess`, `LittleEndian` by default; `Unit`;
    /// `Representation`, `PureNumber` by default; any number of `pSelected`.
    pub open spec fn spec_parse(
        tag: Seq<char>,
        attrs: Seq<Attribute>,
        rest: Seq<Element>,
        names: Seq<Seq<char>>,
    ) -> Parsed<IntRegView> {
        let base = RegisterBase::spec_parse(rest, names_with_name(attrs, names));
        let tail = spec_integer_tail(base.rest, base.names);
        Parsed {
            value: IntRegView {
                attr_base: NodeAttributeBase::spec_value(attrs, names),
                register_base: base.value,
                sign: tail.value.sign,
                endianness: tail.value.endianness,
                unit: tail.value.unit,
                representation: tail.value.representation,
                p_selected: tail.value.p_selected,
            },
            error: if tag != INT_REG@ {
                Some(ParseErrorView::UnexpectedElement(tag))
            } else {
                first_error(
                    NodeAttributeBase::spec_error(attrs),
                    first_error(base.error, tail.error),
                )
            },
            rest: tail.rest,
            names: tail.names,
        }
    }

    /// Reads an `IntReg` element; `node` is the cursor over its children.
    pub fn parse<NB: NodeStoreBuilder>(node: &mut Node, node_builder: &mut NB) -> (r: Result<
        IntRegNode,
        ParseError,
    >)
        ensures
            final(node_builder).stored() == old(node_builder).stored(),
            final(node).element() == old(node).element(),
            match r {
                Ok(v) => {
                    let p = Self::spec_parse(
                        old(node).element().tag@,
                        old(node).element().attributes@,
                        old(node).rest(),
                        old(node_builder).names(),
                    );
                    &&& p.error is None
                    &&& v@ == p.value
                    &&& final(node).rest() == p.rest
                    &&& final(node_builder).names() == p.names
                },
                Err(e) => Self::spec_parse(
                    old(node).element().tag@,
                    old(node).element().attributes@,
                    old(node).rest(),
                    old(node_builder).names(),
                ).error == Some(e@),
            },
    {
        if !str_eq(node.tag_name(), INT_REG) {
            return Err(unexpected_element(node.tag_name()));
        }
        let attr_base = NodeAttributeBase::parse(node, node_builder)?;
        let register_base = RegisterBase::parse(node, node_builder)?;
        let tail = parse_integer_tail(node, node_builder)?;
        Ok(
            IntRegNode {
                attr_base,
                register_base,
                sign: tail.sign,
                endianness: tail.endianness,
                unit: tail.unit,
                representation: tail.representation,
                p_selected: tail.p_selected,
            },
        )
    }
}

impl MaskedIntRegNode {
    /// What a `MaskedIntReg` element with the tag `tag`, the attributes
    /// `attrs` and the children `rest` means.
    ///
    /// The attributes are those of every node. The children are, in
    /// document order: the elements of a register; the bit mask, which is
    /// required; `Sign`, `Unsigned` by default; `Endianess`, `LittleEndian`
    /// by default; `Unit`; `Representation`, `PureNumber` by default; any
    /// number of `pSelected`.
    pub open spec fn spec_parse(
        tag: Seq<char>,
        attrs: Seq<Attribute>,
        rest: Seq<Element>,
        names: Seq<Seq<char>>,
    ) -> Parsed<MaskedIntRegView> {
        let base = RegisterBase::spec_parse(rest, names_with_name(attrs, names));
        let mask = spec_bit_mask(base.rest);
        let tail = spec_integer_tail(mask.rest, base.names);
        Parsed {
            value: MaskedIntRegView {
                attr_base: NodeAttributeBase::spec_value(attrs, names),
                register_base: base.value,
                bit_mask: mask.value,
                sign: tail.value.sign,
                endianness: tail.value.endianness,
                unit: tail.value.unit,
                representation: tail.value.representation,
                p_selected: tail.value.p_selected,
            },
            error: if tag != MASKED_INT_REG@ {
                Some(ParseErrorView::UnexpectedElement(tag))
            } else {
                first_error(
                    NodeAttributeBase::spec_error(attrs),
                    first_error(base.error, first_error(mask.error, tail.error)),
                )
            },
            rest: tail.rest,
            names: tail.names,
        }
    }

    /// Reads a `MaskedIntReg` element; `node` is the cursor over its
    /// children.
    pub fn parse<NB: NodeStoreBuilder>(node: &mut Node, node_builder: &mut NB) -> (r: Result<
        MaskedIntRegNode,
        ParseError,
    >)
        ensures
            final(node_builder).stored() == old(node_builder).stored(),
            final(node).element() == old(node).element(),
            match r {
                Ok(v) => {
                    let p = Self::spec_parse(
                        old(node).element().tag@,
                        old(node).element().attributes@,
                        old(node).rest(),
                        old(node_builder).names(),
                    );
                    &&& p.error is None
                    &&& v@ == p.value
                    &&& final(node).rest() == p.rest
                    &&& final(node_builder).names() == p.names
                },
                Err(e) => Self::spec_parse(
                    old(node).element().tag@,
                    old(node).element().attributes@,
                    old(node).rest(),
                    old(node_builder).names(),
                ).error == Some(e@),
            },
    {
        if !str_eq(node.tag_name(), MASKED_INT_REG) {
            return Err(unexpected_element(node.tag_name()));
        }
        let attr_base = NodeAttributeBase::parse(node, node_builder)?;
        let register_base = RegisterBase::parse(node, node_builder)?;
        let bit_mask = parse_bit_mask(node)?;
        let tail = parse_integer_tail(node, node_builder)?;
        Ok(
            MaskedIntRegNode {
                attr_base,
                register_base,
                bit_mask,
                sign: tail.sign,
                endianness: tail.endianness,
                unit: tail.unit,
                representation: tail.representation,
                p_selected: tail.p_selected,
            },
        )
    }
}


/// What the run of `pVariable` elements at the front of `rest` means: the
/// variables of a formula, each with its name, which the attribute `Name`
/// gives, and the node that yields its value.
pub open spec fn spec_variables(rest: Seq<Element>, names: Seq<Seq<char>>) -> Parsed<
    Seq<(Seq<char>, crate::store::NodeId)>,
>
    decreases rest.len(),
{
    if has_tag(rest, P_VARIABLE@) {
        let name = spec_attribute(rest[0].attributes@, NAME@);
        let tail = spec_variables(rest.skip(1), names_with(names, rest[0].text@));
        Parsed {
            value: seq![(value_or(Some(name), Seq::empty()), id_in(names, rest[0].text@))]
                + tail.value,
            error: first_error(bad_text(NAME@, Some(name)), tail.error),
            rest: tail.rest,
            names: tail.names,
        }
    } else {
        Parsed { value: Seq::empty(), error: None, rest, names }
    }
}

/// What the run of `Constant` elements at the front of `rest` means: the
/// constants of a formula, each with its name, which the attribute `Name`
/// gives, and its value.
pub open spec fn spec_constants(rest: Seq<Element>) -> Parsed<Seq<(Seq<char>, i64)>>
    decreases rest.len(),
{
    if has_tag(rest, CONSTANT@) {
        let name = spec_attribute(rest[0].attributes@, NAME@);
        let value = spec_int_of_text(rest[0].text@);
        let tail = spec_constants(rest.skip(1));
        Parsed {
            value: seq![(value_or(Some(name), Seq::empty()), value_or(Some(value), 0))]
                + tail.value,
            error: first_error(
                bad_text(NAME@, Some(name)),
                first_error(bad_text(CONSTANT@, Some(value)), tail.error),
            ),
            rest: tail.rest,
            names: Seq::empty(),
        }
    } else {
        Parsed { value: Seq::empty(), error: None, rest, names: Seq::empty() }
    }
}

/// What the required element `tag` at the front of `rest` means, which
/// holds a formula.
pub open spec fn spec_formula(rest: Seq<Element>, tag: Seq<char>) -> Parsed<ExprView> {
    if has_tag(rest, tag) {
        let formula = spec_parse(rest[0].text@);
        Parsed {
            value: value_or(Some(formula), ExprView::Integer(0)),
            error: bad_text(tag, Some(formula)),
            rest: rest.skip(1),
            names: Seq::empty(),
        }
    } else {
        Parsed {
            value: ExprView::Integer(0),
            error: Some(ParseErrorView::MissingElement(tag)),
            rest,
            names: Seq::empty(),
        }
    }
}

/// Reads the run of `pVariable` elements at the cursor.
pub fn parse_variables<NB: NodeStoreBuilder>(node: &mut Node, node_builder: &mut NB) -> (r: Result<
    Vec<Variable>,
    ParseError,
>)
    ensures
        final(node_builder).stored() == old(node_builder).stored(),
        final(node).element() == old(node).element(),
        match r {
            Ok(v) => {
                let p = spec_variables(old(node).rest(), old(node_builder).names());
                &&& p.error is None
                &&& variable_views(v@) == p.value
                &&& final(node).rest() == p.rest
                &&& final(node_builder).names() == p.names
            },
            Err(e) => spec_variables(old(node).rest(), old(node_builder).names()).error == Some(
                e@,
            ),
        },
{
    let mut vars: Vec<Variable> = Vec::new();
    let ghost whole = spec_variables(node.rest(), node_builder.names());
    assert(variable_views(vars@) + whole.value =~= whole.value);
    loop
        invariant
            node_builder.stored() == old(node_builder).stored(),
            node.element() == old(node).element(),
            whole == spec_variables(old(node).rest(), old(node_builder).names()),
            ({
                let tail = spec_variables(node.rest(), node_builder.names());
                &&& whole.value == variable_views(vars@) + tail.value
                &&& whole.error == tail.error
                &&& whole.rest == tail.rest
                &&& whole.names == tail.names
            }),
        decreases node.rest().len(),
    {
        let ghost before = variable_views(vars@);
        let ghost tail = spec_variables(node.rest(), node_builder.names());
        match node.next_if(P_VARIABLE) {
            Some(child) => {
                let name = match child.attribute_of(NAME) {
                    Some(n) => n.to_owned(),
                    None => {
                        return Err(bad_attribute(NAME));
                    },
                };
                let id = node_builder.get_or_intern(child.text());
                let ghost view = (name@, id);
                vars.push(Variable { name, node: id });
                proof {
                    let next = spec_variables(node.rest(), node_builder.names());
                    assert(tail.value == seq![view] + next.value);
                    assert(variable_views(vars@) =~= before.push(view));
                    assert(before + tail.value =~= before.push(view) + next.value);
                }
            },
            None => {
                assert(variable_views(vars@) + tail.value =~= variable_views(vars@));
                return Ok(vars);
            },
        }
    }
}

/// Reads the run of `Constant` elements at the cursor.
pub fn parse_constants(node: &mut Node) -> (r: Result<Vec<NamedConstant>, ParseError>)
    ensures
        final(node).element() == old(node).element(),
        match r {
            Ok(v) => {
                let p = spec_constants(old(node).rest());
                &&& p.error is None
                &&& constant_views(v@) == p.value
                &&& final(node).rest() == p.rest
            },
            Err(e) => spec_constants(old(node).rest()).error == Some(e@),
        },
{
    let mut constants: Vec<NamedConstant> = Vec::new();
    let ghost whole = spec_constants(node.rest());
    assert(constant_views(constants@) + whole.value =~= whole.value);
    loop
        invariant
            node.element() == old(node).element(),
            whole == spec_constants(old(node).rest()),
            ({
                let tail = spec_constants(node.rest());
                &&& whole.value == constant_views(constants@) + tail.value
                &&& whole.error == tail.error
                &&& whole.rest == tail.rest
            }),
        decreases node.rest().len(),
    {
        let ghost before = constant_views(constants@);
        let ghost tail = spec_constants(node.rest());
        match node.next_if(CONSTANT) {
            Some(child) => {
                let name = match child.attribute_of(NAME) {
                    Some(n) => n.to_owned(),
                    None => {
                        return Err(bad_attribute(NAME));
                    },
                };
                let value = match convert_to_int(child.text()) {
                    Some(v) => v,
                    None => {
                        return Err(bad_attribute(CONSTANT));
                    },
                };
                let ghost view = (name@, value);
                constants.push(NamedConstant { name, value });
                proof {
                    let next = spec_constants(node.rest());
                    assert(tail.value == seq![view] + next.value);
                    assert(constant_views(constants@) =~= before.push(view));
                    assert(before + tail.value =~= before.push(view) + next.value);
                }
            },
            None => {
                assert(constant_views(constants@) + tail.value =~= constant_views(constants@));
                return Ok(constants);
            },
        }
    }
}

/// Reads the required element `tag` at the cursor, which holds a formula.
pub fn parse_formula(node: &mut Node, tag: &str) -> (r: Result<Expr, ParseError>)
    ensures
        final(node).element() == old(node).element(),
        match r {
            Ok(v) => {
                let p = spec_formula(old(node).rest(), tag@);
                p.error is None && v@ == p.value && final(node).rest() == p.rest
            },
            Err(e) => spec_formula(old(node).rest(), tag@).error == Some(e@),
        },
{
    match node.next_text_if(tag) {
        Some(t) => match parse(t) {
            Some(e) => Ok(e),
            None => Err(bad_attribute(tag)),
        },
        None => Err(missing_element(tag)),
    }
}

impl IntSwissKnifeNode {
    /// What an `IntSwissKnife` element with the tag `tag`, the attributes
    /// `attrs` and the children `rest` means.
    ///
    /// The attributes are those of every node. The children are, in
    /// document order: the descriptive elements of every node; any number
    /// of `pVariable`; any number of `Constant`; `Formula`, which is
    /// required; `Unit`; `Representation`, `PureNumber` by default.
    pub open spec fn spec_parse(
        tag: Seq<char>,
        attrs: Seq<Attribute>,
        rest: Seq<Element>,
        names: Seq<Seq<char>>,
    ) -> Parsed<IntSwissKnifeView> {
        let base = NodeElementBase::spec_parse(rest, names_with_name(attrs, names));
        let vars = spec_variables(base.rest, base.names);
        let constants = spec_constants(vars.rest);
        let formula = spec_formula(constants.rest, FORMULA@);
        let r1 = after_opt(formula.rest, UNIT@);
        let representation = elem_value(
            r1,
            REPRESENTATION@,
            |t| IntegerRepresentation::spec_from_text(t),
        );
        Parsed {
            value: IntSwissKnifeView {
                attr_base: NodeAttributeBase::spec_value(attrs, names),
                elem_base: base.value,
                p_variables: vars.value,
                constants: constants.value,
                formula: formula.value,
                unit: opt_text(formula.rest, UNIT@),
                representation: value_or(representation, IntegerRepresentation::PureNumber),
            },
            error: if tag != INT_SWISS_KNIFE@ {
                Some(ParseErrorView::UnexpectedElement(tag))
            } else {
                first_error(
                    NodeAttributeBase::spec_error(attrs),
                    first_error(
                        base.error,
                        first_error(
                            vars.error,
                            first_error(
                                constants.error,
                                first_error(
                                    formula.error,
                                    bad_text(REPRESENTATION@, representation),
                                ),
                            ),
                        ),
                    ),
                )
            },
            rest: after_opt(r1, REPRESENTATION@),
            names: vars.names,
        }
    }

    /// Reads an `IntSwissKnife` element; `node` is the cursor over its
    /// children.
    pub fn parse<NB: NodeStoreBuilder>(node: &mut Node, node_builder: &mut NB) -> (r: Result<
        IntSwissKnifeNode,
        ParseError,
    >)
        ensures
            final(node_builder).stored() == old(node_builder).stored(),
            final(node).element() == old(node).element(),
            match r {
                Ok(v) => {
                    let p = Self::spec_parse(
                        old(node).element().tag@,
                        old(node).element().attributes@,
                        old(node).rest(),
                        old(node_builder).names(),
                    );
                    &&& p.error is None
                    &&& v@ == p.value
                    &&& final(node).rest() == p.rest
                    &&& final(node_builder).names() == p.names
                },
                Err(e) => Self::spec_parse(
                    old(node).element().tag@,
                    old(node).element().attributes@,
                    old(node).rest(),
                    old(node_builder).names(),
                ).error == Some(e@),
            },
    {
        if !str_eq(node.tag_name(), INT_SWISS_KNIFE) {
            return Err(unexpected_element(node.tag_name()));
        }
        let attr_base = NodeAttributeBase::parse(node, node_builder)?;
        let elem_base = NodeElementBase::parse(node, node_builder)?;
        let p_variables = parse_variables(node, node_builder)?;
        let constants = parse_constants(node)?;
        let formula = parse_formula(node, FORMULA)?;
        let unit = parse_opt_string(node, UNIT);
        let representation = match node.next_text_if(REPRESENTATION) {
            None => IntegerRepresentation::PureNumber,
            Some(t) => match IntegerRepresentation::from_text(t) {
                Some(v) => v,
                None => {
                    return Err(bad_attribute(REPRESENTATION));
                },
            },
        };
        Ok(
            IntSwissKnifeNode {
                attr_base,
                elem_base,
                p_variables,
                constants,
                formula,
                unit,
                representation,
            },
        )
    }
}

impl IntConverterNode {
    /// What an `IntConverter` element with the tag `tag`, the attributes
    /// `attrs` and the children `rest` means.
    ///
    /// The attributes are those of every node. The children are, in
    /// document order: the descriptive elements of every node; any number
    /// of `pVariable`; any number of `Constant`; `FormulaTo`,
    /// `FormulaFrom` and `pValue`, which are required; `Unit`;
    /// `Representation`, `PureNumber` by default.
    pub open spec fn spec_parse(
        tag: Seq<char>,
        attrs: Seq<Attribute>,
        rest: Seq<Element>,
        names: Seq<Seq<char>>,
    ) -> Parsed<IntConverterView> {
        let base = NodeElementBase::spec_parse(rest, names_with_name(attrs, names));
        let vars = spec_variables(base.rest, base.names);
        let constants = spec_constants(vars.rest);
        let to = spec_formula(constants.rest, FORMULA_TO@);
        let from = spec_formula(to.rest, FORMULA_FROM@);
        let value = opt_text(from.rest, P_VALUE@);
        let r1 = after_opt(from.rest, P_VALUE@);
        let r2 = after_opt(r1, UNIT@);
        let representation = elem_value(
            r2,
            REPRESENTATION@,
            |t| IntegerRepresentation::spec_from_text(t),
        );
        Parsed {
            value: IntConverterView {
                attr_base: NodeAttributeBase::spec_value(attrs, names),
                elem_base: base.value,
                p_variables: vars.value,
                constants: constants.value,
                formula_to: to.value,
                formula_from: from.value,
                p_value: id_in(vars.names, value.unwrap()),
                unit: opt_text(r1, UNIT@),
                representation: value_or(representation, IntegerRepresentation::PureNumber),
            },
            error: if tag != INT_CONVERTER@ {
                Some(ParseErrorView::UnexpectedElement(tag))
            } else {
                first_error(
                    NodeAttributeBase::spec_error(attrs),
                    first_error(
                        base.error,
                        first_error(
                            vars.error,
                            first_error(
                                constants.error,
                                first_error(
                                    to.error,
                                    first_error(
                                        from.error,
                                        first_error(
                                            if value is None {
                                                Some(ParseErrorView::MissingElement(P_VALUE@))
                                            } else {
                                                None
                                            },
                                            bad_text(REPRESENTATION@, representation),
                                        ),
                                    ),
                                ),
                            ),
                        ),
                    ),
                )
            },
            rest: after_opt(r2, REPRESENTATION@),
            names: if value is Some {
                names_with(vars.names, value.unwrap())
            } else {
                vars.names
            },
        }
    }

    /// Reads an `IntConverter` element; `node` is the cursor over its
    /// children.
    pub fn parse<NB: NodeStoreBuilder>(node: &mut Node, node_builder: &mut NB) -> (r: Result<
        IntConverterNode,
        ParseError,
    >)
        ensures
            final(node_builder).stored() == old(node_builder).stored(),
            final(node).element() == old(node).element(),
            match r {
                Ok(v) => {
                    let p = Self::spec_parse(
                        old(node).element().tag@,
                        old(node).element().attributes@,
                        old(node).rest(),
                        old(node_builder).names(),
                    );
                    &&& p.error is None
                    &&& v@ == p.value
                    &&& final(node).rest() == p.rest
                    &&& final(node_builder).names() == p.names
                },
                Err(e) => Self::spec_parse(
                    old(node).element().tag@,
                    old(node).element().attributes@,
                    old(node).rest(),
                    old(node_builder).names(),
                ).error == Some(e@),
            },
    {
        if !str_eq(node.tag_name(), INT_CONVERTER) {
            return Err(unexpected_element(node.tag_name()));
        }
        let attr_base = NodeAttributeBase::parse(node, node_builder)?;
        let elem_base = NodeElementBase::parse(node, node_builder)?;
        let p_variables = parse_variables(node, node_builder)?;
        let constants = parse_constants(node)?;
        let formula_to = parse_formula(node, FORMULA_TO)?;
        let formula_from = parse_formula(node, FORMULA_FROM)?;
        let p_value = match node.next_text_if(P_VALUE) {
            Some(t) => node_builder.get_or_intern(t),
            None => {
                return Err(missing_element(P_VALUE));
            },
        };
        let unit = parse_opt_string(node, UNIT);
        let representation = match node.next_text_if(REPRESENTATION) {
            None => IntegerRepresentation::PureNumber,
            Some(t) => match IntegerRepresentation::from_text(t) {
                Some(v) => v,
                None => {
                    return Err(bad_attribute(REPRESENTATION));
                },
            },
        };
        Ok(
            IntConverterNode {
                attr_base,
                elem_base,
                p_variables,
                constants,
                formula_to,
                formula_from,
                p_value,
                unit,
                representation,
            },
        )
    }
}


/// The shapes of the elements that stand for the sign, the byte order, the
/// unit, the representation and the selected nodes of an integer register
/// in a description, followed by `tail`.
pub open spec fn tail_shape_then(v: IntegerTail, names: Seq<Seq<char>>, tail: Seq<Shape>) -> Seq<
    Shape,
> {
    opt_shape(SIGN@, Some(v.sign.spec_to_text())) + (opt_shape(
        ENDIANNESS@,
        Some(v.endianness.spec_to_text()),
    ) + (opt_shape(UNIT@, v.unit) + (opt_shape(
        REPRESENTATION@,
        Some(v.representation.spec_to_text()),
    ) + (run_shape(P_SELECTED@, names_of(names, v.p_selected)) + tail))))
}

/// The sign, the byte order, the unit, the representation and the selected
/// nodes that were written for a value read back as that value.
pub proof fn lemma_integer_tail_reads_back(
    v: IntegerTail,
    names: Seq<Seq<char>>,
    rest: Seq<Element>,
    tail: Seq<Shape>,
)
    requires
        names.no_duplicates(),
        all_named(names, v.p_selected),
        shapes(rest) == tail_shape_then(v, names, tail),
        all_after(tail, 30),
    ensures
        spec_integer_tail(rest, names).value == v,
        spec_integer_tail(rest, names).error is None,
        shapes(spec_integer_tail(rest, names).rest) == tail,
        spec_integer_tail(rest, names).names == names,
{
    lemma_tag_orders();
    let h30 = run_shape(P_SELECTED@, names_of(names, v.p_selected));
    let t30 = h30 + tail;
    lemma_all_after(h30, P_SELECTED@, tail, 29);
    let h29 = opt_shape(REPRESENTATION@, Some(v.representation.spec_to_text()));
    let t29 = h29 + t30;
    lemma_all_after(h29, REPRESENTATION@, t30, 28);
    let h28 = opt_shape(UNIT@, v.unit);
    let t28 = h28 + t29;
    lemma_all_after(h28, UNIT@, t29, 27);
    let h27 = opt_shape(ENDIANNESS@, Some(v.endianness.spec_to_text()));
    let t27 = h27 + t28;
    lemma_all_after(h27, ENDIANNESS@, t28, 26);
    lemma_read_opt(rest, SIGN@, Some(v.sign.spec_to_text()), t27);
    let r1 = after_opt(rest, SIGN@);
    lemma_read_opt(r1, ENDIANNESS@, Some(v.endianness.spec_to_text()), t28);
    let r2 = after_opt(r1, ENDIANNESS@);
    lemma_read_opt(r2, UNIT@, v.unit, t29);
    let r3 = after_opt(r2, UNIT@);
    lemma_read_opt(r3, REPRESENTATION@, Some(v.representation.spec_to_text()), t30);
    let r4 = after_opt(r3, REPRESENTATION@);
    lemma_read_run(r4, P_SELECTED@, names_of(names, v.p_selected), tail);
    v.sign.lemma_text_reads_back();
    v.endianness.lemma_text_reads_back();
    v.representation.lemma_text_reads_back();
    lemma_intern_all_named(names, v.p_selected);
    let p = spec_integer_tail(rest, names);
    assert(p.value.sign == v.sign);
    assert(p.value.endianness == v.endianness);
    assert(p.value.unit == v.unit);
    assert(p.value.representation == v.representation);
    assert(p.value.p_selected == v.p_selected);
}

/// The shapes of the elements that stand for the bit mask `mask`.
pub open spec fn bit_mask_shapes(mask: BitMask) -> Seq<Shape> {
    match mask {
        BitMask::SingleBit(bit) => seq![text_shape(BIT@, spec_uint_text(bit))],
        BitMask::Range { lsb, msb } => seq![
            text_shape(LSB@, spec_uint_text(lsb)),
            text_shape(MSB@, spec_uint_text(msb)),
        ],
    }
}

/// A bit mask that was written for a value reads back as that value.
pub proof fn lemma_bit_mask_reads_back(mask: BitMask, rest: Seq<Element>, tail: Seq<Shape>)
    requires
        shapes(rest) == bit_mask_shapes(mask) + tail,
    ensures
        spec_bit_mask(rest).value == mask,
        spec_bit_mask(rest).error is None,
        shapes(spec_bit_mask(rest).rest) == tail,
{
    crate::parser::elem_name::lemma_name_marks();
    let m = bit_mask_shapes(mask);
    let whole = m + tail;
    assert(shapes(rest).len() == rest.len());
    match mask {
        BitMask::SingleBit(bit) => {
            lemma_number_texts_read_back(bit, 0);
            assert(m.len() == 1);
            assert(m[0] == text_shape(BIT@, spec_uint_text(bit)));
            assert(whole[0] == m[0]);
            assert(shapes(rest)[0] == whole[0]);
            assert(shape_of(rest[0]) == text_shape(BIT@, spec_uint_text(bit)));
            lemma_shapes_skip(rest, 1);
            assert(whole.skip(1) =~= tail);
        },
        BitMask::Range { lsb, msb } => {
            lemma_number_texts_read_back(lsb, 0);
            lemma_number_texts_read_back(msb, 0);
            assert(m.len() == 2);
            assert(m[0] == text_shape(LSB@, spec_uint_text(lsb)));
            assert(m[1] == text_shape(MSB@, spec_uint_text(msb)));
            assert(whole[0] == m[0]);
            assert(whole[1] == m[1]);
            assert(shapes(rest)[0] == whole[0]);
            assert(shape_of(rest[0]) == text_shape(LSB@, spec_uint_text(lsb)));
            assert(shapes(rest)[1] == whole[1]);
            assert(shape_of(rest[1]) == text_shape(MSB@, spec_uint_text(msb)));
            lemma_shapes_skip(rest, 1);
            let r1 = rest.skip(1);
            assert(r1[0] == rest[1]);
            lemma_shapes_skip(r1, 1);
            assert(whole.skip(1).skip(1) =~= tail);
        },
    }
}

impl IntRegView {
    /// The sign, the byte order, the unit, the representation and the
    /// selected nodes of the register.
    pub open spec fn tail(self) -> IntegerTail {
        IntegerTail {
            sign: self.sign,
            endianness: self.endianness,
            unit: self.unit,
            representation: self.representation,
            p_selected: self.p_selected,
        }
    }

    /// The shapes of the child elements of the `IntReg` element that stands
    /// for the register in a description.
    pub open spec fn shape(self, names: Seq<Seq<char>>) -> Seq<Shape> {
        self.register_base.shape_then(names, tail_shape_then(self.tail(), names, Seq::empty()))
    }

    /// Whether the register and every node that it refers to is one of
    /// `names`.
    pub open spec fn named_in(self, names: Seq<Seq<char>>) -> bool {
        &&& named(names, self.attr_base.id)
        &&& self.register_base.named_in(names)
        &&& all_named(names, self.p_selected)
    }
}

/// An integer register that is written to a description reads back as it
/// was: where an element has the tag `IntReg` and the attributes and the
/// children that stand for the register `v`, the parser yields `v` without
/// an error, reads all children, and interns no new name.
pub proof fn lemma_int_reg_reads_back(v: IntRegView, names: Seq<Seq<char>>, e: Element)
    requires
        names.no_duplicates(),
        v.named_in(names),
        e.tag@ == INT_REG@,
        attr_views(e.attributes@) == attr_base_attrs(v.attr_base, names),
        shapes(e.children@) == v.shape(names),
    ensures
        IntRegNode::spec_parse(e.tag@, e.attributes@, e.children@, names).value == v,
        IntRegNode::spec_parse(e.tag@, e.attributes@, e.children@, names).error is None,
        IntRegNode::spec_parse(e.tag@, e.attributes@, e.children@, names).rest.len() == 0,
        IntRegNode::spec_parse(e.tag@, e.attributes@, e.children@, names).names == names,
{
    lemma_tag_orders();
    lemma_attr_base_reads_back(v.attr_base, names, e.attributes@);
    let empty = Seq::<Shape>::empty();
    let t = tail_shape_then(v.tail(), names, empty);
    assert(all_after(t, 23)) by {
        let h30 = run_shape(P_SELECTED@, names_of(names, v.p_selected));
        lemma_all_after(h30, P_SELECTED@, empty, 23);
        let h29 = opt_shape(REPRESENTATION@, Some(v.representation.spec_to_text()));
        lemma_all_after(h29, REPRESENTATION@, h30 + empty, 23);
        let h28 = opt_shape(UNIT@, v.unit);
        lemma_all_after(h28, UNIT@, h29 + (h30 + empty), 23);
        let h27 = opt_shape(ENDIANNESS@, Some(v.endianness.spec_to_text()));
        lemma_all_after(h27, ENDIANNESS@, h28 + (h29 + (h30 + empty)), 23);
        let h26 = opt_shape(SIGN@, Some(v.sign.spec_to_text()));
        lemma_all_after(h26, SIGN@, h27 + (h28 + (h29 + (h30 + empty))), 23);
    }
    lemma_register_base_reads_back(v.register_base, names, e.children@, t);
    let base = RegisterBase::spec_parse(e.children@, names);
    lemma_integer_tail_reads_back(v.tail(), names, base.rest, empty);
    let tail = spec_integer_tail(base.rest, names);
    assert(shapes(tail.rest).len() == tail.rest.len());
}

impl MaskedIntRegView {
    /// The sign, the byte order, the unit, the representation and the
    /// selected nodes of the register.
    pub open spec fn tail(self) -> IntegerTail {
        IntegerTail {
            sign: self.sign,
            endianness: self.endianness,
            unit: self.unit,
            representation: self.representation,
            p_selected: self.p_selected,
        }
    }

    /// The shapes of the child elements of the `MaskedIntReg` element that
    /// stands for the register in a description.
    pub open spec fn shape(self, names: Seq<Seq<char>>) -> Seq<Shape> {
        self.register_base.shape_then(
            names,
            bit_mask_shapes(self.bit_mask) + tail_shape_then(self.tail(), names, Seq::empty()),
        )
    }

    /// Whether the register and every node that it refers to is one of
    /// `names`.
    pub open spec fn named_in(self, names: Seq<Seq<char>>) -> bool {
        &&& named(names, self.attr_base.id)
        &&& self.register_base.named_in(names)
        &&& all_named(names, self.p_selected)
    }
}

/// A masked integer register that is written to a description reads back
/// as it was: where an element has the tag `MaskedIntReg` and the
/// attributes and the children that stand for the register `v`, the parser
/// yields `v` without an error, reads all children, and interns no new
/// name.
pub proof fn lemma_masked_int_reg_reads_back(
    v: MaskedIntRegView,
    names: Seq<Seq<char>>,
    e: Element,
)
    requires
        names.no_duplicates(),
        v.named_in(names),
        e.tag@ == MASKED_INT_REG@,
        attr_views(e.attributes@) == attr_base_attrs(v.attr_base, names),
        shapes(e.children@) == v.shape(names),
    ensures
        MaskedIntRegNode::spec_parse(e.tag@, e.attributes@, e.children@, names).value == v,
        MaskedIntRegNode::spec_parse(e.tag@, e.attributes@, e.children@, names).error is None,
        MaskedIntRegNode::spec_parse(e.tag@, e.attributes@, e.children@, names).rest.len() == 0,
        MaskedIntRegNode::spec_parse(e.tag@, e.attributes@, e.children@, names).names == names,
{
    lemma_tag_orders();
    lemma_attr_base_reads_back(v.attr_base, names, e.attributes@);
    let empty = Seq::<Shape>::empty();
    let t = tail_shape_then(v.tail(), names, empty);
    assert(all_after(t, 23)) by {
        let h30 = run_shape(P_SELECTED@, names_of(names, v.p_selected));
        lemma_all_after(h30, P_SELECTED@, empty, 23);
        let h29 = opt_shape(REPRESENTATION@, Some(v.representation.spec_to_text()));
        lemma_all_after(h29, REPRESENTATION@, h30 + empty, 23);
        let h28 = opt_shape(UNIT@, v.unit);
        lemma_all_after(h28, UNIT@, h29 + (h30 + empty), 23);
        let h27 = opt_shape(ENDIANNESS@, Some(v.endianness.spec_to_text()));
        lemma_all_after(h27, ENDIANNESS@, h28 + (h29 + (h30 + empty)), 23);
        let h26 = opt_shape(SIGN@, Some(v.sign.spec_to_text()));
        lemma_all_after(h26, SIGN@, h27 + (h28 + (h29 + (h30 + empty))), 23);
    }
    let m = bit_mask_shapes(v.bit_mask);
    assert(all_after(m, 23)) by {
        assert forall|i: int| 0 <= i < m.len() implies tag_order((#[trigger] m[i]).tag) > 23 by {
            match v.bit_mask {
                BitMask::SingleBit(_) => {},
                BitMask::Range { .. } => {},
            }
        }
    }
    lemma_all_after_any(m, t, 23);
    lemma_register_base_reads_back(v.register_base, names, e.children@, m + t);
    let base = RegisterBase::spec_parse(e.children@, names);
    lemma_bit_mask_reads_back(v.bit_mask, base.rest, t);
    let mask = spec_bit_mask(base.rest);
    lemma_integer_tail_reads_back(v.tail(), names, mask.rest, empty);
    let tail = spec_integer_tail(mask.rest, names);
    assert(shapes(tail.rest).len() == tail.rest.len());
}

} // verus!
