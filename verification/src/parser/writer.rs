//! Writing nodes to a description: the elements that stand for a value, in
//! the order in which the parsers read them.

use vstd::prelude::*;

use crate::elem_type::{bool_to_text, AddressKind, BitMask, ImmOrPNode, RegPIndex};
use crate::int_reg::IntRegNode;
use crate::masked_int_reg::MaskedIntRegNode;
use crate::node_base::{
    attr_base_attrs, event_text, opt_view, NodeAttributeBase, NodeElementBase,
    NodeElementBaseView,
};
use crate::parser::elem_name::{
    ACCESS_MODE, ADDRESS, BIT, CACHEABLE, DESCRIPTION, DISPLAY_NAME, DOCU_URL, ENDIANNESS,
    EVENT_ID, EXPOSE_STATIC, IMPOSED_ACCESS_MODE, INT_REG, IS_DEPRECATED, LENGTH, LSB,
    MASKED_INT_REG, MERGE_PRIORITY, MSB, NAME, NAME_SPACE, OFFSET, POLLING_TIME, P_ADDRESS,
    P_ALIAS, P_BLOCK_POLLING, P_CAST_ALIAS, P_ERROR, P_INDEX, P_INVALIDATOR, P_IS_AVAILABLE,
    P_IS_IMPLEMENTED, P_IS_LOCKED, P_LENGTH, P_OFFSET, P_PORT, P_SELECTED, REPRESENTATION, SIGN,
    STREAMABLE, TOOL_TIP, UNIT, VISIBILITY,
};
use crate::parser::node::{
    bit_mask_shapes, lemma_int_reg_reads_back, lemma_masked_int_reg_reads_back, tail_shape_then,
    IntegerTail,
};
use crate::parser::shape::{
    all_named, attr_views, lemma_assoc, name_of, name_opt, named, named_opt, names_of, opt_shape,
    run_shape,
    shape_of, shapes, text_shape, Shape,
};
use crate::parser::utils::{hex_digits_text, int_to_text, uint_to_text};
use crate::parser::xml::{Element};
use crate::register_base::{
    address_named, address_shape, address_shapes, length_shape, offset_attrs, uint_text_opt,
    RegisterBase, RegisterBaseView,
};
use crate::node::{NodeData, NodeDataView};
use crate::parser::document::{
    spec_document, spec_node_element, spec_node_elements, Graph, Loaded,
};
use crate::register_description::RegisterDescription;
use crate::store::{spec_store_node, DefaultNodeStore, NodeId};

verus! {

/// Appends an element `tag` that holds `text`.
pub fn push_text(out: &mut Vec<Element>, tag: &str, text: &str)
    ensures
        shapes(final(out)@) == shapes(old(out)@).push(text_shape(tag@, text@)),
{
    let e = Element::with_text(tag, text);
    assert(attr_views(e.attributes@) =~= Seq::<(Seq<char>, Seq<char>)>::empty());
    out.push(e);
    assert(shapes(out@) =~= shapes(old(out)@).push(text_shape(tag@, text@)));
}

/// Appends an element `tag` that holds `text`, where there is a text.
pub fn push_opt(out: &mut Vec<Element>, tag: &str, text: &Option<String>)
    ensures
        shapes(final(out)@) == shapes(old(out)@) + opt_shape(tag@, opt_view(*text)),
{
    match text {
        Some(t) => {
            push_text(out, tag, t.as_str());
            assert(shapes(out@) =~= shapes(old(out)@) + opt_shape(tag@, opt_view(*text)));
        },
        None => {
            assert(shapes(out@) =~= shapes(old(out)@) + opt_shape(tag@, opt_view(*text)));
        },
    }
}

/// Appends an element `tag` that holds `text`.
pub fn push_some(out: &mut Vec<Element>, tag: &str, text: &str)
    ensures
        shapes(final(out)@) == shapes(old(out)@) + opt_shape(tag@, Some(text@)),
{
    push_text(out, tag, text);
    assert(shapes(out@) =~= shapes(old(out)@) + opt_shape(tag@, Some(text@)));
}

/// Appends an element `tag` that refers to the node `id` by its name.
/// Fails where the node has no name.
pub fn push_id(out: &mut Vec<Element>, tag: &str, names: &DefaultNodeStore, id: NodeId) -> (ok:
    bool)
    ensures
        ok == named(names.interned(), id),
        ok ==> shapes(final(out)@) == shapes(old(out)@) + opt_shape(
            tag@,
            Some(name_of(names.interned(), id)),
        ),
        !ok ==> final(out)@ == old(out)@,
{
    match names.name_by_id(id) {
        Some(name) => {
            push_some(out, tag, name);
            true
        },
        None => false,
    }
}

/// Appends an element `tag` that refers to the node `id` by its name, where
/// there is a node. Fails where the node has no name.
pub fn push_id_opt(
    out: &mut Vec<Element>,
    tag: &str,
    names: &DefaultNodeStore,
    id: Option<NodeId>,
) -> (ok: bool)
    ensures
        ok == named_opt(names.interned(), id),
        ok ==> shapes(final(out)@) == shapes(old(out)@) + opt_shape(
            tag@,
            name_opt(names.interned(), id),
        ),
{
    match id {
        Some(id) => push_id(out, tag, names, id),
        None => {
            assert(shapes(out@) =~= shapes(old(out)@) + opt_shape(tag@, None));
            true
        },
    }
}

/// Appends an element `tag` for each of the nodes `ids`, which refers to
/// the node by its name. Fails where one of the nodes has no name.
pub fn push_ids(out: &mut Vec<Element>, tag: &str, names: &DefaultNodeStore, ids: &Vec<NodeId>)
    -> (ok: bool)
    ensures
        ok == all_named(names.interned(), ids@),
        ok ==> shapes(final(out)@) == shapes(old(out)@) + run_shape(
            tag@,
            names_of(names.interned(), ids@),
        ),
{
    let mut i: usize = 0;
    assert(shapes(out@) =~= shapes(old(out)@) + run_shape(
        tag@,
        names_of(names.interned(), ids@.take(0)),
    ));
    while i < ids.len()
        invariant
            i <= ids@.len(),
            all_named(names.interned(), ids@.take(i as int)),
            shapes(out@) == shapes(old(out)@) + run_shape(
                tag@,
                names_of(names.interned(), ids@.take(i as int)),
            ),
        decreases ids@.len() - i,
    {
        let ghost before = shapes(out@);
        if !push_id(out, tag, names, ids[i]) {
            assert(!named(names.interned(), ids@[i as int]));
            return false;
        }
        proof {
            let taken = ids@.take(i as int);
            let grown = ids@.take(i + 1);
            assert(grown =~= taken.push(ids@[i as int]));
            assert forall|k: int| 0 <= k < grown.len() implies named(
                names.interned(),
                #[trigger] grown[k],
            ) by {
                if k < i {
                    assert(grown[k] == taken[k]);
                }
            }
            assert(run_shape(tag@, names_of(names.interned(), grown)) =~= run_shape(
                tag@,
                names_of(names.interned(), taken),
            ) + opt_shape(tag@, Some(name_of(names.interned(), ids@[i as int]))));
            assert(shapes(out@) =~= shapes(old(out)@) + run_shape(
                tag@,
                names_of(names.interned(), grown),
            ));
        }
        i += 1;
    }
    assert(ids@.take(i as int) =~= ids@);
    true
}


impl NodeElementBase {
    /// Appends the elements that stand for these descriptive elements.
    /// Fails where a node that they refer to has no name.
    pub fn write(&self, names: &DefaultNodeStore, out: &mut Vec<Element>) -> (ok: bool)
        ensures
            ok == self@.named_in(names.interned()),
            ok ==> shapes(final(out)@) == shapes(old(out)@) + self@.shape_then(
                names.interned(),
                Seq::empty(),
            ),
    {
        let ghost n = names.interned();
        let ghost v = self@;
        let ghost a0 = shapes(out@);
        let event = match self.event_id {
            Some(v) => Some(hex_digits_text(v)),
            None => None,
        };
        assert(opt_view(event) == event_text(v.event_id));
        push_opt(out, TOOL_TIP, &self.tooltip);
        let ghost a1 = shapes(out@);
        push_opt(out, DESCRIPTION, &self.description);
        let ghost a2 = shapes(out@);
        push_opt(out, DISPLAY_NAME, &self.display_name);
        let ghost a3 = shapes(out@);
        push_some(out, VISIBILITY, self.visibility.to_text());
        let ghost a4 = shapes(out@);
        push_opt(out, DOCU_URL, &self.docu_url);
        let ghost a5 = shapes(out@);
        push_some(out, IS_DEPRECATED, bool_to_text(self.is_deprecated));
        let ghost a6 = shapes(out@);
        push_opt(out, EVENT_ID, &event);
        let ghost a7 = shapes(out@);
        if !push_id_opt(out, P_IS_IMPLEMENTED, names, self.p_is_implemented) {
            return false;
        }
        let ghost a8 = shapes(out@);
        if !push_id_opt(out, P_IS_AVAILABLE, names, self.p_is_available) {
            return false;
        }
        let ghost a9 = shapes(out@);
        if !push_id_opt(out, P_IS_LOCKED, names, self.p_is_locked) {
            return false;
        }
        let ghost a10 = shapes(out@);
        if !push_id_opt(out, P_BLOCK_POLLING, names, self.p_block_polling) {
            return false;
        }
        let ghost a11 = shapes(out@);
        push_some(out, IMPOSED_ACCESS_MODE, self.imposed_access_mode.to_text());
        let ghost a12 = shapes(out@);
        if !push_ids(out, P_ERROR, names, &self.p_errors) {
            return false;
        }
        let ghost a13 = shapes(out@);
        if !push_id_opt(out, P_ALIAS, names, self.p_alias) {
            return false;
        }
        let ghost a14 = shapes(out@);
        if !push_id_opt(out, P_CAST_ALIAS, names, self.p_cast_alias) {
            return false;
        }
        let ghost a15 = shapes(out@);
        proof {
            let empty = Seq::<Shape>::empty();
            let e16 = empty;
            let h15 = opt_shape(P_CAST_ALIAS@, name_opt(n, v.p_cast_alias));
            let e15 = h15 + e16;
            let h14 = opt_shape(P_ALIAS@, name_opt(n, v.p_alias));
            let e14 = h14 + e15;
            let h13 = run_shape(P_ERROR@, names_of(n, v.p_errors));
            let e13 = h13 + e14;
            let h12 = opt_shape(IMPOSED_ACCESS_MODE@, Some(v.imposed_access_mode.spec_to_text()));
            let e12 = h12 + e13;
            let h11 = opt_shape(P_BLOCK_POLLING@, name_opt(n, v.p_block_polling));
            let e11 = h11 + e12;
            let h10 = opt_shape(P_IS_LOCKED@, name_opt(n, v.p_is_locked));
            let e10 = h10 + e11;
            let h9 = opt_shape(P_IS_AVAILABLE@, name_opt(n, v.p_is_available));
            let e9 = h9 + e10;
            let h8 = opt_shape(P_IS_IMPLEMENTED@, name_opt(n, v.p_is_implemented));
            let e8 = h8 + e9;
            let h7 = opt_shape(EVENT_ID@, event_text(v.event_id));
            let e7 = h7 + e8;
            let h6 = opt_shape(IS_DEPRECATED@, Some(crate::elem_type::spec_bool_to_text(v.is_deprecated)));
            let e6 = h6 + e7;
            let h5 = opt_shape(DOCU_URL@, v.docu_url);
            let e5 = h5 + e6;
            let h4 = opt_shape(VISIBILITY@, Some(v.visibility.spec_to_text()));
            let e4 = h4 + e5;
            let h3 = opt_shape(DISPLAY_NAME@, v.display_name);
            let e3 = h3 + e4;
            let h2 = opt_shape(DESCRIPTION@, v.description);
            let e2 = h2 + e3;
            let h1 = opt_shape(TOOL_TIP@, v.tooltip);
            let e1 = h1 + e2;
            lemma_assoc(a15, empty, empty);
            assert(a15 + e16 == a15);
            assert(a15 == a14 + h15);
            lemma_assoc(a14, h15, e16);
            assert(a14 + e15 == a15);
            assert(a14 == a13 + h14);
            lemma_assoc(a13, h14, e15);
            assert(a13 + e14 == a15);
            assert(a13 == a12 + h13);
            lemma_assoc(a12, h13, e14);
            assert(a12 + e13 == a15);
            assert(a12 == a11 + h12);
            lemma_assoc(a11, h12, e13);
            assert(a11 + e12 == a15);
            assert(a11 == a10 + h11);
            lemma_assoc(a10, h11, e12);
            assert(a10 + e11 == a15);
            assert(a10 == a9 + h10);
            lemma_assoc(a9, h10, e11);
            assert(a9 + e10 == a15);
            assert(a9 == a8 + h9);
            lemma_assoc(a8, h9, e10);
            assert(a8 + e9 == a15);
            assert(a8 == a7 + h8);
            lemma_assoc(a7, h8, e9);
            assert(a7 + e8 == a15);
            assert(a7 == a6 + h7);
            lemma_assoc(a6, h7, e8);
            assert(a6 + e7 == a15);
            assert(a6 == a5 + h6);
            lemma_assoc(a5, h6, e7);
            assert(a5 + e6 == a15);
            assert(a5 == a4 + h5);
            lemma_assoc(a4, h5, e6);
            assert(a4 + e5 == a15);
            assert(a4 == a3 + h4);
            lemma_assoc(a3, h4, e5);
            assert(a3 + e4 == a15);
            assert(a3 == a2 + h3);
            lemma_assoc(a2, h3, e4);
            assert(a2 + e3 == a15);
            assert(a2 == a1 + h2);
            lemma_assoc(a1, h2, e3);
            assert(a1 + e2 == a15);
            assert(a1 == a0 + h1);
            lemma_assoc(a0, h1, e2);
            assert(a0 + e1 == a15);
            assert(e1 == v.shape_then(n, empty));
        }
        true
    }
}

/// Appends the element that stands for the address element `kind`. Fails
/// where a node that it refers to has no name.
pub fn push_address_kind(out: &mut Vec<Element>, names: &DefaultNodeStore, kind: AddressKind) -> (ok:
    bool)
    ensures
        ok == address_named(kind, names.interned()),
        ok ==> shapes(final(out)@) == shapes(old(out)@).push(
            address_shape(kind, names.interned()),
        ),
{
    match kind {
        AddressKind::Address(ImmOrPNode::Imm(v)) => {
            push_text(out, ADDRESS, int_to_text(v).as_str());
            true
        },
        AddressKind::Address(ImmOrPNode::PNode(n)) => {
            match names.name_by_id(n) {
                Some(name) => {
                    push_text(out, P_ADDRESS, name);
                    true
                },
                None => false,
            }
        },
        AddressKind::PIndex(RegPIndex { offset, p_index }) => {
            let index = match names.name_by_id(p_index) {
                Some(name) => name,
                None => {
                    return false;
                },
            };
            let mut e = Element::with_text(P_INDEX, index);
            assert(attr_views(e.attributes@) =~= Seq::<(Seq<char>, Seq<char>)>::empty());
            match offset {
                None => {},
                Some(ImmOrPNode::Imm(v)) => {
                    let ghost before = e.attributes@;
                    e.push_attribute(OFFSET, int_to_text(v).as_str());
                    assert(e.attributes@.len() == 1);
                    assert(attr_views(e.attributes@) =~= offset_attrs(offset, names.interned()));
                },
                Some(ImmOrPNode::PNode(n)) => {
                    match names.name_by_id(n) {
                        Some(name) => {
                            e.push_attribute(P_OFFSET, name);
                            assert(e.attributes@.len() == 1);
                            assert(attr_views(e.attributes@) =~= offset_attrs(
                                offset,
                                names.interned(),
                            ));
                        },
                        None => {
                            return false;
                        },
                    }
                },
            }
            assert(shape_of(e) == address_shape(kind, names.interned()));
            out.push(e);
            assert(shapes(out@) =~= shapes(old(out)@).push(
                address_shape(kind, names.interned()),
            ));
            true
        },
    }
}

impl RegisterBase {
    /// Appends the elements that stand for the elements of the register.
    /// Fails where a node that they refer to has no name.
    pub fn write(&self, names: &DefaultNodeStore, out: &mut Vec<Element>) -> (ok: bool)
        ensures
            ok == self@.named_in(names.interned()),
            ok ==> shapes(final(out)@) == shapes(old(out)@) + self@.shape_then(
                names.interned(),
                Seq::empty(),
            ),
    {
        let ghost a0 = shapes(out@);
        let ghost n = names.interned();
        let ghost v = self@;
        if !self.elem_base.write(names, out) {
            return false;
        }
        let ghost a1 = shapes(out@);
        push_some(out, STREAMABLE, bool_to_text(self.streamable));
        let ghost a2 = shapes(out@);
        let mut i: usize = 0;
        assert(address_shapes(v.address_kinds.take(0), n) =~= Seq::<Shape>::empty());
        assert(a2 + address_shapes(v.address_kinds.take(0), n) =~= a2);
        while i < self.address_kinds.len()
            invariant
                i <= self.address_kinds@.len(),
                n == names.interned(),
                v == self@,
                forall|k: int| 0 <= k < i ==> address_named(#[trigger] v.address_kinds[k], n),
                shapes(out@) == a2 + address_shapes(v.address_kinds.take(i as int), n),
            decreases self.address_kinds@.len() - i,
        {
            if !push_address_kind(out, names, self.address_kinds[i]) {
                return false;
            }
            proof {
                let taken = v.address_kinds.take(i as int);
                let grown = v.address_kinds.take(i + 1);
                assert(address_shapes(grown, n) =~= address_shapes(taken, n).push(
                    address_shape(v.address_kinds[i as int], n),
                ));
                assert(shapes(out@) =~= a2 + address_shapes(grown, n));
            }
            i += 1;
        }
        assert(v.address_kinds.take(i as int) =~= v.address_kinds);
        let ghost a3 = shapes(out@);
        match self.length {
            ImmOrPNode::Imm(l) => {
                push_text(out, LENGTH, int_to_text(l).as_str());
            },
            ImmOrPNode::PNode(node) => {
                match names.name_by_id(node) {
                    Some(name) => {
                        push_text(out, P_LENGTH, name);
                    },
                    None => {
                        return false;
                    },
                }
            },
        }
        assert(shapes(out@) == a3.push(length_shape(v.length, n)));
        let ghost a4 = shapes(out@);
        push_some(out, ACCESS_MODE, self.access_mode.to_text());
        let ghost a5 = shapes(out@);
        if !push_id(out, P_PORT, names, self.p_port) {
            return false;
        }
        let ghost a6 = shapes(out@);
        push_some(out, CACHEABLE, self.cacheable.to_text());
        let ghost a7 = shapes(out@);
        let polling_time = match self.polling_time {
            Some(t) => Some(uint_to_text(t)),
            None => None,
        };
        assert(opt_view(polling_time) == uint_text_opt(v.polling_time));
        push_opt(out, POLLING_TIME, &polling_time);
        let ghost a8 = shapes(out@);
        if !push_ids(out, P_INVALIDATOR, names, &self.p_invalidators) {
            return false;
        }
        proof {
            let empty = Seq::<Shape>::empty();
            let h23 = run_shape(P_INVALIDATOR@, names_of(n, v.p_invalidators));
            let h22 = opt_shape(POLLING_TIME@, uint_text_opt(v.polling_time));
            let h21 = opt_shape(CACHEABLE@, Some(v.cacheable.spec_to_text()));
            let h20 = opt_shape(P_PORT@, Some(name_of(n, v.p_port)));
            let h19 = opt_shape(ACCESS_MODE@, Some(v.access_mode.spec_to_text()));
            let h18 = seq![length_shape(v.length, n)];
            let h17 = address_shapes(v.address_kinds, n);
            let h16 = opt_shape(
                STREAMABLE@,
                Some(crate::elem_type::spec_bool_to_text(v.streamable)),
            );
            let e23 = h23 + empty;
            let e22 = h22 + e23;
            let e21 = h21 + e22;
            let e20 = h20 + e21;
            let e19 = h19 + e20;
            let e18 = h18 + e19;
            let e17 = h17 + e18;
            let e16 = h16 + e17;
            let a9 = shapes(out@);
            lemma_assoc(a9, empty, empty);
            assert(a9 == a8 + h23);
            lemma_assoc(a8, h23, empty);
            assert(a8 + e23 == a9);
            assert(a8 == a7 + h22);
            lemma_assoc(a7, h22, e23);
            assert(a7 + e22 == a9);
            assert(a7 == a6 + h21);
            lemma_assoc(a6, h21, e22);
            assert(a6 + e21 == a9);
            assert(a6 == a5 + h20);
            lemma_assoc(a5, h20, e21);
            assert(a5 + e20 == a9);
            assert(a5 == a4 + h19);
            lemma_assoc(a4, h19, e20);
            assert(a4 + e19 == a9);
            assert(a4 =~= a3 + h18);
            lemma_assoc(a3, h18, e19);
            assert(a3 + e18 == a9);
            assert(a3 == a2 + h17);
            lemma_assoc(a2, h17, e18);
            assert(a2 + e17 == a9);
            assert(a2 == a1 + h16);
            lemma_assoc(a1, h16, e17);
            assert(a1 + e16 == a9);
            assert(e16 == v.register_shape_then(n, empty));
            lemma_elem_shape_tail(v.elem_base, n, e16);
            lemma_assoc(a0, v.elem_base.shape_then(n, empty), e16);
            assert(a0 + v.shape_then(n, empty) == a9);
        }
        true
    }
}

/// The shapes of descriptive elements followed by `tail` are the shapes of
/// the descriptive elements, followed by `tail`.
pub proof fn lemma_elem_shape_tail(v: NodeElementBaseView, names: Seq<Seq<char>>, tail: Seq<Shape>)
    ensures
        v.shape_then(names, tail) == v.shape_then(names, Seq::empty()) + tail,
{
    let n = names;
    let empty = Seq::<Shape>::empty();
    let e16 = empty;
    let w16 = tail;
    let h15 = opt_shape(P_CAST_ALIAS@, name_opt(n, v.p_cast_alias));
    let e15 = h15 + e16;
    let w15 = h15 + w16;
    let h14 = opt_shape(P_ALIAS@, name_opt(n, v.p_alias));
    let e14 = h14 + e15;
    let w14 = h14 + w15;
    let h13 = run_shape(P_ERROR@, names_of(n, v.p_errors));
    let e13 = h13 + e14;
    let w13 = h13 + w14;
    let h12 = opt_shape(IMPOSED_ACCESS_MODE@, Some(v.imposed_access_mode.spec_to_text()));
    let e12 = h12 + e13;
    let w12 = h12 + w13;
    let h11 = opt_shape(P_BLOCK_POLLING@, name_opt(n, v.p_block_polling));
    let e11 = h11 + e12;
    let w11 = h11 + w12;
    let h10 = opt_shape(P_IS_LOCKED@, name_opt(n, v.p_is_locked));
    let e10 = h10 + e11;
    let w10 = h10 + w11;
    let h9 = opt_shape(P_IS_AVAILABLE@, name_opt(n, v.p_is_available));
    let e9 = h9 + e10;
    let w9 = h9 + w10;
    let h8 = opt_shape(P_IS_IMPLEMENTED@, name_opt(n, v.p_is_implemented));
    let e8 = h8 + e9;
    let w8 = h8 + w9;
    let h7 = opt_shape(EVENT_ID@, event_text(v.event_id));
    let e7 = h7 + e8;
    let w7 = h7 + w8;
    let h6 = opt_shape(IS_DEPRECATED@, Some(crate::elem_type::spec_bool_to_text(v.is_deprecated)));
    let e6 = h6 + e7;
    let w6 = h6 + w7;
    let h5 = opt_shape(DOCU_URL@, v.docu_url);
    let e5 = h5 + e6;
    let w5 = h5 + w6;
    let h4 = opt_shape(VISIBILITY@, Some(v.visibility.spec_to_text()));
    let e4 = h4 + e5;
    let w4 = h4 + w5;
    let h3 = opt_shape(DISPLAY_NAME@, v.display_name);
    let e3 = h3 + e4;
    let w3 = h3 + w4;
    let h2 = opt_shape(DESCRIPTION@, v.description);
    let e2 = h2 + e3;
    let w2 = h2 + w3;
    let h1 = opt_shape(TOOL_TIP@, v.tooltip);
    let e1 = h1 + e2;
    let w1 = h1 + w2;
    lemma_assoc(tail, empty, empty);
    assert(e16 + tail == w16);
    lemma_assoc(h15, e16, tail);
    assert(e15 + tail == w15);
    lemma_assoc(h14, e15, tail);
    assert(e14 + tail == w14);
    lemma_assoc(h13, e14, tail);
    assert(e13 + tail == w13);
    lemma_assoc(h12, e13, tail);
    assert(e12 + tail == w12);
    lemma_assoc(h11, e12, tail);
    assert(e11 + tail == w11);
    lemma_assoc(h10, e11, tail);
    assert(e10 + tail == w10);
    lemma_assoc(h9, e10, tail);
    assert(e9 + tail == w9);
    lemma_assoc(h8, e9, tail);
    assert(e8 + tail == w8);
    lemma_assoc(h7, e8, tail);
    assert(e7 + tail == w7);
    lemma_assoc(h6, e7, tail);
    assert(e6 + tail == w6);
    lemma_assoc(h5, e6, tail);
    assert(e5 + tail == w5);
    lemma_assoc(h4, e5, tail);
    assert(e4 + tail == w4);
    lemma_assoc(h3, e4, tail);
    assert(e3 + tail == w3);
    lemma_assoc(h2, e3, tail);
    assert(e2 + tail == w2);
    lemma_assoc(h1, e2, tail);
    assert(e1 + tail == w1);
    assert(e1 == v.shape_then(names, empty));
    assert(w1 == v.shape_then(names, tail));
}

/// The shapes of the elements of a register followed by `tail` are the
/// shapes of the elements of the register, followed by `tail`.
pub proof fn lemma_register_shape_tail(
    v: RegisterBaseView,
    names: Seq<Seq<char>>,
    tail: Seq<Shape>,
)
    ensures
        v.shape_then(names, tail) == v.shape_then(names, Seq::empty()) + tail,
{
    let n = names;
    let empty = Seq::<Shape>::empty();
    let h23 = run_shape(P_INVALIDATOR@, names_of(n, v.p_invalidators));
    let h22 = opt_shape(POLLING_TIME@, uint_text_opt(v.polling_time));
    let h21 = opt_shape(CACHEABLE@, Some(v.cacheable.spec_to_text()));
    let h20 = opt_shape(P_PORT@, Some(name_of(n, v.p_port)));
    let h19 = opt_shape(ACCESS_MODE@, Some(v.access_mode.spec_to_text()));
    let h18 = seq![length_shape(v.length, n)];
    let h17 = address_shapes(v.address_kinds, n);
    let h16 = opt_shape(STREAMABLE@, Some(crate::elem_type::spec_bool_to_text(v.streamable)));
    let e23 = h23 + empty;
    let w23 = h23 + tail;
    lemma_assoc(h23, empty, tail);
    lemma_assoc(tail, empty, empty);
    assert(e23 + tail == w23);
    let e22 = h22 + e23;
    let w22 = h22 + w23;
    lemma_assoc(h22, e23, tail);
    assert(e22 + tail == w22);
    let e21 = h21 + e22;
    let w21 = h21 + w22;
    lemma_assoc(h21, e22, tail);
    assert(e21 + tail == w21);
    let e20 = h20 + e21;
    let w20 = h20 + w21;
    lemma_assoc(h20, e21, tail);
    assert(e20 + tail == w20);
    let e19 = h19 + e20;
    let w19 = h19 + w20;
    lemma_assoc(h19, e20, tail);
    assert(e19 + tail == w19);
    let e18 = h18 + e19;
    let w18 = h18 + w19;
    lemma_assoc(h18, e19, tail);
    assert(e18 + tail == w18);
    let e17 = h17 + e18;
    let w17 = h17 + w18;
    lemma_assoc(h17, e18, tail);
    assert(e17 + tail == w17);
    let e16 = h16 + e17;
    let w16 = h16 + w17;
    lemma_assoc(h16, e17, tail);
    assert(e16 + tail == w16);
    assert(e16 == v.register_shape_then(n, empty));
    assert(w16 == v.register_shape_then(n, tail));
    lemma_elem_shape_tail(v.elem_base, n, e16);
    lemma_elem_shape_tail(v.elem_base, n, w16);
    lemma_assoc(v.elem_base.shape_then(n, empty), e16, tail);
}


/// Appends the attributes that stand for the attributes `attr_base` of a
/// node to the element `e`, which has none. Fails where the node has no
/// name.
pub fn push_attr_base(e: &mut Element, names: &DefaultNodeStore, attr_base: &NodeAttributeBase) -> (ok:
    bool)
    requires
        old(e).attributes@.len() == 0,
    ensures
        final(e).tag == old(e).tag,
        final(e).text == old(e).text,
        final(e).children == old(e).children,
        ok == named(names.interned(), attr_base.id),
        ok ==> attr_views(final(e).attributes@) == attr_base_attrs(*attr_base, names.interned()),
{
    let name = match names.name_by_id(attr_base.id) {
        Some(name) => name,
        None => {
            return false;
        },
    };
    e.push_attribute(NAME, name);
    e.push_attribute(NAME_SPACE, attr_base.name_space.to_text());
    e.push_attribute(MERGE_PRIORITY, attr_base.merge_priority.to_text());
    let ghost fixed = e.attributes@;
    match attr_base.expose_static {
        Some(b) => {
            e.push_attribute(EXPOSE_STATIC, bool_to_text(b));
        },
        None => {},
    }
    proof {
        let attrs = e.attributes@;
        assert(fixed.len() == 3);
        assert(fixed[0] == fixed.drop_last().drop_last()[0]);
        assert(fixed[1] == fixed.drop_last()[1]);
        assert forall|k: int| 0 <= k < 3 implies attrs[k] == fixed[k] by {
            if attrs.len() > 3 {
                assert(attrs.drop_last()[k] == fixed[k]);
            }
        }
        assert(attr_views(attrs) =~= attr_base_attrs(*attr_base, names.interned()));
    }
    true
}

/// Appends the elements that stand for the bit mask `mask`.
pub fn push_bit_mask(out: &mut Vec<Element>, mask: BitMask)
    ensures
        shapes(final(out)@) == shapes(old(out)@) + bit_mask_shapes(mask),
{
    match mask {
        BitMask::SingleBit(bit) => {
            push_text(out, BIT, uint_to_text(bit).as_str());
        },
        BitMask::Range { lsb, msb } => {
            push_text(out, LSB, uint_to_text(lsb).as_str());
            push_text(out, MSB, uint_to_text(msb).as_str());
        },
    }
    assert(shapes(out@) =~= shapes(old(out)@) + bit_mask_shapes(mask));
}

/// Appends the elements that stand for the sign, the byte order, the unit,
/// the representation and the selected nodes of an integer register. Fails
/// where a selected node has no name.
fn push_tail(
    out: &mut Vec<Element>,
    names: &DefaultNodeStore,
    sign: crate::elem_type::Sign,
    endianness: crate::elem_type::Endianness,
    unit: &Option<String>,
    representation: crate::elem_type::IntegerRepresentation,
    p_selected: &Vec<NodeId>,
) -> (ok: bool)
    ensures
        ok == all_named(names.interned(), p_selected@),
        ok ==> shapes(final(out)@) == shapes(old(out)@) + tail_shape_then(
            IntegerTail {
                sign,
                endianness,
                unit: opt_view(*unit),
                representation,
                p_selected: p_selected@,
            },
            names.interned(),
            Seq::empty(),
        ),
{
    let ghost n = names.interned();
    let ghost a0 = shapes(out@);
    push_some(out, SIGN, sign.to_text());
    let ghost a1 = shapes(out@);
    push_some(out, ENDIANNESS, endianness.to_text());
    let ghost a2 = shapes(out@);
    push_opt(out, UNIT, unit);
    let ghost a3 = shapes(out@);
    push_some(out, REPRESENTATION, representation.to_text());
    let ghost a4 = shapes(out@);
    if !push_ids(out, P_SELECTED, names, p_selected) {
        return false;
    }
    proof {
        let empty = Seq::<Shape>::empty();
        let a5 = shapes(out@);
        let h5 = run_shape(P_SELECTED@, names_of(n, p_selected@));
        let h4 = opt_shape(REPRESENTATION@, Some(representation.spec_to_text()));
        let h3 = opt_shape(UNIT@, opt_view(*unit));
        let h2 = opt_shape(ENDIANNESS@, Some(endianness.spec_to_text()));
        let h1 = opt_shape(SIGN@, Some(sign.spec_to_text()));
        let e5 = h5 + empty;
        let e4 = h4 + e5;
        let e3 = h3 + e4;
        let e2 = h2 + e3;
        let e1 = h1 + e2;
        lemma_assoc(a5, empty, empty);
        lemma_assoc(a4, h5, empty);
        assert(a4 + e5 == a5);
        lemma_assoc(a3, h4, e5);
        assert(a3 + e4 == a5);
        lemma_assoc(a2, h3, e4);
        assert(a2 + e3 == a5);
        lemma_assoc(a1, h2, e3);
        assert(a1 + e2 == a5);
        lemma_assoc(a0, h1, e2);
        assert(a0 + e1 == a5);
    }
    true
}

impl IntRegNode {
    /// The element that stands for the register in a description, where
    /// the register and every node that it refers to has a name in `names`.
    /// The element reads back as the register, and reading it interns no
    /// new name.
    pub fn to_element(&self, names: &DefaultNodeStore) -> (r: Option<Element>)
        ensures
            r is Some <==> self@.named_in(names.interned()),
            r matches Some(e) ==> {
                let p = IntRegNode::spec_parse(
                    e.tag@,
                    e.attributes@,
                    e.children@,
                    names.interned(),
                );
                &&& e.tag@ == INT_REG@
                &&& p.value == self@
                &&& p.error is None
                &&& p.rest.len() == 0
                &&& p.names == names.interned()
            },
    {
        let ghost n = names.interned();
        let ghost v = self@;
        let _ = names.name_count();
        let mut e = Element::new(INT_REG);
        if !push_attr_base(&mut e, names, &self.attr_base) {
            return None;
        }
        let mut children: Vec<Element> = Vec::new();
        assert(shapes(children@) =~= Seq::<Shape>::empty());
        if !self.register_base.write(names, &mut children) {
            return None;
        }
        let ghost a1 = shapes(children@);
        if !push_tail(
            &mut children,
            names,
            self.sign,
            self.endianness,
            &self.unit,
            self.representation,
            &self.p_selected,
        ) {
            return None;
        }
        proof {
            let empty = Seq::<Shape>::empty();
            let t = tail_shape_then(v.tail(), n, empty);
            lemma_assoc(v.register_base.shape_then(n, empty), empty, empty);
            assert(a1 == v.register_base.shape_then(n, empty));
            lemma_register_shape_tail(v.register_base, n, t);
            assert(shapes(children@) == v.shape(n));
        }
        e.children = children;
        proof {
            lemma_int_reg_reads_back(v, n, e);
        }
        Some(e)
    }
}

impl MaskedIntRegNode {
    /// The element that stands for the register in a description, where
    /// the register and every node that it refers to has a name in `names`.
    /// The element reads back as the register, and reading it interns no
    /// new name.
    pub fn to_element(&self, names: &DefaultNodeStore) -> (r: Option<Element>)
        ensures
            r is Some <==> self@.named_in(names.interned()),
            r matches Some(e) ==> {
                let p = MaskedIntRegNode::spec_parse(
                    e.tag@,
                    e.attributes@,
                    e.children@,
                    names.interned(),
                );
                &&& e.tag@ == MASKED_INT_REG@
                &&& p.value == self@
                &&& p.error is None
                &&& p.rest.len() == 0
                &&& p.names == names.interned()
            },
    {
        let ghost n = names.interned();
        let ghost v = self@;
        let _ = names.name_count();
        let mut e = Element::new(MASKED_INT_REG);
        if !push_attr_base(&mut e, names, &self.attr_base) {
            return None;
        }
        let mut children: Vec<Element> = Vec::new();
        assert(shapes(children@) =~= Seq::<Shape>::empty());
        if !self.register_base.write(names, &mut children) {
            return None;
        }
        let ghost a1 = shapes(children@);
        push_bit_mask(&mut children, self.bit_mask);
        let ghost a2 = shapes(children@);
        if !push_tail(
            &mut children,
            names,
            self.sign,
            self.endianness,
            &self.unit,
            self.representation,
            &self.p_selected,
        ) {
            return None;
        }
        proof {
            let empty = Seq::<Shape>::empty();
            let t = tail_shape_then(v.tail(), n, empty);
            let m = bit_mask_shapes(v.bit_mask);
            lemma_assoc(v.register_base.shape_then(n, empty), empty, empty);
            assert(a1 == v.register_base.shape_then(n, empty));
            lemma_assoc(a1, m, t);
            lemma_register_shape_tail(v.register_base, n, m + t);
            assert(shapes(children@) == v.shape(n));
        }
        e.children = children;
        proof {
            lemma_masked_int_reg_reads_back(v, n, e);
        }
        Some(e)
    }
}


/// The pairs of an invalidator and its target that the registers among
/// `nodes` bring with them.
pub open spec fn pairs_of_nodes(nodes: Seq<Option<NodeDataView>>) -> Set<(NodeId, NodeId)>
    decreases nodes.len(),
{
    if nodes.len() == 0 {
        Set::empty()
    } else {
        let before = pairs_of_nodes(nodes.drop_last());
        match nodes.last() {
            Some(NodeDataView::IntReg(reg)) => before.union(
                reg.register_base.invalidator_pairs(reg.attr_base.id),
            ),
            Some(NodeDataView::MaskedIntReg(reg)) => before.union(
                reg.register_base.invalidator_pairs(reg.attr_base.id),
            ),
            _ => before,
        }
    }
}

/// Whether the node in the slot `i` of a store can be written to a
/// description: the slot is empty, or holds a register that has the id `i`
/// and refers to named nodes only.
pub open spec fn slot_writable(slot: Option<NodeDataView>, i: int, names: Seq<Seq<char>>) -> bool {
    match slot {
        None => true,
        Some(NodeDataView::IntReg(reg)) => reg.attr_base.id.0 == i && reg.named_in(names),
        Some(NodeDataView::MaskedIntReg(reg)) => reg.attr_base.id.0 == i && reg.named_in(names),
        Some(_) => false,
    }
}

/// Whether the nodes `nodes` can be written to a description: each slot
/// can, and the last slot is not empty.
pub open spec fn nodes_writable(nodes: Seq<Option<NodeDataView>>, names: Seq<Seq<char>>) -> bool {
    &&& forall|i: int| 0 <= i < nodes.len() ==> slot_writable(#[trigger] nodes[i], i, names)
    &&& nodes.len() > 0 ==> nodes.last() is Some
}

/// Loading node elements of which the last is `e` loads those in front of
/// it and then `e`.
pub proof fn lemma_load_last(rest: Seq<Element>, e: Element, g: Graph)
    ensures
        spec_node_elements(rest.push(e), g) == if spec_node_elements(rest, g).error is Some {
            spec_node_elements(rest, g)
        } else {
            let last = spec_node_element(e, spec_node_elements(rest, g).graph);
            if last.error is Some {
                last
            } else {
                Loaded { error: None, graph: last.graph }
            }
        },
    decreases rest.len(),
{
    let longer = rest.push(e);
    let head = spec_node_element(longer[0], g);
    assert(spec_node_elements(longer, g) == if head.error is Some {
        head
    } else {
        spec_node_elements(longer.skip(1), head.graph)
    });
    if rest.len() == 0 {
        assert(longer[0] == e);
        assert(longer.skip(1) =~= Seq::<Element>::empty());
        assert(spec_node_elements(longer.skip(1), head.graph) == Loaded {
            error: None,
            graph: head.graph,
        });
        assert(spec_node_elements(rest, g) == Loaded { error: None, graph: g });
    } else {
        assert(longer[0] == rest[0]);
        assert(longer.skip(1) =~= rest.skip(1).push(e));
        assert(spec_node_elements(rest, g) == if head.error is Some {
            head
        } else {
            spec_node_elements(rest.skip(1), head.graph)
        });
        if head.error is None {
            lemma_load_last(rest.skip(1), e, head.graph);
        }
    }
}

/// The pairs of the nodes in front of an empty slot are the pairs with
/// the slot; those in front of a register are the pairs with the register
/// without the pairs of the register.
proof fn lemma_pairs_step(nodes: Seq<Option<NodeDataView>>, i: int)
    requires
        0 <= i < nodes.len(),
    ensures
        pairs_of_nodes(nodes.take(i + 1)) == match nodes[i] {
            Some(NodeDataView::IntReg(reg)) => pairs_of_nodes(nodes.take(i)).union(
                reg.register_base.invalidator_pairs(reg.attr_base.id),
            ),
            Some(NodeDataView::MaskedIntReg(reg)) => pairs_of_nodes(nodes.take(i)).union(
                reg.register_base.invalidator_pairs(reg.attr_base.id),
            ),
            _ => pairs_of_nodes(nodes.take(i)),
        },
{
    assert(nodes.take(i + 1).drop_last() =~= nodes.take(i));
    assert(nodes.take(i + 1).last() == nodes[i]);
}

/// Loading the element that was written for an integer register, behind
/// elements that load without an error, stores the register and brings
/// its invalidators.
proof fn lemma_written_int_reg(
    before: Seq<Element>,
    e: Element,
    start: Graph,
    graph: Graph,
    reg: crate::int_reg::IntRegView,
)
    requires
        spec_node_elements(before, start) == (Loaded { error: None, graph }),
        e.tag@ == INT_REG@,
        IntRegNode::spec_parse(e.tag@, e.attributes@, e.children@, graph.names).value == reg,
        IntRegNode::spec_parse(e.tag@, e.attributes@, e.children@, graph.names).error is None,
        IntRegNode::spec_parse(e.tag@, e.attributes@, e.children@, graph.names).names
            == graph.names,
    ensures
        spec_node_elements(before.push(e), start) == (Loaded {
            error: None,
            graph: Graph {
                names: graph.names,
                nodes: spec_store_node(graph.nodes, reg.attr_base.id, NodeDataView::IntReg(reg)),
                pairs: graph.pairs.union(reg.register_base.invalidator_pairs(reg.attr_base.id)),
            },
        }),
{
    reveal(spec_node_element);
    lemma_load_last(before, e, start);
}

/// Loading the element that was written for a masked integer register,
/// behind elements that load without an error, stores the register and
/// brings its invalidators.
proof fn lemma_written_masked_int_reg(
    before: Seq<Element>,
    e: Element,
    start: Graph,
    graph: Graph,
    reg: crate::masked_int_reg::MaskedIntRegView,
)
    requires
        spec_node_elements(before, start) == (Loaded { error: None, graph }),
        e.tag@ == MASKED_INT_REG@,
        MaskedIntRegNode::spec_parse(e.tag@, e.attributes@, e.children@, graph.names).value
            == reg,
        MaskedIntRegNode::spec_parse(e.tag@, e.attributes@, e.children@, graph.names).error
            is None,
        MaskedIntRegNode::spec_parse(e.tag@, e.attributes@, e.children@, graph.names).names
            == graph.names,
    ensures
        spec_node_elements(before.push(e), start) == (Loaded {
            error: None,
            graph: Graph {
                names: graph.names,
                nodes: spec_store_node(
                    graph.nodes,
                    reg.attr_base.id,
                    NodeDataView::MaskedIntReg(reg),
                ),
                pairs: graph.pairs.union(reg.register_base.invalidator_pairs(reg.attr_base.id)),
            },
        }),
{
    reveal(spec_node_element);
    crate::parser::elem_name::lemma_name_marks();
    lemma_load_last(before, e, start);
}

/// The root element that stands for the description `description` with
/// the nodes of `store`, where these can be written.
///
/// The element reads back as it was written: a parser whose builders know
/// the names of the store, and hold no nodes and no invalidators, yields
/// the description, the nodes of the store and the invalidators of its
/// registers, and interns no new name.
pub fn write_document(description: &RegisterDescription, store: &DefaultNodeStore) -> (r: Option<
    Element,
>)
    ensures
        r is Some <==> nodes_writable(store.nodes(), store.interned()),
        r matches Some(root) ==> {
            let loaded = spec_document(
                root,
                Graph { names: store.interned(), nodes: Seq::empty(), pairs: Set::empty() },
            );
            &&& loaded.error is None
            &&& RegisterDescription::spec_value(root.attributes@) == description@
            &&& loaded.graph.names == store.interned()
            &&& loaded.graph.nodes == store.nodes()
            &&& loaded.graph.pairs == pairs_of_nodes(store.nodes())
        },
{
    let ghost names = store.interned();
    let ghost nodes = store.nodes();
    let ghost start = Graph { names, nodes: Seq::empty(), pairs: Set::empty() };
    let n = store.node_capacity();
    let mut children: Vec<Element> = Vec::new();
    let mut i: usize = 0;
    let ghost mut loaded_nodes: Seq<Option<NodeDataView>> = Seq::empty();
    proof {
        assert(nodes.take(0) =~= Seq::<Option<NodeDataView>>::empty());
    }
    while i < n
        invariant
            i <= n,
            n == nodes.len(),
            names == store.interned(),
            nodes == store.nodes(),
            start == (Graph { names, nodes: Seq::empty(), pairs: Set::empty() }),
            forall|k: int| 0 <= k < i ==> slot_writable(#[trigger] nodes[k], k, names),
            loaded_nodes.len() <= i,
            forall|k: int| 0 <= k < loaded_nodes.len() ==> loaded_nodes[k] == nodes[k],
            forall|k: int| loaded_nodes.len() <= k < i ==> nodes[k] is None,
            i > 0 && nodes[i - 1] is Some ==> loaded_nodes.len() == i,
            spec_node_elements(children@, start) == (Loaded {
                error: None,
                graph: Graph {
                    names,
                    nodes: loaded_nodes,
                    pairs: pairs_of_nodes(nodes.take(i as int)),
                },
            }),
        decreases n - i,
    {
        let ghost before = children@;
        let ghost graph = Graph {
            names,
            nodes: loaded_nodes,
            pairs: pairs_of_nodes(nodes.take(i as int)),
        };
        proof {
            lemma_pairs_step(nodes, i as int);
        }
        match store.node_opt(NodeId(i)) {
            None => {},
            Some(NodeData::IntReg(reg)) => {
                if reg.attr_base.id.0 != i {
                    return None;
                }
                let e = match reg.to_element(store) {
                    Some(e) => e,
                    None => {
                        return None;
                    },
                };
                proof {
                    lemma_written_int_reg(before, e, start, graph, reg@);
                    let stored = spec_store_node(loaded_nodes, NodeId(i), NodeDataView::IntReg(reg@));
                    assert(stored =~= nodes.take(i + 1));
                    loaded_nodes = stored;
                }
                children.push(e);
            },
            Some(NodeData::MaskedIntReg(reg)) => {
                if reg.attr_base.id.0 != i {
                    return None;
                }
                let e = match reg.to_element(store) {
                    Some(e) => e,
                    None => {
                        return None;
                    },
                };
                proof {
                    lemma_written_masked_int_reg(before, e, start, graph, reg@);
                    let stored = spec_store_node(
                        loaded_nodes,
                        NodeId(i),
                        NodeDataView::MaskedIntReg(reg@),
                    );
                    assert(stored =~= nodes.take(i + 1));
                    loaded_nodes = stored;
                }
                children.push(e);
            },
            Some(_) => {
                return None;
            },
        }
        i += 1;
    }
    if n > 0 && store.node_opt(NodeId(n - 1)).is_none() {
        return None;
    }
    let mut root = description.to_element();
    root.children = children;
    proof {
        assert(nodes.take(n as int) =~= nodes);
        assert(loaded_nodes =~= nodes);
    }
    Some(root)
}

} // verus!
