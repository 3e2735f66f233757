//! The nodes of the graph that the engine evaluates.

use vstd::prelude::*;

use crate::elem_type::IntegerRepresentation;
use crate::formula::{Expr, ExprView};
use crate::int_reg::{IntRegNode, IntRegView};
use crate::masked_int_reg::{MaskedIntRegNode, MaskedIntRegView};
use crate::node_base::{opt_view, NodeAttributeBase, NodeElementBase, NodeElementBaseView};
use crate::store::NodeId;

verus! {

/// A variable of a formula: its name, and the node that yields its value.
#[derive(Debug)]
pub struct Variable {
    pub name: String,
    pub node: NodeId,
}

/// A constant of a formula: its name and its value.
#[derive(Debug)]
pub struct NamedConstant {
    pub name: String,
    pub value: i64,
}

/// The variables `vars` as plain values.
pub open spec fn variable_views(vars: Seq<Variable>) -> Seq<(Seq<char>, NodeId)> {
    Seq::new(vars.len(), |i: int| (vars[i].name@, vars[i].node))
}

/// The constants `constants` as plain values.
pub open spec fn constant_views(constants: Seq<NamedConstant>) -> Seq<(Seq<char>, i64)> {
    Seq::new(constants.len(), |i: int| (constants[i].name@, constants[i].value))
}

/// A node whose integer value is a formula over other nodes. It cannot be
/// written.
#[derive(Debug)]
pub struct IntSwissKnifeNode {
    pub attr_base: NodeAttributeBase,
    pub elem_base: NodeElementBase,
    pub p_variables: Vec<Variable>,
    pub constants: Vec<NamedConstant>,
    pub formula: Expr,
    pub unit: Option<String>,
    pub representation: IntegerRepresentation,
}

/// An `IntSwissKnifeNode` as plain values.
pub struct IntSwissKnifeView {
    pub attr_base: NodeAttributeBase,
    pub elem_base: NodeElementBaseView,
    pub p_variables: Seq<(Seq<char>, NodeId)>,
    pub constants: Seq<(Seq<char>, i64)>,
    pub formula: ExprView,
    pub unit: Option<Seq<char>>,
    pub representation: IntegerRepresentation,
}

impl View for IntSwissKnifeNode {
    type V = IntSwissKnifeView;

    open spec fn view(&self) -> IntSwissKnifeView {
        IntSwissKnifeView {
            attr_base: self.attr_base,
            elem_base: self.elem_base@,
            p_variables: variable_views(self.p_variables@),
            constants: constant_views(self.constants@),
            formula: self.formula@,
            unit: opt_view(self.unit),
            representation: self.representation,
        }
    }
}

/// A node whose integer value is computed from the value of another node,
/// and that is written by writing to that node what a second formula makes
/// of the value.
#[derive(Debug)]
pub struct IntConverterNode {
    pub attr_base: NodeAttributeBase,
    pub elem_base: NodeElementBase,
    pub p_variables: Vec<Variable>,
    pub constants: Vec<NamedConstant>,
    /// The value of `p_value` for a value of this node, which is bound to `TO`.
    pub formula_to: Expr,
    /// The value of this node for the value of `p_value`, which is bound to `FROM`.
    pub formula_from: Expr,
    pub p_value: NodeId,
    pub unit: Option<String>,
    pub representation: IntegerRepresentation,
}

/// An `IntConverterNode` as plain values.
pub struct IntConverterView {
    pub attr_base: NodeAttributeBase,
    pub elem_base: NodeElementBaseView,
    pub p_variables: Seq<(Seq<char>, NodeId)>,
    pub constants: Seq<(Seq<char>, i64)>,
    pub formula_to: ExprView,
    pub formula_from: ExprView,
    pub p_value: NodeId,
    pub unit: Option<Seq<char>>,
    pub representation: IntegerRepresentation,
}

impl View for IntConverterNode {
    type V = IntConverterView;

    open spec fn view(&self) -> IntConverterView {
        IntConverterView {
            attr_base: self.attr_base,
            elem_base: self.elem_base@,
            p_variables: variable_views(self.p_variables@),
            constants: constant_views(self.constants@),
            formula_to: self.formula_to@,
            formula_from: self.formula_from@,
            p_value: self.p_value,
            unit: opt_view(self.unit),
            representation: self.representation,
        }
    }
}

/// A node of the graph, of one of the kinds that yield an integer.
#[derive(Debug)]
pub enum NodeData {
    IntReg(IntRegNode),
    MaskedIntReg(MaskedIntRegNode),
    IntSwissKnife(IntSwissKnifeNode),
    IntConverter(IntConverterNode),
}

/// A `NodeData` as plain values.
pub enum NodeDataView {
    IntReg(IntRegView),
    MaskedIntReg(MaskedIntRegView),
    IntSwissKnife(IntSwissKnifeView),
    IntConverter(IntConverterView),
}

impl View for NodeData {
    type V = NodeDataView;

    open spec fn view(&self) -> NodeDataView {
        match self {
            NodeData::IntReg(n) => NodeDataView::IntReg(n@),
            NodeData::MaskedIntReg(n) => NodeDataView::MaskedIntReg(n@),
            NodeData::IntSwissKnife(n) => NodeDataView::IntSwissKnife(n@),
            NodeData::IntConverter(n) => NodeDataView::IntConverter(n@),
        }
    }
}

/// The node in a slot of a store, as plain values.
pub open spec fn slot_view(slot: Option<NodeData>) -> Option<NodeDataView> {
    match slot {
        Some(n) => Some(n@),
        None => None,
    }
}

impl NodeData {
    /// The id of the node.
    pub open spec fn spec_id(&self) -> NodeId {
        match self {
            NodeData::IntReg(n) => n.attr_base.id,
            NodeData::MaskedIntReg(n) => n.attr_base.id,
            NodeData::IntSwissKnife(n) => n.attr_base.id,
            NodeData::IntConverter(n) => n.attr_base.id,
        }
    }

    /// The id of the node.
    pub fn id(&self) -> (r: NodeId)
        ensures
            r == self.spec_id(),
    {
        match self {
            NodeData::IntReg(n) => n.attr_base.id,
            NodeData::MaskedIntReg(n) => n.attr_base.id,
            NodeData::IntSwissKnife(n) => n.attr_base.id,
            NodeData::IntConverter(n) => n.attr_base.id,
        }
    }
}

} // verus!
