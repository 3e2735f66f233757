//! The parser of a whole register description: the head of the description
//! and its nodes, which go to the stores.

use vstd::prelude::*;

use crate::int_reg::IntRegNode;
use crate::masked_int_reg::{MaskedIntRegNode, MaskedIntRegView};
use crate::node::{IntConverterNode, IntSwissKnifeNode, NodeData, NodeDataView};
use crate::parser::elem_name::{
    INT_CONVERTER, INT_REG, INT_SWISS_KNIFE, MASKED_INT_REG, STRUCT_REG,
};
use crate::parser::struct_reg::{invalidator_pairs_of, StructRegNode};
use crate::parser::xml::{Element, Node};
use crate::parser::{first_error, unexpected_element, ParseError, ParseErrorView};
use crate::register_description::{RegisterDescription};
use crate::store::{
    spec_store_node, CacheStoreBuilder, NodeId, NodeStoreBuilder, ValueStoreBuilder,
};
use crate::utils::str_eq;

verus! {

/// What the stores hold of a node graph: the interned names, the nodes, and
/// the pairs of an invalidator and its target.
pub struct Graph {
    pub names: Seq<Seq<char>>,
    pub nodes: Seq<Option<NodeDataView>>,
    pub pairs: Set<(NodeId, NodeId)>,
}

/// What loading node elements makes of a graph: the first error in document
/// order, or the graph with the nodes of the elements.
pub struct Loaded {
    pub error: Option<ParseErrorView>,
    pub graph: Graph,
}

/// The nodes `nodes` with the registers `regs`, stored from the first to
/// the last.
pub open spec fn spec_store_all(nodes: Seq<Option<NodeDataView>>, regs: Seq<MaskedIntRegView>)
    -> Seq<Option<NodeDataView>>
    decreases regs.len(),
{
    if regs.len() == 0 {
        nodes
    } else {
        spec_store_node(
            spec_store_all(nodes, regs.drop_last()),
            regs.last().attr_base.id,
            NodeDataView::MaskedIntReg(regs.last()),
        )
    }
}

/// What loading the node element `e` makes of the graph `g`.
///
/// The tag selects the kind of the node. A register brings its
/// invalidators with it. A struct register brings one masked integer
/// register for each of its entries. An element with another tag is
/// rejected.
#[verifier::opaque]
pub open spec fn spec_node_element(e: Element, g: Graph) -> Loaded {
    let tag = e.tag@;
    let attrs = e.attributes@;
    let rest = e.children@;
    if tag == INT_REG@ {
        let p = IntRegNode::spec_parse(tag, attrs, rest, g.names);
        let id = p.value.attr_base.id;
        Loaded {
            error: p.error,
            graph: Graph {
                names: p.names,
                nodes: spec_store_node(g.nodes, id, NodeDataView::IntReg(p.value)),
                pairs: g.pairs.union(p.value.register_base.invalidator_pairs(id)),
            },
        }
    } else if tag == MASKED_INT_REG@ {
        let p = MaskedIntRegNode::spec_parse(tag, attrs, rest, g.names);
        let id = p.value.attr_base.id;
        Loaded {
            error: p.error,
            graph: Graph {
                names: p.names,
                nodes: spec_store_node(g.nodes, id, NodeDataView::MaskedIntReg(p.value)),
                pairs: g.pairs.union(p.value.register_base.invalidator_pairs(id)),
            },
        }
    } else if tag == STRUCT_REG@ {
        let p = StructRegNode::spec_parse(tag, attrs, rest, g.names);
        let regs = p.value.masked_int_regs();
        Loaded {
            error: p.error,
            graph: Graph {
                names: p.names,
                nodes: spec_store_all(g.nodes, regs),
                pairs: g.pairs.union(invalidator_pairs_of(regs)),
            },
        }
    } else if tag == INT_SWISS_KNIFE@ {
        let p = IntSwissKnifeNode::spec_parse(tag, attrs, rest, g.names);
        Loaded {
            error: p.error,
            graph: Graph {
                names: p.names,
                nodes: spec_store_node(
                    g.nodes,
                    p.value.attr_base.id,
                    NodeDataView::IntSwissKnife(p.value),
                ),
                pairs: g.pairs,
            },
        }
    } else if tag == INT_CONVERTER@ {
        let p = IntConverterNode::spec_parse(tag, attrs, rest, g.names);
        Loaded {
            error: p.error,
            graph: Graph {
                names: p.names,
                nodes: spec_store_node(
                    g.nodes,
                    p.value.attr_base.id,
                    NodeDataView::IntConverter(p.value),
                ),
                pairs: g.pairs,
            },
        }
    } else {
        Loaded { error: Some(ParseErrorView::UnexpectedElement(tag)), graph: g }
    }
}

/// What loading the node elements `rest`, from the first to the last, makes
/// of the graph `g`.
pub open spec fn spec_node_elements(rest: Seq<Element>, g: Graph) -> Loaded
    decreases rest.len(),
{
    if rest.len() == 0 {
        Loaded { error: None, graph: g }
    } else {
        let head = spec_node_element(rest[0], g);
        if head.error is Some {
            head
        } else {
            spec_node_elements(rest.skip(1), head.graph)
        }
    }
}

/// What loading the register description `root` makes of the graph `g`:
/// the first error of the head of the description or, where it has none, of
/// its nodes.
pub open spec fn spec_document(root: Element, g: Graph) -> Loaded {
    let head = RegisterDescription::spec_error(root.tag@, root.attributes@);
    let nodes = spec_node_elements(root.children@, g);
    Loaded { error: first_error(head, nodes.error), graph: nodes.graph }
}

/// The graph that the builders hold.
pub open spec fn graph_of<NB: NodeStoreBuilder, CB: CacheStoreBuilder>(
    node_builder: &NB,
    cache_builder: &CB,
) -> Graph {
    Graph {
        names: node_builder.names(),
        nodes: node_builder.stored(),
        pairs: cache_builder.invalidators(),
    }
}

/// Stores the registers `regs`, from the first to the last.
fn store_all<NB: NodeStoreBuilder>(regs: Vec<MaskedIntRegNode>, node_builder: &mut NB)
    ensures
        final(node_builder).names() == old(node_builder).names(),
        final(node_builder).stored() == spec_store_all(
            old(node_builder).stored(),
            Seq::new(regs@.len(), |i: int| regs@[i]@),
        ),
{
    let ghost all = Seq::new(regs@.len(), |i: int| regs@[i]@);
    let mut regs = regs;
    let ghost mut done: int = 0;
    assert(all.take(0) =~= Seq::<MaskedIntRegView>::empty());
    while regs.len() > 0
        invariant
            0 <= done <= all.len(),
            regs@.len() == all.len() - done,
            forall|i: int| 0 <= i < regs@.len() ==> (#[trigger] regs@[i])@ == all[done + i],
            node_builder.names() == old(node_builder).names(),
            node_builder.stored() == spec_store_all(old(node_builder).stored(), all.take(done)),
        decreases regs@.len(),
    {
        let ghost before = regs@;
        let reg = regs.remove(0);
        proof {
            assert(reg == before[0]);
            assert(reg@ == all[done]);
            assert(all.take(done + 1).drop_last() =~= all.take(done));
            assert(all.take(done + 1).last() == all[done]);
            assert forall|i: int| 0 <= i < regs@.len() implies (#[trigger] regs@[i])@ == all[done
                + 1 + i] by {
                assert(regs@[i] == before[i + 1]);
            }
        }
        let id = reg.attr_base.id;
        node_builder.store_node(id, NodeData::MaskedIntReg(reg));
        proof {
            done = done + 1;
        }
    }
    assert(all.take(done) =~= all);
}

/// Loads the `IntReg` element under the cursor `node`.
fn load_int_reg<NB: NodeStoreBuilder, CB: CacheStoreBuilder>(
    node: &mut Node,
    node_builder: &mut NB,
    cache_builder: &mut CB,
) -> (r: Result<(), ParseError>)
    requires
        old(node).rest() == old(node).element().children@,
        old(node).element().tag@ == INT_REG@,
    ensures
        ({
            let loaded = spec_node_element(
                old(node).element(),
                graph_of(old(node_builder), old(cache_builder)),
            );
            match r {
                Ok(()) => loaded.error is None
                    && graph_of(final(node_builder), final(cache_builder))
                    == loaded.graph,
                Err(e) => loaded.error == Some(e@),
            }
        }),
{
    reveal(spec_node_element);
    let reg = IntRegNode::parse(node, node_builder)?;
    let id = reg.attr_base.id;
    reg.register_base.store_invalidators(id, cache_builder);
    node_builder.store_node(id, NodeData::IntReg(reg));
    Ok(())
}

/// Loads the `MaskedIntReg` element under the cursor `node`.
fn load_masked_int_reg<NB: NodeStoreBuilder, CB: CacheStoreBuilder>(
    node: &mut Node,
    node_builder: &mut NB,
    cache_builder: &mut CB,
) -> (r: Result<(), ParseError>)
    requires
        old(node).rest() == old(node).element().children@,
        old(node).element().tag@ != INT_REG@,
        old(node).element().tag@ == MASKED_INT_REG@,
    ensures
        ({
            let loaded = spec_node_element(
                old(node).element(),
                graph_of(old(node_builder), old(cache_builder)),
            );
            match r {
                Ok(()) => loaded.error is None
                    && graph_of(final(node_builder), final(cache_builder))
                    == loaded.graph,
                Err(e) => loaded.error == Some(e@),
            }
        }),
{
    reveal(spec_node_element);
    let reg = MaskedIntRegNode::parse(node, node_builder)?;
    let id = reg.attr_base.id;
    reg.register_base.store_invalidators(id, cache_builder);
    node_builder.store_node(id, NodeData::MaskedIntReg(reg));
    Ok(())
}

/// Loads the `StructReg` element under the cursor `node`.
fn load_struct_reg<NB: NodeStoreBuilder, VB: ValueStoreBuilder, CB: CacheStoreBuilder>(
    node: &mut Node,
    node_builder: &mut NB,
    value_builder: &mut VB,
    cache_builder: &mut CB,
) -> (r: Result<(), ParseError>)
    requires
        old(node).rest() == old(node).element().children@,
        old(node).element().tag@ != INT_REG@,
        old(node).element().tag@ != MASKED_INT_REG@,
        old(node).element().tag@ == STRUCT_REG@,
    ensures
        final(value_builder).values() == old(value_builder).values(),
        ({
            let loaded = spec_node_element(
                old(node).element(),
                graph_of(old(node_builder), old(cache_builder)),
            );
            match r {
                Ok(()) => loaded.error is None
                    && graph_of(final(node_builder), final(cache_builder))
                    == loaded.graph,
                Err(e) => loaded.error == Some(e@),
            }
        }),
{
    reveal(spec_node_element);
    let struct_reg = StructRegNode::parse(node, node_builder, value_builder, cache_builder)?;
    let ghost expected = struct_reg@.masked_int_regs();
    let regs = struct_reg.into_masked_int_regs(cache_builder);
    assert(Seq::new(regs@.len(), |i: int| regs@[i]@) =~= expected);
    store_all(regs, node_builder);
    Ok(())
}

/// Loads the `IntSwissKnife` element under the cursor `node`.
fn load_int_swiss_knife<NB: NodeStoreBuilder, CB: CacheStoreBuilder>(
    node: &mut Node,
    node_builder: &mut NB,
    cache_builder: &CB,
) -> (r: Result<(), ParseError>)
    requires
        old(node).rest() == old(node).element().children@,
        old(node).element().tag@ != INT_REG@,
        old(node).element().tag@ != MASKED_INT_REG@,
        old(node).element().tag@ != STRUCT_REG@,
        old(node).element().tag@ == INT_SWISS_KNIFE@,
    ensures
        ({
            let loaded = spec_node_element(
                old(node).element(),
                graph_of(old(node_builder), cache_builder),
            );
            match r {
                Ok(()) => loaded.error is None && graph_of(final(node_builder), cache_builder)
                    == loaded.graph,
                Err(e) => loaded.error == Some(e@),
            }
        }),
{
    reveal(spec_node_element);
    let knife = IntSwissKnifeNode::parse(node, node_builder)?;
    let id = knife.attr_base.id;
    node_builder.store_node(id, NodeData::IntSwissKnife(knife));
    Ok(())
}

/// Loads the `IntConverter` element under the cursor `node`.
fn load_int_converter<NB: NodeStoreBuilder, CB: CacheStoreBuilder>(
    node: &mut Node,
    node_builder: &mut NB,
    cache_builder: &CB,
) -> (r: Result<(), ParseError>)
    requires
        old(node).rest() == old(node).element().children@,
        old(node).element().tag@ != INT_REG@,
        old(node).element().tag@ != MASKED_INT_REG@,
        old(node).element().tag@ != STRUCT_REG@,
        old(node).element().tag@ != INT_SWISS_KNIFE@,
        old(node).element().tag@ == INT_CONVERTER@,
    ensures
        ({
            let loaded = spec_node_element(
                old(node).element(),
                graph_of(old(node_builder), cache_builder),
            );
            match r {
                Ok(()) => loaded.error is None && graph_of(final(node_builder), cache_builder)
                    == loaded.graph,
                Err(e) => loaded.error == Some(e@),
            }
        }),
{
    reveal(spec_node_element);
    let converter = IntConverterNode::parse(node, node_builder)?;
    let id = converter.attr_base.id;
    node_builder.store_node(id, NodeData::IntConverter(converter));
    Ok(())
}

/// Loads the node element under the cursor `node`.
fn load_node<NB: NodeStoreBuilder, VB: ValueStoreBuilder, CB: CacheStoreBuilder>(
    node: &mut Node,
    node_builder: &mut NB,
    value_builder: &mut VB,
    cache_builder: &mut CB,
) -> (r: Result<(), ParseError>)
    requires
        old(node).rest() == old(node).element().children@,
    ensures
        final(value_builder).values() == old(value_builder).values(),
        ({
            let loaded = spec_node_element(
                old(node).element(),
                graph_of(old(node_builder), old(cache_builder)),
            );
            match r {
                Ok(()) => loaded.error is None
                    && graph_of(final(node_builder), final(cache_builder))
                    == loaded.graph,
                Err(e) => loaded.error == Some(e@),
            }
        }),
{
    let tag = node.tag_name();
    if str_eq(tag, INT_REG) {
        load_int_reg(node, node_builder, cache_builder)
    } else if str_eq(tag, MASKED_INT_REG) {
        load_masked_int_reg(node, node_builder, cache_builder)
    } else if str_eq(tag, STRUCT_REG) {
        load_struct_reg(node, node_builder, value_builder, cache_builder)
    } else if str_eq(tag, INT_SWISS_KNIFE) {
        load_int_swiss_knife(node, node_builder, cache_builder)
    } else if str_eq(tag, INT_CONVERTER) {
        load_int_converter(node, node_builder, cache_builder)
    } else {
        reveal(spec_node_element);
        Err(unexpected_element(tag))
    }
}

/// Loads the register description `root`: reads its head, and stores its
/// nodes, the names that they refer to and their invalidators with the
/// builders.
///
/// Fails with the first error in document order; what the builders hold
/// then is not determined. The literal values are left as they are.
#[verifier::loop_isolation(false)]
pub fn parse_document<NB: NodeStoreBuilder, VB: ValueStoreBuilder, CB: CacheStoreBuilder>(
    root: &Element,
    node_builder: &mut NB,
    value_builder: &mut VB,
    cache_builder: &mut CB,
) -> (r: Result<RegisterDescription, ParseError>)
    ensures
        final(value_builder).values() == old(value_builder).values(),
        ({
            let loaded = spec_document(*root, graph_of(old(node_builder), old(cache_builder)));
            match r {
                Ok(d) => loaded.error is None && d@ == RegisterDescription::spec_value(
                    root.attributes@,
                ) && graph_of(final(node_builder), final(cache_builder)) == loaded.graph,
                Err(e) => loaded.error == Some(e@),
            }
        }),
{
    let mut node = Node::new(root);
    let description = RegisterDescription::parse(&node)?;
    let ghost whole = spec_node_elements(
        root.children@,
        graph_of(old(node_builder), old(cache_builder)),
    );
    loop
        invariant
            node.element() == *root,
            value_builder.values() == old(value_builder).values(),
            whole == spec_node_elements(
                root.children@,
                graph_of(old(node_builder), old(cache_builder)),
            ),
            whole == spec_node_elements(node.rest(), graph_of(node_builder, cache_builder)),
        decreases node.rest().len(),
    {
        match node.next() {
            Some(mut child) => {
                load_node(&mut child, node_builder, value_builder, cache_builder)?;
            },
            None => {
                return Ok(description);
            },
        }
    }
}

} // verus!
