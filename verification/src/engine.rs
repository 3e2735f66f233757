//! The evaluation engine: the integer value of a node of the graph.
//!
//! The value of a register is read through the device and the cache; its
//! address and its length may be values of other nodes. The value of a swiss
//! knife or a converter is a formula over the values of other nodes. A node
//! whose value depends on itself has no value.

use vstd::prelude::*;

use crate::elem_type::{AddressKind, ImmOrPNode, RegPIndex};
use crate::formula::{spec_eval, FormulaError, VarEnv};
use crate::node::{
    constant_views, variable_views, NamedConstant, NodeData, NodeDataView, Variable,
};
use crate::node_base::{clone_ids, NodeElementBase, NodeElementBaseView};
use crate::register_base::valid_range;
use crate::store::{CacheEntryView, CacheStore, DefaultNodeStore, NodeId};
use crate::{bytes_at, written, Device, GenApiError, GenApiResult};

verus! {

/// The kind of an error, without what it carries.
#[derive(Clone, Copy, Debug, PartialEq, Eq, Structural)]
pub enum ErrorKind {
    Device,
    AccessDenied,
    InvalidNode,
    InvalidData,
    ChunkDataMissing,
    InvalidBuffer,
    CycleDetected,
    Formula(FormulaError),
}

/// The kind of the error `e`.
pub open spec fn kind_of(e: GenApiError) -> ErrorKind {
    match e {
        GenApiError::Device(_) => ErrorKind::Device,
        GenApiError::AccessDenied(_) => ErrorKind::AccessDenied,
        GenApiError::InvalidNode(_) => ErrorKind::InvalidNode,
        GenApiError::InvalidData(_) => ErrorKind::InvalidData,
        GenApiError::ChunkDataMissing => ErrorKind::ChunkDataMissing,
        GenApiError::InvalidBuffer => ErrorKind::InvalidBuffer,
        GenApiError::CycleDetected => ErrorKind::CycleDetected,
        GenApiError::Formula(f) => ErrorKind::Formula(f),
    }
}

/// What a step of an evaluation yields where the device does not fail: a
/// value or the kind of an error, the cache after the step, and whether
/// the step asks the device for anything.
pub struct Step<T> {
    pub result: Result<T, ErrorKind>,
    pub entries: Map<NodeId, CacheEntryView>,
    pub asked: bool,
}

/// The step `next` in an evaluation that has asked the device before it
/// where `asked` holds.
pub open spec fn after<T>(asked: bool, next: Step<T>) -> Step<T> {
    Step { result: next.result, entries: next.entries, asked: asked || next.asked }
}

/// The step that fails with `kind`, leaves the cache at `entries` and does
/// not ask the device.
pub open spec fn failed<T>(kind: ErrorKind, entries: Map<NodeId, CacheEntryView>) -> Step<T> {
    Step { result: Err(kind), entries, asked: false }
}

/// The number `v` where 64 bits hold it, and `InvalidData` where not.
pub open spec fn in_64_bits(v: int, entries: Map<NodeId, CacheEntryView>) -> Step<i64> {
    if i64::MIN <= v <= i64::MAX {
        Step { result: Ok(v as i64), entries, asked: false }
    } else {
        failed(ErrorKind::InvalidData, entries)
    }
}

/// The value of the register `node` that is `length` bytes long at
/// `address`, where the memory of the device is `mem` and the cache holds
/// `entries`. The device is asked where the register may be read, the
/// address and the length are valid, and the cache does not hold the bytes.
pub open spec fn spec_register_value(
    node: NodeDataView,
    address: i64,
    length: i64,
    mem: Map<int, u8>,
    entries: Map<NodeId, CacheEntryView>,
) -> Step<i64> {
    match node {
        NodeDataView::IntReg(reg) => {
            let base = reg.register_base;
            let id = reg.attr_base.id;
            if !base.readable() {
                failed(ErrorKind::AccessDenied, entries)
            } else if !valid_range(address, length) {
                failed(ErrorKind::InvalidData, entries)
            } else {
                let bytes = base.bytes_read(id, address, length, mem, entries);
                let fetched = base.entries_after_fetch(id, address, length, mem, entries);
                let asked = base.cached(id, address, length, entries) is None;
                if bytes.len() <= 8 && reg.spec_value(bytes) <= i64::MAX {
                    Step { result: Ok(reg.spec_value(bytes) as i64), entries: fetched, asked }
                } else {
                    after(asked, failed(ErrorKind::InvalidData, fetched))
                }
            }
        },
        NodeDataView::MaskedIntReg(reg) => {
            let base = reg.register_base;
            let id = reg.attr_base.id;
            if !base.readable() {
                failed(ErrorKind::AccessDenied, entries)
            } else if !valid_range(address, length) {
                failed(ErrorKind::InvalidData, entries)
            } else {
                let bytes = base.bytes_read(id, address, length, mem, entries);
                let fetched = base.entries_after_fetch(id, address, length, mem, entries);
                let asked = base.cached(id, address, length, entries) is None;
                match reg.spec_value(bytes) {
                    Some(v) => if v <= i64::MAX {
                        Step { result: Ok(v as i64), entries: fetched, asked }
                    } else {
                        after(asked, failed(ErrorKind::InvalidData, fetched))
                    },
                    None => after(asked, failed(ErrorKind::InvalidData, fetched)),
                }
            }
        },
        _ => failed(ErrorKind::InvalidNode, entries),
    }
}

/// The value of a formula as the result of a step.
pub open spec fn formula_step(
    value: Result<i64, FormulaError>,
    entries: Map<NodeId, CacheEntryView>,
) -> Step<i64> {
    match value {
        Ok(v) => Step { result: Ok(v), entries, asked: false },
        Err(e) => failed(ErrorKind::Formula(e), entries),
    }
}

/// The integer value of the node `nid` of `nodes`, where the memory of the
/// device is `mem`, the cache holds `entries`, and the values of the nodes
/// `in_flight` are being computed.
///
/// A node that is in flight has no value: its value would depend on itself.
/// An id without a node has no value either. The predicates of the node
/// are asked first, and the node has no value where they deny the access.
///
/// - The value of a register is what its bytes hold; the address of the
///   register is the sum of its address elements, and the address and the
///   length are computed first, in this order.
/// - The value of a swiss knife is the value of its formula, with its
///   constants and the values of its variables bound, the variables from
///   the first to the last.
/// - The value of a converter is the value of its formula `from`, with the
///   value of the node behind it bound to `FROM`.
pub open spec fn spec_int_value(
    nodes: Seq<Option<NodeDataView>>,
    nid: NodeId,
    mem: Map<int, u8>,
    entries: Map<NodeId, CacheEntryView>,
    in_flight: Seq<NodeId>,
) -> Step<i64>
    decreases nodes.len() - in_flight.len(), 0nat,
{
    if in_flight.contains(nid) || in_flight.len() >= nodes.len() {
        failed(ErrorKind::CycleDetected, entries)
    } else if nid.0 >= nodes.len() || nodes[nid.0 as int] is None {
        failed(ErrorKind::InvalidNode, entries)
    } else {
        let deeper = in_flight.push(nid);
        let node = nodes[nid.0 as int].unwrap();
        let gate = spec_gate(nodes, elem_base_of(node), false, mem, entries, deeper);
        after(gate.asked, match gate.result {
            Err(e) => failed(e, gate.entries),
            Ok(_) => {
                let entries = gate.entries;
                match node {
                    NodeDataView::IntReg(reg) => {
                        let address = spec_address(
                            nodes,
                            reg.register_base.address_kinds,
                            mem,
                            entries,
                            deeper,
                        );
                        after(address.asked, match address.result {
                            Ok(a) => {
                                let length = spec_operand(
                                    nodes,
                                    reg.register_base.length,
                                    mem,
                                    address.entries,
                                    deeper,
                                );
                                after(length.asked, match length.result {
                                    Ok(l) => spec_register_value(node, a, l, mem, length.entries),
                                    Err(e) => failed(e, length.entries),
                                })
                            },
                            Err(e) => failed(e, address.entries),
                        })
                    },
                    NodeDataView::MaskedIntReg(reg) => {
                        let address = spec_address(
                            nodes,
                            reg.register_base.address_kinds,
                            mem,
                            entries,
                            deeper,
                        );
                        after(address.asked, match address.result {
                            Ok(a) => {
                                let length = spec_operand(
                                    nodes,
                                    reg.register_base.length,
                                    mem,
                                    address.entries,
                                    deeper,
                                );
                                after(length.asked, match length.result {
                                    Ok(l) => spec_register_value(node, a, l, mem, length.entries),
                                    Err(e) => failed(e, length.entries),
                                })
                            },
                            Err(e) => failed(e, address.entries),
                        })
                    },
                    NodeDataView::IntSwissKnife(knife) => {
                        let env = spec_bind(
                            nodes,
                            knife.p_variables,
                            mem,
                            entries,
                            deeper,
                            knife.constants.reverse(),
                        );
                        after(env.asked, match env.result {
                            Ok(bindings) => formula_step(spec_eval(knife.formula, bindings), env.entries),
                            Err(e) => failed(e, env.entries),
                        })
                    },
                    NodeDataView::IntConverter(converter) => {
                        let from = spec_int_value(nodes, converter.p_value, mem, entries, deeper);
                        after(from.asked, match from.result {
                            Ok(v) => {
                                let env = spec_bind(
                                    nodes,
                                    converter.p_variables,
                                    mem,
                                    from.entries,
                                    deeper,
                                    seq![("FROM"@, v)] + converter.constants.reverse(),
                                );
                                after(env.asked, match env.result {
                                    Ok(bindings) => formula_step(
                                        spec_eval(converter.formula_from, bindings),
                                        env.entries,
                                    ),
                                    Err(e) => failed(e, env.entries),
                                })
                            },
                            Err(e) => failed(e, from.entries),
                        })
                    },
                }
            },
        })
    }
}

/// The descriptive elements of the node `node`.
pub open spec fn elem_base_of(node: NodeDataView) -> NodeElementBaseView {
    match node {
        NodeDataView::IntReg(reg) => reg.register_base.elem_base,
        NodeDataView::MaskedIntReg(reg) => reg.register_base.elem_base,
        NodeDataView::IntSwissKnife(knife) => knife.elem_base,
        NodeDataView::IntConverter(converter) => converter.elem_base,
    }
}

/// A predicate of a node as an operand: the node that yields it, or
/// `default` where the node names none.
pub open spec fn predicate(node: Option<NodeId>, default: i64) -> ImmOrPNode<i64> {
    match node {
        Some(n) => ImmOrPNode::PNode(n),
        None => ImmOrPNode::Imm(default),
    }
}

/// Whether the predicates of a node with the descriptive elements `base`
/// let an access through: the node is implemented, it is available, and,
/// for a write, it is not locked. A predicate holds where its node yields
/// another number than 0. The predicates are evaluated in this order; the
/// first that forbids the access denies it, and the later ones are not
/// evaluated then.
pub open spec fn spec_gate(
    nodes: Seq<Option<NodeDataView>>,
    base: NodeElementBaseView,
    write: bool,
    mem: Map<int, u8>,
    entries: Map<NodeId, CacheEntryView>,
    in_flight: Seq<NodeId>,
) -> Step<()>
    decreases nodes.len() - in_flight.len(), 2nat,
{
    let implemented = spec_operand(nodes, predicate(base.p_is_implemented, 1), mem, entries, in_flight);
    after(implemented.asked, match implemented.result {
        Err(e) => failed(e, implemented.entries),
        Ok(i) => if i == 0 {
            failed(ErrorKind::AccessDenied, implemented.entries)
        } else {
            let available = spec_operand(
                nodes,
                predicate(base.p_is_available, 1),
                mem,
                implemented.entries,
                in_flight,
            );
            after(available.asked, match available.result {
                Err(e) => failed(e, available.entries),
                Ok(a) => if a == 0 {
                    failed(ErrorKind::AccessDenied, available.entries)
                } else if !write {
                    Step { result: Ok(()), entries: available.entries, asked: false }
                } else {
                    let locked = spec_operand(
                        nodes,
                        predicate(base.p_is_locked, 0),
                        mem,
                        available.entries,
                        in_flight,
                    );
                    after(locked.asked, match locked.result {
                        Err(e) => failed(e, locked.entries),
                        Ok(l) => if l != 0 {
                            failed(ErrorKind::AccessDenied, locked.entries)
                        } else {
                            Step { result: Ok(()), entries: locked.entries, asked: false }
                        },
                    })
                },
            })
        },
    })
}

/// The value of an operand: the number itself, or the value of a node.
pub open spec fn spec_operand(
    nodes: Seq<Option<NodeDataView>>,
    operand: ImmOrPNode<i64>,
    mem: Map<int, u8>,
    entries: Map<NodeId, CacheEntryView>,
    in_flight: Seq<NodeId>,
) -> Step<i64>
    decreases nodes.len() - in_flight.len(), 1nat,
{
    match operand {
        ImmOrPNode::Imm(v) => Step { result: Ok(v), entries, asked: false },
        ImmOrPNode::PNode(n) => spec_int_value(nodes, n, mem, entries, in_flight),
    }
}

/// What one address element adds to an address: a constant or the value of
/// a node; or the value of an index node, multiplied by its offset where it
/// has one. A product beyond 64 bits is `InvalidData`.
pub open spec fn spec_address_term(
    nodes: Seq<Option<NodeDataView>>,
    kind: AddressKind,
    mem: Map<int, u8>,
    entries: Map<NodeId, CacheEntryView>,
    in_flight: Seq<NodeId>,
) -> Step<i64>
    decreases nodes.len() - in_flight.len(), 2nat,
{
    match kind {
        AddressKind::Address(operand) => spec_operand(nodes, operand, mem, entries, in_flight),
        AddressKind::PIndex(RegPIndex { offset, p_index }) => {
            let index = spec_int_value(nodes, p_index, mem, entries, in_flight);
            after(index.asked, match index.result {
                Ok(i) => match offset {
                    Some(operand) => {
                        let scale = spec_operand(nodes, operand, mem, index.entries, in_flight);
                        after(scale.asked, match scale.result {
                            Ok(s) => in_64_bits(i * s, scale.entries),
                            Err(e) => failed(e, scale.entries),
                        })
                    },
                    None => index,
                },
                Err(e) => failed(e, index.entries),
            })
        },
    }
}

/// The address of a register: the sum of its address elements, from the
/// first to the last. A sum beyond 64 bits is `InvalidData`.
pub open spec fn spec_address(
    nodes: Seq<Option<NodeDataView>>,
    kinds: Seq<AddressKind>,
    mem: Map<int, u8>,
    entries: Map<NodeId, CacheEntryView>,
    in_flight: Seq<NodeId>,
) -> Step<i64>
    decreases nodes.len() - in_flight.len(), 3 + kinds.len(),
{
    if kinds.len() == 0 {
        Step { result: Ok(0), entries, asked: false }
    } else {
        let before = spec_address(nodes, kinds.drop_last(), mem, entries, in_flight);
        after(before.asked, match before.result {
            Ok(sum) => {
                let term = spec_address_term(nodes, kinds.last(), mem, before.entries, in_flight);
                after(term.asked, match term.result {
                    Ok(t) => in_64_bits(sum + t, term.entries),
                    Err(e) => failed(e, term.entries),
                })
            },
            Err(e) => failed(e, before.entries),
        })
    }
}

/// The bindings of a formula: the values of the variables `vars`, from the
/// first to the last, each in front of the bindings before it, which start
/// with `bound`.
pub open spec fn spec_bind(
    nodes: Seq<Option<NodeDataView>>,
    vars: Seq<(Seq<char>, NodeId)>,
    mem: Map<int, u8>,
    entries: Map<NodeId, CacheEntryView>,
    in_flight: Seq<NodeId>,
    bound: Seq<(Seq<char>, i64)>,
) -> Step<Seq<(Seq<char>, i64)>>
    decreases nodes.len() - in_flight.len(), 3 + vars.len(),
{
    if vars.len() == 0 {
        Step { result: Ok(bound), entries, asked: false }
    } else {
        let before = spec_bind(nodes, vars.drop_last(), mem, entries, in_flight, bound);
        after(before.asked, match before.result {
            Ok(bindings) => {
                let value = spec_int_value(nodes, vars.last().1, mem, before.entries, in_flight);
                after(value.asked, match value.result {
                    Ok(v) => Step {
                        result: Ok(seq![(vars.last().0, v)] + bindings),
                        entries: value.entries,
                        asked: false,
                    },
                    Err(e) => failed(e, value.entries),
                })
            },
            Err(e) => failed(e, before.entries),
        })
    }
}

/// Whether the result `r` of a step and the cache `entries` after it are
/// those of `step`. Only a step that asks the device can fail with the
/// error of the device, and the cache is bound to nothing then; a step that
/// does not ask the device yields what `step` says.
pub open spec fn agrees<T>(
    r: GenApiResult<T>,
    entries: Map<NodeId, CacheEntryView>,
    step: Step<T>,
) -> bool {
    match r {
        Ok(v) => step.result == Ok::<T, ErrorKind>(v) && entries == step.entries,
        Err(e) => if kind_of(e) == ErrorKind::Device {
            step.asked
        } else {
            step.result == Err::<T, ErrorKind>(kind_of(e)) && entries == step.entries
        },
    }
}


/// Where a part of the address elements has no address, the whole has
/// none, for the same reason and with the same cache.
pub proof fn lemma_address_error_prefix(
    nodes: Seq<Option<NodeDataView>>,
    kinds: Seq<AddressKind>,
    n: int,
    mem: Map<int, u8>,
    entries: Map<NodeId, CacheEntryView>,
    in_flight: Seq<NodeId>,
)
    requires
        0 <= n <= kinds.len(),
        spec_address(nodes, kinds.take(n), mem, entries, in_flight).result is Err,
    ensures
        spec_address(nodes, kinds, mem, entries, in_flight) == spec_address(
            nodes,
            kinds.take(n),
            mem,
            entries,
            in_flight,
        ),
    decreases kinds.len() - n,
{
    if n < kinds.len() {
        assert(kinds.take(n + 1).drop_last() =~= kinds.take(n));
        lemma_address_error_prefix(nodes, kinds, n + 1, mem, entries, in_flight);
    } else {
        assert(kinds.take(n) =~= kinds);
    }
}

/// Where the device is asked for a part of the address elements, it is
/// asked for the whole.
pub proof fn lemma_address_asked_prefix(
    nodes: Seq<Option<NodeDataView>>,
    kinds: Seq<AddressKind>,
    n: int,
    mem: Map<int, u8>,
    entries: Map<NodeId, CacheEntryView>,
    in_flight: Seq<NodeId>,
)
    requires
        0 <= n <= kinds.len(),
        spec_address(nodes, kinds.take(n), mem, entries, in_flight).asked,
    ensures
        spec_address(nodes, kinds, mem, entries, in_flight).asked,
    decreases kinds.len() - n,
{
    if n < kinds.len() {
        assert(kinds.take(n + 1).drop_last() =~= kinds.take(n));
        lemma_address_asked_prefix(nodes, kinds, n + 1, mem, entries, in_flight);
    } else {
        assert(kinds.take(n) =~= kinds);
    }
}

/// Where the device is asked for a part of the variables, it is asked for
/// the whole.
pub proof fn lemma_bind_asked_prefix(
    nodes: Seq<Option<NodeDataView>>,
    vars: Seq<(Seq<char>, NodeId)>,
    n: int,
    mem: Map<int, u8>,
    entries: Map<NodeId, CacheEntryView>,
    in_flight: Seq<NodeId>,
    bound: Seq<(Seq<char>, i64)>,
)
    requires
        0 <= n <= vars.len(),
        spec_bind(nodes, vars.take(n), mem, entries, in_flight, bound).asked,
    ensures
        spec_bind(nodes, vars, mem, entries, in_flight, bound).asked,
    decreases vars.len() - n,
{
    if n < vars.len() {
        assert(vars.take(n + 1).drop_last() =~= vars.take(n));
        lemma_bind_asked_prefix(nodes, vars, n + 1, mem, entries, in_flight, bound);
    } else {
        assert(vars.take(n) =~= vars);
    }
}

/// Where a part of the variables cannot be bound, the whole cannot, for
/// the same reason and with the same cache.
pub proof fn lemma_bind_error_prefix(
    nodes: Seq<Option<NodeDataView>>,
    vars: Seq<(Seq<char>, NodeId)>,
    n: int,
    mem: Map<int, u8>,
    entries: Map<NodeId, CacheEntryView>,
    in_flight: Seq<NodeId>,
    bound: Seq<(Seq<char>, i64)>,
)
    requires
        0 <= n <= vars.len(),
        spec_bind(nodes, vars.take(n), mem, entries, in_flight, bound).result is Err,
    ensures
        spec_bind(nodes, vars, mem, entries, in_flight, bound).result == spec_bind(
            nodes,
            vars.take(n),
            mem,
            entries,
            in_flight,
            bound,
        ).result,
        spec_bind(nodes, vars, mem, entries, in_flight, bound).entries == spec_bind(
            nodes,
            vars.take(n),
            mem,
            entries,
            in_flight,
            bound,
        ).entries,
        spec_bind(nodes, vars, mem, entries, in_flight, bound).asked == spec_bind(
            nodes,
            vars.take(n),
            mem,
            entries,
            in_flight,
            bound,
        ).asked,
    decreases vars.len() - n,
{
    if n < vars.len() {
        assert(vars.take(n + 1).drop_last() =~= vars.take(n));
        lemma_bind_error_prefix(nodes, vars, n + 1, mem, entries, in_flight, bound);
    } else {
        assert(vars.take(n) =~= vars);
    }
}

/// Whether `id` is among `ids`.
fn contains_id(ids: &Vec<NodeId>, id: NodeId) -> (r: bool)
    ensures
        r == ids@.contains(id),
{
    let mut i: usize = 0;
    while i < ids.len()
        invariant
            i <= ids@.len(),
            forall|k: int| 0 <= k < i ==> ids@[k] != id,
        decreases ids@.len() - i,
    {
        if ids[i] == id {
            return true;
        }
        i += 1;
    }
    false
}

/// One more item of a sequence, reversed, stands in front of the items
/// before it, reversed.
proof fn lemma_reverse_grows<A>(s: Seq<A>, i: int)
    requires
        0 <= i < s.len(),
    ensures
        s.take(i + 1).reverse() == seq![s[i]] + s.take(i).reverse(),
{
    assert(s.take(i + 1).reverse() =~= seq![s[i]] + s.take(i).reverse());
}

/// Joining three sequences from the left or from the right is the same.
proof fn lemma_joined<A>(a: Seq<A>, b: Seq<A>, c: Seq<A>)
    ensures
        a + (b + c) == (a + b) + c,
{
    assert(a + (b + c) =~= (a + b) + c);
}

/// Binds the constants `constants`, from the first to the last.
fn bind_constants(constants: &Vec<NamedConstant>, env: &mut VarEnv)
    ensures
        final(env)@ == constant_views(constants@).reverse() + old(env)@,
{
    let mut i: usize = 0;
    assert(constant_views(constants@).take(0).reverse() + env@ =~= env@);
    while i < constants.len()
        invariant
            i <= constants@.len(),
            env@ == constant_views(constants@).take(i as int).reverse() + old(env)@,
        decreases constants@.len() - i,
    {
        let ghost before = constant_views(constants@).take(i as int);
        let ghost grown = constant_views(constants@).take(i + 1);
        let ghost bound = env@;
        env.bind(constants[i].name.as_str(), constants[i].value);
        proof {
            let c = (constants@[i as int].name@, constants@[i as int].value);
            assert(constant_views(constants@)[i as int] == c);
            lemma_reverse_grows(constant_views(constants@), i as int);
            assert(env@ == seq![c] + bound);
            lemma_joined(seq![c], before.reverse(), old(env)@);
        }
        i += 1;
    }
    assert(constant_views(constants@).take(i as int) =~= constant_views(constants@));
}

/// The integer value of the node `nid`, where the values of the nodes
/// `in_flight` are being computed.
fn node_value<D: Device, U: CacheStore>(
    store: &DefaultNodeStore,
    nid: NodeId,
    device: &mut D,
    cache: &mut U,
    in_flight: &Vec<NodeId>,
) -> (r: GenApiResult<i64>)
    ensures
        final(cache).pairs() == old(cache).pairs(),
        (*final(device)).memory() == (*old(device)).memory(),
        agrees(
            r,
            final(cache).entries(),
            spec_int_value(
                store.nodes(),
                nid,
                (*old(device)).memory(),
                old(cache).entries(),
                in_flight@,
            ),
        ),
    decreases store.nodes().len() - in_flight@.len(), 0nat,
{
    if contains_id(in_flight, nid) || in_flight.len() >= store.node_capacity() {
        return Err(GenApiError::CycleDetected);
    }
    let node = match store.node_opt(nid) {
        Some(node) => node,
        None => {
            return Err(GenApiError::InvalidNode("there is no node with the id"));
        },
    };
    let mut deeper = clone_ids(in_flight);
    deeper.push(nid);
    gate(store, elem_base_ref(node), false, device, cache, &deeper)?;
    match node {
        NodeData::IntReg(reg) => {
            let address = address_value(
                store,
                &reg.register_base.address_kinds,
                device,
                cache,
                &deeper,
            )?;
            let length = operand_value(store, reg.register_base.length, device, cache, &deeper)?;
            reg.value_at(address, length, device, cache)
        },
        NodeData::MaskedIntReg(reg) => {
            let address = address_value(
                store,
                &reg.register_base.address_kinds,
                device,
                cache,
                &deeper,
            )?;
            let length = operand_value(store, reg.register_base.length, device, cache, &deeper)?;
            reg.value_at(address, length, device, cache)
        },
        NodeData::IntSwissKnife(knife) => {
            let mut env = VarEnv::new();
            bind_constants(&knife.constants, &mut env);
            assert(env@ =~= constant_views(knife.constants@).reverse());
            bind_variables(store, &knife.p_variables, &mut env, device, cache, &deeper)?;
            match knife.formula.eval(&env) {
                Ok(v) => Ok(v),
                Err(e) => Err(GenApiError::Formula(e)),
            }
        },
        NodeData::IntConverter(converter) => {
            let from = node_value(store, converter.p_value, device, cache, &deeper)?;
            let mut env = VarEnv::new();
            bind_constants(&converter.constants, &mut env);
            env.bind("FROM", from);
            assert(env@ =~= seq![("FROM"@, from)] + constant_views(converter.constants@).reverse());
            bind_variables(store, &converter.p_variables, &mut env, device, cache, &deeper)?;
            match converter.formula_from.eval(&env) {
                Ok(v) => Ok(v),
                Err(e) => Err(GenApiError::Formula(e)),
            }
        },
    }
}

/// The descriptive elements of the node `node`.
fn elem_base_ref(node: &NodeData) -> (r: &NodeElementBase)
    ensures
        r@ == elem_base_of(node@),
{
    match node {
        NodeData::IntReg(reg) => &reg.register_base.elem_base,
        NodeData::MaskedIntReg(reg) => &reg.register_base.elem_base,
        NodeData::IntSwissKnife(knife) => &knife.elem_base,
        NodeData::IntConverter(converter) => &converter.elem_base,
    }
}

/// A predicate of a node as an operand.
fn predicate_of(node: Option<NodeId>, default: i64) -> (r: ImmOrPNode<i64>)
    ensures
        r == predicate(node, default),
{
    match node {
        Some(n) => ImmOrPNode::PNode(n),
        None => ImmOrPNode::Imm(default),
    }
}

/// Lets an access to a node with the descriptive elements `base` through
/// where its predicates allow it.
fn gate<D: Device, U: CacheStore>(
    store: &DefaultNodeStore,
    base: &NodeElementBase,
    write: bool,
    device: &mut D,
    cache: &mut U,
    in_flight: &Vec<NodeId>,
) -> (r: GenApiResult<()>)
    ensures
        final(cache).pairs() == old(cache).pairs(),
        (*final(device)).memory() == (*old(device)).memory(),
        agrees(
            r,
            final(cache).entries(),
            spec_gate(
                store.nodes(),
                base@,
                write,
                (*old(device)).memory(),
                old(cache).entries(),
                in_flight@,
            ),
        ),
    decreases store.nodes().len() - in_flight@.len(), 2nat,
{
    let implemented = operand_value(
        store,
        predicate_of(base.p_is_implemented, 1),
        device,
        cache,
        in_flight,
    )?;
    if implemented == 0 {
        return Err(GenApiError::AccessDenied("the node is not implemented"));
    }
    let available = operand_value(
        store,
        predicate_of(base.p_is_available, 1),
        device,
        cache,
        in_flight,
    )?;
    if available == 0 {
        return Err(GenApiError::AccessDenied("the node is not available"));
    }
    if write {
        let locked = operand_value(
            store,
            predicate_of(base.p_is_locked, 0),
            device,
            cache,
            in_flight,
        )?;
        if locked != 0 {
            return Err(GenApiError::AccessDenied("the node is locked"));
        }
    }
    Ok(())
}

/// The value of an operand.
fn operand_value<D: Device, U: CacheStore>(
    store: &DefaultNodeStore,
    operand: ImmOrPNode<i64>,
    device: &mut D,
    cache: &mut U,
    in_flight: &Vec<NodeId>,
) -> (r: GenApiResult<i64>)
    ensures
        final(cache).pairs() == old(cache).pairs(),
        (*final(device)).memory() == (*old(device)).memory(),
        agrees(
            r,
            final(cache).entries(),
            spec_operand(
                store.nodes(),
                operand,
                (*old(device)).memory(),
                old(cache).entries(),
                in_flight@,
            ),
        ),
    decreases store.nodes().len() - in_flight@.len(), 1nat,
{
    match operand {
        ImmOrPNode::Imm(v) => Ok(v),
        ImmOrPNode::PNode(n) => node_value(store, n, device, cache, in_flight),
    }
}

/// What one address element adds to an address.
fn address_term<D: Device, U: CacheStore>(
    store: &DefaultNodeStore,
    kind: AddressKind,
    device: &mut D,
    cache: &mut U,
    in_flight: &Vec<NodeId>,
) -> (r: GenApiResult<i64>)
    ensures
        final(cache).pairs() == old(cache).pairs(),
        (*final(device)).memory() == (*old(device)).memory(),
        agrees(
            r,
            final(cache).entries(),
            spec_address_term(
                store.nodes(),
                kind,
                (*old(device)).memory(),
                old(cache).entries(),
                in_flight@,
            ),
        ),
    decreases store.nodes().len() - in_flight@.len(), 2nat,
{
    match kind {
        AddressKind::Address(operand) => operand_value(store, operand, device, cache, in_flight),
        AddressKind::PIndex(RegPIndex { offset, p_index }) => {
            let index = node_value(store, p_index, device, cache, in_flight)?;
            match offset {
                Some(operand) => {
                    let scale = operand_value(store, operand, device, cache, in_flight)?;
                    match index.checked_mul(scale) {
                        Some(v) => Ok(v),
                        None => Err(
                            GenApiError::InvalidData("the address is out of range".to_owned()),
                        ),
                    }
                },
                None => Ok(index),
            }
        },
    }
}

/// The address of a register with the address elements `kinds`.
#[verifier::loop_isolation(false)]
fn address_value<D: Device, U: CacheStore>(
    store: &DefaultNodeStore,
    kinds: &Vec<AddressKind>,
    device: &mut D,
    cache: &mut U,
    in_flight: &Vec<NodeId>,
) -> (r: GenApiResult<i64>)
    ensures
        final(cache).pairs() == old(cache).pairs(),
        (*final(device)).memory() == (*old(device)).memory(),
        agrees(
            r,
            final(cache).entries(),
            spec_address(
                store.nodes(),
                kinds@,
                (*old(device)).memory(),
                old(cache).entries(),
                in_flight@,
            ),
        ),
    decreases store.nodes().len() - in_flight@.len(), 3 + kinds@.len(),
{
    let ghost nodes = store.nodes();
    let ghost mem = (*old(device)).memory();
    let ghost entries = old(cache).entries();
    let mut sum: i64 = 0;
    let mut i: usize = 0;
    assert(kinds@.take(0) =~= Seq::<AddressKind>::empty());
    while i < kinds.len()
        invariant
            i <= kinds@.len(),
            nodes == store.nodes(),
            cache.pairs() == old(cache).pairs(),
            (*device).memory() == mem,
            spec_address(nodes, kinds@.take(i as int), mem, entries, in_flight@).result == Ok::<
                i64,
                ErrorKind,
            >(sum),
            spec_address(nodes, kinds@.take(i as int), mem, entries, in_flight@).entries
                == cache.entries(),
        decreases kinds@.len() - i,
    {
        proof {
            assert(kinds@.take(i + 1).drop_last() =~= kinds@.take(i as int));
            assert(kinds@.take(i + 1).last() == kinds@[i as int]);
        }
        let term = match address_term(store, kinds[i], device, cache, in_flight) {
            Ok(term) => term,
            Err(e) => {
                proof {
                    if kind_of(e) != ErrorKind::Device {
                        lemma_address_error_prefix(nodes, kinds@, i + 1, mem, entries, in_flight@);
                    } else {
                        lemma_address_asked_prefix(nodes, kinds@, i + 1, mem, entries, in_flight@);
                    }
                }
                return Err(e);
            },
        };
        sum = match sum.checked_add(term) {
            Some(v) => v,
            None => {
                proof {
                    lemma_address_error_prefix(nodes, kinds@, i + 1, mem, entries, in_flight@);
                }
                return Err(GenApiError::InvalidData("the address is out of range".to_owned()));
            },
        };
        i += 1;
    }
    assert(kinds@.take(i as int) =~= kinds@);
    Ok(sum)
}

/// Binds the values of the variables `vars`, from the first to the last.
#[verifier::loop_isolation(false)]
fn bind_variables<D: Device, U: CacheStore>(
    store: &DefaultNodeStore,
    vars: &Vec<Variable>,
    env: &mut VarEnv,
    device: &mut D,
    cache: &mut U,
    in_flight: &Vec<NodeId>,
) -> (r: GenApiResult<()>)
    ensures
        final(cache).pairs() == old(cache).pairs(),
        (*final(device)).memory() == (*old(device)).memory(),
        ({
            let step = spec_bind(
                store.nodes(),
                variable_views(vars@),
                (*old(device)).memory(),
                old(cache).entries(),
                in_flight@,
                old(env)@,
            );
            match r {
                Ok(()) => step.result == Ok::<Seq<(Seq<char>, i64)>, ErrorKind>(final(env)@)
                    && final(cache).entries() == step.entries,
                Err(e) => if kind_of(e) == ErrorKind::Device {
                    step.asked
                } else {
                    step.result == Err::<Seq<(Seq<char>, i64)>, ErrorKind>(kind_of(e))
                        && final(cache).entries() == step.entries
                },
            }
        }),
    decreases store.nodes().len() - in_flight@.len(), 3 + vars@.len(),
{
    let ghost nodes = store.nodes();
    let ghost mem = (*old(device)).memory();
    let ghost entries = old(cache).entries();
    let ghost views = variable_views(vars@);
    let ghost bound = old(env)@;
    let mut i: usize = 0;
    assert(views.take(0) =~= Seq::<(Seq<char>, NodeId)>::empty());
    while i < vars.len()
        invariant
            i <= vars@.len(),
            nodes == store.nodes(),
            views == variable_views(vars@),
            cache.pairs() == old(cache).pairs(),
            (*device).memory() == mem,
            spec_bind(nodes, views.take(i as int), mem, entries, in_flight@, bound).result == Ok::<
                Seq<(Seq<char>, i64)>,
                ErrorKind,
            >(env@),
            spec_bind(nodes, views.take(i as int), mem, entries, in_flight@, bound).entries
                == cache.entries(),
        decreases vars@.len() - i,
    {
        proof {
            assert(views.take(i + 1).drop_last() =~= views.take(i as int));
            assert(views.take(i + 1).last() == views[i as int]);
        }
        let value = match node_value(store, vars[i].node, device, cache, in_flight) {
            Ok(value) => value,
            Err(e) => {
                proof {
                    if kind_of(e) != ErrorKind::Device {
                        lemma_bind_error_prefix(
                            nodes,
                            views,
                            i + 1,
                            mem,
                            entries,
                            in_flight@,
                            bound,
                        );
                    } else {
                        lemma_bind_asked_prefix(
                            nodes,
                            views,
                            i + 1,
                            mem,
                            entries,
                            in_flight@,
                            bound,
                        );
                    }
                }
                return Err(e);
            },
        };
        env.bind(vars[i].name.as_str(), value);
        i += 1;
    }
    assert(views.take(i as int) =~= views);
    Ok(())
}

/// The integer value of the node `nid` of `store`.
///
/// The device is only read. Where the device fails, its error is handed
/// on; otherwise the result is the value of the node, or the first error
/// on the way to it, and the cache holds what was read from the device on
/// that way. A value for which the device is not asked, because it takes
/// no register or the cache holds every register on the way, does not
/// fail with the error of the device.
pub fn int_value<D: Device, U: CacheStore>(
    store: &DefaultNodeStore,
    nid: NodeId,
    device: &mut D,
    cache: &mut U,
) -> (r: GenApiResult<i64>)
    ensures
        final(cache).pairs() == old(cache).pairs(),
        (*final(device)).memory() == (*old(device)).memory(),
        agrees(
            r,
            final(cache).entries(),
            spec_int_value(
                store.nodes(),
                nid,
                (*old(device)).memory(),
                old(cache).entries(),
                Seq::empty(),
            ),
        ),
{
    let in_flight: Vec<NodeId> = Vec::new();
    node_value(store, nid, device, cache, &in_flight)
}


/// What a write yields where the device does not fail: success or the kind
/// of an error, and the memory of the device and the cache after it.
pub struct WriteStep {
    pub result: Result<(), ErrorKind>,
    pub mem: Map<int, u8>,
    pub entries: Map<NodeId, CacheEntryView>,
    pub asked: bool,
}

/// The write `next` after an evaluation that has asked the device where
/// `asked` holds.
pub open spec fn after_write(asked: bool, next: WriteStep) -> WriteStep {
    WriteStep {
        result: next.result,
        mem: next.mem,
        entries: next.entries,
        asked: asked || next.asked,
    }
}

/// The write that fails with `kind`, leaves the memory at `mem` and the
/// cache at `entries`, and does not ask the device.
pub open spec fn write_failed(
    kind: ErrorKind,
    mem: Map<int, u8>,
    entries: Map<NodeId, CacheEntryView>,
) -> WriteStep {
    WriteStep { result: Err(kind), mem, entries, asked: false }
}

/// Whether the register `node` may be written.
pub open spec fn register_writable(node: NodeDataView) -> bool {
    match node {
        NodeDataView::IntReg(reg) => reg.register_base.writable(),
        NodeDataView::MaskedIntReg(reg) => reg.register_base.writable(),
        _ => false,
    }
}

/// What writing `value` to the register `node` does, where the register
/// may be written and is `length` bytes long at `address`.
pub open spec fn spec_register_write(
    node: NodeDataView,
    value: i64,
    address: i64,
    length: i64,
    mem: Map<int, u8>,
    entries: Map<NodeId, CacheEntryView>,
    pairs: Set<(NodeId, NodeId)>,
) -> WriteStep {
    match node {
        NodeDataView::IntReg(reg) => {
            let base = reg.register_base;
            let id = reg.attr_base.id;
            if !(valid_range(address, length) && reg.holds(length as nat, value)) {
                write_failed(ErrorKind::InvalidData, mem, entries)
            } else {
                let data = reg.spec_bytes(value, length as nat);
                WriteStep {
                    result: Ok(()),
                    mem: written(mem, address as int, data),
                    entries: base.entries_after_write(id, address, length, data, entries, pairs),
                    asked: true,
                }
            }
        },
        NodeDataView::MaskedIntReg(reg) => {
            let base = reg.register_base;
            let id = reg.attr_base.id;
            if !(valid_range(address, length) && reg.holds(length as nat, value)) {
                write_failed(ErrorKind::InvalidData, mem, entries)
            } else {
                let data = reg.spec_bytes_with(
                    bytes_at(mem, address as int, length as nat),
                    value,
                );
                WriteStep {
                    result: Ok(()),
                    mem: written(mem, address as int, data),
                    entries: base.entries_after_write(id, address, length, data, entries, pairs),
                    asked: true,
                }
            }
        },
        _ => write_failed(ErrorKind::InvalidNode, mem, entries),
    }
}

/// The address elements and the length of the register `node`.
pub open spec fn register_place(node: NodeDataView) -> (Seq<AddressKind>, ImmOrPNode<i64>) {
    match node {
        NodeDataView::IntReg(reg) => (reg.register_base.address_kinds, reg.register_base.length),
        NodeDataView::MaskedIntReg(reg) => (
            reg.register_base.address_kinds,
            reg.register_base.length,
        ),
        _ => (Seq::empty(), ImmOrPNode::Imm(0)),
    }
}

/// What writing the integer `value` to the node `nid` of `nodes` does,
/// where the memory of the device is `mem`, the cache holds `entries`, the
/// invalidators are `pairs`, and the nodes `in_flight` are being written.
///
/// - A register that may not be written denies the write before anything
///   else is done. Otherwise its address and its length are computed, in
///   this order, and the value is written to its bytes.
/// - A converter is written by writing to the node behind it the value of
///   its formula `to`, with the value bound to `TO`.
/// - A swiss knife cannot be written.
pub open spec fn spec_set_int_value(
    nodes: Seq<Option<NodeDataView>>,
    nid: NodeId,
    value: i64,
    mem: Map<int, u8>,
    entries: Map<NodeId, CacheEntryView>,
    pairs: Set<(NodeId, NodeId)>,
    in_flight: Seq<NodeId>,
) -> WriteStep
    decreases nodes.len() - in_flight.len(),
{
    if in_flight.contains(nid) || in_flight.len() >= nodes.len() {
        write_failed(ErrorKind::CycleDetected, mem, entries)
    } else if nid.0 >= nodes.len() || nodes[nid.0 as int] is None {
        write_failed(ErrorKind::InvalidNode, mem, entries)
    } else {
        let deeper = in_flight.push(nid);
        let node = nodes[nid.0 as int].unwrap();
        match node {
            NodeDataView::IntSwissKnife(_) => write_failed(ErrorKind::InvalidNode, mem, entries),
            NodeDataView::IntConverter(converter) => {
                let gate = spec_gate(nodes, converter.elem_base, true, mem, entries, deeper);
                after_write(gate.asked, match gate.result {
                    Err(e) => write_failed(e, mem, gate.entries),
                    Ok(_) => {
                        let entries = gate.entries;
                        let env = spec_bind(
                            nodes,
                            converter.p_variables,
                            mem,
                            entries,
                            deeper,
                            seq![("TO"@, value)] + converter.constants.reverse(),
                        );
                        after_write(env.asked, match env.result {
                            Ok(bindings) => match spec_eval(converter.formula_to, bindings) {
                                Ok(v) => spec_set_int_value(
                                    nodes,
                                    converter.p_value,
                                    v,
                                    mem,
                                    env.entries,
                                    pairs,
                                    deeper,
                                ),
                                Err(e) => write_failed(ErrorKind::Formula(e), mem, env.entries),
                            },
                            Err(e) => write_failed(e, mem, env.entries),
                        })
            
                    },
                })
            },
            _ => if !register_writable(node) {
                write_failed(ErrorKind::AccessDenied, mem, entries)
            } else {
                let gate = spec_gate(nodes, elem_base_of(node), true, mem, entries, deeper);
                after_write(gate.asked, match gate.result {
                    Err(e) => write_failed(e, mem, gate.entries),
                    Ok(_) => {
                        let entries = gate.entries;
                        let address = spec_address(nodes, register_place(node).0, mem, entries, deeper);
                        after_write(address.asked, match address.result {
                            Ok(a) => {
                                let length = spec_operand(
                                    nodes,
                                    register_place(node).1,
                                    mem,
                                    address.entries,
                                    deeper,
                                );
                                after_write(length.asked, match length.result {
                                    Ok(l) => spec_register_write(
                                        node,
                                        value,
                                        a,
                                        l,
                                        mem,
                                        length.entries,
                                        pairs,
                                    ),
                                    Err(e) => write_failed(e, mem, length.entries),
                                })
                            },
                            Err(e) => write_failed(e, mem, address.entries),
                        })
            
                    },
                })
            },
        }
    }
}

/// Whether the result `r` of a write, the memory `mem` and the cache
/// `entries` after it are those of `step`. Only a write that asks the
/// device can fail with the error of the device, and the memory and the
/// cache are bound to nothing then; a write that does not ask the device
/// does what `step` says.
pub open spec fn write_agrees(
    r: GenApiResult<()>,
    mem: Map<int, u8>,
    entries: Map<NodeId, CacheEntryView>,
    step: WriteStep,
) -> bool {
    match r {
        Ok(()) => step.result is Ok && mem == step.mem && entries == step.entries,
        Err(e) => if kind_of(e) == ErrorKind::Device {
            step.asked
        } else {
            step.result == Err::<(), ErrorKind>(kind_of(e)) && mem == step.mem && entries
                == step.entries
        },
    }
}

/// Writes `value` to the node `nid`, where the nodes `in_flight` are being
/// written.
fn set_node_value<D: Device, U: CacheStore>(
    store: &DefaultNodeStore,
    nid: NodeId,
    value: i64,
    device: &mut D,
    cache: &mut U,
    in_flight: &Vec<NodeId>,
) -> (r: GenApiResult<()>)
    ensures
        final(cache).pairs() == old(cache).pairs(),
        write_agrees(
            r,
            (*final(device)).memory(),
            final(cache).entries(),
            spec_set_int_value(
                store.nodes(),
                nid,
                value,
                (*old(device)).memory(),
                old(cache).entries(),
                old(cache).pairs(),
                in_flight@,
            ),
        ),
    decreases store.nodes().len() - in_flight@.len(),
{
    if contains_id(in_flight, nid) || in_flight.len() >= store.node_capacity() {
        return Err(GenApiError::CycleDetected);
    }
    let node = match store.node_opt(nid) {
        Some(node) => node,
        None => {
            return Err(GenApiError::InvalidNode("there is no node with the id"));
        },
    };
    let mut deeper = clone_ids(in_flight);
    deeper.push(nid);
    match node {
        NodeData::IntReg(reg) => {
            if !reg.register_base.is_writable() {
                return Err(GenApiError::AccessDenied("the register is not writable"));
            }
            gate(store, &reg.register_base.elem_base, true, device, cache, &deeper)?;
            let address = address_value(
                store,
                &reg.register_base.address_kinds,
                device,
                cache,
                &deeper,
            )?;
            let length = operand_value(store, reg.register_base.length, device, cache, &deeper)?;
            reg.set_value_at(value, address, length, device, cache)
        },
        NodeData::MaskedIntReg(reg) => {
            if !reg.register_base.is_writable() {
                return Err(GenApiError::AccessDenied("the register is not writable"));
            }
            gate(store, &reg.register_base.elem_base, true, device, cache, &deeper)?;
            let address = address_value(
                store,
                &reg.register_base.address_kinds,
                device,
                cache,
                &deeper,
            )?;
            let length = operand_value(store, reg.register_base.length, device, cache, &deeper)?;
            reg.set_value_at(value, address, length, device, cache)
        },
        NodeData::IntSwissKnife(_) => Err(
            GenApiError::InvalidNode("a swiss knife cannot be written"),
        ),
        NodeData::IntConverter(converter) => {
            gate(store, &converter.elem_base, true, device, cache, &deeper)?;
            let mut env = VarEnv::new();
            bind_constants(&converter.constants, &mut env);
            env.bind("TO", value);
            assert(env@ =~= seq![("TO"@, value)] + constant_views(converter.constants@).reverse());
            bind_variables(store, &converter.p_variables, &mut env, device, cache, &deeper)?;
            match converter.formula_to.eval(&env) {
                Ok(v) => set_node_value(store, converter.p_value, v, device, cache, &deeper),
                Err(e) => Err(GenApiError::Formula(e)),
            }
        },
    }
}

/// Writes the integer `value` to the node `nid` of `store`.
///
/// Where the device fails, its error is handed on; otherwise the write
/// does what `spec_set_int_value` says: the device holds the bytes that
/// stand for the value, the caches that the write invalidates are dropped,
/// and a write that is refused leaves the memory of the device as it is.
/// A write that is refused before the device is asked does not fail with
/// the error of the device.
pub fn set_int_value<D: Device, U: CacheStore>(
    store: &DefaultNodeStore,
    nid: NodeId,
    value: i64,
    device: &mut D,
    cache: &mut U,
) -> (r: GenApiResult<()>)
    ensures
        final(cache).pairs() == old(cache).pairs(),
        write_agrees(
            r,
            (*final(device)).memory(),
            final(cache).entries(),
            spec_set_int_value(
                store.nodes(),
                nid,
                value,
                (*old(device)).memory(),
                old(cache).entries(),
                old(cache).pairs(),
                Seq::empty(),
            ),
        ),
{
    let in_flight: Vec<NodeId> = Vec::new();
    set_node_value(store, nid, value, device, cache, &in_flight)
}

} // verus!
