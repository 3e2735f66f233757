//! What every register node carries.

use vstd::prelude::*;

use crate::elem_type::{
    bool_from_text, spec_bool_from_text, AccessMode, AddressKind, CachingMode, ImmOrPNode,
    RegPIndex,
};
use crate::node_base::{clone_ids, elem_value, NodeElementBase, NodeElementBaseView};
use crate::parser::elem_name::{
    ACCESS_MODE, ADDRESS, CACHEABLE, LENGTH, OFFSET, POLLING_TIME, P_ADDRESS, P_INDEX,
    P_INVALIDATOR, P_LENGTH, P_OFFSET, P_PORT, STREAMABLE,
};
use crate::elem_type::spec_bool_to_text;
use crate::node_base::lemma_elem_base_reads_back;
use crate::parser::shape::{
    all_after, all_named, lemma_all_after, lemma_all_after_any, lemma_intern_all_named,
    lemma_intern_named, lemma_lookup, lemma_read_opt, lemma_read_run, lemma_shapes_skip,
    lemma_tag_orders, lookup, name_of, named, names_of, opt_shape, run_shape, shape_of, shapes,
    tag_order, text_shape, Shape,
};
use crate::parser::utils::{
    convert_to_int, convert_to_uint, lemma_number_texts_read_back, spec_int_of_text,
    spec_int_text, spec_uint_of_text, spec_uint_text,
};
use crate::parser::xml::{
    after_opt, after_run, has_tag, opt_text, run_texts, spec_attribute, Element, Node,
};
use crate::parser::{
    bad_attribute, bad_text, first_error, missing_element, parse_ids_while, spec_intern_all,
    unexpected_element, value_opt, value_or, ParseError, ParseErrorView, Parsed,
};
use crate::store::{
    id_in, invalidated_by, names_with, reaches, CacheEntryView, CacheStore, CacheStoreBuilder,
    NodeId,
    NodeStoreBuilder,
};
use crate::{bytes_at, written, Device, GenApiError, GenApiResult};

verus! {

/// What the element at the front of `rest` adds to the address of a
/// register, if it is one of `Address`, `pAddress` and `pIndex`.
pub open spec fn spec_address_kind(rest: Seq<Element>, names: Seq<Seq<char>>) -> Option<
    Parsed<AddressKind>,
> {
    if has_tag(rest, ADDRESS@) {
        let v = spec_int_of_text(rest[0].text@);
        Some(
            Parsed {
                value: AddressKind::Address(ImmOrPNode::Imm(value_or(Some(v), 0))),
                error: bad_text(ADDRESS@, Some(v)),
                rest: rest.skip(1),
                names,
            },
        )
    } else if has_tag(rest, P_ADDRESS@) {
        Some(
            Parsed {
                value: AddressKind::Address(ImmOrPNode::PNode(id_in(names, rest[0].text@))),
                error: None,
                rest: rest.skip(1),
                names: names_with(names, rest[0].text@),
            },
        )
    } else if has_tag(rest, P_INDEX@) {
        let attrs = rest[0].attributes@;
        let imm = spec_attribute(attrs, OFFSET@);
        let p_offset = spec_attribute(attrs, P_OFFSET@);
        let n1 = if imm is None && p_offset is Some {
            names_with(names, p_offset.unwrap())
        } else {
            names
        };
        let offset = if imm is Some {
            Some(ImmOrPNode::Imm(value_or(Some(spec_int_of_text(imm.unwrap())), 0)))
        } else if p_offset is Some {
            Some(ImmOrPNode::PNode(id_in(names, p_offset.unwrap())))
        } else {
            None
        };
        Some(
            Parsed {
                value: AddressKind::PIndex(
                    RegPIndex { offset, p_index: id_in(n1, rest[0].text@) },
                ),
                error: if imm is Some {
                    bad_text(OFFSET@, Some(spec_int_of_text(imm.unwrap())))
                } else {
                    None
                },
                rest: rest.skip(1),
                names: names_with(n1, rest[0].text@),
            },
        )
    } else {
        None
    }
}

/// What the run of address elements at the front of `rest` means.
pub open spec fn spec_address_kinds(rest: Seq<Element>, names: Seq<Seq<char>>) -> Parsed<
    Seq<AddressKind>,
>
    decreases rest.len(),
{
    match spec_address_kind(rest, names) {
        Some(head) => {
            let tail = spec_address_kinds(head.rest, head.names);
            Parsed {
                value: seq![head.value] + tail.value,
                error: first_error(head.error, tail.error),
                rest: tail.rest,
                names: tail.names,
            }
        },
        None => Parsed { value: Seq::empty(), error: None, rest, names },
    }
}

/// What the length of a register at the front of `rest` means: a `Length`
/// or a `pLength`.
pub open spec fn spec_length(rest: Seq<Element>, names: Seq<Seq<char>>) -> Parsed<
    ImmOrPNode<i64>,
> {
    if has_tag(rest, LENGTH@) {
        let v = spec_int_of_text(rest[0].text@);
        Parsed {
            value: ImmOrPNode::Imm(value_or(Some(v), 0)),
            error: bad_text(LENGTH@, Some(v)),
            rest: rest.skip(1),
            names,
        }
    } else if has_tag(rest, P_LENGTH@) {
        Parsed {
            value: ImmOrPNode::PNode(id_in(names, rest[0].text@)),
            error: None,
            rest: rest.skip(1),
            names: names_with(names, rest[0].text@),
        }
    } else {
        Parsed {
            value: ImmOrPNode::Imm(0),
            error: if rest.len() == 0 {
                Some(ParseErrorView::MissingElement(LENGTH@))
            } else {
                Some(ParseErrorView::UnexpectedElement(rest[0].tag@))
            },
            rest,
            names,
        }
    }
}

/// Reads one address element, if one stands at the cursor.
pub fn parse_address_kind<NB: NodeStoreBuilder>(node: &mut Node, node_builder: &mut NB) -> (r:
    Result<Option<AddressKind>, ParseError>)
    ensures
        final(node_builder).stored() == old(node_builder).stored(),
        final(node).element() == old(node).element(),
        match r {
            Ok(Some(v)) => {
                let p = spec_address_kind(old(node).rest(), old(node_builder).names());
                &&& p is Some
                &&& p.unwrap().error is None
                &&& v == p.unwrap().value
                &&& final(node).rest() == p.unwrap().rest
                &&& final(node_builder).names() == p.unwrap().names
            },
            Ok(None) => {
                &&& spec_address_kind(old(node).rest(), old(node_builder).names()) is None
                &&& final(node).rest() == old(node).rest()
                &&& final(node_builder).names() == old(node_builder).names()
            },
            Err(e) => {
                let p = spec_address_kind(old(node).rest(), old(node_builder).names());
                p is Some && p.unwrap().error == Some(e@)
            },
        },
{
    if let Some(t) = node.next_text_if(ADDRESS) {
        match convert_to_int(t) {
            Some(v) => Ok(Some(AddressKind::Address(ImmOrPNode::Imm(v)))),
            None => Err(bad_attribute(ADDRESS)),
        }
    } else if let Some(t) = node.next_text_if(P_ADDRESS) {
        let id = node_builder.get_or_intern(t);
        Ok(Some(AddressKind::Address(ImmOrPNode::PNode(id))))
    } else if let Some(child) = node.next_if(P_INDEX) {
        let offset = match child.attribute_of(OFFSET) {
            Some(t) => match convert_to_int(t) {
                Some(v) => Some(ImmOrPNode::Imm(v)),
                None => {
                    return Err(bad_attribute(OFFSET));
                },
            },
            None => match child.attribute_of(P_OFFSET) {
                Some(t) => Some(ImmOrPNode::PNode(node_builder.get_or_intern(t))),
                None => None,
            },
        };
        let p_index = node_builder.get_or_intern(child.text());
        Ok(Some(AddressKind::PIndex(RegPIndex { offset, p_index })))
    } else {
        Ok(None)
    }
}


/// Reads the run of address elements at the cursor.
pub fn parse_address_kinds<NB: NodeStoreBuilder>(node: &mut Node, node_builder: &mut NB) -> (r:
    Result<Vec<AddressKind>, ParseError>)
    ensures
        final(node_builder).stored() == old(node_builder).stored(),
        final(node).element() == old(node).element(),
        match r {
            Ok(v) => {
                let p = spec_address_kinds(old(node).rest(), old(node_builder).names());
                &&& p.error is None
                &&& v@ == p.value
                &&& final(node).rest() == p.rest
                &&& final(node_builder).names() == p.names
            },
            Err(e) => spec_address_kinds(old(node).rest(), old(node_builder).names()).error
                == Some(e@),
        },
{
    let mut kinds: Vec<AddressKind> = Vec::new();
    let ghost whole = spec_address_kinds(node.rest(), node_builder.names());
    assert(kinds@ + whole.value =~= whole.value);
    loop
        invariant
            node_builder.stored() == old(node_builder).stored(),
            node.element() == old(node).element(),
            whole == spec_address_kinds(old(node).rest(), old(node_builder).names()),
            ({
                let tail = spec_address_kinds(node.rest(), node_builder.names());
                &&& whole.value == kinds@ + tail.value
                &&& whole.error == tail.error
                &&& whole.rest == tail.rest
                &&& whole.names == tail.names
            }),
        decreases node.rest().len(),
    {
        let ghost before = kinds@;
        let ghost tail = spec_address_kinds(node.rest(), node_builder.names());
        let ghost head = spec_address_kind(node.rest(), node_builder.names());
        match parse_address_kind(node, node_builder) {
            Ok(Some(kind)) => {
                kinds.push(kind);
                proof {
                    let next = spec_address_kinds(node.rest(), node_builder.names());
                    assert(tail.value == seq![kind] + next.value);
                    assert(before + tail.value =~= before.push(kind) + next.value);
                }
            },
            Ok(None) => {
                assert(kinds@ + tail.value =~= kinds@);
                return Ok(kinds);
            },
            Err(e) => {
                return Err(e);
            },
        }
    }
}

/// Reads the length of a register at the cursor.
pub fn parse_length<NB: NodeStoreBuilder>(node: &mut Node, node_builder: &mut NB) -> (r: Result<
    ImmOrPNode<i64>,
    ParseError,
>)
    ensures
        final(node_builder).stored() == old(node_builder).stored(),
        final(node).element() == old(node).element(),
        match r {
            Ok(v) => {
                let p = spec_length(old(node).rest(), old(node_builder).names());
                &&& p.error is None
                &&& v == p.value
                &&& final(node).rest() == p.rest
                &&& final(node_builder).names() == p.names
            },
            Err(e) => spec_length(old(node).rest(), old(node_builder).names()).error == Some(e@),
        },
{
    if let Some(t) = node.next_text_if(LENGTH) {
        match convert_to_int(t) {
            Some(v) => Ok(ImmOrPNode::Imm(v)),
            None => Err(bad_attribute(LENGTH)),
        }
    } else if let Some(t) = node.next_text_if(P_LENGTH) {
        Ok(ImmOrPNode::PNode(node_builder.get_or_intern(t)))
    } else {
        match node.peek() {
            Some(e) => Err(unexpected_element(e.tag.as_str())),
            None => Err(missing_element(LENGTH)),
        }
    }
}

/// The elements of a register: where it lies, how long it is, through which
/// port it is reached, and how it may be accessed and cached.
#[derive(Debug)]
pub struct RegisterBase {
    pub elem_base: NodeElementBase,
    pub streamable: bool,
    pub address_kinds: Vec<AddressKind>,
    pub length: ImmOrPNode<i64>,
    pub access_mode: AccessMode,
    pub p_port: NodeId,
    pub cacheable: CachingMode,
    pub polling_time: Option<u64>,
    pub p_invalidators: Vec<NodeId>,
}

/// A `RegisterBase` as plain values.
pub struct RegisterBaseView {
    pub elem_base: NodeElementBaseView,
    pub streamable: bool,
    pub address_kinds: Seq<AddressKind>,
    pub length: ImmOrPNode<i64>,
    pub access_mode: AccessMode,
    pub p_port: NodeId,
    pub cacheable: CachingMode,
    pub polling_time: Option<u64>,
    pub p_invalidators: Seq<NodeId>,
}

impl View for RegisterBase {
    type V = RegisterBaseView;

    open spec fn view(&self) -> RegisterBaseView {
        RegisterBaseView {
            elem_base: self.elem_base@,
            streamable: self.streamable,
            address_kinds: self.address_kinds@,
            length: self.length,
            access_mode: self.access_mode,
            p_port: self.p_port,
            cacheable: self.cacheable,
            polling_time: self.polling_time,
            p_invalidators: self.p_invalidators@,
        }
    }
}

impl RegisterBaseView {
    /// The pairs that `store_invalidators` records for the register `target`.
    pub open spec fn invalidator_pairs(self, target: NodeId) -> Set<(NodeId, NodeId)> {
        Set::new(|p: (NodeId, NodeId)| p.1 == target && self.p_invalidators.contains(p.0))
    }
}

impl RegisterBase {
    /// What the register elements at the front of `rest` mean.
    ///
    /// In document order: the descriptive elements of every node;
    /// `Streamable`; any number of `Address`, `pAddress` and `pIndex`; a
    /// `Length` or a `pLength`; `AccessMode`, `RO` by default; `pPort`;
    /// `Cachable`, `WriteThrough` by default; `PollingTime`; any number of
    /// `pInvalidator`. The length and the port are required.
    pub open spec fn spec_parse(rest: Seq<Element>, names: Seq<Seq<char>>) -> Parsed<
        RegisterBaseView,
    > {
        let base = NodeElementBase::spec_parse(rest, names);
        let r1 = after_opt(base.rest, STREAMABLE@);
        let addresses = spec_address_kinds(r1, base.names);
        let length = spec_length(addresses.rest, addresses.names);
        let r4 = after_opt(length.rest, ACCESS_MODE@);
        let r5 = after_opt(r4, P_PORT@);
        let r6 = after_opt(r5, CACHEABLE@);
        let r7 = after_opt(r6, POLLING_TIME@);
        let r8 = after_run(r7, P_INVALIDATOR@);
        let streamable = elem_value(base.rest, STREAMABLE@, |t| spec_bool_from_text(t));
        let access_mode = elem_value(length.rest, ACCESS_MODE@, |t| AccessMode::spec_from_text(t));
        let port = opt_text(r4, P_PORT@);
        let cacheable = elem_value(r5, CACHEABLE@, |t| CachingMode::spec_from_text(t));
        let polling_time = elem_value(r6, POLLING_TIME@, |t| spec_uint_of_text(t));
        let n5 = if port is Some {
            names_with(length.names, port.unwrap())
        } else {
            length.names
        };
        let invalidators = spec_intern_all(n5, run_texts(r7, P_INVALIDATOR@));
        Parsed {
            value: RegisterBaseView {
                elem_base: base.value,
                streamable: value_or(streamable, false),
                address_kinds: addresses.value,
                length: length.value,
                access_mode: value_or(access_mode, AccessMode::RO),
                p_port: id_in(length.names, port.unwrap()),
                cacheable: value_or(cacheable, CachingMode::WriteThrough),
                polling_time: value_opt(polling_time),
                p_invalidators: invalidators.1,
            },
            error: first_error(
                base.error,
                first_error(
                    bad_text(STREAMABLE@, streamable),
                    first_error(
                        addresses.error,
                        first_error(
                            length.error,
                            first_error(
                                bad_text(ACCESS_MODE@, access_mode),
                                first_error(
                                    if port is None {
                                        Some(ParseErrorView::MissingElement(P_PORT@))
                                    } else {
                                        None
                                    },
                                    first_error(
                                        bad_text(CACHEABLE@, cacheable),
                                        bad_text(POLLING_TIME@, polling_time),
                                    ),
                                ),
                            ),
                        ),
                    ),
                ),
            ),
            rest: r8,
            names: invalidators.0,
        }
    }

    /// Reads the register elements at the cursor.
    pub fn parse<NB: NodeStoreBuilder>(node: &mut Node, node_builder: &mut NB) -> (r: Result<
        RegisterBase,
        ParseError,
    >)
        ensures
            final(node_builder).stored() == old(node_builder).stored(),
            final(node).element() == old(node).element(),
            match r {
                Ok(v) => {
                    let p = Self::spec_parse(old(node).rest(), old(node_builder).names());
                    &&& p.error is None
                    &&& v@ == p.value
                    &&& final(node).rest() == p.rest
                    &&& final(node_builder).names() == p.names
                },
                Err(e) => Self::spec_parse(old(node).rest(), old(node_builder).names()).error
                    == Some(e@),
            },
    {
        let elem_base = NodeElementBase::parse(node, node_builder)?;
        let streamable = match node.next_text_if(STREAMABLE) {
            None => false,
            Some(t) => match bool_from_text(t) {
                Some(v) => v,
                None => {
                    return Err(bad_attribute(STREAMABLE));
                },
            },
        };
        let address_kinds = parse_address_kinds(node, node_builder)?;
        let length = parse_length(node, node_builder)?;
        let access_mode = match node.next_text_if(ACCESS_MODE) {
            None => AccessMode::RO,
            Some(t) => match AccessMode::from_text(t) {
                Some(v) => v,
                None => {
                    return Err(bad_attribute(ACCESS_MODE));
                },
            },
        };
        let p_port = match node.next_text_if(P_PORT) {
            Some(t) => node_builder.get_or_intern(t),
            None => {
                return Err(missing_element(P_PORT));
            },
        };
        let cacheable = match node.next_text_if(CACHEABLE) {
            None => CachingMode::WriteThrough,
            Some(t) => match CachingMode::from_text(t) {
                Some(v) => v,
                None => {
                    return Err(bad_attribute(CACHEABLE));
                },
            },
        };
        let polling_time = match node.next_text_if(POLLING_TIME) {
            None => None,
            Some(t) => match convert_to_uint(t) {
                Some(v) => Some(v),
                None => {
                    return Err(bad_attribute(POLLING_TIME));
                },
            },
        };
        let p_invalidators = parse_ids_while(node, P_INVALIDATOR, node_builder);
        Ok(
            RegisterBase {
                elem_base,
                streamable,
                address_kinds,
                length,
                access_mode,
                p_port,
                cacheable,
                polling_time,
                p_invalidators,
            },
        )
    }

    /// Records every invalidator of this register with `cache_builder`:
    /// a write to one of them drops the cache of the node `target`.
    pub fn store_invalidators<CB: CacheStoreBuilder>(&self, target: NodeId, cache_builder: &mut CB)
        ensures
            final(cache_builder).invalidators() == old(cache_builder).invalidators().union(
                self@.invalidator_pairs(target),
            ),
    {
        let mut i: usize = 0;
        while i < self.p_invalidators.len()
            invariant
                i <= self.p_invalidators.len(),
                cache_builder.invalidators() == old(cache_builder).invalidators().union(
                    Set::new(
                        |p: (NodeId, NodeId)|
                            p.1 == target && self.p_invalidators@.take(i as int).contains(p.0),
                    ),
                ),
            decreases self.p_invalidators.len() - i,
        {
            let ghost done = Set::new(
                |p: (NodeId, NodeId)|
                    p.1 == target && self.p_invalidators@.take(i as int).contains(p.0),
            );
            let invalidator = self.p_invalidators[i];
            cache_builder.store_invalidator(invalidator, target);
            proof {
                let grown = Set::new(
                    |p: (NodeId, NodeId)|
                        p.1 == target && self.p_invalidators@.take(i + 1).contains(p.0),
                );
                let taken = self.p_invalidators@.take(i + 1);
                assert(taken.drop_last() =~= self.p_invalidators@.take(i as int));
                assert(taken.last() == invalidator);
                assert forall|p: (NodeId, NodeId)| grown.contains(p) <==> done.insert(
                    (invalidator, target),
                ).contains(p) by {
                    if p.1 == target {
                        if taken.contains(p.0) {
                            let k = choose|k: int| 0 <= k < taken.len() && taken[k] == p.0;
                            if k < i {
                                assert(taken.drop_last()[k] == p.0);
                            }
                        }
                        if taken.drop_last().contains(p.0) {
                            let k = choose|k: int|
                                0 <= k < taken.drop_last().len() && taken.drop_last()[k] == p.0;
                            assert(taken[k] == p.0);
                        }
                        if p.0 == invalidator {
                            assert(taken[i as int] == p.0);
                        }
                    }
                }
                assert(grown =~= done.insert((invalidator, target)));
                assert(old(cache_builder).invalidators().union(done).insert((invalidator, target))
                    =~= old(cache_builder).invalidators().union(grown));
            }
            i += 1;
        }
        proof {
            assert(self.p_invalidators@.take(i as int) =~= self.p_invalidators@);
            assert(Set::new(
                |p: (NodeId, NodeId)|
                    p.1 == target && self.p_invalidators@.take(i as int).contains(p.0),
            ) =~= self@.invalidator_pairs(target));
        }
    }
}


impl Clone for RegisterBase {
    fn clone(&self) -> (r: RegisterBase)
        ensures
            r@ == self@,
    {
        let address_kinds = self.address_kinds.clone();
        assert(address_kinds@ =~= self.address_kinds@);
        RegisterBase {
            elem_base: self.elem_base.clone(),
            streamable: self.streamable,
            address_kinds,
            length: self.length,
            access_mode: self.access_mode,
            p_port: self.p_port,
            cacheable: self.cacheable,
            polling_time: self.polling_time,
            p_invalidators: clone_ids(&self.p_invalidators),
        }
    }
}


impl RegisterBase {
    /// The access mode of the register itself.
    pub fn access_mode(&self) -> (r: AccessMode)
        ensures
            r == self.access_mode,
    {
        self.access_mode
    }

    /// Whether the register is streamable.
    pub fn streamable(&self) -> (r: bool)
        ensures
            r == self.streamable,
    {
        self.streamable
    }

    /// The elements of the address of the register.
    pub fn address_kinds(&self) -> (r: &[AddressKind])
        ensures
            r@ == self.address_kinds@,
    {
        self.address_kinds.as_slice()
    }

    /// The length of the register.
    pub fn length(&self) -> (r: ImmOrPNode<i64>)
        ensures
            r == self.length,
    {
        self.length
    }

    /// The port through which the register is reached.
    pub fn p_port(&self) -> (r: NodeId)
        ensures
            r == self.p_port,
    {
        self.p_port
    }

    /// The caching mode of the register.
    pub fn cacheable(&self) -> (r: CachingMode)
        ensures
            r == self.cacheable,
    {
        self.cacheable
    }

    /// The polling time of the register, which is advisory.
    pub fn polling_time(&self) -> (r: Option<u64>)
        ensures
            r == self.polling_time,
    {
        self.polling_time
    }

    /// The nodes whose writes invalidate the register.
    pub fn p_invalidators(&self) -> (r: &[NodeId])
        ensures
            r@ == self.p_invalidators@,
    {
        self.p_invalidators.as_slice()
    }

    /// What the register carries as a node.
    pub fn elem_base(&self) -> (r: &NodeElementBase)
        ensures
            *r == self.elem_base,
    {
        &self.elem_base
    }
}


/// Whether a register may lie at `address` with the length `length`:
/// neither is negative, and the length fits the machine.
pub open spec fn valid_range(address: i64, length: i64) -> bool {
    address >= 0 && 0 <= length <= usize::MAX
}

impl RegisterBaseView {
    /// Whether the register may be read: neither its own access mode nor the
    /// imposed one forbids it.
    pub open spec fn readable(self) -> bool {
        self.access_mode.spec_is_readable() && self.elem_base.imposed_access_mode.spec_is_readable()
    }

    /// Whether the register may be written: neither its own access mode nor
    /// the imposed one forbids it.
    pub open spec fn writable(self) -> bool {
        self.access_mode.spec_is_writable() && self.elem_base.imposed_access_mode.spec_is_writable()
    }

    /// The bytes that a read of the register `nid` at `address` takes from
    /// the cache, if its caching mode allows it and the cache holds them.
    pub open spec fn cached(
        self,
        nid: NodeId,
        address: i64,
        length: i64,
        entries: Map<NodeId, CacheEntryView>,
    ) -> Option<Seq<u8>> {
        if self.cacheable != CachingMode::NoCache && entries.contains_key(nid)
            && entries[nid].address == address && entries[nid].length == length {
            Some(entries[nid].data)
        } else {
            None
        }
    }

    /// The cache after the register `nid` has been read from the device:
    /// the bytes are recorded unless the register is not cached at all.
    pub open spec fn entries_after_read(
        self,
        nid: NodeId,
        address: i64,
        length: i64,
        data: Seq<u8>,
        entries: Map<NodeId, CacheEntryView>,
    ) -> Map<NodeId, CacheEntryView> {
        if self.cacheable != CachingMode::NoCache {
            entries.insert(nid, CacheEntryView { address, length, data })
        } else {
            entries
        }
    }

    /// The bytes that a read of the register `nid` at `address` yields where
    /// the memory of the device is `mem`: those of the cache where it serves
    /// the read, those of the device otherwise.
    pub open spec fn bytes_read(
        self,
        nid: NodeId,
        address: i64,
        length: i64,
        mem: Map<int, u8>,
        entries: Map<NodeId, CacheEntryView>,
    ) -> Seq<u8> {
        match self.cached(nid, address, length, entries) {
            Some(data) => data,
            None => bytes_at(mem, address as int, length as nat),
        }
    }

    /// The cache after a read of the register `nid` at `address` that the
    /// device did not fail.
    pub open spec fn entries_after_fetch(
        self,
        nid: NodeId,
        address: i64,
        length: i64,
        mem: Map<int, u8>,
        entries: Map<NodeId, CacheEntryView>,
    ) -> Map<NodeId, CacheEntryView> {
        match self.cached(nid, address, length, entries) {
            Some(data) => entries,
            None => self.entries_after_read(
                nid,
                address,
                length,
                bytes_at(mem, address as int, length as nat),
                entries,
            ),
        }
    }

    /// The cache after the register `nid` has been written: every node that
    /// the write invalidates has lost its entry; the register itself holds
    /// the new bytes where it is written through, and no entry otherwise.
    pub open spec fn entries_after_write(
        self,
        nid: NodeId,
        address: i64,
        length: i64,
        data: Seq<u8>,
        entries: Map<NodeId, CacheEntryView>,
        pairs: Set<(NodeId, NodeId)>,
    ) -> Map<NodeId, CacheEntryView> {
        let swept = entries.remove_keys(invalidated_by(pairs, nid));
        if self.cacheable == CachingMode::WriteThrough {
            swept.insert(nid, CacheEntryView { address, length, data })
        } else {
            swept.remove(nid)
        }
    }
}

impl RegisterBase {
    /// Whether the register may be read.
    pub fn is_readable(&self) -> (r: bool)
        ensures
            r == self@.readable(),
    {
        self.access_mode.is_readable() && self.elem_base.imposed_access_mode.is_readable()
    }

    /// Whether the register may be written.
    pub fn is_writable(&self) -> (r: bool)
        ensures
            r == self@.writable(),
    {
        self.access_mode.is_writable() && self.elem_base.imposed_access_mode.is_writable()
    }

    /// Fetches the `length` bytes of the register `nid` at `address`, whether
    /// or not the register may be read: from the cache where it holds them,
    /// from `device` otherwise.
    ///
    /// Fails with `InvalidData` where the address or the length is not
    /// valid, and with `Device` where the device fails. The device is called
    /// once where the cache does not hold the bytes, and not at all
    /// otherwise.
    pub fn fetch_bytes<D: Device, U: CacheStore>(
        &self,
        nid: NodeId,
        address: i64,
        length: i64,
        device: &mut D,
        cache: &mut U,
    ) -> (r: GenApiResult<Vec<u8>>)
        ensures
            final(cache).pairs() == old(cache).pairs(),
            (*final(device)).memory() == (*old(device)).memory(),
            !valid_range(address, length) ==> r matches Err(GenApiError::InvalidData(_)),
            !valid_range(address, length) || self@.cached(
                nid,
                address,
                length,
                old(cache).entries(),
            ) is Some ==> *final(device) == *old(device)
                && final(cache).entries() == old(cache).entries(),
            valid_range(address, length) ==> match self@.cached(
                nid,
                address,
                length,
                old(cache).entries(),
            ) {
                Some(data) => r matches Ok(b) && b@ == data,
                None => match r {
                    Ok(b) => b@ == bytes_at((*old(device)).memory(), address as int, length as nat)
                        && final(cache).entries() == self@.entries_after_read(
                        nid,
                        address,
                        length,
                        b@,
                        old(cache).entries(),
                    ),
                    Err(e) => e is Device && final(cache).entries() == old(cache).entries(),
                },
            },
    {
        if address < 0 || length < 0 || length as u64 > usize::MAX as u64 {
            return Err(GenApiError::InvalidData("invalid address or length".to_owned()));
        }
        if self.cacheable != CachingMode::NoCache {
            if let Some(data) = cache.get_cache(nid, address, length) {
                return Ok(vstd::slice::slice_to_vec(data));
            }
        }
        let mut buf: Vec<u8> = vec![0u8; length as usize];
        match device.read_mem(address as u64, buf.as_mut_slice()) {
            Ok(()) => {},
            Err(e) => {
                return Err(GenApiError::Device(e));
            },
        }
        if self.cacheable != CachingMode::NoCache {
            cache.cache(nid, address, length, buf.as_slice());
        }
        Ok(buf)
    }

    /// Reads the `length` bytes at `address` from `device`, whatever the cache
    /// holds, and leaves the cache as it is.
    ///
    /// Fails with `InvalidData` where the address or the length is not
    /// valid, and with `Device` where the device fails. The device is called
    /// once where the address and the length are valid, and not at all
    /// otherwise.
    pub fn read_device<D: Device>(&self, address: i64, length: i64, device: &mut D) -> (r:
        GenApiResult<Vec<u8>>)
        ensures
            (*final(device)).memory() == (*old(device)).memory(),
            !valid_range(address, length) ==> r matches Err(GenApiError::InvalidData(_)),
            !valid_range(address, length) ==> *final(device) == *old(device),
            valid_range(address, length) ==> match r {
                Ok(b) => b@ == bytes_at((*old(device)).memory(), address as int, length as nat),
                Err(e) => e is Device,
            },
    {
        if address < 0 || length < 0 || length as u64 > usize::MAX as u64 {
            return Err(GenApiError::InvalidData("invalid address or length".to_owned()));
        }
        let mut buf: Vec<u8> = vec![0u8; length as usize];
        match device.read_mem(address as u64, buf.as_mut_slice()) {
            Ok(()) => Ok(buf),
            Err(e) => Err(GenApiError::Device(e)),
        }
    }

    /// Reads the `length` bytes of the register `nid` at `address`: from the
    /// cache where it holds them, from `device` otherwise.
    ///
    /// Fails with `AccessDenied` where the register may not be read, with
    /// `InvalidData` where the address or the length is not valid, and with
    /// `Device` where the device fails; the first that applies, in this
    /// order. The device is called once where the cache does not serve the
    /// read, and not at all otherwise.
    pub fn read_bytes<D: Device, U: CacheStore>(
        &self,
        nid: NodeId,
        address: i64,
        length: i64,
        device: &mut D,
        cache: &mut U,
    ) -> (r: GenApiResult<Vec<u8>>)
        ensures
            final(cache).pairs() == old(cache).pairs(),
            (*final(device)).memory() == (*old(device)).memory(),
            !self@.readable() ==> r matches Err(GenApiError::AccessDenied(_)),
            self@.readable() && !valid_range(address, length) ==> r matches Err(
                GenApiError::InvalidData(_),
            ),
            !self@.readable() || !valid_range(address, length) || self@.cached(
                nid,
                address,
                length,
                old(cache).entries(),
            ) is Some ==> *final(device) == *old(device)
                && final(cache).entries() == old(cache).entries(),
            self@.readable() && valid_range(address, length) ==> match self@.cached(
                nid,
                address,
                length,
                old(cache).entries(),
            ) {
                Some(data) => r matches Ok(b) && b@ == data,
                None => match r {
                    Ok(b) => b@ == bytes_at((*old(device)).memory(), address as int, length as nat)
                        && final(cache).entries() == self@.entries_after_read(
                        nid,
                        address,
                        length,
                        b@,
                        old(cache).entries(),
                    ),
                    Err(e) => e is Device && final(cache).entries() == old(cache).entries(),
                },
            },
    {
        if !self.is_readable() {
            return Err(GenApiError::AccessDenied("the register is not readable"));
        }
        self.fetch_bytes(nid, address, length, device, cache)
    }

    /// Writes `data` to the register `nid` of `length` bytes at `address`.
    ///
    /// Fails with `AccessDenied` where the register may not be written, with
    /// `InvalidData` where the address or the length is not valid, with
    /// `InvalidBuffer` where `data` has another length than the register,
    /// and with `Device` where the device fails; the first that applies, in
    /// this order. The device is called once where the write is let
    /// through, and not at all otherwise; the cache changes only after the
    /// device has taken the data.
    pub fn write_bytes<D: Device, U: CacheStore>(
        &self,
        nid: NodeId,
        address: i64,
        length: i64,
        data: &[u8],
        device: &mut D,
        cache: &mut U,
    ) -> (r: GenApiResult<()>)
        ensures
            final(cache).pairs() == old(cache).pairs(),
            !self@.writable() ==> r matches Err(GenApiError::AccessDenied(_)),
            self@.writable() && !valid_range(address, length) ==> r matches Err(
                GenApiError::InvalidData(_),
            ),
            self@.writable() && valid_range(address, length) && data@.len() != length ==> r
                matches Err(GenApiError::InvalidBuffer),
            !self@.writable() || !valid_range(address, length) || data@.len() != length
                ==> *final(device) == *old(device)
                && final(cache).entries() == old(cache).entries(),
            self@.writable() && valid_range(address, length) && data@.len() == length ==> match r {
                Ok(()) => (*final(device)).memory() == written(
                    (*old(device)).memory(),
                    address as int,
                    data@,
                ) && final(cache).entries() == self@.entries_after_write(
                    nid,
                    address,
                    length,
                    data@,
                    old(cache).entries(),
                    old(cache).pairs(),
                ),
                Err(e) => e is Device && final(cache).entries() == old(cache).entries(),
            },
    {
        if !self.is_writable() {
            return Err(GenApiError::AccessDenied("the register is not writable"));
        }
        if address < 0 || length < 0 || length as u64 > usize::MAX as u64 {
            return Err(GenApiError::InvalidData("invalid address or length".to_owned()));
        }
        if data.len() != length as usize {
            return Err(GenApiError::InvalidBuffer);
        }
        match device.write_mem(address as u64, data) {
            Ok(()) => {},
            Err(e) => {
                return Err(GenApiError::Device(e));
            },
        }
        cache.invalidate_by(nid);
        if self.cacheable == CachingMode::WriteThrough {
            cache.cache(nid, address, length, data);
        } else {
            cache.invalidate_of(nid);
        }
        Ok(())
    }
}


/// A write to a register drops the cache of every node that it invalidates,
/// directly or through a chain of invalidators: the next read of such a
/// node, whatever its caching mode, is not served from the cache.
pub proof fn lemma_write_drops_invalidated(
    written_reg: RegisterBaseView,
    nid: NodeId,
    address: i64,
    length: i64,
    data: Seq<u8>,
    entries: Map<NodeId, CacheEntryView>,
    pairs: Set<(NodeId, NodeId)>,
    target: NodeId,
    target_reg: RegisterBaseView,
    target_address: i64,
    target_length: i64,
)
    requires
        reaches(pairs, nid, target),
        target != nid,
    ensures
        !written_reg.entries_after_write(nid, address, length, data, entries, pairs).contains_key(
            target,
        ),
        target_reg.cached(
            target,
            target_address,
            target_length,
            written_reg.entries_after_write(nid, address, length, data, entries, pairs),
        ) is None,
{
    assert(invalidated_by(pairs, nid).contains(target));
}

/// The bytes that are written to a register are the bytes that the next
/// read of it yields. A register that is written through is then served
/// from the cache, without a call of the device; any other is read from the
/// device.
pub proof fn lemma_read_after_write(
    reg: RegisterBaseView,
    nid: NodeId,
    address: i64,
    length: i64,
    data: Seq<u8>,
    mem: Map<int, u8>,
    entries: Map<NodeId, CacheEntryView>,
    pairs: Set<(NodeId, NodeId)>,
)
    requires
        0 <= length,
        data.len() == length,
    ensures
        reg.bytes_read(
            nid,
            address,
            length,
            written(mem, address as int, data),
            reg.entries_after_write(nid, address, length, data, entries, pairs),
        ) == data,
        reg.cached(
            nid,
            address,
            length,
            reg.entries_after_write(nid, address, length, data, entries, pairs),
        ) is Some <==> reg.cacheable == CachingMode::WriteThrough,
{
    crate::lemma_bytes_at_written(mem, address as int, data);
}


/// The attributes of a `pIndex` element with the offset `offset`.
pub open spec fn offset_attrs(offset: Option<ImmOrPNode<i64>>, names: Seq<Seq<char>>) -> Seq<
    (Seq<char>, Seq<char>),
> {
    match offset {
        None => Seq::empty(),
        Some(ImmOrPNode::Imm(v)) => seq![(OFFSET@, spec_int_text(v))],
        Some(ImmOrPNode::PNode(n)) => seq![(P_OFFSET@, name_of(names, n))],
    }
}

/// The shape of the element that stands for the address element `kind`.
pub open spec fn address_shape(kind: AddressKind, names: Seq<Seq<char>>) -> Shape {
    match kind {
        AddressKind::Address(ImmOrPNode::Imm(v)) => text_shape(ADDRESS@, spec_int_text(v)),
        AddressKind::Address(ImmOrPNode::PNode(n)) => text_shape(P_ADDRESS@, name_of(names, n)),
        AddressKind::PIndex(RegPIndex { offset, p_index }) => Shape {
            tag: P_INDEX@,
            text: name_of(names, p_index),
            attrs: offset_attrs(offset, names),
        },
    }
}

/// The shapes of the elements that stand for the address elements `kinds`.
pub open spec fn address_shapes(kinds: Seq<AddressKind>, names: Seq<Seq<char>>) -> Seq<Shape> {
    Seq::new(kinds.len(), |i: int| address_shape(kinds[i], names))
}

/// Whether every node that an operand refers to is one of `names`.
pub open spec fn operand_named(operand: ImmOrPNode<i64>, names: Seq<Seq<char>>) -> bool {
    operand matches ImmOrPNode::PNode(n) ==> named(names, n)
}

/// Whether every node that the address element `kind` refers to is one of
/// `names`.
pub open spec fn address_named(kind: AddressKind, names: Seq<Seq<char>>) -> bool {
    match kind {
        AddressKind::Address(operand) => operand_named(operand, names),
        AddressKind::PIndex(RegPIndex { offset, p_index }) => named(names, p_index) && (
        offset matches Some(operand) ==> operand_named(operand, names)),
    }
}

/// The shape of the element that stands for the length `length`.
pub open spec fn length_shape(length: ImmOrPNode<i64>, names: Seq<Seq<char>>) -> Shape {
    match length {
        ImmOrPNode::Imm(v) => text_shape(LENGTH@, spec_int_text(v)),
        ImmOrPNode::PNode(n) => text_shape(P_LENGTH@, name_of(names, n)),
    }
}

/// The text of an optional unsigned number.
pub open spec fn uint_text_opt(v: Option<u64>) -> Option<Seq<char>> {
    match v {
        Some(v) => Some(spec_uint_text(v)),
        None => None,
    }
}

/// Address elements that were written for a value read back as that value.
pub proof fn lemma_address_kinds_read_back(
    kinds: Seq<AddressKind>,
    names: Seq<Seq<char>>,
    rest: Seq<Element>,
    tail: Seq<Shape>,
)
    requires
        names.no_duplicates(),
        forall|i: int| 0 <= i < kinds.len() ==> address_named(#[trigger] kinds[i], names),
        shapes(rest) == address_shapes(kinds, names) + tail,
        all_after(tail, 17),
    ensures
        spec_address_kinds(rest, names).value == kinds,
        spec_address_kinds(rest, names).error is None,
        shapes(spec_address_kinds(rest, names).rest) == tail,
        spec_address_kinds(rest, names).names == names,
    decreases kinds.len(),
{
    lemma_tag_orders();
    crate::parser::elem_name::lemma_name_marks();
    let whole = address_shapes(kinds, names) + tail;
    assert(shapes(rest).len() == rest.len());
    if kinds.len() == 0 {
        assert(whole =~= tail);
        if rest.len() > 0 {
            assert(shapes(rest)[0] == tail[0]);
            assert(tag_order(rest[0].tag@) > 17);
        }
        assert(spec_address_kind(rest, names) is None);
        assert(spec_address_kinds(rest, names).value =~= kinds);
    } else {
        let kind = kinds[0];
        assert(address_named(kind, names));
        assert(whole[0] == address_shape(kind, names));
        assert(shapes(rest)[0] == whole[0]);
        assert(shape_of(rest[0]) == address_shape(kind, names));
        lemma_shapes_skip(rest, 1);
        assert(whole.skip(1) =~= address_shapes(kinds.skip(1), names) + tail);
        assert forall|i: int| 0 <= i < kinds.skip(1).len() implies address_named(
            #[trigger] kinds.skip(1)[i],
            names,
        ) by {
            assert(kinds.skip(1)[i] == kinds[i + 1]);
        }
        lemma_lookup(rest[0].attributes@, OFFSET@);
        lemma_lookup(rest[0].attributes@, P_OFFSET@);
        match kind {
            AddressKind::Address(ImmOrPNode::Imm(v)) => {
                lemma_number_texts_read_back(0, v);
            },
            AddressKind::Address(ImmOrPNode::PNode(n)) => {
                lemma_intern_named(names, n);
            },
            AddressKind::PIndex(RegPIndex { offset, p_index }) => {
                lemma_intern_named(names, p_index);
                let attrs = offset_attrs(offset, names);
                match offset {
                    None => {
                        assert(lookup(attrs, OFFSET@) is None);
                        assert(lookup(attrs, P_OFFSET@) is None);
                    },
                    Some(ImmOrPNode::Imm(v)) => {
                        lemma_number_texts_read_back(0, v);
                        assert(attrs[0] == (OFFSET@, spec_int_text(v)));
                        assert(lookup(attrs, OFFSET@) == Some(spec_int_text(v)));
                    },
                    Some(ImmOrPNode::PNode(n)) => {
                        lemma_intern_named(names, n);
                        assert(attrs[0] == (P_OFFSET@, name_of(names, n)));
                        assert(attrs.skip(1) =~= Seq::<(Seq<char>, Seq<char>)>::empty());
                        assert(lookup(attrs.skip(1), OFFSET@) is None);
                        assert(lookup(attrs, OFFSET@) is None);
                        assert(lookup(attrs, P_OFFSET@) == Some(name_of(names, n)));
                    },
                }
            },
        }
        let head = spec_address_kind(rest, names);
        assert(head is Some);
        assert(head.unwrap().value == kind);
        assert(head.unwrap().error is None);
        assert(head.unwrap().rest == rest.skip(1));
        assert(head.unwrap().names == names);
        lemma_address_kinds_read_back(kinds.skip(1), names, rest.skip(1), tail);
        assert(seq![kind] + kinds.skip(1) =~= kinds);
    }
}

impl RegisterBaseView {
    /// The shapes of the elements that stand for the elements of the
    /// register in a description, followed by `tail`.
    pub open spec fn shape_then(self, names: Seq<Seq<char>>, tail: Seq<Shape>) -> Seq<Shape> {
        self.elem_base.shape_then(names, self.register_shape_then(names, tail))
    }

    /// The shapes of the elements of the register that follow its
    /// descriptive elements, followed by `tail`.
    pub open spec fn register_shape_then(self, names: Seq<Seq<char>>, tail: Seq<Shape>) -> Seq<
        Shape,
    > {
        opt_shape(STREAMABLE@, Some(spec_bool_to_text(self.streamable))) + (address_shapes(
            self.address_kinds,
            names,
        ) + (seq![length_shape(self.length, names)] + (opt_shape(
            ACCESS_MODE@,
            Some(self.access_mode.spec_to_text()),
        ) + (opt_shape(P_PORT@, Some(name_of(names, self.p_port))) + (opt_shape(
            CACHEABLE@,
            Some(self.cacheable.spec_to_text()),
        ) + (opt_shape(POLLING_TIME@, uint_text_opt(self.polling_time)) + (run_shape(
            P_INVALIDATOR@,
            names_of(names, self.p_invalidators),
        ) + tail)))))))
    }

    /// Whether every node that the elements refer to is one of `names`.
    pub open spec fn named_in(self, names: Seq<Seq<char>>) -> bool {
        &&& self.elem_base.named_in(names)
        &&& forall|i: int|
            0 <= i < self.address_kinds.len() ==> address_named(
                #[trigger] self.address_kinds[i],
                names,
            )
        &&& operand_named(self.length, names)
        &&& named(names, self.p_port)
        &&& all_named(names, self.p_invalidators)
    }
}

/// The elements of a register that were written for a value read back as
/// that value: where the elements `rest` have the shapes of the value `v`,
/// followed by shapes of elements that come later in a node, the parser
/// yields `v` without an error, leaves what follows, and interns no new
/// name.
pub proof fn lemma_register_base_reads_back(
    v: RegisterBaseView,
    names: Seq<Seq<char>>,
    rest: Seq<Element>,
    tail: Seq<Shape>,
)
    requires
        names.no_duplicates(),
        v.named_in(names),
        shapes(rest) == v.shape_then(names, tail),
        all_after(tail, 23),
    ensures
        RegisterBase::spec_parse(rest, names).value == v,
        RegisterBase::spec_parse(rest, names).error is None,
        shapes(RegisterBase::spec_parse(rest, names).rest) == tail,
        RegisterBase::spec_parse(rest, names).names == names,
{
    lemma_tag_orders();
    crate::parser::elem_name::lemma_name_marks();
    let h23 = run_shape(P_INVALIDATOR@, names_of(names, v.p_invalidators));
    let t23 = h23 + tail;
    lemma_all_after(h23, P_INVALIDATOR@, tail, 22);
    let h22 = opt_shape(POLLING_TIME@, uint_text_opt(v.polling_time));
    let t22 = h22 + t23;
    lemma_all_after(h22, POLLING_TIME@, t23, 21);
    let h21 = opt_shape(CACHEABLE@, Some(v.cacheable.spec_to_text()));
    let t21 = h21 + t22;
    lemma_all_after(h21, CACHEABLE@, t22, 20);
    let h20 = opt_shape(P_PORT@, Some(name_of(names, v.p_port)));
    let t20 = h20 + t21;
    lemma_all_after(h20, P_PORT@, t21, 19);
    let h19 = opt_shape(ACCESS_MODE@, Some(v.access_mode.spec_to_text()));
    let t19 = h19 + t20;
    lemma_all_after(h19, ACCESS_MODE@, t20, 18);
    let h18 = seq![length_shape(v.length, names)];
    let t18 = h18 + t19;
    assert(all_after(h18, 17)) by {
        assert(h18[0] == length_shape(v.length, names));
    }
    lemma_all_after_any(h18, t19, 17);
    let h17 = address_shapes(v.address_kinds, names);
    let t17 = h17 + t18;
    assert(all_after(h17, 16)) by {
        assert forall|i: int| 0 <= i < h17.len() implies tag_order((#[trigger] h17[i]).tag)
            > 16 by {
            assert(h17[i] == address_shape(v.address_kinds[i], names));
        }
    }
    assert(all_after(t18, 16));
    lemma_all_after_any(h17, t18, 16);
    let h16 = opt_shape(STREAMABLE@, Some(spec_bool_to_text(v.streamable)));
    let t16 = h16 + t17;
    lemma_all_after(h16, STREAMABLE@, t17, 15);
    assert(t16 == v.register_shape_then(names, tail));
    lemma_elem_base_reads_back(v.elem_base, names, rest, t16);
    let base = NodeElementBase::spec_parse(rest, names);
    lemma_read_opt(base.rest, STREAMABLE@, Some(spec_bool_to_text(v.streamable)), t17);
    let r1 = after_opt(base.rest, STREAMABLE@);
    lemma_address_kinds_read_back(v.address_kinds, names, r1, t18);
    let addresses = spec_address_kinds(r1, names);
    // The length.
    let r2 = addresses.rest;
    assert(shapes(r2).len() == r2.len());
    assert(t18[0] == length_shape(v.length, names));
    assert(shapes(r2)[0] == t18[0]);
    assert(shape_of(r2[0]) == length_shape(v.length, names));
    lemma_shapes_skip(r2, 1);
    assert(t18.skip(1) =~= t19);
    match v.length {
        ImmOrPNode::Imm(l) => {
            lemma_number_texts_read_back(0, l);
        },
        ImmOrPNode::PNode(n) => {
            lemma_intern_named(names, n);
        },
    }
    let length = spec_length(r2, names);
    assert(length.value == v.length);
    assert(length.error is None);
    assert(length.rest == r2.skip(1));
    assert(length.names == names);
    lemma_read_opt(length.rest, ACCESS_MODE@, Some(v.access_mode.spec_to_text()), t20);
    let r4 = after_opt(length.rest, ACCESS_MODE@);
    lemma_read_opt(r4, P_PORT@, Some(name_of(names, v.p_port)), t21);
    let r5 = after_opt(r4, P_PORT@);
    lemma_read_opt(r5, CACHEABLE@, Some(v.cacheable.spec_to_text()), t22);
    let r6 = after_opt(r5, CACHEABLE@);
    lemma_read_opt(r6, POLLING_TIME@, uint_text_opt(v.polling_time), t23);
    let r7 = after_opt(r6, POLLING_TIME@);
    lemma_read_run(r7, P_INVALIDATOR@, names_of(names, v.p_invalidators), tail);
    crate::elem_type::lemma_bool_text_reads_back(v.streamable);
    v.access_mode.lemma_text_reads_back();
    v.cacheable.lemma_text_reads_back();
    if v.polling_time is Some {
        lemma_number_texts_read_back(v.polling_time.unwrap(), 0);
    }
    lemma_intern_named(names, v.p_port);
    lemma_intern_all_named(names, v.p_invalidators);
    let p = RegisterBase::spec_parse(rest, names);
    assert(p.value.elem_base == v.elem_base);
    assert(p.value.streamable == v.streamable);
    assert(p.value.address_kinds == v.address_kinds);
    assert(p.value.length == v.length);
    assert(p.value.access_mode == v.access_mode);
    assert(p.value.p_port == v.p_port);
    assert(p.value.cacheable == v.cacheable);
    assert(p.value.polling_time == v.polling_time);
    assert(p.value.p_invalidators == v.p_invalidators);
}

} // verus!
