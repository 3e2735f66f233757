//! Stores of the node graph: interned node names, literal values and caches.

use vstd::prelude::*;
use vstd::slice::slice_to_vec;

use crate::node::{slot_view, NodeData, NodeDataView};
use crate::utils::str_eq;

verus! {

/// Handle of a node: the position of its name among the interned names.
#[derive(Clone, Copy, Debug, PartialEq, Eq, Structural, Hash)]
pub struct NodeId(pub usize);

/// Position of `s` in `names`, where it occurs.
pub open spec fn position_of(names: Seq<Seq<char>>, s: Seq<char>) -> int {
    choose|i: int| 0 <= i < names.len() && names[i] == s
}

/// Interning `s` into `names`: a name that is known keeps its id and leaves
/// the names as they are; a new one goes to the end.
pub open spec fn spec_intern(names: Seq<Seq<char>>, s: Seq<char>) -> (Seq<Seq<char>>, NodeId) {
    if names.contains(s) {
        (names, NodeId(position_of(names, s) as usize))
    } else {
        (names.push(s), NodeId(names.len() as usize))
    }
}

/// The names after interning `s`.
pub open spec fn names_with(names: Seq<Seq<char>>, s: Seq<char>) -> Seq<Seq<char>> {
    spec_intern(names, s).0
}

/// The id under which `s` is interned.
pub open spec fn id_in(names: Seq<Seq<char>>, s: Seq<char>) -> NodeId {
    spec_intern(names, s).1
}

/// Interning is idempotent: a second interning of the same name changes
/// nothing and returns the same id, and the id leads back to the name.
pub proof fn lemma_intern_idempotent(names: Seq<Seq<char>>, s: Seq<char>)
    requires
        names.len() < usize::MAX,
    ensures
        spec_intern(names_with(names, s), s) == (names_with(names, s), id_in(names, s)),
        0 <= id_in(names, s).0 < names_with(names, s).len(),
        names_with(names, s)[id_in(names, s).0 as int] == s,
        names.no_duplicates() ==> names_with(names, s).no_duplicates(),
{
    let after = names_with(names, s);
    if names.contains(s) {
        let i = position_of(names, s);
        assert(0 <= i < names.len() && names[i] == s);
    } else {
        assert(after[names.len() as int] == s);
        assert(after.contains(s));
        let i = position_of(after, s);
        assert(0 <= i < after.len() && after[i] == s);
        if i < names.len() {
            assert(names[i] == s);
            assert(names.contains(s));
        }
    }
}


/// Interns the names of nodes while a description is parsed.
pub trait NodeStoreBuilder {
    /// The names interned so far; the id of a name is its position.
    ///
    /// An implementation that is verified states its names here; one that
    /// is not leaves the default.
    open spec fn names(&self) -> Seq<Seq<char>> {
        Seq::empty()
    }

    /// The nodes stored so far, by id; an id without a node has `None`.
    ///
    /// An implementation that is verified states its nodes here; one that
    /// is not leaves the default.
    open spec fn stored(&self) -> Seq<Option<NodeDataView>> {
        Seq::empty()
    }

    /// Returns the id of `s`, interning it first where it is new.
    fn get_or_intern(&mut self, s: &str) -> (id: NodeId)
        ensures
            (final(self).names(), id) == spec_intern(old(self).names(), s@),
            final(self).stored() == old(self).stored(),
    ;

    /// Stores `data` as the node with the id `id`, in place of the node
    /// that had the id before.
    fn store_node(&mut self, id: NodeId, data: NodeData)
        ensures
            final(self).names() == old(self).names(),
            final(self).stored() == spec_store_node(old(self).stored(), id, data@),
    ;
}

/// The nodes `nodes` with `data` as the node with the id `id`.
pub open spec fn spec_store_node(
    nodes: Seq<Option<NodeDataView>>,
    id: NodeId,
    data: NodeDataView,
) -> Seq<Option<NodeDataView>> {
    Seq::new(
        if id.0 < nodes.len() {
            nodes.len()
        } else {
            (id.0 + 1) as nat
        },
        |i: int|
            if i == id.0 {
                Some(data)
            } else if i < nodes.len() {
                nodes[i]
            } else {
                None
            },
    )
}

/// Node store that keeps the interned names and the nodes in vectors.
pub struct DefaultNodeStore {
    names: Vec<String>,
    nodes: Vec<Option<NodeData>>,
}

impl DefaultNodeStore {
    #[verifier::type_invariant]
    spec fn inv(self) -> bool {
        self.interned().no_duplicates()
    }

    /// The interned names, by id.
    pub closed spec fn interned(&self) -> Seq<Seq<char>> {
        Seq::new(self.names@.len(), |i: int| self.names@[i]@)
    }

    /// The nodes of the store, by id; an id without a node has `None`.
    pub closed spec fn nodes(&self) -> Seq<Option<NodeDataView>> {
        Seq::new(self.nodes@.len(), |i: int| slot_view(self.nodes@[i]))
    }

    /// A store without names and without nodes.
    pub fn new() -> (r: Self)
        ensures
            r.interned() == Seq::<Seq<char>>::empty(),
            r.nodes() == Seq::<Option<NodeDataView>>::empty(),
            r.names() == Seq::<Seq<char>>::empty(),
            r.stored() == Seq::<Option<NodeDataView>>::empty(),
    {
        let r = DefaultNodeStore { names: Vec::new(), nodes: Vec::new() };
        assert(r.interned() =~= Seq::<Seq<char>>::empty());
        assert(r.nodes() =~= Seq::<Option<NodeDataView>>::empty());
        r
    }

    /// The number of ids that the store has room for.
    pub fn node_capacity(&self) -> (r: usize)
        ensures
            r == self.nodes().len(),
    {
        self.nodes.len()
    }

    /// The number of interned names, of which no two are the same.
    pub fn name_count(&self) -> (r: usize)
        ensures
            r == self.interned().len(),
            self.interned().no_duplicates(),
    {
        proof {
            use_type_invariant(self);
        }
        self.names.len()
    }

    /// The node with the id `id`.
    pub fn node_opt(&self, id: NodeId) -> (r: Option<&NodeData>)
        ensures
            r is Some <==> id.0 < self.nodes().len() && self.nodes()[id.0 as int] is Some,
            r matches Some(n) ==> Some(n@) == self.nodes()[id.0 as int],
    {
        if id.0 < self.nodes.len() {
            match &self.nodes[id.0] {
                Some(n) => Some(n),
                None => None,
            }
        } else {
            None
        }
    }

    /// The name that `id` stands for.
    pub fn name_by_id(&self, id: NodeId) -> (r: Option<&str>)
        ensures
            r is Some <==> id.0 < self.interned().len(),
            r matches Some(s) ==> s@ == self.interned()[id.0 as int],
    {
        if id.0 < self.names.len() {
            Some(self.names[id.0].as_str())
        } else {
            None
        }
    }

    /// The id of `s`, if it has been interned.
    pub fn id_by_name(&self, s: &str) -> (r: Option<NodeId>)
        ensures
            self.interned().no_duplicates(),
            r is Some <==> self.interned().contains(s@),
            r matches Some(id) ==> id == NodeId(position_of(self.interned(), s@) as usize) && id.0
                < self.interned().len() && self.interned()[id.0 as int] == s@,
    {
        proof {
            use_type_invariant(self);
        }
        let mut i: usize = 0;
        while i < self.names.len()
            invariant
                i <= self.names.len(),
                self.interned().no_duplicates(),
                forall|j: int| 0 <= j < i ==> self.interned()[j] != s@,
            decreases self.names.len() - i,
        {
            if str_eq(self.names[i].as_str(), s) {
                proof {
                    let names = self.interned();
                    assert(names[i as int] == s@);
                    assert(names.contains(s@));
                    let p = position_of(names, s@);
                    assert(0 <= p < names.len() && names[p] == s@);
                }
                return Some(NodeId(i));
            }
            i += 1;
        }
        None
    }
}

impl NodeStoreBuilder for DefaultNodeStore {
    open spec fn names(&self) -> Seq<Seq<char>> {
        self.interned()
    }

    open spec fn stored(&self) -> Seq<Option<NodeDataView>> {
        self.nodes()
    }

    fn store_node(&mut self, id: NodeId, data: NodeData)
        ensures
            final(self).interned() == old(self).interned(),
            final(self).nodes() == spec_store_node(old(self).nodes(), id, data@),
    {
        proof {
            use_type_invariant(&*self);
        }
        let mut owned = DefaultNodeStore::new();
        core::mem::swap(self, &mut owned);
        let DefaultNodeStore { names, nodes } = owned;
        let mut nodes = nodes;
        let ghost before = nodes@;
        while nodes.len() <= id.0
            invariant
                nodes@.len() >= before.len(),
                nodes@.len() == before.len() || nodes@.len() <= id.0 + 1,
                forall|i: int| 0 <= i < before.len() ==> nodes@[i] == before[i],
                forall|i: int| before.len() <= i < nodes@.len() ==> nodes@[i] is None,
            decreases id.0 + 1 - nodes@.len(),
        {
            nodes.push(None);
        }
        let ghost view = data@;
        nodes[id.0] = Some(data);
        *self = DefaultNodeStore { names, nodes };
        assert(self.nodes() =~= spec_store_node(old(self).nodes(), id, view));
    }

    fn get_or_intern(&mut self, s: &str) -> (id: NodeId) {
        match self.id_by_name(s) {
            Some(id) => id,
            None => {
                let ghost before = self.interned();
                let id = NodeId(self.names.len());
                let mut owned = DefaultNodeStore::new();
                core::mem::swap(self, &mut owned);
                let DefaultNodeStore { names, nodes } = owned;
                let mut names = names;
                names.push(s.to_owned());
                assert(Seq::new(names@.len(), |i: int| names@[i]@) =~= before.push(s@));
                *self = DefaultNodeStore { names, nodes };
                id
            },
        }
    }
}


/// Collects, while a description is parsed, which node invalidates which.
pub trait CacheStoreBuilder {
    /// The pairs of an invalidator and its target: a write to the first
    /// drops the cache of the second.
    ///
    /// An implementation that is verified states its pairs here; one that
    /// is not leaves the default.
    open spec fn invalidators(&self) -> Set<(NodeId, NodeId)> {
        Set::empty()
    }

    /// Records that a write to `invalidator` drops the cache of `target`.
    fn store_invalidator(&mut self, invalidator: NodeId, target: NodeId)
        ensures
            final(self).invalidators() == old(self).invalidators().insert((invalidator, target)),
    ;
}


/// Handle of a literal value in a value store: its position.
#[derive(Clone, Copy, Debug, PartialEq, Eq, Structural, Hash)]
pub struct ValueId(pub usize);

/// A literal value of a description.
#[derive(Debug)]
pub enum ValueData {
    Integer(i64),
    /// A double, held as its IEEE 754 bits.
    Float(u64),
    Str(String),
    Boolean(bool),
}

/// A `ValueData` as a plain value.
pub enum ValueDataView {
    Integer(i64),
    Float(u64),
    Str(Seq<char>),
    Boolean(bool),
}

impl View for ValueData {
    type V = ValueDataView;

    open spec fn view(&self) -> ValueDataView {
        match self {
            ValueData::Integer(v) => ValueDataView::Integer(*v),
            ValueData::Float(v) => ValueDataView::Float(*v),
            ValueData::Str(v) => ValueDataView::Str(v@),
            ValueData::Boolean(v) => ValueDataView::Boolean(*v),
        }
    }
}

/// Collects the literal values of a description while it is parsed.
pub trait ValueStoreBuilder {
    /// The values stored so far; the id of a value is its position.
    ///
    /// An implementation that is verified states its values here; one that
    /// is not leaves the default.
    open spec fn values(&self) -> Seq<ValueDataView> {
        Seq::empty()
    }

    /// Stores `data` behind the values that are there and returns its id.
    fn store(&mut self, data: ValueData) -> (id: ValueId)
        ensures
            final(self).values() == old(self).values().push(data@),
            id.0 == old(self).values().len(),
    ;
}

/// The literal values of a description.
pub trait ValueStore {
    /// The values of the store; the id of a value is its position.
    ///
    /// An implementation that is verified states its values here; one that
    /// is not leaves the default.
    open spec fn values(&self) -> Seq<ValueDataView> {
        Seq::empty()
    }

    /// The value behind `id`, if there is one.
    fn value_opt(&self, id: ValueId) -> (r: Option<&ValueData>)
        ensures
            r is Some <==> id.0 < self.values().len(),
            r matches Some(v) ==> v@ == self.values()[id.0 as int],
    ;

    /// Replaces the value behind `id` by `data` and returns the value that
    /// was there; a store without a value behind `id` stays as it is.
    fn update(&mut self, id: ValueId, data: ValueData) -> (r: Option<ValueData>)
        ensures
            r is Some <==> id.0 < old(self).values().len(),
            r matches Some(v) ==> v@ == old(self).values()[id.0 as int] && final(self).values()
                == old(self).values().update(id.0 as int, data@),
            r is None ==> final(self).values() == old(self).values(),
    ;
}

/// Value store that keeps the values in a vector.
pub struct DefaultValueStore {
    data: Vec<ValueData>,
}

impl DefaultValueStore {
    /// The values of the store, by id.
    pub closed spec fn spec_values(&self) -> Seq<ValueDataView> {
        Seq::new(self.data@.len(), |i: int| self.data@[i]@)
    }

    /// A store without values.
    pub fn new() -> (r: Self)
        ensures
            r.spec_values() == Seq::<ValueDataView>::empty(),
            ValueStoreBuilder::values(&r) == Seq::<ValueDataView>::empty(),
            ValueStore::values(&r) == Seq::<ValueDataView>::empty(),
    {
        let r = DefaultValueStore { data: Vec::new() };
        assert(r.spec_values() =~= Seq::<ValueDataView>::empty());
        r
    }
}

impl ValueStoreBuilder for DefaultValueStore {
    open spec fn values(&self) -> Seq<ValueDataView> {
        self.spec_values()
    }

    fn store(&mut self, data: ValueData) -> (id: ValueId) {
        let ghost before = self.spec_values();
        let ghost view = data@;
        let id = ValueId(self.data.len());
        self.data.push(data);
        assert(self.spec_values() =~= before.push(view));
        id
    }
}

impl ValueStore for DefaultValueStore {
    open spec fn values(&self) -> Seq<ValueDataView> {
        self.spec_values()
    }

    fn value_opt(&self, id: ValueId) -> (r: Option<&ValueData>) {
        if id.0 < self.data.len() {
            Some(&self.data[id.0])
        } else {
            None
        }
    }

    fn update(&mut self, id: ValueId, data: ValueData) -> (r: Option<ValueData>) {
        if id.0 < self.data.len() {
            let ghost before = self.spec_values();
            let ghost view = data@;
            let mut slot = data;
            core::mem::swap(&mut self.data[id.0], &mut slot);
            assert(self.spec_values() =~= before.update(id.0 as int, view));
            Some(slot)
        } else {
            None
        }
    }
}


/// Whether `path` leads from node to node along `pairs`: it has at least two
/// nodes, and each is an invalidator of the next.
pub open spec fn is_chain(pairs: Set<(NodeId, NodeId)>, path: Seq<NodeId>) -> bool {
    path.len() >= 2 && forall|i: int|
        0 <= i < path.len() - 1 ==> #[trigger] pairs.contains((path[i], path[i + 1]))
}

/// Whether a write to `from` invalidates `to`, directly or through a chain
/// of nodes of which each invalidates the next.
pub open spec fn reaches(pairs: Set<(NodeId, NodeId)>, from: NodeId, to: NodeId) -> bool {
    exists|path: Seq<NodeId>| #[trigger]
        is_chain(pairs, path) && path.first() == from && path.last() == to
}

/// The nodes whose caches a write to `nid` drops.
pub open spec fn invalidated_by(pairs: Set<(NodeId, NodeId)>, nid: NodeId) -> Set<NodeId> {
    Set::new(|m: NodeId| reaches(pairs, nid, m))
}

/// A direct invalidator reaches its target.
pub proof fn lemma_reaches_direct(pairs: Set<(NodeId, NodeId)>, a: NodeId, b: NodeId)
    requires
        pairs.contains((a, b)),
    ensures
        reaches(pairs, a, b),
{
    let path = seq![a, b];
    assert(is_chain(pairs, path)) by {
        assert forall|i: int| 0 <= i < path.len() - 1 implies #[trigger] pairs.contains(
            (path[i], path[i + 1]),
        ) by {
            assert(i == 0);
        }
    }
}

/// Invalidation is transitive: what reaches an invalidator reaches its target.
pub proof fn lemma_reaches_step(pairs: Set<(NodeId, NodeId)>, a: NodeId, b: NodeId, c: NodeId)
    requires
        reaches(pairs, a, b),
        pairs.contains((b, c)),
    ensures
        reaches(pairs, a, c),
{
    let path = choose|path: Seq<NodeId>| #[trigger]
        is_chain(pairs, path) && path.first() == a && path.last() == b;
    let longer = path.push(c);
    assert(is_chain(pairs, longer)) by {
        assert forall|i: int| 0 <= i < longer.len() - 1 implies #[trigger] pairs.contains(
            (longer[i], longer[i + 1]),
        ) by {
            if i < path.len() - 1 {
                assert(pairs.contains((path[i], path[i + 1])));
            }
        }
    }
    assert(longer.first() == a && longer.last() == c);
}

/// A cached read of a register: the bytes that were read or written last,
/// with the address and the length of the access.
#[derive(Debug)]
pub struct CacheEntry {
    pub address: i64,
    pub length: i64,
    pub data: Vec<u8>,
}

/// A `CacheEntry` as plain values.
pub struct CacheEntryView {
    pub address: i64,
    pub length: i64,
    pub data: Seq<u8>,
}

impl View for CacheEntry {
    type V = CacheEntryView;

    open spec fn view(&self) -> CacheEntryView {
        CacheEntryView { address: self.address, length: self.length, data: self.data@ }
    }
}

/// The caches of the registers of a node graph.
pub trait CacheStore {
    /// The valid cache entries, by node.
    ///
    /// An implementation that is verified states its entries here; one that
    /// is not leaves the default.
    open spec fn entries(&self) -> Map<NodeId, CacheEntryView> {
        Map::empty()
    }

    /// The pairs of an invalidator and its target.
    ///
    /// An implementation that is verified states its pairs here; one that
    /// is not leaves the default.
    open spec fn pairs(&self) -> Set<(NodeId, NodeId)> {
        Set::empty()
    }

    /// Records `data` as the bytes of the node `nid` at `address`.
    fn cache(&mut self, nid: NodeId, address: i64, length: i64, data: &[u8])
        ensures
            final(self).entries() == old(self).entries().insert(
                nid,
                CacheEntryView { address, length, data: data@ },
            ),
            final(self).pairs() == old(self).pairs(),
    ;

    /// The cached bytes of the node `nid`, where its entry is valid and was
    /// recorded for the same address and length.
    fn get_cache(&self, nid: NodeId, address: i64, length: i64) -> (r: Option<&[u8]>)
        ensures
            r is Some <==> self.entries().contains_key(nid) && self.entries()[nid].address
                == address && self.entries()[nid].length == length,
            r matches Some(d) ==> d@ == self.entries()[nid].data,
    ;

    /// Drops the cache of every node that a write to `nid` invalidates,
    /// directly or through a chain of invalidators.
    fn invalidate_by(&mut self, nid: NodeId)
        ensures
            final(self).entries() == old(self).entries().remove_keys(
                invalidated_by(old(self).pairs(), nid),
            ),
            final(self).pairs() == old(self).pairs(),
    ;

    /// Drops the cache of the node `nid`.
    fn invalidate_of(&mut self, nid: NodeId)
        ensures
            final(self).entries() == old(self).entries().remove(nid),
            final(self).pairs() == old(self).pairs(),
    ;

    /// Drops every cache.
    fn clear(&mut self)
        ensures
            final(self).entries() == Map::<NodeId, CacheEntryView>::empty(),
            final(self).pairs() == old(self).pairs(),
    ;
}


/// The slots and the target lists have one entry for each node that the
/// store knows, and no target lies outside.
spec fn wf_parts(slots: Seq<Option<CacheEntry>>, targets: Seq<Vec<usize>>) -> bool {
    slots.len() == targets.len() && targets_in_range(targets)
}

/// Every target is a node that the store knows.
spec fn targets_in_range(targets: Seq<Vec<usize>>) -> bool {
    forall|i: int, j: int|
        0 <= i < targets.len() && 0 <= j < targets[i]@.len() ==> (#[trigger] targets[i]@[j])
            < targets.len()
}

/// The valid entries among `slots`.
spec fn entries_of(slots: Seq<Option<CacheEntry>>) -> Map<NodeId, CacheEntryView> {
    Map::new(
        |id: NodeId| id.0 < slots.len() && slots[id.0 as int] is Some,
        |id: NodeId| slots[id.0 as int].unwrap()@,
    )
}

/// The pairs of an invalidator and its target that `targets` holds.
spec fn pairs_of(targets: Seq<Vec<usize>>) -> Set<(NodeId, NodeId)> {
    Set::new(
        |p: (NodeId, NodeId)| p.0.0 < targets.len() && targets[p.0.0 as int]@.contains(p.1.0),
    )
}

/// Number of entries of `s` that are `false`.
spec fn count_false(s: Seq<bool>) -> nat
    decreases s.len(),
{
    if s.len() == 0 {
        0
    } else {
        count_false(s.drop_last()) + if s.last() {
            0nat
        } else {
            1nat
        }
    }
}

/// Setting an entry that is `false` leaves one `false` entry less.
proof fn lemma_count_false_update(s: Seq<bool>, i: int)
    requires
        0 <= i < s.len(),
        !s[i],
    ensures
        count_false(s.update(i, true)) + 1 == count_false(s),
    decreases s.len(),
{
    if i == s.len() - 1 {
        assert(s.update(i, true).drop_last() =~= s.drop_last());
    } else {
        assert(s.update(i, true).drop_last() =~= s.drop_last().update(i, true));
        lemma_count_false_update(s.drop_last(), i);
    }
}

/// Where the marked nodes and `start` have all their targets marked, every
/// node behind `start` on a chain is marked.
proof fn lemma_chain_is_marked(
    targets: Seq<Vec<usize>>,
    marked: Seq<bool>,
    start: usize,
    path: Seq<NodeId>,
    i: int,
)
    requires
        marked.len() == targets.len(),
        start < targets.len(),
        is_chain(pairs_of(targets), path),
        path[0] == NodeId(start),
        forall|a: int, j: int|
            0 <= a < targets.len() && (a == start || marked[a]) && 0 <= j < targets[a]@.len()
                ==> (#[trigger] targets[a]@[j]) < targets.len() && marked[targets[a]@[j] as int],
        1 <= i < path.len(),
    ensures
        path[i].0 < targets.len(),
        marked[path[i].0 as int],
    decreases i,
{
    let k = i - 1;
    assert(pairs_of(targets).contains((path[k], path[k + 1])));
    if i > 1 {
        lemma_chain_is_marked(targets, marked, start, path, i - 1);
    }
    let a = path[i - 1].0 as int;
    let j = choose|j: int| 0 <= j < targets[a]@.len() && targets[a]@[j] == path[i].0;
    assert(targets[a]@[j] < targets.len());
}

/// Drops the slot of every node that `start` reaches along `targets`.
fn sweep(slots: &mut Vec<Option<CacheEntry>>, targets: &Vec<Vec<usize>>, start: usize)
    requires
        wf_parts(old(slots)@, targets@),
        start < targets@.len(),
    ensures
        final(slots)@.len() == old(slots)@.len(),
        entries_of(final(slots)@) == entries_of(old(slots)@).remove_keys(
            invalidated_by(pairs_of(targets@), NodeId(start)),
        ),
{
    let n = targets.len();
    let ghost pairs = pairs_of(targets@);
    let ghost from = NodeId(start);
    let mut marked: Vec<bool> = Vec::new();
    while marked.len() < n
        invariant
            marked@.len() <= n,
            forall|t: int| 0 <= t < marked@.len() ==> !marked@[t],
        decreases n - marked@.len(),
    {
        marked.push(false);
    }
    let mut work: Vec<usize> = Vec::new();
    work.push(start);
    let ghost mut done: Set<usize> = Set::empty();
    assert(work@[0] == start);
    while work.len() > 0
        invariant
            n == targets@.len(),
            n == marked@.len(),
            n == slots@.len(),
            n == old(slots)@.len(),
            targets_in_range(targets@),
            start < n,
            pairs == pairs_of(targets@),
            from == NodeId(start),
            forall|t: int| 0 <= t < n && marked@[t] ==> reaches(pairs, from, NodeId(t as usize)),
            forall|k: int|
                0 <= k < work@.len() ==> (#[trigger] work@[k]) < n && (work@[k] == start
                    || marked@[work@[k] as int]),
            forall|a: usize|
                a < n && (a == start || marked@[a as int]) ==> #[trigger] done.contains(a)
                    || work@.contains(a),
            forall|a: usize, j: int|
                done.contains(a) && 0 <= j < targets@[a as int]@.len() ==> marked@[(
                #[trigger] targets@[a as int]@[j]) as int],
            forall|a: usize| done.contains(a) ==> a < n,
            forall|t: int|
                0 <= t < n ==> slots@[t] == if marked@[t] {
                    None::<CacheEntry>
                } else {
                    old(slots)@[t]
                },
        decreases 2 * count_false(marked@) + work@.len(),
    {
        let ghost work_before = work@;
        let ghost measure = 2 * count_false(marked@) + work@.len();
        let cur = work.pop().unwrap();
        assert(cur == work_before[work_before.len() - 1]);
        assert forall|a: usize| a < n && (a == start || marked@[a as int]) implies #[trigger]
            done.contains(a) || work@.contains(a) || a == cur by {
            if work_before.contains(a) && a != cur {
                let k = choose|k: int| 0 <= k < work_before.len() && work_before[k] == a;
                assert(work@[k] == a);
            }
        }
        let mut j: usize = 0;
        while j < targets[cur].len()
            invariant
                n == targets@.len(),
                n == marked@.len(),
                n == slots@.len(),
                n == old(slots)@.len(),
                targets_in_range(targets@),
                start < n,
                cur < n,
                cur == start || marked@[cur as int],
                pairs == pairs_of(targets@),
                from == NodeId(start),
                0 <= j <= targets@[cur as int]@.len(),
                forall|t: int|
                    0 <= t < n && marked@[t] ==> reaches(pairs, from, NodeId(t as usize)),
                forall|k: int|
                    0 <= k < work@.len() ==> (#[trigger] work@[k]) < n && (work@[k] == start
                        || marked@[work@[k] as int]),
                forall|a: usize|
                    a < n && (a == start || marked@[a as int]) ==> #[trigger] done.contains(a)
                        || work@.contains(a) || a == cur,
                forall|a: usize, j: int|
                    done.contains(a) && 0 <= j < targets@[a as int]@.len() ==> marked@[(
                    #[trigger] targets@[a as int]@[j]) as int],
                forall|a: usize| done.contains(a) ==> a < n,
                forall|i: int|
                    0 <= i < j ==> marked@[(#[trigger] targets@[cur as int]@[i]) as int],
                forall|t: int|
                    0 <= t < n ==> slots@[t] == if marked@[t] {
                        None::<CacheEntry>
                    } else {
                        old(slots)@[t]
                    },
                2 * count_false(marked@) + work@.len() < measure,
            decreases targets@[cur as int]@.len() - j,
        {
            let t = targets[cur][j];
            assert(t < n);
            if !marked[t] {
                proof {
                    lemma_count_false_update(marked@, t as int);
                    assert(targets@[cur as int]@.contains(t));
                    assert(pairs.contains((NodeId(cur), NodeId(t))));
                    if cur == start {
                        lemma_reaches_direct(pairs, from, NodeId(t));
                    } else {
                        lemma_reaches_step(pairs, from, NodeId(cur), NodeId(t));
                    }
                }
                let ghost work_old = work@;
                marked[t] = true;
                slots[t] = None;
                work.push(t);
                proof {
                    assert(work@[work@.len() - 1] == t);
                    assert forall|a: usize|
                        a < n && (a == start || marked@[a as int]) implies #[trigger] done.contains(
                        a,
                    ) || work@.contains(a) || a == cur by {
                        if a == t {
                            assert(work@[work@.len() - 1] == a);
                        } else if work_old.contains(a) {
                            let k = choose|k: int| 0 <= k < work_old.len() && work_old[k] == a;
                            assert(work@[k] == a);
                        }
                    }
                }
            }
            j += 1;
        }
        proof {
            done = done.insert(cur);
        }
    }
    proof {
        assert forall|a: int, j: int|
            0 <= a < n && (a == start || marked@[a]) && 0 <= j < targets@[a]@.len() implies (
        #[trigger] targets@[a]@[j]) < n && marked@[targets@[a]@[j] as int] by {
            assert(done.contains(a as usize) || work@.contains(a as usize));
            assert(done.contains(a as usize));
        }
        let swept = entries_of(slots@);
        let expected = entries_of(old(slots)@).remove_keys(invalidated_by(pairs, from));
        assert forall|m: NodeId| reaches(pairs, from, m) implies m.0 < n && marked@[m.0 as int] by {
            let path = choose|path: Seq<NodeId>| #[trigger]
                is_chain(pairs, path) && path.first() == from && path.last() == m;
            lemma_chain_is_marked(targets@, marked@, start, path, path.len() - 1);
        }
        assert forall|m: NodeId| swept.contains_key(m) <==> expected.contains_key(m) by {
            if m.0 < n {
                assert(NodeId(m.0 as int as usize) == m);
            }
        }
        assert(swept =~= expected);
    }
}

/// Cache store that keeps one entry for each node, and for each node the
/// list of the nodes that it invalidates.
pub struct DefaultCacheStore {
    slots: Vec<Option<CacheEntry>>,
    targets: Vec<Vec<usize>>,
}

/// Makes room for the node `id` in `slots` and `targets`.
fn grow(slots: &mut Vec<Option<CacheEntry>>, targets: &mut Vec<Vec<usize>>, id: usize)
    requires
        wf_parts(old(slots)@, old(targets)@),
    ensures
        wf_parts(final(slots)@, final(targets)@),
        final(slots)@.len() > id,
        final(slots)@.len() >= old(slots)@.len(),
        entries_of(final(slots)@) == entries_of(old(slots)@),
        pairs_of(final(targets)@) == pairs_of(old(targets)@),
        forall|i: int| 0 <= i < old(slots)@.len() ==> final(slots)@[i] == old(slots)@[i],
        forall|i: int| 0 <= i < old(targets)@.len() ==> final(targets)@[i] == old(targets)@[i],
        forall|i: int|
            old(targets)@.len() <= i < final(targets)@.len() ==> final(targets)@[i]@.len() == 0,
{
    while slots.len() <= id
        invariant
            wf_parts(slots@, targets@),
            old(slots)@.len() == old(targets)@.len(),
            slots@.len() >= old(slots)@.len(),
            forall|i: int| 0 <= i < old(slots)@.len() ==> slots@[i] == old(slots)@[i],
            forall|i: int| old(slots)@.len() <= i < slots@.len() ==> slots@[i] is None,
            forall|i: int| 0 <= i < old(targets)@.len() ==> targets@[i] == old(targets)@[i],
            forall|i: int| old(targets)@.len() <= i < targets@.len() ==> targets@[i]@.len() == 0,
        decreases id + 1 - slots@.len(),
    {
        slots.push(None);
        targets.push(Vec::new());
    }
    proof {
        assert(entries_of(slots@) =~= entries_of(old(slots)@));
        assert forall|p: (NodeId, NodeId)| pairs_of(targets@).contains(p) <==> pairs_of(
            old(targets)@,
        ).contains(p) by {
            if p.0.0 < targets@.len() && p.0.0 >= old(targets)@.len() {
                assert(targets@[p.0.0 as int]@.len() == 0);
            }
        }
        assert(pairs_of(targets@) =~= pairs_of(old(targets)@));
    }
}

impl DefaultCacheStore {
    #[verifier::type_invariant]
    spec fn inv(self) -> bool {
        wf_parts(self.slots@, self.targets@)
    }

    /// The valid cache entries, by node.
    pub closed spec fn spec_entries(&self) -> Map<NodeId, CacheEntryView> {
        entries_of(self.slots@)
    }

    /// The pairs of an invalidator and its target.
    pub closed spec fn spec_pairs(&self) -> Set<(NodeId, NodeId)> {
        pairs_of(self.targets@)
    }

    /// A store without entries and without invalidators.
    pub fn new() -> (r: Self)
        ensures
            r.spec_entries() == Map::<NodeId, CacheEntryView>::empty(),
            r.spec_pairs() == Set::<(NodeId, NodeId)>::empty(),
            r.entries() == Map::<NodeId, CacheEntryView>::empty(),
            r.pairs() == Set::<(NodeId, NodeId)>::empty(),
            r.invalidators() == Set::<(NodeId, NodeId)>::empty(),
    {
        let r = DefaultCacheStore { slots: Vec::new(), targets: Vec::new() };
        assert(r.spec_entries() =~= Map::<NodeId, CacheEntryView>::empty());
        assert(r.spec_pairs() =~= Set::<(NodeId, NodeId)>::empty());
        r
    }
}

impl CacheStoreBuilder for DefaultCacheStore {
    open spec fn invalidators(&self) -> Set<(NodeId, NodeId)> {
        self.spec_pairs()
    }

    fn store_invalidator(&mut self, invalidator: NodeId, target: NodeId) {
        proof {
            use_type_invariant(&*self);
        }
        let mut owned = DefaultCacheStore::new();
        core::mem::swap(self, &mut owned);
        let DefaultCacheStore { slots, targets } = owned;
        let mut slots = slots;
        let mut targets = targets;
        grow(&mut slots, &mut targets, invalidator.0);
        grow(&mut slots, &mut targets, target.0);
        let ghost before = targets@;
        let mut list: Vec<usize> = Vec::new();
        core::mem::swap(&mut targets[invalidator.0], &mut list);
        list.push(target.0);
        core::mem::swap(&mut targets[invalidator.0], &mut list);
        proof {
            let row = before[invalidator.0 as int]@;
            assert(targets@[invalidator.0 as int]@ == row.push(target.0));
            assert forall|i: int, j: int|
                0 <= i < targets@.len() && 0 <= j < targets@[i]@.len() implies (
            #[trigger] targets@[i]@[j]) < targets@.len() by {
                if i == invalidator.0 {
                    if j < row.len() {
                        assert(before[i]@[j] < before.len());
                    }
                } else {
                    assert(targets@[i] == before[i]);
                    assert(before[i]@[j] < before.len());
                }
            }
            assert forall|p: (NodeId, NodeId)| pairs_of(targets@).contains(p) <==> pairs_of(
                before,
            ).insert((invalidator, target)).contains(p) by {
                if p.0.0 < targets@.len() {
                    if p.0 == invalidator {
                        let grown = row.push(target.0);
                        if grown.contains(p.1.0) {
                            let k = choose|k: int| 0 <= k < grown.len() && grown[k] == p.1.0;
                            if k < row.len() {
                                assert(row[k] == p.1.0);
                            }
                        }
                        if row.contains(p.1.0) {
                            let k = choose|k: int| 0 <= k < row.len() && row[k] == p.1.0;
                            assert(grown[k] == p.1.0);
                        }
                        if p.1 == target {
                            assert(grown[row.len() as int] == target.0);
                        }
                    } else {
                        assert(targets@[p.0.0 as int] == before[p.0.0 as int]);
                    }
                }
            }
            assert(pairs_of(targets@) =~= pairs_of(before).insert((invalidator, target)));
        }
        *self = DefaultCacheStore { slots, targets };
    }
}


impl CacheStore for DefaultCacheStore {
    open spec fn entries(&self) -> Map<NodeId, CacheEntryView> {
        self.spec_entries()
    }

    open spec fn pairs(&self) -> Set<(NodeId, NodeId)> {
        self.spec_pairs()
    }

    fn cache(&mut self, nid: NodeId, address: i64, length: i64, data: &[u8]) {
        proof {
            use_type_invariant(&*self);
        }
        let mut owned = DefaultCacheStore::new();
        core::mem::swap(self, &mut owned);
        let DefaultCacheStore { slots, targets } = owned;
        let mut slots = slots;
        let mut targets = targets;
        grow(&mut slots, &mut targets, nid.0);
        let ghost before = slots@;
        slots[nid.0] = Some(CacheEntry { address, length, data: slice_to_vec(data) });
        proof {
            assert forall|m: NodeId| #[trigger]
                entries_of(slots@).contains_key(m) <==> entries_of(before).insert(
                    nid,
                    CacheEntryView { address, length, data: data@ },
                ).contains_key(m) by {
                if m.0 == nid.0 {
                    assert(m == nid);
                }
            }
            assert(entries_of(slots@) =~= entries_of(before).insert(
                nid,
                CacheEntryView { address, length, data: data@ },
            ));
        }
        *self = DefaultCacheStore { slots, targets };
    }

    fn get_cache(&self, nid: NodeId, address: i64, length: i64) -> (r: Option<&[u8]>) {
        if nid.0 < self.slots.len() {
            match &self.slots[nid.0] {
                Some(entry) => {
                    if entry.address == address && entry.length == length {
                        Some(entry.data.as_slice())
                    } else {
                        None
                    }
                },
                None => None,
            }
        } else {
            None
        }
    }

    fn invalidate_by(&mut self, nid: NodeId) {
        proof {
            use_type_invariant(&*self);
        }
        if nid.0 < self.targets.len() {
            let mut owned = DefaultCacheStore::new();
            core::mem::swap(self, &mut owned);
            let DefaultCacheStore { slots, targets } = owned;
            let mut slots = slots;
            sweep(&mut slots, &targets, nid.0);
            *self = DefaultCacheStore { slots, targets };
        } else {
            proof {
                let pairs = self.spec_pairs();
                assert forall|m: NodeId| !reaches(pairs, nid, m) by {
                    if reaches(pairs, nid, m) {
                        let path = choose|path: Seq<NodeId>| #[trigger]
                            is_chain(pairs, path) && path.first() == nid && path.last() == m;
                        let k: int = 0;
                        assert(pairs.contains((path[k], path[k + 1])));
                    }
                }
                assert(self.spec_entries().remove_keys(invalidated_by(pairs, nid))
                    =~= self.spec_entries());
            }
        }
    }

    fn invalidate_of(&mut self, nid: NodeId) {
        proof {
            use_type_invariant(&*self);
        }
        if nid.0 < self.slots.len() {
            let mut owned = DefaultCacheStore::new();
            core::mem::swap(self, &mut owned);
            let DefaultCacheStore { slots, targets } = owned;
            let mut slots = slots;
            let ghost before = slots@;
            slots[nid.0] = None;
            proof {
                assert forall|m: NodeId| #[trigger]
                    entries_of(slots@).contains_key(m) <==> entries_of(before).remove(
                        nid,
                    ).contains_key(m) by {
                    if m.0 == nid.0 {
                        assert(m == nid);
                    }
                }
                assert(entries_of(slots@) =~= entries_of(before).remove(nid));
            }
            *self = DefaultCacheStore { slots, targets };
        } else {
            assert(self.spec_entries().remove(nid) =~= self.spec_entries());
        }
    }

    fn clear(&mut self) {
        proof {
            use_type_invariant(&*self);
        }
        let mut owned = DefaultCacheStore::new();
        core::mem::swap(self, &mut owned);
        let DefaultCacheStore { slots, targets } = owned;
        let mut slots = slots;
        let mut i: usize = 0;
        while i < slots.len()
            invariant
                i <= slots@.len(),
                slots@.len() == targets@.len(),
                forall|k: int| 0 <= k < i ==> slots@[k] is None,
            decreases slots@.len() - i,
        {
            slots[i] = None;
            i += 1;
        }
        assert(entries_of(slots@) =~= Map::<NodeId, CacheEntryView>::empty());
        *self = DefaultCacheStore { slots, targets };
    }
}

} // verus!
