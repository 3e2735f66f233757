//! The shape of a run of elements: what the parsers of the nodes read of
//! it. The laws of this module say what the parsers make of elements that
//! were written for a value, slot by slot.

use vstd::prelude::*;

use crate::parser::elem_name::{
    lemma_name_marks, ACCESS_MODE, ADDRESS, BIT, CACHEABLE, DESCRIPTION, DISPLAY_NAME, DOCU_URL,
    ENDIANNESS, EVENT_ID, EXTENSION, IMPOSED_ACCESS_MODE, IS_DEPRECATED, LENGTH, LSB, MSB,
    POLLING_TIME, P_ADDRESS, P_ALIAS, P_BLOCK_POLLING, P_CAST_ALIAS, P_ERROR, P_INDEX,
    P_INVALIDATOR, P_IS_AVAILABLE, P_IS_IMPLEMENTED, P_IS_LOCKED, P_LENGTH, P_PORT, P_SELECTED,
    REPRESENTATION, SIGN, STREAMABLE, TOOL_TIP, UNIT, VISIBILITY,
};
use crate::parser::xml::{
    after_opt, after_run, has_tag, opt_text, run_texts, spec_attribute, Attribute, Element,
};
use crate::parser::{spec_intern_all, spec_intern_opt};
use crate::store::{position_of, spec_intern, NodeId};

verus! {

/// What a parser reads of an element that holds text: its tag, its text,
/// and its attributes, each with its name and its value.
pub struct Shape {
    pub tag: Seq<char>,
    pub text: Seq<char>,
    pub attrs: Seq<(Seq<char>, Seq<char>)>,
}

/// The attributes `attrs` as plain values.
pub open spec fn attr_views(attrs: Seq<Attribute>) -> Seq<(Seq<char>, Seq<char>)> {
    Seq::new(attrs.len(), |i: int| (attrs[i].name@, attrs[i].value@))
}

/// The shape of the element `e`.
pub open spec fn shape_of(e: Element) -> Shape {
    Shape { tag: e.tag@, text: e.text@, attrs: attr_views(e.attributes@) }
}

/// The shapes of the elements `rest`.
pub open spec fn shapes(rest: Seq<Element>) -> Seq<Shape> {
    Seq::new(rest.len(), |i: int| shape_of(rest[i]))
}

/// The shape of an element `tag` that holds `text` and has no attributes.
pub open spec fn text_shape(tag: Seq<char>, text: Seq<char>) -> Shape {
    Shape { tag, text, attrs: Seq::empty() }
}

/// The value of the first of the attributes `attrs` that is called `name`.
pub open spec fn lookup(attrs: Seq<(Seq<char>, Seq<char>)>, name: Seq<char>) -> Option<Seq<char>>
    decreases attrs.len(),
{
    if attrs.len() == 0 {
        None
    } else if attrs[0].0 == name {
        Some(attrs[0].1)
    } else {
        lookup(attrs.skip(1), name)
    }
}

/// A lookup among attributes finds what a lookup among their plain values
/// finds.
pub proof fn lemma_lookup(attrs: Seq<Attribute>, name: Seq<char>)
    ensures
        spec_attribute(attrs, name) == lookup(attr_views(attrs), name),
    decreases attrs.len(),
{
    if attrs.len() > 0 {
        assert(attr_views(attrs)[0] == (attrs[0].name@, attrs[0].value@));
        assert(attr_views(attrs).skip(1) =~= attr_views(attrs.skip(1)));
        lemma_lookup(attrs.skip(1), name);
    }
}

/// The shapes of an optional element `tag`: one shape where `text` is
/// there, none where it is not.
pub open spec fn opt_shape(tag: Seq<char>, text: Option<Seq<char>>) -> Seq<Shape> {
    match text {
        Some(t) => seq![text_shape(tag, t)],
        None => Seq::empty(),
    }
}

/// The shapes of a run of elements `tag`, one for each of `texts`.
pub open spec fn run_shape(tag: Seq<char>, texts: Seq<Seq<char>>) -> Seq<Shape> {
    Seq::new(texts.len(), |i: int| text_shape(tag, texts[i]))
}

/// Whether no shape of `shape` has the tag `tag` in front: `shape` is
/// empty, or starts with another tag.
pub open spec fn starts_otherwise(shape: Seq<Shape>, tag: Seq<char>) -> bool {
    shape.len() == 0 || shape[0].tag != tag
}

/// What is left of elements behind a number of them has the shapes that
/// are left behind as many shapes.
pub proof fn lemma_shapes_skip(rest: Seq<Element>, n: int)
    requires
        0 <= n <= rest.len(),
    ensures
        shapes(rest.skip(n)) == shapes(rest).skip(n),
{
    assert(shapes(rest.skip(n)) =~= shapes(rest).skip(n));
}

/// Elements that were written for an optional element `tag`, followed by
/// elements that start otherwise, are read as that optional element, and
/// the elements that follow are left.
pub proof fn lemma_read_opt(
    rest: Seq<Element>,
    tag: Seq<char>,
    text: Option<Seq<char>>,
    tail: Seq<Shape>,
)
    requires
        shapes(rest) == opt_shape(tag, text) + tail,
        starts_otherwise(tail, tag),
    ensures
        has_tag(rest, tag) == (text is Some),
        opt_text(rest, tag) == text,
        shapes(after_opt(rest, tag)) == tail,
{
    let whole = opt_shape(tag, text) + tail;
    match text {
        Some(t) => {
            assert(whole[0] == text_shape(tag, t));
            assert(shapes(rest).len() == rest.len());
            assert(whole.len() >= 1);
            assert(shapes(rest)[0] == whole[0]);
            lemma_shapes_skip(rest, 1);
            assert(whole.skip(1) =~= tail);
        },
        None => {
            assert(whole =~= tail);
            if rest.len() > 0 {
                assert(shapes(rest)[0] == tail[0]);
            }
        },
    }
}

/// Elements that were written for a run of elements `tag`, followed by
/// elements that start otherwise, are read as that run, and the elements
/// that follow are left.
pub proof fn lemma_read_run(
    rest: Seq<Element>,
    tag: Seq<char>,
    texts: Seq<Seq<char>>,
    tail: Seq<Shape>,
)
    requires
        shapes(rest) == run_shape(tag, texts) + tail,
        starts_otherwise(tail, tag),
    ensures
        run_texts(rest, tag) == texts,
        shapes(after_run(rest, tag)) == tail,
    decreases texts.len(),
{
    let whole = run_shape(tag, texts) + tail;
    if texts.len() == 0 {
        assert(whole =~= tail);
        if rest.len() > 0 {
            assert(shapes(rest)[0] == tail[0]);
        }
        assert(run_texts(rest, tag) =~= texts);
    } else {
        assert(whole[0] == text_shape(tag, texts[0]));
        assert(shapes(rest).len() == rest.len());
        assert(whole.len() >= 1);
        assert(shapes(rest)[0] == whole[0]);
        lemma_shapes_skip(rest, 1);
        assert(whole.skip(1) =~= run_shape(tag, texts.skip(1)) + tail);
        lemma_read_run(rest.skip(1), tag, texts.skip(1), tail);
        assert(seq![texts[0]] + texts.skip(1) =~= texts);
    }
}


/// The place of the tag `tag` in the order in which the elements of a
/// register node follow each other; 100 for any other tag.
pub open spec fn tag_order(tag: Seq<char>) -> int {
    if tag == EXTENSION@ {
        0
    } else if tag == TOOL_TIP@ {
        1
    } else if tag == DESCRIPTION@ {
        2
    } else if tag == DISPLAY_NAME@ {
        3
    } else if tag == VISIBILITY@ {
        4
    } else if tag == DOCU_URL@ {
        5
    } else if tag == IS_DEPRECATED@ {
        6
    } else if tag == EVENT_ID@ {
        7
    } else if tag == P_IS_IMPLEMENTED@ {
        8
    } else if tag == P_IS_AVAILABLE@ {
        9
    } else if tag == P_IS_LOCKED@ {
        10
    } else if tag == P_BLOCK_POLLING@ {
        11
    } else if tag == IMPOSED_ACCESS_MODE@ {
        12
    } else if tag == P_ERROR@ {
        13
    } else if tag == P_ALIAS@ {
        14
    } else if tag == P_CAST_ALIAS@ {
        15
    } else if tag == STREAMABLE@ {
        16
    } else if tag == ADDRESS@ {
        17
    } else if tag == P_ADDRESS@ {
        17
    } else if tag == P_INDEX@ {
        17
    } else if tag == LENGTH@ {
        18
    } else if tag == P_LENGTH@ {
        18
    } else if tag == ACCESS_MODE@ {
        19
    } else if tag == P_PORT@ {
        20
    } else if tag == CACHEABLE@ {
        21
    } else if tag == POLLING_TIME@ {
        22
    } else if tag == P_INVALIDATOR@ {
        23
    } else if tag == BIT@ {
        24
    } else if tag == LSB@ {
        24
    } else if tag == MSB@ {
        25
    } else if tag == SIGN@ {
        26
    } else if tag == ENDIANNESS@ {
        27
    } else if tag == UNIT@ {
        28
    } else if tag == REPRESENTATION@ {
        29
    } else if tag == P_SELECTED@ {
        30
    } else {
        100
    }
}

/// The places of the tags.
pub proof fn lemma_tag_orders()
    ensures
        tag_order(EXTENSION@) == 0,
        tag_order(TOOL_TIP@) == 1,
        tag_order(DESCRIPTION@) == 2,
        tag_order(DISPLAY_NAME@) == 3,
        tag_order(VISIBILITY@) == 4,
        tag_order(DOCU_URL@) == 5,
        tag_order(IS_DEPRECATED@) == 6,
        tag_order(EVENT_ID@) == 7,
        tag_order(P_IS_IMPLEMENTED@) == 8,
        tag_order(P_IS_AVAILABLE@) == 9,
        tag_order(P_IS_LOCKED@) == 10,
        tag_order(P_BLOCK_POLLING@) == 11,
        tag_order(IMPOSED_ACCESS_MODE@) == 12,
        tag_order(P_ERROR@) == 13,
        tag_order(P_ALIAS@) == 14,
        tag_order(P_CAST_ALIAS@) == 15,
        tag_order(STREAMABLE@) == 16,
        tag_order(ADDRESS@) == 17,
        tag_order(P_ADDRESS@) == 17,
        tag_order(P_INDEX@) == 17,
        tag_order(LENGTH@) == 18,
        tag_order(P_LENGTH@) == 18,
        tag_order(ACCESS_MODE@) == 19,
        tag_order(P_PORT@) == 20,
        tag_order(CACHEABLE@) == 21,
        tag_order(POLLING_TIME@) == 22,
        tag_order(P_INVALIDATOR@) == 23,
        tag_order(BIT@) == 24,
        tag_order(LSB@) == 24,
        tag_order(MSB@) == 25,
        tag_order(SIGN@) == 26,
        tag_order(ENDIANNESS@) == 27,
        tag_order(UNIT@) == 28,
        tag_order(REPRESENTATION@) == 29,
        tag_order(P_SELECTED@) == 30,
{
    lemma_name_marks();
}

/// Whether each of the shapes `shape` has a tag whose place is behind `k`.
pub open spec fn all_after(shape: Seq<Shape>, k: int) -> bool {
    forall|i: int| 0 <= i < shape.len() ==> tag_order((#[trigger] shape[i]).tag) > k
}

/// Shapes in front of shapes behind `k` are behind `k` where their own tag
/// is.
pub proof fn lemma_all_after(head: Seq<Shape>, tag: Seq<char>, tail: Seq<Shape>, k: int)
    requires
        forall|i: int| 0 <= i < head.len() ==> (#[trigger] head[i]).tag == tag,
        tag_order(tag) > k,
        all_after(tail, k),
    ensures
        all_after(head + tail, k),
        all_after(tail, k - 1),
{
    let whole = head + tail;
    assert forall|i: int| 0 <= i < whole.len() implies tag_order((#[trigger] whole[i]).tag)
        > k by {
        if i < head.len() {
            assert(whole[i] == head[i]);
        } else {
            assert(whole[i] == tail[i - head.len()]);
        }
    }
}

/// The name of the node `id` among `names`.
pub open spec fn name_of(names: Seq<Seq<char>>, id: NodeId) -> Seq<char> {
    names[id.0 as int]
}

/// The name of an optional node.
pub open spec fn name_opt(names: Seq<Seq<char>>, id: Option<NodeId>) -> Option<Seq<char>> {
    match id {
        Some(id) => Some(name_of(names, id)),
        None => None,
    }
}

/// The names of the nodes `ids`.
pub open spec fn names_of(names: Seq<Seq<char>>, ids: Seq<NodeId>) -> Seq<Seq<char>> {
    Seq::new(ids.len(), |i: int| name_of(names, ids[i]))
}

/// Whether `id` is the id of one of `names`.
pub open spec fn named(names: Seq<Seq<char>>, id: NodeId) -> bool {
    id.0 < names.len()
}

/// Whether an optional node, where it is there, is one of `names`.
pub open spec fn named_opt(names: Seq<Seq<char>>, id: Option<NodeId>) -> bool {
    id matches Some(id) ==> named(names, id)
}

/// Whether each of `ids` is the id of one of `names`.
pub open spec fn all_named(names: Seq<Seq<char>>, ids: Seq<NodeId>) -> bool {
    forall|i: int| 0 <= i < ids.len() ==> named(names, #[trigger] ids[i])
}

/// Interning the name of a node gives the node and leaves the names as
/// they are.
pub proof fn lemma_intern_named(names: Seq<Seq<char>>, id: NodeId)
    requires
        names.no_duplicates(),
        named(names, id),
    ensures
        spec_intern(names, name_of(names, id)) == (names, id),
{
    let s = name_of(names, id);
    assert(names.contains(s));
    let p = position_of(names, s);
    assert(0 <= p < names.len() && names[p] == s);
}

/// Interning the name of an optional node gives the node and leaves the
/// names as they are.
pub proof fn lemma_intern_named_opt(names: Seq<Seq<char>>, id: Option<NodeId>)
    requires
        names.no_duplicates(),
        named_opt(names, id),
    ensures
        spec_intern_opt(names, name_opt(names, id)) == (names, id),
{
    if id is Some {
        lemma_intern_named(names, id.unwrap());
    }
}

/// Interning the names of nodes gives the nodes and leaves the names as
/// they are.
pub proof fn lemma_intern_all_named(names: Seq<Seq<char>>, ids: Seq<NodeId>)
    requires
        names.no_duplicates(),
        all_named(names, ids),
    ensures
        spec_intern_all(names, names_of(names, ids)) == (names, ids),
    decreases ids.len(),
{
    let texts = names_of(names, ids);
    if ids.len() > 0 {
        assert(texts.drop_last() =~= names_of(names, ids.drop_last()));
        assert forall|i: int| 0 <= i < ids.drop_last().len() implies named(
            names,
            #[trigger] ids.drop_last()[i],
        ) by {
            assert(ids.drop_last()[i] == ids[i]);
        }
        lemma_intern_all_named(names, ids.drop_last());
        assert(named(names, ids[ids.len() - 1]));
        lemma_intern_named(names, ids.last());
        assert(texts.last() == name_of(names, ids.last()));
        assert(ids.drop_last().push(ids.last()) =~= ids);
    } else {
        assert(ids =~= Seq::<NodeId>::empty());
    }
}


/// Shapes whose tags are behind `k`, in front of shapes behind `k`, are
/// behind `k`.
pub proof fn lemma_all_after_any(head: Seq<Shape>, tail: Seq<Shape>, k: int)
    requires
        all_after(head, k),
        all_after(tail, k),
    ensures
        all_after(head + tail, k),
        all_after(tail, k - 1),
{
    let whole = head + tail;
    assert forall|i: int| 0 <= i < whole.len() implies tag_order((#[trigger] whole[i]).tag)
        > k by {
        if i < head.len() {
            assert(whole[i] == head[i]);
        } else {
            assert(whole[i] == tail[i - head.len()]);
        }
    }
}


/// Putting sequences of shapes one behind the other is associative.
pub proof fn lemma_assoc(a: Seq<Shape>, b: Seq<Shape>, c: Seq<Shape>)
    ensures
        (a + b) + c == a + (b + c),
        a + Seq::<Shape>::empty() == a,
        Seq::<Shape>::empty() + a == a,
{
    assert((a + b) + c =~= a + (b + c));
    assert(a + Seq::<Shape>::empty() =~= a);
    assert(Seq::<Shape>::empty() + a =~= a);
}

} // verus!
