//! Parser of register descriptions: from a tree of elements to typed nodes.
//!
//! An element is parsed by walking its children in document order. What a
//! parser returns is stated by a specification function of the same element:
//! the value, the first error in document order if there is one, the children
//! that are left, and the interned names.

use vstd::prelude::*;

use crate::store::{spec_intern, NodeId, NodeStoreBuilder};

pub mod document;
pub mod elem_name;
pub mod node;
pub mod shape;
pub mod struct_reg;
pub mod utils;
pub mod writer;
pub mod xml;

use xml::{after_opt, after_run, has_tag, opt_text, run_texts, Element, Node};

verus! {

/// Why a description was rejected.
#[derive(Debug)]
pub enum ParseError {
    /// A required element, named here, is missing.
    MissingElement(String),
    /// An element with the tag given here stands where another was expected.
    UnexpectedElement(String),
    /// The attribute or element named here is missing a value that the
    /// schema allows.
    BadAttribute(String),
}

/// A `ParseError` with its texts as sequences of characters.
pub enum ParseErrorView {
    MissingElement(Seq<char>),
    UnexpectedElement(Seq<char>),
    BadAttribute(Seq<char>),
}

impl View for ParseError {
    type V = ParseErrorView;

    open spec fn view(&self) -> ParseErrorView {
        match self {
            ParseError::MissingElement(t) => ParseErrorView::MissingElement(t@),
            ParseError::UnexpectedElement(t) => ParseErrorView::UnexpectedElement(t@),
            ParseError::BadAttribute(t) => ParseErrorView::BadAttribute(t@),
        }
    }
}

/// The error for a required element `tag` that is missing.
pub fn missing_element(tag: &str) -> (e: ParseError)
    ensures
        e@ == ParseErrorView::MissingElement(tag@),
{
    ParseError::MissingElement(tag.to_owned())
}

/// The error for an element `tag` that stands where another was expected.
pub fn unexpected_element(tag: &str) -> (e: ParseError)
    ensures
        e@ == ParseErrorView::UnexpectedElement(tag@),
{
    ParseError::UnexpectedElement(tag.to_owned())
}

/// The error for an attribute or element `name` with a value that the schema
/// does not allow.
pub fn bad_attribute(name: &str) -> (e: ParseError)
    ensures
        e@ == ParseErrorView::BadAttribute(name@),
{
    ParseError::BadAttribute(name.to_owned())
}

/// What parsing makes of the children of an element.
pub struct Parsed<T> {
    /// The value read; meaningful where `error` is `None`.
    pub value: T,
    /// The first error in document order.
    pub error: Option<ParseErrorView>,
    /// The children behind what was read.
    pub rest: Seq<Element>,
    /// The interned names after reading.
    pub names: Seq<Seq<char>>,
}

/// The first of two errors in document order.
pub open spec fn first_error(a: Option<ParseErrorView>, b: Option<ParseErrorView>) -> Option<
    ParseErrorView,
> {
    if a is Some {
        a
    } else {
        b
    }
}

/// The error of an element `tag` whose text has no meaning, where `value` is
/// what its text means if the element is there.
pub open spec fn bad_text<T>(tag: Seq<char>, value: Option<Option<T>>) -> Option<ParseErrorView> {
    if value == Some(None::<T>) {
        Some(ParseErrorView::BadAttribute(tag))
    } else {
        None
    }
}

/// The value of an optional element, `default` where it is absent or has no meaning.
pub open spec fn value_or<T>(value: Option<Option<T>>, default: T) -> T {
    match value {
        Some(Some(v)) => v,
        _ => default,
    }
}

/// The value of an optional element, if it is there and has a meaning.
pub open spec fn value_opt<T>(value: Option<Option<T>>) -> Option<T> {
    match value {
        Some(Some(v)) => Some(v),
        _ => None,
    }
}

/// Interning the name of an optional reference.
pub open spec fn spec_intern_opt(names: Seq<Seq<char>>, text: Option<Seq<char>>) -> (
    Seq<Seq<char>>,
    Option<NodeId>,
) {
    match text {
        Some(t) => (spec_intern(names, t).0, Some(spec_intern(names, t).1)),
        None => (names, None),
    }
}

/// Interning the names of a run of references, first to last.
pub open spec fn spec_intern_all(names: Seq<Seq<char>>, texts: Seq<Seq<char>>) -> (
    Seq<Seq<char>>,
    Seq<NodeId>,
)
    decreases texts.len(),
{
    if texts.len() == 0 {
        (names, Seq::empty())
    } else {
        let before = spec_intern_all(names, texts.drop_last());
        let last = spec_intern(before.0, texts.last());
        (last.0, before.1.push(last.1))
    }
}

/// Reads an optional element `tag` that holds text.
pub fn parse_opt_string(node: &mut Node, tag: &str) -> (r: Option<String>)
    ensures
        final(node).element() == old(node).element(),
        final(node).rest() == after_opt(old(node).rest(), tag@),
        r is Some <==> has_tag(old(node).rest(), tag@),
        r matches Some(t) ==> Some(t@) == opt_text(old(node).rest(), tag@),
{
    match node.next_text_if(tag) {
        Some(t) => Some(t.to_owned()),
        None => None,
    }
}

/// Reads an optional element `tag` that refers to a node by name.
pub fn parse_opt_id<NB: NodeStoreBuilder>(node: &mut Node, tag: &str, node_builder: &mut NB) -> (r:
    Option<NodeId>)
    ensures
        final(node_builder).stored() == old(node_builder).stored(),
        final(node).element() == old(node).element(),
        final(node).rest() == after_opt(old(node).rest(), tag@),
        (final(node_builder).names(), r) == spec_intern_opt(
            old(node_builder).names(),
            opt_text(old(node).rest(), tag@),
        ),
{
    match node.next_text_if(tag) {
        Some(t) => Some(node_builder.get_or_intern(t)),
        None => None,
    }
}

/// Reads the elements `tag` at the cursor, each of which refers to a node by
/// name.
pub fn parse_ids_while<NB: NodeStoreBuilder>(
    node: &mut Node,
    tag: &str,
    node_builder: &mut NB,
) -> (r: Vec<NodeId>)
    ensures
        final(node_builder).stored() == old(node_builder).stored(),
        final(node).element() == old(node).element(),
        final(node).rest() == after_run(old(node).rest(), tag@),
        (final(node_builder).names(), r@) == spec_intern_all(
            old(node_builder).names(),
            run_texts(old(node).rest(), tag@),
        ),
{
    let mut ids: Vec<NodeId> = Vec::new();
    let ghost mut seen: Seq<Seq<char>> = Seq::empty();
    assert(seen + run_texts(node.rest(), tag@) =~= run_texts(node.rest(), tag@));
    loop
        invariant
            node_builder.stored() == old(node_builder).stored(),
            node.element() == old(node).element(),
            run_texts(old(node).rest(), tag@) == seen + run_texts(node.rest(), tag@),
            after_run(old(node).rest(), tag@) == after_run(node.rest(), tag@),
            (node_builder.names(), ids@) == spec_intern_all(old(node_builder).names(), seen),
        decreases node.rest().len(),
    {
        let ghost before = node.rest();
        match node.next_text_if(tag) {
            Some(t) => {
                let id = node_builder.get_or_intern(t);
                ids.push(id);
                proof {
                    let grown = seen.push(t@);
                    assert(grown.drop_last() =~= seen);
                    assert(grown.last() == t@);
                    assert(run_texts(before, tag@) =~= seq![t@] + run_texts(node.rest(), tag@));
                    assert(seen + run_texts(before, tag@) =~= grown + run_texts(
                        node.rest(),
                        tag@,
                    ));
                    seen = grown;
                }
            },
            None => {
                proof {
                    assert(run_texts(before, tag@) =~= Seq::<Seq<char>>::empty());
                    assert(seen + run_texts(before, tag@) =~= seen);
                }
                return ids;
            },
        }
    }
}

} // verus!
