//! Tree of elements of a register description, and a cursor over the
//! children of one element.

use vstd::prelude::*;

use crate::utils::str_eq;

verus! {

/// An attribute of an element.
pub struct Attribute {
    pub name: String,
    pub value: String,
}

/// An element of a document: its tag, its attributes in document order, its
/// text, and its child elements in document order.
pub struct Element {
    pub tag: String,
    pub attributes: Vec<Attribute>,
    pub text: String,
    pub children: Vec<Element>,
}

/// Value of the first attribute of `attrs` that is called `name`.
pub open spec fn spec_attribute(attrs: Seq<Attribute>, name: Seq<char>) -> Option<Seq<char>>
    decreases attrs.len(),
{
    if attrs.len() == 0 {
        None
    } else if attrs[0].name@ == name {
        Some(attrs[0].value@)
    } else {
        spec_attribute(attrs.skip(1), name)
    }
}

/// Whether the first element of `rest` carries the tag `tag`.
pub open spec fn has_tag(rest: Seq<Element>, tag: Seq<char>) -> bool {
    rest.len() > 0 && rest[0].tag@ == tag
}

/// Text of the first element of `rest`, where that element carries the tag `tag`.
pub open spec fn opt_text(rest: Seq<Element>, tag: Seq<char>) -> Option<Seq<char>> {
    if has_tag(rest, tag) {
        Some(rest[0].text@)
    } else {
        None
    }
}

/// What is left of `rest` once an optional element `tag` has been taken from
/// its front.
pub open spec fn after_opt(rest: Seq<Element>, tag: Seq<char>) -> Seq<Element> {
    if has_tag(rest, tag) {
        rest.skip(1)
    } else {
        rest
    }
}

/// Number of elements at the front of `rest` that carry the tag `tag`.
pub open spec fn run_len(rest: Seq<Element>, tag: Seq<char>) -> nat
    decreases rest.len(),
{
    if has_tag(rest, tag) {
        1 + run_len(rest.skip(1), tag)
    } else {
        0
    }
}

/// Texts of the elements at the front of `rest` that carry the tag `tag`.
pub open spec fn run_texts(rest: Seq<Element>, tag: Seq<char>) -> Seq<Seq<char>>
    decreases rest.len(),
{
    if has_tag(rest, tag) {
        seq![rest[0].text@] + run_texts(rest.skip(1), tag)
    } else {
        Seq::empty()
    }
}

/// What is left of `rest` behind the elements at its front that carry the
/// tag `tag`.
pub open spec fn after_run(rest: Seq<Element>, tag: Seq<char>) -> Seq<Element>
    decreases rest.len(),
{
    if has_tag(rest, tag) {
        after_run(rest.skip(1), tag)
    } else {
        rest
    }
}

impl Element {
    /// An element without attributes, text or children.
    pub fn new(tag: &str) -> (r: Element)
        ensures
            r.tag@ == tag@,
            r.attributes@.len() == 0,
            r.text@.len() == 0,
            r.children@.len() == 0,
    {
        Element {
            tag: tag.to_owned(),
            attributes: Vec::new(),
            text: String::new(),
            children: Vec::new(),
        }
    }

    /// An element that holds text only.
    pub fn with_text(tag: &str, text: &str) -> (r: Element)
        ensures
            r.tag@ == tag@,
            r.attributes@.len() == 0,
            r.text@ == text@,
            r.children@.len() == 0,
    {
        Element {
            tag: tag.to_owned(),
            attributes: Vec::new(),
            text: text.to_owned(),
            children: Vec::new(),
        }
    }

    /// Appends an attribute.
    pub fn push_attribute(&mut self, name: &str, value: &str)
        ensures
            final(self).tag == old(self).tag,
            final(self).text == old(self).text,
            final(self).children == old(self).children,
            final(self).attributes@.len() == old(self).attributes@.len() + 1,
            final(self).attributes@.drop_last() == old(self).attributes@,
            final(self).attributes@.last().name@ == name@,
            final(self).attributes@.last().value@ == value@,
    {
        let ghost before = self.attributes@;
        self.attributes.push(Attribute { name: name.to_owned(), value: value.to_owned() });
        assert(self.attributes@.drop_last() =~= before);
    }

    /// Appends a child element.
    pub fn push_child(&mut self, child: Element)
        ensures
            final(self).tag == old(self).tag,
            final(self).text == old(self).text,
            final(self).attributes == old(self).attributes,
            final(self).children@ == old(self).children@.push(child),
    {
        self.children.push(child);
    }

    /// Value of the first attribute called `name`.
    pub fn attribute_of(&self, name: &str) -> (r: Option<&str>)
        ensures
            r is Some <==> spec_attribute(self.attributes@, name@) is Some,
            r matches Some(v) ==> Some(v@) == spec_attribute(self.attributes@, name@),
    {
        let mut i: usize = 0;
        assert(self.attributes@.skip(0) =~= self.attributes@);
        while i < self.attributes.len()
            invariant
                i <= self.attributes.len(),
                spec_attribute(self.attributes@, name@) == spec_attribute(
                    self.attributes@.skip(i as int),
                    name@,
                ),
            decreases self.attributes.len() - i,
        {
            let ghost tail = self.attributes@.skip(i as int);
            assert(tail[0] == self.attributes@[i as int]);
            assert(tail.skip(1) =~= self.attributes@.skip(i + 1));
            if str_eq(self.attributes[i].name.as_str(), name) {
                return Some(self.attributes[i].value.as_str());
            }
            i += 1;
        }
        None
    }
}

/// Cursor over the children of an element.
///
/// A cursor starts in front of the first child and only moves forward.
pub struct Node<'a> {
    elem: &'a Element,
    pos: usize,
}

impl<'a> Node<'a> {
    #[verifier::type_invariant]
    spec fn inv(self) -> bool {
        self.pos <= self.elem.children@.len()
    }

    /// The element whose children the cursor walks.
    pub closed spec fn element(&self) -> Element {
        *self.elem
    }

    /// The children that the cursor has not passed yet.
    pub closed spec fn rest(&self) -> Seq<Element> {
        self.elem.children@.skip(self.pos as int)
    }

    /// A cursor in front of the first child of `elem`.
    pub fn new(elem: &'a Element) -> (r: Node<'a>)
        ensures
            r.element() == *elem,
            r.rest() == elem.children@,
    {
        assert(elem.children@.skip(0) =~= elem.children@);
        Node { elem, pos: 0 }
    }

    /// Tag of the element.
    pub fn tag_name(&self) -> (r: &'a str)
        ensures
            r@ == self.element().tag@,
    {
        self.elem.tag.as_str()
    }

    /// Text of the element.
    pub fn text(&self) -> (r: &'a str)
        ensures
            r@ == self.element().text@,
    {
        self.elem.text.as_str()
    }

    /// Value of the first attribute of the element called `name`.
    pub fn attribute_of(&self, name: &str) -> (r: Option<&'a str>)
        ensures
            r is Some <==> spec_attribute(self.element().attributes@, name@) is Some,
            r matches Some(v) ==> Some(v@) == spec_attribute(self.element().attributes@, name@),
    {
        self.elem.attribute_of(name)
    }

    /// The next child, without moving.
    pub fn peek(&self) -> (r: Option<&'a Element>)
        ensures
            r is Some <==> self.rest().len() > 0,
            r matches Some(e) ==> *e == self.rest()[0],
    {
        proof {
            use_type_invariant(self);
        }
        if self.pos < self.elem.children.len() {
            Some(&self.elem.children[self.pos])
        } else {
            None
        }
    }

    /// Moves past the next child and returns a cursor over its children.
    pub fn next(&mut self) -> (r: Option<Node<'a>>)
        ensures
            final(self).element() == old(self).element(),
            r is Some <==> old(self).rest().len() > 0,
            r is None ==> final(self).rest() == old(self).rest(),
            r matches Some(child) ==> child.element() == old(self).rest()[0] && child.rest()
                == old(self).rest()[0].children@ && final(self).rest() == old(self).rest().skip(1),
    {
        proof {
            use_type_invariant(&*self);
        }
        if self.pos < self.elem.children.len() {
            let child = Node::new(&self.elem.children[self.pos]);
            assert(self.rest().skip(1) =~= self.elem.children@.skip(self.pos + 1));
            self.pos = self.pos + 1;
            Some(child)
        } else {
            None
        }
    }

    /// Moves past the next child where it carries the tag `tag`.
    pub fn next_if(&mut self, tag: &str) -> (r: Option<Node<'a>>)
        ensures
            final(self).element() == old(self).element(),
            final(self).rest() == after_opt(old(self).rest(), tag@),
            r is Some <==> has_tag(old(self).rest(), tag@),
            r matches Some(child) ==> child.element() == old(self).rest()[0] && child.rest()
                == old(self).rest()[0].children@,
    {
        match self.peek() {
            Some(e) => {
                if str_eq(e.tag.as_str(), tag) {
                    self.next()
                } else {
                    None
                }
            },
            None => None,
        }
    }

    /// Moves past the next child where it carries the tag `tag`, and returns
    /// the text of that child.
    pub fn next_text_if(&mut self, tag: &str) -> (r: Option<&'a str>)
        ensures
            final(self).element() == old(self).element(),
            final(self).rest() == after_opt(old(self).rest(), tag@),
            r is Some <==> has_tag(old(self).rest(), tag@),
            r matches Some(t) ==> Some(t@) == opt_text(old(self).rest(), tag@),
    {
        match self.next_if(tag) {
            Some(child) => Some(child.text()),
            None => None,
        }
    }
}


/// An attribute that no attribute in front of it shares its name with is
/// the attribute that a lookup of its name finds.
pub proof fn lemma_attribute_found(attrs: Seq<Attribute>, k: int)
    requires
        0 <= k < attrs.len(),
        forall|j: int| 0 <= j < k ==> (#[trigger] attrs[j]).name@ != attrs[k].name@,
    ensures
        spec_attribute(attrs, attrs[k].name@) == Some(attrs[k].value@),
    decreases k,
{
    if k > 0 {
        let tail = attrs.skip(1);
        assert(attrs[0].name@ != attrs[k].name@);
        assert(tail[k - 1] == attrs[k]);
        assert forall|j: int| 0 <= j < k - 1 implies (#[trigger] tail[j]).name@ != tail[k
            - 1].name@ by {
            assert(tail[j] == attrs[j + 1]);
        }
        lemma_attribute_found(tail, k - 1);
    }
}

/// A lookup of a name that no attribute has finds nothing.
pub proof fn lemma_attribute_absent(attrs: Seq<Attribute>, name: Seq<char>)
    requires
        forall|j: int| 0 <= j < attrs.len() ==> (#[trigger] attrs[j]).name@ != name,
    ensures
        spec_attribute(attrs, name) is None,
    decreases attrs.len(),
{
    if attrs.len() > 0 {
        let tail = attrs.skip(1);
        assert(attrs[0].name@ != name);
        assert forall|j: int| 0 <= j < tail.len() implies (#[trigger] tail[j]).name@ != name by {
            assert(tail[j] == attrs[j + 1]);
        }
        lemma_attribute_absent(tail, name);
    }
}

} // verus!
