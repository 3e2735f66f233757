//! What every node carries: its identity and its descriptive elements.

use vstd::prelude::*;

use crate::elem_type::{
    bool_from_text, spec_bool_from_text, AccessMode, MergePriority, NameSpace, Visibility,
};
use crate::parser::elem_name::{
    DESCRIPTION, DISPLAY_NAME, DOCU_URL, EVENT_ID, EXPOSE_STATIC, EXTENSION, IMPOSED_ACCESS_MODE,
    IS_DEPRECATED, MERGE_PRIORITY, NAME, NAME_SPACE, P_ALIAS, P_BLOCK_POLLING, P_CAST_ALIAS,
    P_ERROR, P_IS_AVAILABLE, P_IS_IMPLEMENTED, P_IS_LOCKED, TOOL_TIP, VISIBILITY,
};
use crate::elem_type::spec_bool_to_text;
use crate::parser::shape::{
    attr_views, lemma_lookup, lookup, name_of, named, all_after, all_named, lemma_all_after,
    lemma_intern_all_named, lemma_intern_named_opt,
    lemma_read_opt, lemma_read_run, lemma_tag_orders, name_opt, named_opt, names_of, opt_shape,
    run_shape, shapes, Shape,
};
use crate::parser::utils::{digits_u64, parse_hex_digits, spec_digits};
use crate::parser::xml::{
    after_opt, after_run, opt_text, run_texts, spec_attribute, Attribute, Element, Node,
};
use crate::parser::{
    bad_attribute, bad_text, first_error, parse_ids_while, parse_opt_id, parse_opt_string,
    spec_intern_all, spec_intern_opt, value_opt, value_or, ParseError, ParseErrorView, Parsed,
};
use crate::store::{id_in, names_with, NodeId, NodeStoreBuilder};

verus! {

/// The text of an optional string.
pub open spec fn opt_view(s: Option<String>) -> Option<Seq<char>> {
    match s {
        Some(t) => Some(t@),
        None => None,
    }
}

/// What the attributes of a node element say.
#[derive(Clone, Copy, Debug, PartialEq, Eq, Structural)]
pub struct NodeAttributeBase {
    pub id: NodeId,
    pub name_space: NameSpace,
    pub merge_priority: MergePriority,
    pub expose_static: Option<bool>,
}

/// Applies `f` to the value of an attribute, if the attribute is there.
pub open spec fn attr_value<T>(
    attrs: Seq<Attribute>,
    name: Seq<char>,
    f: spec_fn(Seq<char>) -> Option<T>,
) -> Option<Option<T>> {
    match spec_attribute(attrs, name) {
        Some(t) => Some(f(t)),
        None => None,
    }
}

impl NodeAttributeBase {
    /// The first attribute that the schema rejects: a missing `Name`, or a
    /// `NameSpace`, `MergePriority` or `ExposeStatic` with an unknown value.
    pub open spec fn spec_error(attrs: Seq<Attribute>) -> Option<ParseErrorView> {
        let name_space = attr_value(attrs, NAME_SPACE@, |t| NameSpace::spec_from_text(t));
        let priority = attr_value(attrs, MERGE_PRIORITY@, |t| MergePriority::spec_from_text(t));
        let expose = attr_value(attrs, EXPOSE_STATIC@, |t| spec_bool_from_text(t));
        if spec_attribute(attrs, NAME@) is None {
            Some(ParseErrorView::BadAttribute(NAME@))
        } else {
            first_error(
                bad_text(NAME_SPACE@, name_space),
                first_error(bad_text(MERGE_PRIORITY@, priority), bad_text(EXPOSE_STATIC@, expose)),
            )
        }
    }

    /// What the attributes mean where none is rejected: the interned `Name`;
    /// the name space, `Custom` by default; the merge priority, `Mid` by
    /// default; and whether the node is exposed statically, if that is said.
    pub open spec fn spec_value(attrs: Seq<Attribute>, names: Seq<Seq<char>>) -> NodeAttributeBase {
        let name_space = attr_value(attrs, NAME_SPACE@, |t| NameSpace::spec_from_text(t));
        let priority = attr_value(attrs, MERGE_PRIORITY@, |t| MergePriority::spec_from_text(t));
        let expose = attr_value(attrs, EXPOSE_STATIC@, |t| spec_bool_from_text(t));
        NodeAttributeBase {
            id: id_in(names, spec_attribute(attrs, NAME@).unwrap()),
            name_space: value_or(name_space, NameSpace::Custom),
            merge_priority: value_or(priority, MergePriority::Mid),
            expose_static: value_opt(expose),
        }
    }

    /// Reads the attributes of the element under the cursor.
    pub fn parse<NB: NodeStoreBuilder>(node: &Node, node_builder: &mut NB) -> (r: Result<
        NodeAttributeBase,
        ParseError,
    >)
        ensures
            final(node_builder).stored() == old(node_builder).stored(),
            match r {
                Ok(v) => Self::spec_error(node.element().attributes@) is None && v
                    == Self::spec_value(node.element().attributes@, old(node_builder).names())
                    && final(node_builder).names() == names_with(
                    old(node_builder).names(),
                    spec_attribute(node.element().attributes@, NAME@).unwrap(),
                ),
                Err(e) => Self::spec_error(node.element().attributes@) == Some(e@),
            },
    {
        let name = match node.attribute_of(NAME) {
            Some(n) => n,
            None => {
                return Err(bad_attribute(NAME));
            },
        };
        let name_space = match node.attribute_of(NAME_SPACE) {
            None => NameSpace::Custom,
            Some(t) => match NameSpace::from_text(t) {
                Some(v) => v,
                None => {
                    return Err(bad_attribute(NAME_SPACE));
                },
            },
        };
        let merge_priority = match node.attribute_of(MERGE_PRIORITY) {
            None => MergePriority::Mid,
            Some(t) => match MergePriority::from_text(t) {
                Some(v) => v,
                None => {
                    return Err(bad_attribute(MERGE_PRIORITY));
                },
            },
        };
        let expose_static = match node.attribute_of(EXPOSE_STATIC) {
            None => None,
            Some(t) => match bool_from_text(t) {
                Some(v) => Some(v),
                None => {
                    return Err(bad_attribute(EXPOSE_STATIC));
                },
            },
        };
        let id = node_builder.get_or_intern(name);
        Ok(NodeAttributeBase { id, name_space, merge_priority, expose_static })
    }
}


/// Applies `f` to the text of the first element of `rest`, where that element
/// carries the tag `tag`.
pub open spec fn elem_value<T>(
    rest: Seq<Element>,
    tag: Seq<char>,
    f: spec_fn(Seq<char>) -> Option<T>,
) -> Option<Option<T>> {
    match opt_text(rest, tag) {
        Some(t) => Some(f(t)),
        None => None,
    }
}

/// The descriptive elements that every node may carry.
#[derive(Debug)]
pub struct NodeElementBase {
    pub tooltip: Option<String>,
    pub description: Option<String>,
    pub display_name: Option<String>,
    pub visibility: Visibility,
    pub docu_url: Option<String>,
    pub is_deprecated: bool,
    pub event_id: Option<u64>,
    pub p_is_implemented: Option<NodeId>,
    pub p_is_available: Option<NodeId>,
    pub p_is_locked: Option<NodeId>,
    pub p_block_polling: Option<NodeId>,
    pub imposed_access_mode: AccessMode,
    pub p_errors: Vec<NodeId>,
    pub p_alias: Option<NodeId>,
    pub p_cast_alias: Option<NodeId>,
}

/// A `NodeElementBase` as plain values.
pub struct NodeElementBaseView {
    pub tooltip: Option<Seq<char>>,
    pub description: Option<Seq<char>>,
    pub display_name: Option<Seq<char>>,
    pub visibility: Visibility,
    pub docu_url: Option<Seq<char>>,
    pub is_deprecated: bool,
    pub event_id: Option<u64>,
    pub p_is_implemented: Option<NodeId>,
    pub p_is_available: Option<NodeId>,
    pub p_is_locked: Option<NodeId>,
    pub p_block_polling: Option<NodeId>,
    pub imposed_access_mode: AccessMode,
    pub p_errors: Seq<NodeId>,
    pub p_alias: Option<NodeId>,
    pub p_cast_alias: Option<NodeId>,
}

impl View for NodeElementBase {
    type V = NodeElementBaseView;

    open spec fn view(&self) -> NodeElementBaseView {
        NodeElementBaseView {
            tooltip: opt_view(self.tooltip),
            description: opt_view(self.description),
            display_name: opt_view(self.display_name),
            visibility: self.visibility,
            docu_url: opt_view(self.docu_url),
            is_deprecated: self.is_deprecated,
            event_id: self.event_id,
            p_is_implemented: self.p_is_implemented,
            p_is_available: self.p_is_available,
            p_is_locked: self.p_is_locked,
            p_block_polling: self.p_block_polling,
            imposed_access_mode: self.imposed_access_mode,
            p_errors: self.p_errors@,
            p_alias: self.p_alias,
            p_cast_alias: self.p_cast_alias,
        }
    }
}

impl NodeElementBaseView {
    /// The elements of a node that stands under a node with the elements
    /// `self` and carries the elements `rhs` itself.
    ///
    /// An element that `rhs` sets wins; one that it leaves out, or leaves at
    /// its default, is inherited from `self`. The defaults are `Beginner`
    /// for the visibility, "not deprecated", `RW` for the imposed access
    /// mode, and the empty list for `p_errors`.
    pub open spec fn merge(self, rhs: NodeElementBaseView) -> NodeElementBaseView {
        NodeElementBaseView {
            tooltip: if rhs.tooltip is Some {
                rhs.tooltip
            } else {
                self.tooltip
            },
            description: if rhs.description is Some {
                rhs.description
            } else {
                self.description
            },
            display_name: if rhs.display_name is Some {
                rhs.display_name
            } else {
                self.display_name
            },
            visibility: if rhs.visibility != Visibility::Beginner {
                rhs.visibility
            } else {
                self.visibility
            },
            docu_url: if rhs.docu_url is Some {
                rhs.docu_url
            } else {
                self.docu_url
            },
            is_deprecated: rhs.is_deprecated || self.is_deprecated,
            event_id: if rhs.event_id is Some {
                rhs.event_id
            } else {
                self.event_id
            },
            p_is_implemented: if rhs.p_is_implemented is Some {
                rhs.p_is_implemented
            } else {
                self.p_is_implemented
            },
            p_is_available: if rhs.p_is_available is Some {
                rhs.p_is_available
            } else {
                self.p_is_available
            },
            p_is_locked: if rhs.p_is_locked is Some {
                rhs.p_is_locked
            } else {
                self.p_is_locked
            },
            p_block_polling: if rhs.p_block_polling is Some {
                rhs.p_block_polling
            } else {
                self.p_block_polling
            },
            imposed_access_mode: if rhs.imposed_access_mode != AccessMode::RW {
                rhs.imposed_access_mode
            } else {
                self.imposed_access_mode
            },
            p_errors: if rhs.p_errors.len() > 0 {
                rhs.p_errors
            } else {
                self.p_errors
            },
            p_alias: if rhs.p_alias is Some {
                rhs.p_alias
            } else {
                self.p_alias
            },
            p_cast_alias: if rhs.p_cast_alias is Some {
                rhs.p_cast_alias
            } else {
                self.p_cast_alias
            },
        }
    }
}

/// Replaces `lhs` by `rhs` where `rhs` holds a value.
pub fn merge_opt<T>(lhs: &mut Option<T>, rhs: Option<T>)
    ensures
        *final(lhs) == if rhs is Some {
            rhs
        } else {
            *old(lhs)
        },
{
    if rhs.is_some() {
        *lhs = rhs;
    }
}

/// Replaces `lhs` by `rhs` where `rhs` is not empty.
pub fn merge_ids(lhs: &mut Vec<NodeId>, rhs: Vec<NodeId>)
    ensures
        final(lhs)@ == if rhs@.len() > 0 {
            rhs@
        } else {
            old(lhs)@
        },
{
    if rhs.len() > 0 {
        *lhs = rhs;
    }
}

impl NodeElementBase {
    /// Merges the elements `rhs` of a struct entry into the elements of the
    /// struct register that holds it.
    pub fn merge(&mut self, rhs: NodeElementBase)
        ensures
            final(self)@ == old(self)@.merge(rhs@),
    {
        let NodeElementBase {
            tooltip,
            description,
            display_name,
            visibility,
            docu_url,
            is_deprecated,
            event_id,
            p_is_implemented,
            p_is_available,
            p_is_locked,
            p_block_polling,
            imposed_access_mode,
            p_errors,
            p_alias,
            p_cast_alias,
        } = rhs;
        merge_opt(&mut self.tooltip, tooltip);
        merge_opt(&mut self.description, description);
        merge_opt(&mut self.display_name, display_name);
        self.visibility = if visibility != Visibility::Beginner {
            visibility
        } else {
            self.visibility
        };
        merge_opt(&mut self.docu_url, docu_url);
        self.is_deprecated = is_deprecated || self.is_deprecated;
        merge_opt(&mut self.event_id, event_id);
        merge_opt(&mut self.p_is_implemented, p_is_implemented);
        merge_opt(&mut self.p_is_available, p_is_available);
        merge_opt(&mut self.p_is_locked, p_is_locked);
        merge_opt(&mut self.p_block_polling, p_block_polling);
        // `RW` is the default of the imposed access mode.
        self.imposed_access_mode = if imposed_access_mode != AccessMode::RW {
            imposed_access_mode
        } else {
            self.imposed_access_mode
        };
        merge_ids(&mut self.p_errors, p_errors);
        merge_opt(&mut self.p_alias, p_alias);
        merge_opt(&mut self.p_cast_alias, p_cast_alias);
    }

    /// What the descriptive elements at the front of `rest` mean.
    ///
    /// In document order: an `Extension`, which is skipped; `ToolTip`;
    /// `Description`; `DisplayName`; `Visibility`; `DocuURL`; `IsDeprecated`;
    /// `EventID`, in hexadecimal digits; `pIsImplemented`; `pIsAvailable`;
    /// `pIsLocked`; `pBlockPolling`; `ImposedAccessMode`; any number of
    /// `pError`; `pAlias`; `pCastAlias`. Each may be left out.
    pub open spec fn spec_parse(rest: Seq<Element>, names: Seq<Seq<char>>) -> Parsed<
        NodeElementBaseView,
    > {
        let r0 = after_opt(rest, EXTENSION@);
        let r1 = after_opt(r0, TOOL_TIP@);
        let r2 = after_opt(r1, DESCRIPTION@);
        let r3 = after_opt(r2, DISPLAY_NAME@);
        let r4 = after_opt(r3, VISIBILITY@);
        let r5 = after_opt(r4, DOCU_URL@);
        let r6 = after_opt(r5, IS_DEPRECATED@);
        let r7 = after_opt(r6, EVENT_ID@);
        let r8 = after_opt(r7, P_IS_IMPLEMENTED@);
        let r9 = after_opt(r8, P_IS_AVAILABLE@);
        let r10 = after_opt(r9, P_IS_LOCKED@);
        let r11 = after_opt(r10, P_BLOCK_POLLING@);
        let r12 = after_opt(r11, IMPOSED_ACCESS_MODE@);
        let r13 = after_run(r12, P_ERROR@);
        let r14 = after_opt(r13, P_ALIAS@);
        let r15 = after_opt(r14, P_CAST_ALIAS@);
        let visibility = elem_value(r3, VISIBILITY@, |t| Visibility::spec_from_text(t));
        let deprecated = elem_value(r5, IS_DEPRECATED@, |t| spec_bool_from_text(t));
        let event = elem_value(r6, EVENT_ID@, |t| digits_u64(t, 16));
        let imposed = elem_value(r11, IMPOSED_ACCESS_MODE@, |t| AccessMode::spec_from_text(t));
        let i1 = spec_intern_opt(names, opt_text(r7, P_IS_IMPLEMENTED@));
        let i2 = spec_intern_opt(i1.0, opt_text(r8, P_IS_AVAILABLE@));
        let i3 = spec_intern_opt(i2.0, opt_text(r9, P_IS_LOCKED@));
        let i4 = spec_intern_opt(i3.0, opt_text(r10, P_BLOCK_POLLING@));
        let i5 = spec_intern_all(i4.0, run_texts(r12, P_ERROR@));
        let i6 = spec_intern_opt(i5.0, opt_text(r13, P_ALIAS@));
        let i7 = spec_intern_opt(i6.0, opt_text(r14, P_CAST_ALIAS@));
        Parsed {
            value: NodeElementBaseView {
                tooltip: opt_text(r0, TOOL_TIP@),
                description: opt_text(r1, DESCRIPTION@),
                display_name: opt_text(r2, DISPLAY_NAME@),
                visibility: value_or(visibility, Visibility::Beginner),
                docu_url: opt_text(r4, DOCU_URL@),
                is_deprecated: value_or(deprecated, false),
                event_id: value_opt(event),
                p_is_implemented: i1.1,
                p_is_available: i2.1,
                p_is_locked: i3.1,
                p_block_polling: i4.1,
                imposed_access_mode: value_or(imposed, AccessMode::RW),
                p_errors: i5.1,
                p_alias: i6.1,
                p_cast_alias: i7.1,
            },
            error: first_error(
                bad_text(VISIBILITY@, visibility),
                first_error(
                    bad_text(IS_DEPRECATED@, deprecated),
                    first_error(
                        bad_text(EVENT_ID@, event),
                        bad_text(IMPOSED_ACCESS_MODE@, imposed),
                    ),
                ),
            ),
            rest: r15,
            names: i7.0,
        }
    }

    /// Reads the descriptive elements at the cursor.
    pub fn parse<NB: NodeStoreBuilder>(node: &mut Node, node_builder: &mut NB) -> (r: Result<
        NodeElementBase,
        ParseError,
    >)
        ensures
            final(node_builder).stored() == old(node_builder).stored(),
            final(node).element() == old(node).element(),
            match r {
                Ok(v) => {
                    let p = Self::spec_parse(old(node).rest(), old(node_builder).names());
                    &&& p.error is None
                    &&& v@ == p.value
                    &&& final(node).rest() == p.rest
                    &&& final(node_builder).names() == p.names
                },
                Err(e) => Self::spec_parse(old(node).rest(), old(node_builder).names()).error
                    == Some(e@),
            },
    {
        let _extension = node.next_if(EXTENSION);
        let tooltip = parse_opt_string(node, TOOL_TIP);
        let description = parse_opt_string(node, DESCRIPTION);
        let display_name = parse_opt_string(node, DISPLAY_NAME);
        let visibility = match node.next_text_if(VISIBILITY) {
            None => Visibility::Beginner,
            Some(t) => match Visibility::from_text(t) {
                Some(v) => v,
                None => {
                    return Err(bad_attribute(VISIBILITY));
                },
            },
        };
        let docu_url = parse_opt_string(node, DOCU_URL);
        let is_deprecated = match node.next_text_if(IS_DEPRECATED) {
            None => false,
            Some(t) => match bool_from_text(t) {
                Some(v) => v,
                None => {
                    return Err(bad_attribute(IS_DEPRECATED));
                },
            },
        };
        let event_id = match node.next_text_if(EVENT_ID) {
            None => None,
            Some(t) => match parse_hex_digits(t) {
                Some(v) => Some(v),
                None => {
                    return Err(bad_attribute(EVENT_ID));
                },
            },
        };
        let p_is_implemented = parse_opt_id(node, P_IS_IMPLEMENTED, node_builder);
        let p_is_available = parse_opt_id(node, P_IS_AVAILABLE, node_builder);
        let p_is_locked = parse_opt_id(node, P_IS_LOCKED, node_builder);
        let p_block_polling = parse_opt_id(node, P_BLOCK_POLLING, node_builder);
        let imposed_access_mode = match node.next_text_if(IMPOSED_ACCESS_MODE) {
            None => AccessMode::RW,
            Some(t) => match AccessMode::from_text(t) {
                Some(v) => v,
                None => {
                    return Err(bad_attribute(IMPOSED_ACCESS_MODE));
                },
            },
        };
        let p_errors = parse_ids_while(node, P_ERROR, node_builder);
        let p_alias = parse_opt_id(node, P_ALIAS, node_builder);
        let p_cast_alias = parse_opt_id(node, P_CAST_ALIAS, node_builder);
        Ok(
            NodeElementBase {
                tooltip,
                description,
                display_name,
                visibility,
                docu_url,
                is_deprecated,
                event_id,
                p_is_implemented,
                p_is_available,
                p_is_locked,
                p_block_polling,
                imposed_access_mode,
                p_errors,
                p_alias,
                p_cast_alias,
            },
        )
    }
}


/// A copy of an optional string.
pub fn clone_opt_string(s: &Option<String>) -> (r: Option<String>)
    ensures
        opt_view(r) == opt_view(*s),
{
    match s {
        Some(t) => Some(t.clone()),
        None => None,
    }
}

/// A copy of a list of node ids.
pub fn clone_ids(ids: &Vec<NodeId>) -> (r: Vec<NodeId>)
    ensures
        r@ == ids@,
{
    let r = ids.clone();
    assert(r@ =~= ids@);
    r
}

impl Clone for NodeElementBase {
    fn clone(&self) -> (r: NodeElementBase)
        ensures
            r@ == self@,
    {
        NodeElementBase {
            tooltip: clone_opt_string(&self.tooltip),
            description: clone_opt_string(&self.description),
            display_name: clone_opt_string(&self.display_name),
            visibility: self.visibility,
            docu_url: clone_opt_string(&self.docu_url),
            is_deprecated: self.is_deprecated,
            event_id: self.event_id,
            p_is_implemented: self.p_is_implemented,
            p_is_available: self.p_is_available,
            p_is_locked: self.p_is_locked,
            p_block_polling: self.p_block_polling,
            imposed_access_mode: self.imposed_access_mode,
            p_errors: clone_ids(&self.p_errors),
            p_alias: self.p_alias,
            p_cast_alias: self.p_cast_alias,
        }
    }
}


/// Read access to what every node carries.
pub struct NodeBase<'a> {
    attr: &'a NodeAttributeBase,
    elem: &'a NodeElementBase,
}

impl<'a> NodeBase<'a> {
    /// The attributes behind this view.
    pub closed spec fn attr_base(&self) -> NodeAttributeBase {
        *self.attr
    }

    /// The elements behind this view.
    pub closed spec fn elem_base(&self) -> NodeElementBase {
        *self.elem
    }

    /// A view of the attributes `attr` and the elements `elem` of one node.
    pub fn new(attr: &'a NodeAttributeBase, elem: &'a NodeElementBase) -> (r: NodeBase<'a>)
        ensures
            r.attr_base() == *attr,
            r.elem_base() == *elem,
    {
        NodeBase { attr, elem }
    }

    /// The id of the node.
    pub fn id(&self) -> (r: NodeId)
        ensures
            r == self.attr_base().id,
    {
        self.attr.id
    }

    /// The tool tip of the node.
    pub fn tooltip(&self) -> (r: Option<&'a str>)
        ensures
            r is Some <==> self.elem_base().tooltip is Some,
            r matches Some(t) ==> t@ == self.elem_base().tooltip.unwrap()@,
    {
        match &self.elem.tooltip {
            Some(t) => Some(t.as_str()),
            None => None,
        }
    }

    /// The access mode that the description imposes on the node.
    pub fn imposed_access_mode(&self) -> (r: AccessMode)
        ensures
            r == self.elem_base().imposed_access_mode,
    {
        self.elem.imposed_access_mode
    }

    /// The name space of the node.
    pub fn name_space(&self) -> (r: NameSpace)
        ensures
            r == self.attr_base().name_space,
    {
        self.attr.name_space
    }

    /// The merge priority of the node.
    pub fn merge_priority(&self) -> (r: MergePriority)
        ensures
            r == self.attr_base().merge_priority,
    {
        self.attr.merge_priority
    }

    /// Whether the node is exposed statically, if that is said.
    pub fn expose_static(&self) -> (r: Option<bool>)
        ensures
            r == self.attr_base().expose_static,
    {
        self.attr.expose_static
    }

    /// The description of the node.
    pub fn description(&self) -> (r: Option<&'a str>)
        ensures
            r is Some <==> self.elem_base().description is Some,
            r matches Some(t) ==> t@ == self.elem_base().description.unwrap()@,
    {
        match &self.elem.description {
            Some(t) => Some(t.as_str()),
            None => None,
        }
    }

    /// The name under which the node is shown.
    pub fn display_name(&self) -> (r: Option<&'a str>)
        ensures
            r is Some <==> self.elem_base().display_name is Some,
            r matches Some(t) ==> t@ == self.elem_base().display_name.unwrap()@,
    {
        match &self.elem.display_name {
            Some(t) => Some(t.as_str()),
            None => None,
        }
    }

    /// Who sees the node.
    pub fn visibility(&self) -> (r: Visibility)
        ensures
            r == self.elem_base().visibility,
    {
        self.elem.visibility
    }

    /// Where the node is documented.
    pub fn docu_url(&self) -> (r: Option<&'a str>)
        ensures
            r is Some <==> self.elem_base().docu_url is Some,
            r matches Some(t) ==> t@ == self.elem_base().docu_url.unwrap()@,
    {
        match &self.elem.docu_url {
            Some(t) => Some(t.as_str()),
            None => None,
        }
    }

    /// Whether the node is deprecated.
    pub fn is_deprecated(&self) -> (r: bool)
        ensures
            r == self.elem_base().is_deprecated,
    {
        self.elem.is_deprecated
    }

    /// The event that the node belongs to.
    pub fn event_id(&self) -> (r: Option<u64>)
        ensures
            r == self.elem_base().event_id,
    {
        self.elem.event_id
    }

    /// The node that says whether this node is implemented.
    pub fn p_is_implemented(&self) -> (r: Option<NodeId>)
        ensures
            r == self.elem_base().p_is_implemented,
    {
        self.elem.p_is_implemented
    }

    /// The node that says whether this node is available.
    pub fn p_is_available(&self) -> (r: Option<NodeId>)
        ensures
            r == self.elem_base().p_is_available,
    {
        self.elem.p_is_available
    }

    /// The node that says whether this node is locked.
    pub fn p_is_locked(&self) -> (r: Option<NodeId>)
        ensures
            r == self.elem_base().p_is_locked,
    {
        self.elem.p_is_locked
    }

    /// The node that blocks the polling of this node.
    pub fn p_block_polling(&self) -> (r: Option<NodeId>)
        ensures
            r == self.elem_base().p_block_polling,
    {
        self.elem.p_block_polling
    }

    /// The nodes that report the errors of this node.
    pub fn p_errors(&self) -> (r: &'a [NodeId])
        ensures
            r@ == self.elem_base().p_errors@,
    {
        self.elem.p_errors.as_slice()
    }

    /// The alias of the node.
    pub fn p_alias(&self) -> (r: Option<NodeId>)
        ensures
            r == self.elem_base().p_alias,
    {
        self.elem.p_alias
    }

    /// The cast alias of the node.
    pub fn p_cast_alias(&self) -> (r: Option<NodeId>)
        ensures
            r == self.elem_base().p_cast_alias,
    {
        self.elem.p_cast_alias
    }
}


impl Default for NodeElementBase {
    /// The elements of a node that carries none: every optional element is
    /// absent, and the others are at their defaults.
    fn default() -> (r: NodeElementBase)
        ensures
            r@ == (NodeElementBaseView {
                tooltip: None,
                description: None,
                display_name: None,
                visibility: Visibility::Beginner,
                docu_url: None,
                is_deprecated: false,
                event_id: None,
                p_is_implemented: None,
                p_is_available: None,
                p_is_locked: None,
                p_block_polling: None,
                imposed_access_mode: AccessMode::RW,
                p_errors: Seq::empty(),
                p_alias: None,
                p_cast_alias: None,
            }),
    {
        NodeElementBase {
            tooltip: None,
            description: None,
            display_name: None,
            visibility: Visibility::Beginner,
            docu_url: None,
            is_deprecated: false,
            event_id: None,
            p_is_implemented: None,
            p_is_available: None,
            p_is_locked: None,
            p_block_polling: None,
            imposed_access_mode: AccessMode::RW,
            p_errors: Vec::new(),
            p_alias: None,
            p_cast_alias: None,
        }
    }
}


/// The text of an optional event id: its hexadecimal digits.
pub open spec fn event_text(id: Option<u64>) -> Option<Seq<char>> {
    match id {
        Some(v) => Some(spec_digits(v as nat, 16)),
        None => None,
    }
}

impl NodeElementBaseView {
    /// The shapes of the elements that stand for these descriptive elements
    /// in a description, followed by `tail`: an element for each optional
    /// value that is there, and for each of the others. A node is written
    /// as its name among `names`.
    pub open spec fn shape_then(self, names: Seq<Seq<char>>, tail: Seq<Shape>) -> Seq<Shape> {
        opt_shape(TOOL_TIP@, self.tooltip) + (opt_shape(DESCRIPTION@, self.description)
            + (opt_shape(DISPLAY_NAME@, self.display_name)
            + (opt_shape(VISIBILITY@, Some(self.visibility.spec_to_text()))
            + (opt_shape(DOCU_URL@, self.docu_url)
            + (opt_shape(IS_DEPRECATED@, Some(spec_bool_to_text(self.is_deprecated)))
            + (opt_shape(EVENT_ID@, event_text(self.event_id))
            + (opt_shape(P_IS_IMPLEMENTED@, name_opt(names, self.p_is_implemented))
            + (opt_shape(P_IS_AVAILABLE@, name_opt(names, self.p_is_available))
            + (opt_shape(P_IS_LOCKED@, name_opt(names, self.p_is_locked))
            + (opt_shape(P_BLOCK_POLLING@, name_opt(names, self.p_block_polling))
            + (opt_shape(IMPOSED_ACCESS_MODE@, Some(self.imposed_access_mode.spec_to_text()))
            + (run_shape(P_ERROR@, names_of(names, self.p_errors))
            + (opt_shape(P_ALIAS@, name_opt(names, self.p_alias))
            + (opt_shape(P_CAST_ALIAS@, name_opt(names, self.p_cast_alias)) + (tail)))))))))))))))
    }

    /// Whether every node that the elements refer to is one of `names`.
    pub open spec fn named_in(self, names: Seq<Seq<char>>) -> bool {
        &&& named_opt(names, self.p_is_implemented)
        &&& named_opt(names, self.p_is_available)
        &&& named_opt(names, self.p_is_locked)
        &&& named_opt(names, self.p_block_polling)
        &&& all_named(names, self.p_errors)
        &&& named_opt(names, self.p_alias)
        &&& named_opt(names, self.p_cast_alias)
    }
}

/// Descriptive elements that were written for a value read back as that
/// value: where the elements `rest` have the shapes of the value `v`,
/// followed by shapes of elements that come later in a node, the parser
/// yields `v` without an error, leaves what follows, and interns no new
/// name.
pub proof fn lemma_elem_base_reads_back(
    v: NodeElementBaseView,
    names: Seq<Seq<char>>,
    rest: Seq<Element>,
    tail: Seq<Shape>,
)
    requires
        names.no_duplicates(),
        v.named_in(names),
        shapes(rest) == v.shape_then(names, tail),
        all_after(tail, 15),
    ensures
        NodeElementBase::spec_parse(rest, names).value == v,
        NodeElementBase::spec_parse(rest, names).error is None,
        shapes(NodeElementBase::spec_parse(rest, names).rest) == tail,
        NodeElementBase::spec_parse(rest, names).names == names,
{
    lemma_tag_orders();
    let t16 = tail;
    let h15 = opt_shape(P_CAST_ALIAS@, name_opt(names, v.p_cast_alias));
    let t15 = h15 + t16;
    lemma_all_after(h15, P_CAST_ALIAS@, t16, 14);
    let h14 = opt_shape(P_ALIAS@, name_opt(names, v.p_alias));
    let t14 = h14 + t15;
    lemma_all_after(h14, P_ALIAS@, t15, 13);
    let h13 = run_shape(P_ERROR@, names_of(names, v.p_errors));
    let t13 = h13 + t14;
    lemma_all_after(h13, P_ERROR@, t14, 12);
    let h12 = opt_shape(IMPOSED_ACCESS_MODE@, Some(v.imposed_access_mode.spec_to_text()));
    let t12 = h12 + t13;
    lemma_all_after(h12, IMPOSED_ACCESS_MODE@, t13, 11);
    let h11 = opt_shape(P_BLOCK_POLLING@, name_opt(names, v.p_block_polling));
    let t11 = h11 + t12;
    lemma_all_after(h11, P_BLOCK_POLLING@, t12, 10);
    let h10 = opt_shape(P_IS_LOCKED@, name_opt(names, v.p_is_locked));
    let t10 = h10 + t11;
    lemma_all_after(h10, P_IS_LOCKED@, t11, 9);
    let h9 = opt_shape(P_IS_AVAILABLE@, name_opt(names, v.p_is_available));
    let t9 = h9 + t10;
    lemma_all_after(h9, P_IS_AVAILABLE@, t10, 8);
    let h8 = opt_shape(P_IS_IMPLEMENTED@, name_opt(names, v.p_is_implemented));
    let t8 = h8 + t9;
    lemma_all_after(h8, P_IS_IMPLEMENTED@, t9, 7);
    let h7 = opt_shape(EVENT_ID@, event_text(v.event_id));
    let t7 = h7 + t8;
    lemma_all_after(h7, EVENT_ID@, t8, 6);
    let h6 = opt_shape(IS_DEPRECATED@, Some(spec_bool_to_text(v.is_deprecated)));
    let t6 = h6 + t7;
    lemma_all_after(h6, IS_DEPRECATED@, t7, 5);
    let h5 = opt_shape(DOCU_URL@, v.docu_url);
    let t5 = h5 + t6;
    lemma_all_after(h5, DOCU_URL@, t6, 4);
    let h4 = opt_shape(VISIBILITY@, Some(v.visibility.spec_to_text()));
    let t4 = h4 + t5;
    lemma_all_after(h4, VISIBILITY@, t5, 3);
    let h3 = opt_shape(DISPLAY_NAME@, v.display_name);
    let t3 = h3 + t4;
    lemma_all_after(h3, DISPLAY_NAME@, t4, 2);
    let h2 = opt_shape(DESCRIPTION@, v.description);
    let t2 = h2 + t3;
    lemma_all_after(h2, DESCRIPTION@, t3, 1);
    let h1 = opt_shape(TOOL_TIP@, v.tooltip);
    let t1 = h1 + t2;
    lemma_all_after(h1, TOOL_TIP@, t2, 0);
    let r0 = after_opt(rest, EXTENSION@);
    assert(opt_shape(EXTENSION@, None) + t1 =~= t1);
    lemma_read_opt(rest, EXTENSION@, None, t1);
    lemma_read_opt(r0, TOOL_TIP@, v.tooltip, t2);
    let r1 = after_opt(r0, TOOL_TIP@);
    lemma_read_opt(r1, DESCRIPTION@, v.description, t3);
    let r2 = after_opt(r1, DESCRIPTION@);
    lemma_read_opt(r2, DISPLAY_NAME@, v.display_name, t4);
    let r3 = after_opt(r2, DISPLAY_NAME@);
    lemma_read_opt(r3, VISIBILITY@, Some(v.visibility.spec_to_text()), t5);
    let r4 = after_opt(r3, VISIBILITY@);
    lemma_read_opt(r4, DOCU_URL@, v.docu_url, t6);
    let r5 = after_opt(r4, DOCU_URL@);
    lemma_read_opt(r5, IS_DEPRECATED@, Some(spec_bool_to_text(v.is_deprecated)), t7);
    let r6 = after_opt(r5, IS_DEPRECATED@);
    lemma_read_opt(r6, EVENT_ID@, event_text(v.event_id), t8);
    let r7 = after_opt(r6, EVENT_ID@);
    lemma_read_opt(r7, P_IS_IMPLEMENTED@, name_opt(names, v.p_is_implemented), t9);
    let r8 = after_opt(r7, P_IS_IMPLEMENTED@);
    lemma_read_opt(r8, P_IS_AVAILABLE@, name_opt(names, v.p_is_available), t10);
    let r9 = after_opt(r8, P_IS_AVAILABLE@);
    lemma_read_opt(r9, P_IS_LOCKED@, name_opt(names, v.p_is_locked), t11);
    let r10 = after_opt(r9, P_IS_LOCKED@);
    lemma_read_opt(r10, P_BLOCK_POLLING@, name_opt(names, v.p_block_polling), t12);
    let r11 = after_opt(r10, P_BLOCK_POLLING@);
    lemma_read_opt(r11, IMPOSED_ACCESS_MODE@, Some(v.imposed_access_mode.spec_to_text()), t13);
    let r12 = after_opt(r11, IMPOSED_ACCESS_MODE@);
    lemma_read_run(r12, P_ERROR@, names_of(names, v.p_errors), t14);
    let r13 = after_run(r12, P_ERROR@);
    lemma_read_opt(r13, P_ALIAS@, name_opt(names, v.p_alias), t15);
    let r14 = after_opt(r13, P_ALIAS@);
    lemma_read_opt(r14, P_CAST_ALIAS@, name_opt(names, v.p_cast_alias), t16);
    let r15 = after_opt(r14, P_CAST_ALIAS@);
    v.visibility.lemma_text_reads_back();
    crate::elem_type::lemma_bool_text_reads_back(v.is_deprecated);
    v.imposed_access_mode.lemma_text_reads_back();
    if v.event_id is Some {
        crate::parser::utils::lemma_number_texts_read_back(v.event_id.unwrap(), 0);
    }
    lemma_intern_named_opt(names, v.p_is_implemented);
    lemma_intern_named_opt(names, v.p_is_available);
    lemma_intern_named_opt(names, v.p_is_locked);
    lemma_intern_named_opt(names, v.p_block_polling);
    lemma_intern_all_named(names, v.p_errors);
    lemma_intern_named_opt(names, v.p_alias);
    lemma_intern_named_opt(names, v.p_cast_alias);
    let p = NodeElementBase::spec_parse(rest, names);
    assert(p.value.p_errors == v.p_errors);
    assert(p.value.tooltip == v.tooltip);
    assert(p.value.visibility == v.visibility);
    assert(p.value.is_deprecated == v.is_deprecated);
    assert(p.value.event_id == v.event_id);
    assert(p.value.imposed_access_mode == v.imposed_access_mode);
}


/// The plain values of the attributes that stand for the attributes `v` of
/// a node in a description: `Name`, `NameSpace`, `MergePriority` and, where
/// it is said, `ExposeStatic`.
pub open spec fn attr_base_attrs(v: NodeAttributeBase, names: Seq<Seq<char>>) -> Seq<
    (Seq<char>, Seq<char>),
> {
    let fixed = seq![
        (NAME@, name_of(names, v.id)),
        (NAME_SPACE@, v.name_space.spec_to_text()),
        (MERGE_PRIORITY@, v.merge_priority.spec_to_text()),
    ];
    match v.expose_static {
        Some(b) => fixed.push((EXPOSE_STATIC@, spec_bool_to_text(b))),
        None => fixed,
    }
}

/// The attributes of a node that were written for a value read back as
/// that value, and the name of the node is interned already.
pub proof fn lemma_attr_base_reads_back(
    v: NodeAttributeBase,
    names: Seq<Seq<char>>,
    attrs: Seq<Attribute>,
)
    requires
        names.no_duplicates(),
        named(names, v.id),
        attr_views(attrs) == attr_base_attrs(v, names),
    ensures
        NodeAttributeBase::spec_error(attrs) is None,
        NodeAttributeBase::spec_value(attrs, names) == v,
        spec_attribute(attrs, NAME@) == Some(name_of(names, v.id)),
        crate::store::names_with(names, name_of(names, v.id)) == names,
{
    crate::parser::elem_name::lemma_name_marks();
    lemma_lookup(attrs, NAME@);
    lemma_lookup(attrs, NAME_SPACE@);
    lemma_lookup(attrs, MERGE_PRIORITY@);
    lemma_lookup(attrs, EXPOSE_STATIC@);
    let a = attr_base_attrs(v, names);
    let a1 = a.skip(1);
    let a2 = a1.skip(1);
    let a3 = a2.skip(1);
    assert(a[0] == (NAME@, name_of(names, v.id)));
    assert(a1[0] == (NAME_SPACE@, v.name_space.spec_to_text()));
    assert(a2[0] == (MERGE_PRIORITY@, v.merge_priority.spec_to_text()));
    if v.expose_static is Some {
        assert(a3[0] == (EXPOSE_STATIC@, spec_bool_to_text(v.expose_static.unwrap())));
        assert(a3.skip(1).len() == 0);
    } else {
        assert(a3.len() == 0);
    }
    assert(lookup(a3, EXPOSE_STATIC@) == match v.expose_static {
        Some(b) => Some(spec_bool_to_text(b)),
        None => None,
    });
    assert(lookup(a2, EXPOSE_STATIC@) == lookup(a3, EXPOSE_STATIC@));
    assert(lookup(a1, EXPOSE_STATIC@) == lookup(a2, EXPOSE_STATIC@));
    assert(lookup(a, EXPOSE_STATIC@) == lookup(a1, EXPOSE_STATIC@));
    assert(lookup(a2, MERGE_PRIORITY@) == Some(v.merge_priority.spec_to_text()));
    assert(lookup(a1, MERGE_PRIORITY@) == lookup(a2, MERGE_PRIORITY@));
    assert(lookup(a, MERGE_PRIORITY@) == lookup(a1, MERGE_PRIORITY@));
    assert(lookup(a1, NAME_SPACE@) == Some(v.name_space.spec_to_text()));
    assert(lookup(a, NAME_SPACE@) == lookup(a1, NAME_SPACE@));
    assert(lookup(a, NAME@) == Some(name_of(names, v.id)));
    v.name_space.lemma_text_reads_back();
    v.merge_priority.lemma_text_reads_back();
    if v.expose_static is Some {
        crate::elem_type::lemma_bool_text_reads_back(v.expose_static.unwrap());
    }
    crate::parser::shape::lemma_intern_named(names, v.id);
}

} // verus!
