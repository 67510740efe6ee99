//! The node-type document model: the flat catalogue of every concrete
//! tree-node kind the parser can produce, each classified as terminal,
//! regular (an internal node with fields or children), or super-type (a
//! union of subtypes).
use vstd::prelude::*;
use crate::order::{sort_uniq, strictly_sorted, view_strings, sorted_unique_strings};

verus! {

/// Mathematical model of a [`NodeType`]: its name and whether the node is
/// named (as opposed to an anonymous token).
pub ghost struct NodeTypeView {
    pub name: Seq<char>,
    pub named: bool,
}

/// Mathematical model of a [`NodeChildren`] declaration.
pub ghost struct ChildrenView {
    pub multiple: bool,
    pub required: bool,
    pub types: Seq<NodeTypeView>,
}

/// Mathematical model of a [`RegularNodeDefinition`].
pub ghost struct RegularView {
    pub fields: Option<Seq<(Seq<char>, ChildrenView)>>,
    pub children: Option<ChildrenView>,
}

/// Mathematical model of a [`NodeTypeDefinitionKind`].
pub ghost enum KindView {
    SuperType(Seq<NodeTypeView>),
    Regular(RegularView),
}

/// Mathematical model of a [`NodeTypeDefinition`].
pub ghost struct DefView {
    pub node_type: NodeTypeView,
    pub kind: KindView,
}

/// A node kind with no structured content: neither fields nor children are
/// declared, even though the definition is syntactically "regular".
pub open spec fn terminal_view(r: RegularView) -> bool {
    r.fields is None && r.children is None
}

/// The views of a list of node types.
pub open spec fn view_types(s: Seq<NodeType>) -> Seq<NodeTypeView> {
    s.map_values(|t: NodeType| t@)
}

/// The views of a field list: each declared field name with its children
/// declaration.
pub open spec fn view_fields(s: Seq<(String, NodeChildren)>) -> Seq<(Seq<char>, ChildrenView)> {
    s.map_values(|p: (String, NodeChildren)| (p.0@, p.1@))
}

/// The views of a list of definitions.
pub open spec fn view_defs(s: Seq<NodeTypeDefinition>) -> Seq<DefView> {
    s.map_values(|d: NodeTypeDefinition| d@)
}

/// The views of a list of borrowed definitions.
pub open spec fn view_def_refs(s: Seq<&NodeTypeDefinition>) -> Seq<DefView> {
    s.map_values(|d: &NodeTypeDefinition| d@)
}

/// The super-type definitions of a document, in document order.
pub open spec fn super_defs(s: Seq<DefView>) -> Seq<DefView> {
    s.filter(|d: DefView| d.kind is SuperType)
}

/// The regular, non-terminal definitions of a document, in document order.
pub open spec fn regular_defs(s: Seq<DefView>) -> Seq<DefView> {
    s.filter(|d: DefView| d.kind matches KindView::Regular(r) && !terminal_view(r))
}

/// The terminal definitions of a document, in document order.
pub open spec fn terminal_defs(s: Seq<DefView>) -> Seq<DefView> {
    s.filter(|d: DefView| d.kind matches KindView::Regular(r) && terminal_view(r))
}

/// The node-type names of the given definitions, in order, duplicates kept.
pub open spec fn def_names(s: Seq<DefView>) -> Seq<Seq<char>> {
    s.map_values(|d: DefView| d.node_type.name)
}

/// The field names declared by one definition, in declared order.
pub open spec fn def_field_names(d: DefView) -> Seq<Seq<char>> {
    match d.kind {
        KindView::Regular(r) => match r.fields {
            Some(fs) => fs.map_values(|p: (Seq<char>, ChildrenView)| p.0),
            None => Seq::empty(),
        },
        KindView::SuperType(_) => Seq::empty(),
    }
}

/// Every field name appearing across the given definitions, in document
/// order then declared order, duplicates kept.
pub open spec fn all_field_names(s: Seq<DefView>) -> Seq<Seq<char>>
    decreases s.len(),
{
    if s.len() == 0 {
        Seq::empty()
    } else {
        all_field_names(s.drop_last()) + def_field_names(s.last())
    }
}

/// The first named definition bearing this name, read from position `i`.
pub open spec fn find_named_from(doc: Seq<DefView>, name: Seq<char>, i: int) -> Option<DefView>
    decreases doc.len() - i,
{
    if i < 0 || i >= doc.len() {
        None
    } else if doc[i].node_type.named && doc[i].node_type.name == name {
        Some(doc[i])
    } else {
        find_named_from(doc, name, i + 1)
    }
}

/// The first named definition bearing this name, if any.
pub open spec fn find_named(doc: Seq<DefView>, name: Seq<char>) -> Option<DefView> {
    find_named_from(doc, name, 0)
}

/// A named (or anonymous) kind of syntax-tree node.  Two node types denote
/// the same concrete kind exactly when both the name and the named flag are
/// equal; the same name with a different flag is a distinct kind.
#[derive(Clone, Debug)]
pub struct NodeType {
    node_type: String,
    named: bool,
}

impl View for NodeType {
    type V = NodeTypeView;

    closed spec fn view(&self) -> NodeTypeView {
        NodeTypeView { name: self.node_type@, named: self.named }
    }
}

impl NodeType {
    pub fn new(node_type: String, named: bool) -> (r: Self)
        ensures
            r@ == (NodeTypeView { name: node_type@, named }),
    {
        Self { node_type, named }
    }

    pub fn new_named(node_type: String) -> (r: Self)
        ensures
            r@ == (NodeTypeView { name: node_type@, named: true }),
    {
        Self::new(node_type, true)
    }

    pub fn new_unnamed(node_type: String) -> (r: Self)
        ensures
            r@ == (NodeTypeView { name: node_type@, named: false }),
    {
        Self::new(node_type, false)
    }

    pub fn node_type(&self) -> (r: &String)
        ensures
            r@ == self@.name,
    {
        &self.node_type
    }

    pub fn is_named(&self) -> (r: bool)
        ensures
            r == self@.named,
    {
        self.named
    }

    /// True exactly when the two node types denote the same concrete kind.
    pub fn same_kind(&self, other: &NodeType) -> (r: bool)
        ensures
            r == (self@ == other@),
    {
        self.node_type == other.node_type && self.named == other.named
    }

    /// A copy whose model equals this node type's.
    pub fn duplicate(&self) -> (r: NodeType)
        ensures
            r@ == self@,
    {
        NodeType { node_type: self.node_type.clone(), named: self.named }
    }
}

/// A copy of a node-type list, model for model.
pub(crate) fn dup_types(v: &Vec<NodeType>) -> (r: Vec<NodeType>)
    ensures
        view_types(r@) == view_types(v@),
{
    let mut out: Vec<NodeType> = Vec::new();
    let mut i: usize = 0;
    while i < v.len()
        invariant
            0 <= i <= v@.len(),
            view_types(out@) == view_types(v@).subrange(0, i as int),
        decreases v@.len() - i,
    {
        out.push(v[i].duplicate());
        proof {
            assert(view_types(out@) =~= view_types(v@).subrange(0, i as int).push(view_types(
                v@,
            )[i as int]));
            crate::order::lemma_prefix_push(view_types(v@), i as int);
        }
        i = i + 1;
    }
    proof {
        assert(view_types(v@).subrange(0, v@.len() as int) =~= view_types(v@));
    }
    out
}

/// The declared cardinality and target types of a field or of the
/// positional children of a node.
#[derive(Clone, Debug)]
pub struct NodeChildren {
    multiple: bool,
    required: bool,
    types: Vec<NodeType>,
}

impl View for NodeChildren {
    type V = ChildrenView;

    closed spec fn view(&self) -> ChildrenView {
        ChildrenView { multiple: self.multiple, required: self.required, types: view_types(self.types@) }
    }
}

impl NodeChildren {
    pub fn new(multiple: bool, required: bool, types: Vec<NodeType>) -> (r: Self)
        ensures
            r@ == (ChildrenView { multiple, required, types: view_types(types@) }),
    {
        Self { multiple, required, types }
    }

    pub fn is_multiple(&self) -> (r: bool)
        ensures
            r == self@.multiple,
    {
        self.multiple
    }

    pub fn is_required(&self) -> (r: bool)
        ensures
            r == self@.required,
    {
        self.required
    }

    pub fn types(&self) -> (r: &Vec<NodeType>)
        ensures
            view_types(r@) == self@.types,
    {
        &self.types
    }

    pub fn has_types(&self) -> (r: bool)
        ensures
            r == (self@.types.len() != 0),
    {
        self.types.len() != 0
    }

    pub fn type_count(&self) -> (r: usize)
        ensures
            r == self@.types.len(),
    {
        self.types.len()
    }
}

/// A regular definition: optional named fields and optional positional
/// children.  Both absent means the node is a terminal.
#[derive(Clone, Debug)]
pub struct RegularNodeDefinition {
    fields: Option<Vec<(String, NodeChildren)>>,
    children: Option<NodeChildren>,
}

impl View for RegularNodeDefinition {
    type V = RegularView;

    closed spec fn view(&self) -> RegularView {
        RegularView {
            fields: match self.fields {
                Some(fs) => Some(view_fields(fs@)),
                None => None,
            },
            children: match self.children {
                Some(ch) => Some(ch@),
                None => None,
            },
        }
    }
}

impl RegularNodeDefinition {
    /// A terminal node: no fields and no children.
    pub fn terminal() -> (r: Self)
        ensures
            r@ == (RegularView { fields: None, children: None }),
            terminal_view(r@),
    {
        Self { fields: None, children: None }
    }

    pub fn regular(fields: Option<Vec<(String, NodeChildren)>>, children: Option<NodeChildren>) -> (r: Self)
        ensures
            r@.fields == match fields {
                Some(fs) => Some(view_fields(fs@)),
                None => None::<Seq<(Seq<char>, ChildrenView)>>,
            },
            r@.children == match children {
                Some(ch) => Some(ch@),
                None => None::<ChildrenView>,
            },
    {
        Self { fields, children }
    }

    pub fn is_terminal(&self) -> (r: bool)
        ensures
            r == terminal_view(self@),
    {
        self.fields.is_none() && self.children.is_none()
    }

    pub fn fields(&self) -> (r: Option<&Vec<(String, NodeChildren)>>)
        ensures
            match r {
                Some(fs) => self@.fields == Some(view_fields(fs@)),
                None => self@.fields is None,
            },
    {
        self.fields.as_ref()
    }

    pub fn has_fields(&self) -> (r: bool)
        ensures
            r == (self@.fields matches Some(fs) && fs.len() != 0),
    {
        match self.fields.as_ref() {
            Some(fs) => fs.len() != 0,
            None => false,
        }
    }

    /// The declared field names, in declared order.
    pub fn field_names(&self) -> (r: Vec<String>)
        ensures
            view_strings(r@) == def_field_names(
                DefView {
                    node_type: NodeTypeView { name: Seq::empty(), named: true },
                    kind: KindView::Regular(self@),
                },
            ),
    {
        let mut out: Vec<String> = Vec::new();
        match self.fields.as_ref() {
            Some(fs) => {
                let mut i: usize = 0;
                while i < fs.len()
                    invariant
                        0 <= i <= fs@.len(),
                        view_strings(out@) == view_fields(fs@).map_values(
                            |p: (Seq<char>, ChildrenView)| p.0,
                        ).subrange(0, i as int),
                    decreases fs@.len() - i,
                {
                    out.push(fs[i].0.clone());
                    proof {
                        let names = view_fields(fs@).map_values(|p: (Seq<char>, ChildrenView)| p.0);
                        assert(view_strings(out@) =~= names.subrange(0, i as int).push(
                            names[i as int],
                        ));
                        crate::order::lemma_prefix_push(names, i as int);
                    }
                    i = i + 1;
                }
                proof {
                    let names = view_fields(fs@).map_values(|p: (Seq<char>, ChildrenView)| p.0);
                    assert(names.subrange(0, fs@.len() as int) =~= names);
                }
                out
            },
            None => out,
        }
    }

    pub fn children(&self) -> (r: Option<&NodeChildren>)
        ensures
            match r {
                Some(ch) => self@.children == Some(ch@),
                None => self@.children is None,
            },
    {
        self.children.as_ref()
    }
}

/// A super-type definition: the union of the listed subtypes, in declared
/// order.
#[derive(Clone, Debug)]
pub struct SuperTypeNodeDefinition {
    subtypes: Vec<NodeType>,
}

impl View for SuperTypeNodeDefinition {
    type V = Seq<NodeTypeView>;

    closed spec fn view(&self) -> Seq<NodeTypeView> {
        view_types(self.subtypes@)
    }
}

impl SuperTypeNodeDefinition {
    pub fn new(subtypes: Vec<NodeType>) -> (r: Self)
        ensures
            r@ == view_types(subtypes@),
    {
        Self { subtypes }
    }

    pub fn subtypes(&self) -> (r: &Vec<NodeType>)
        ensures
            view_types(r@) == self@,
    {
        &self.subtypes
    }

    pub fn has_subtypes(&self) -> (r: bool)
        ensures
            r == (self@.len() != 0),
    {
        self.subtypes.len() != 0
    }

    pub fn subtype_count(&self) -> (r: usize)
        ensures
            r == self@.len(),
    {
        self.subtypes.len()
    }
}

/// The classification of one node-type definition.
#[derive(Clone, Debug)]
pub enum NodeTypeDefinitionKind {
    SuperType(SuperTypeNodeDefinition),
    Regular(RegularNodeDefinition),
}

impl View for NodeTypeDefinitionKind {
    type V = KindView;

    closed spec fn view(&self) -> KindView {
        match self {
            NodeTypeDefinitionKind::SuperType(d) => KindView::SuperType(d@),
            NodeTypeDefinitionKind::Regular(d) => KindView::Regular(d@),
        }
    }
}

impl NodeTypeDefinitionKind {
    pub fn is_super_type(&self) -> (r: bool)
        ensures
            r == (self@ is SuperType),
    {
        match self {
            NodeTypeDefinitionKind::SuperType(_) => true,
            NodeTypeDefinitionKind::Regular(_) => false,
        }
    }

    pub fn as_super_type(&self) -> (r: Option<&SuperTypeNodeDefinition>)
        ensures
            match r {
                Some(d) => self@ == KindView::SuperType(d@),
                None => !(self@ is SuperType),
            },
    {
        match self {
            NodeTypeDefinitionKind::SuperType(d) => Some(d),
            NodeTypeDefinitionKind::Regular(_) => None,
        }
    }

    /// A regular definition that does declare structure.
    pub fn is_regular(&self) -> (r: bool)
        ensures
            r == (self@ matches KindView::Regular(d) && !terminal_view(d)),
    {
        match self {
            NodeTypeDefinitionKind::Regular(d) => !d.is_terminal(),
            NodeTypeDefinitionKind::SuperType(_) => false,
        }
    }

    pub fn as_regular(&self) -> (r: Option<&RegularNodeDefinition>)
        ensures
            match r {
                Some(d) => self@ == KindView::Regular(d@),
                None => !(self@ is Regular),
            },
    {
        match self {
            NodeTypeDefinitionKind::Regular(d) => Some(d),
            NodeTypeDefinitionKind::SuperType(_) => None,
        }
    }

    /// A regular definition with neither fields nor children.
    pub fn is_terminal(&self) -> (r: bool)
        ensures
            r == (self@ matches KindView::Regular(d) && terminal_view(d)),
    {
        match self {
            NodeTypeDefinitionKind::Regular(d) => d.is_terminal(),
            NodeTypeDefinitionKind::SuperType(_) => false,
        }
    }
}

/// One entry of the node-types document: a node type with its
/// classification.
#[derive(Clone, Debug)]
pub struct NodeTypeDefinition {
    node_type: NodeType,
    definition_kind: NodeTypeDefinitionKind,
}

impl View for NodeTypeDefinition {
    type V = DefView;

    closed spec fn view(&self) -> DefView {
        DefView { node_type: self.node_type@, kind: self.definition_kind@ }
    }
}

impl NodeTypeDefinition {
    pub fn new(node_type: NodeType, definition_kind: NodeTypeDefinitionKind) -> (r: Self)
        ensures
            r@ == (DefView { node_type: node_type@, kind: definition_kind@ }),
    {
        Self { node_type, definition_kind }
    }

    pub fn new_named(node_type: String, definition_kind: NodeTypeDefinitionKind) -> (r: Self)
        ensures
            r@ == (DefView {
                node_type: NodeTypeView { name: node_type@, named: true },
                kind: definition_kind@,
            }),
    {
        Self::new(NodeType::new_named(node_type), definition_kind)
    }

    pub fn new_unnamed(node_type: String, definition_kind: NodeTypeDefinitionKind) -> (r: Self)
        ensures
            r@ == (DefView {
                node_type: NodeTypeView { name: node_type@, named: false },
                kind: definition_kind@,
            }),
    {
        Self::new(NodeType::new_unnamed(node_type), definition_kind)
    }

    pub fn node_type(&self) -> (r: &NodeType)
        ensures
            r@ == self@.node_type,
    {
        &self.node_type
    }

    pub fn node_type_name(&self) -> (r: &String)
        ensures
            r@ == self@.node_type.name,
    {
        self.node_type.node_type()
    }

    pub fn kind(&self) -> (r: &NodeTypeDefinitionKind)
        ensures
            r@ == self@.kind,
    {
        &self.definition_kind
    }
}

/// The node-types document: the flat catalogue of definitions, in document
/// order.  Duplicate names across the named and unnamed axis are legal and
/// distinct.
#[derive(Clone, Debug)]
pub struct NodeTypesFile {
    defs: Vec<NodeTypeDefinition>,
}

impl View for NodeTypesFile {
    type V = Seq<DefView>;

    closed spec fn view(&self) -> Seq<DefView> {
        view_defs(self.defs@)
    }
}

impl NodeTypesFile {
    pub fn new(definitions: Vec<NodeTypeDefinition>) -> (r: Self)
        ensures
            r@ == view_defs(definitions@),
    {
        Self { defs: definitions }
    }

    pub fn definitions(&self) -> (r: &Vec<NodeTypeDefinition>)
        ensures
            view_defs(r@) == self@,
    {
        &self.defs
    }

    pub fn super_type_definitions(&self) -> (r: Vec<&NodeTypeDefinition>)
        ensures
            view_def_refs(r@) == super_defs(self@),
    {
        let mut out: Vec<&NodeTypeDefinition> = Vec::new();
        let mut i: usize = 0;
        while i < self.defs.len()
            invariant
                0 <= i <= self.defs@.len(),
                self@ == view_defs(self.defs@),
                view_def_refs(out@) == super_defs(self@.subrange(0, i as int)),
            decreases self.defs@.len() - i,
        {
            let d = &self.defs[i];
            proof {
                filter_take_step(self@, i as int, |dv: DefView| dv.kind is SuperType);
            }
            if d.kind().is_super_type() {
                out.push(d);
            }
            proof {
                assert(view_def_refs(out@) =~= super_defs(self@.subrange(0, i as int + 1)));
            }
            i = i + 1;
        }
        proof {
            assert(self@.subrange(0, self@.len() as int) =~= self@);
        }
        out
    }

    pub fn regular_definitions(&self) -> (r: Vec<&NodeTypeDefinition>)
        ensures
            view_def_refs(r@) == regular_defs(self@),
    {
        let mut out: Vec<&NodeTypeDefinition> = Vec::new();
        let mut i: usize = 0;
        while i < self.defs.len()
            invariant
                0 <= i <= self.defs@.len(),
                self@ == view_defs(self.defs@),
                view_def_refs(out@) == regular_defs(self@.subrange(0, i as int)),
            decreases self.defs@.len() - i,
        {
            let d = &self.defs[i];
            proof {
                filter_take_step(
                    self@,
                    i as int,
                    |dv: DefView| dv.kind matches KindView::Regular(r) && !terminal_view(r),
                );
            }
            if d.kind().is_regular() {
                out.push(d);
            }
            proof {
                assert(view_def_refs(out@) =~= regular_defs(self@.subrange(0, i as int + 1)));
            }
            i = i + 1;
        }
        proof {
            assert(self@.subrange(0, self@.len() as int) =~= self@);
        }
        out
    }

    pub fn terminal_definitions(&self) -> (r: Vec<&NodeTypeDefinition>)
        ensures
            view_def_refs(r@) == terminal_defs(self@),
    {
        let mut out: Vec<&NodeTypeDefinition> = Vec::new();
        let mut i: usize = 0;
        while i < self.defs.len()
            invariant
                0 <= i <= self.defs@.len(),
                self@ == view_defs(self.defs@),
                view_def_refs(out@) == terminal_defs(self@.subrange(0, i as int)),
            decreases self.defs@.len() - i,
        {
            let d = &self.defs[i];
            proof {
                filter_take_step(
                    self@,
                    i as int,
                    |dv: DefView| dv.kind matches KindView::Regular(r) && terminal_view(r),
                );
            }
            if d.kind().is_terminal() {
                out.push(d);
            }
            proof {
                assert(view_def_refs(out@) =~= terminal_defs(self@.subrange(0, i as int + 1)));
            }
            i = i + 1;
        }
        proof {
            assert(self@.subrange(0, self@.len() as int) =~= self@);
        }
        out
    }

    pub fn has_definitions(&self) -> (r: bool)
        ensures
            r == (self@.len() != 0),
    {
        self.defs.len() != 0
    }

    pub fn definition_count(&self) -> (r: usize)
        ensures
            r == self@.len(),
    {
        self.defs.len()
    }

    /// Every node-type name in the document, sorted, without duplicates.
    pub fn node_type_names(&self) -> (r: Vec<String>)
        ensures
            view_strings(r@) == sort_uniq(def_names(self@)),
            strictly_sorted(view_strings(r@)),
    {
        let names = self.collect_names_all();
        let r = sorted_unique_strings(&names);
        r
    }

    /// The names of the super-type definitions, sorted, without duplicates.
    pub fn super_type_node_type_names(&self) -> (r: Vec<String>)
        ensures
            view_strings(r@) == sort_uniq(def_names(super_defs(self@))),
            strictly_sorted(view_strings(r@)),
    {
        let defs = self.super_type_definitions();
        let names = collect_ref_names(&defs);
        sorted_unique_strings(&names)
    }

    /// The names of the regular, non-terminal definitions, sorted, without
    /// duplicates.
    pub fn regular_node_type_names(&self) -> (r: Vec<String>)
        ensures
            view_strings(r@) == sort_uniq(def_names(regular_defs(self@))),
            strictly_sorted(view_strings(r@)),
    {
        let defs = self.regular_definitions();
        let names = collect_ref_names(&defs);
        sorted_unique_strings(&names)
    }

    /// The names of the terminal definitions, sorted, without duplicates.
    pub fn terminal_node_type_names(&self) -> (r: Vec<String>)
        ensures
            view_strings(r@) == sort_uniq(def_names(terminal_defs(self@))),
            strictly_sorted(view_strings(r@)),
    {
        let defs = self.terminal_definitions();
        let names = collect_ref_names(&defs);
        sorted_unique_strings(&names)
    }

    /// Every field name appearing across all definitions, sorted, without
    /// duplicates.
    pub fn field_names(&self) -> (r: Vec<String>)
        ensures
            view_strings(r@) == sort_uniq(all_field_names(self@)),
            strictly_sorted(view_strings(r@)),
    {
        let mut names: Vec<String> = Vec::new();
        let mut i: usize = 0;
        while i < self.defs.len()
            invariant
                0 <= i <= self.defs@.len(),
                self@ == view_defs(self.defs@),
                view_strings(names@) == all_field_names(self@.subrange(0, i as int)),
            decreases self.defs@.len() - i,
        {
            let d = &self.defs[i];
            match d.kind() {
                NodeTypeDefinitionKind::Regular(reg) => {
                    let mut fnames = reg.field_names();
                    let ghost before = names@;
                    let mut k: usize = 0;
                    while k < fnames.len()
                        invariant
                            0 <= k <= fnames@.len(),
                            view_strings(names@) == view_strings(before) + view_strings(
                                fnames@,
                            ).subrange(0, k as int),
                        decreases fnames@.len() - k,
                    {
                        names.push(fnames[k].clone());
                        proof {
                            let fv = view_strings(fnames@);
                            assert(view_strings(names@) =~= (view_strings(before) + fv.subrange(
                                0,
                                k as int,
                            )).push(fv[k as int]));
                            crate::order::lemma_prefix_push(fv, k as int);
                            assert((view_strings(before) + fv.subrange(0, k as int)).push(
                                fv[k as int],
                            ) =~= view_strings(before) + fv.subrange(0, k as int + 1));
                        }
                        k = k + 1;
                    }
                    proof {
                        assert(view_strings(fnames@).subrange(0, fnames@.len() as int)
                            =~= view_strings(fnames@));
                        assert(def_field_names(self@[i as int]) == view_strings(fnames@));
                        let t = self@.subrange(0, i as int + 1);
                        assert(t.drop_last() =~= self@.subrange(0, i as int));
                        assert(t.last() == self@[i as int]);
                    }
                },
                NodeTypeDefinitionKind::SuperType(_) => {
                    proof {
                        assert(def_field_names(self@[i as int]) =~= Seq::<Seq<char>>::empty());
                        let t = self@.subrange(0, i as int + 1);
                        assert(t.drop_last() =~= self@.subrange(0, i as int));
                        assert(t.last() == self@[i as int]);
                        assert(view_strings(names@) =~= all_field_names(self@.subrange(
                            0,
                            i as int,
                        )) + def_field_names(self@[i as int]));
                    }
                },
            }
            i = i + 1;
        }
        proof {
            assert(self@.subrange(0, self@.len() as int) =~= self@);
        }
        sorted_unique_strings(&names)
    }

    /// Looks a definition up by name along the named axis: the first named
    /// definition bearing the name; `None` exactly when the document holds
    /// none.  The document never synthesizes or guesses a definition.
    pub fn definition_named(&self, name: &str) -> (r: Option<&NodeTypeDefinition>)
        ensures
            match r {
                Some(d) => find_named(self@, name@) == Some(d@),
                None => find_named(self@, name@) is None,
            },
    {
        let ghost doc = self@;
        let mut i: usize = 0;
        while i < self.defs.len()
            invariant
                0 <= i <= self.defs@.len(),
                doc == view_defs(self.defs@),
                doc == self@,
                find_named(doc, name@) == find_named_from(doc, name@, i as int),
            decreases self.defs@.len() - i,
        {
            let d = &self.defs[i];
            if d.node_type().is_named() && crate::order::str_eq(d.node_type_name().as_str(), name) {
                proof {
                    assert(doc[i as int].node_type.named && doc[i as int].node_type.name == name@);
                }
                return Some(d);
            }
            i = i + 1;
        }
        None
    }

    /// The names of all definitions, in document order, duplicates kept.
    fn collect_names_all(&self) -> (r: Vec<String>)
        ensures
            view_strings(r@) == def_names(self@),
    {
        let mut out: Vec<String> = Vec::new();
        let mut i: usize = 0;
        while i < self.defs.len()
            invariant
                0 <= i <= self.defs@.len(),
                self@ == view_defs(self.defs@),
                view_strings(out@) == def_names(self@).subrange(0, i as int),
            decreases self.defs@.len() - i,
        {
            out.push(self.defs[i].node_type_name().clone());
            proof {
                let names = def_names(self@);
                assert(view_strings(out@) =~= names.subrange(0, i as int).push(names[i as int]));
                crate::order::lemma_prefix_push(names, i as int);
            }
            i = i + 1;
        }
        proof {
            assert(def_names(self@).subrange(0, self@.len() as int) =~= def_names(self@));
        }
        out
    }
}

/// The names of the given definitions, in order, duplicates kept.
fn collect_ref_names(defs: &Vec<&NodeTypeDefinition>) -> (r: Vec<String>)
    ensures
        view_strings(r@) == def_names(view_def_refs(defs@)),
{
    let mut out: Vec<String> = Vec::new();
    let mut i: usize = 0;
    while i < defs.len()
        invariant
            0 <= i <= defs@.len(),
            view_strings(out@) == def_names(view_def_refs(defs@)).subrange(0, i as int),
        decreases defs@.len() - i,
    {
        out.push(defs[i].node_type_name().clone());
        proof {
            let names = def_names(view_def_refs(defs@));
            assert(view_strings(out@) =~= names.subrange(0, i as int).push(names[i as int]));
            crate::order::lemma_prefix_push(names, i as int);
        }
        i = i + 1;
    }
    proof {
        let names = def_names(view_def_refs(defs@));
        assert(names.subrange(0, names.len() as int) =~= names);
    }
    out
}

/// One step of a filter over a growing prefix: filtering `i + 1` entries
/// appends the `i`th entry exactly when the predicate accepts it.
proof fn filter_take_step(s: Seq<DefView>, i: int, pred: spec_fn(DefView) -> bool)
    requires
        0 <= i < s.len(),
    ensures
        s.subrange(0, i + 1).filter(pred) == if pred(s[i]) {
            s.subrange(0, i).filter(pred).push(s[i])
        } else {
            s.subrange(0, i).filter(pred)
        },
{
    let t = s.subrange(0, i);
    let t1 = s.subrange(0, i + 1);
    assert(t1 =~= t.push(s[i]));
    assert(t.push(s[i]).drop_last() =~= t);
    assert(t.push(s[i]).last() == s[i]);
    reveal(Seq::filter);
}

} // verus!
