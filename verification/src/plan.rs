//! The binding plan: for every node type a resolved shape — value leaf,
//! compound node, or union of variants — with every field's cardinality and
//! target resolved, and the synthesized anonymous unions deduplicated.
use vstd::prelude::*;
use crate::node_types::{
    NodeType, NodeTypeView, NodeChildren, ChildrenView, RegularView, KindView, DefView,
    NodeTypeDefinitionKind, NodeTypesFile, terminal_view, view_types, dup_types,
};
use vstd::string::StringExecFns;

verus! {

/// How many values an accessor for a field yields.
#[derive(Clone, Copy, Debug, PartialEq, Eq, Structural)]
pub enum Cardinality {
    /// Exactly one value.
    Single,
    /// One value or none.
    Optional,
    /// Zero or more values.
    Repeated,
}

/// Mathematical model of a [`ResolvedFieldTarget`].
pub ghost enum TargetView {
    Node(NodeTypeView),
    SynthesizedUnion(Seq<NodeTypeView>),
}

/// Mathematical model of a [`ResolvedField`].
pub ghost struct FieldView {
    pub name: Seq<char>,
    pub cardinality: Cardinality,
    pub target: TargetView,
}

/// Mathematical model of a [`ResolvedNodeShape`].
pub ghost enum ShapeView {
    ValueLeaf,
    CompoundNode(Seq<FieldView>),
    UnionNode(Seq<NodeTypeView>),
}

/// Mathematical model of a [`PlanEntry`].
pub ghost struct EntryView {
    pub node_type: NodeTypeView,
    pub shape: ShapeView,
}

/// Mathematical model of a [`BindingPlan`].
pub ghost struct PlanView {
    pub entries: Seq<EntryView>,
    pub unions: Seq<Seq<NodeTypeView>>,
}

/// What a resolved field points at: a single node type, or an anonymous
/// union synthesized over the several types the field declares.
#[derive(Clone, Debug)]
pub enum ResolvedFieldTarget {
    Node(NodeType),
    SynthesizedUnion(Vec<NodeType>),
}

impl View for ResolvedFieldTarget {
    type V = TargetView;

    open spec fn view(&self) -> TargetView {
        match self {
            ResolvedFieldTarget::Node(t) => TargetView::Node(t@),
            ResolvedFieldTarget::SynthesizedUnion(m) => TargetView::SynthesizedUnion(
                view_types(m@),
            ),
        }
    }
}

/// One resolved field of a compound node.
#[derive(Clone, Debug)]
pub struct ResolvedField {
    pub name: String,
    pub cardinality: Cardinality,
    pub target: ResolvedFieldTarget,
}

impl View for ResolvedField {
    type V = FieldView;

    open spec fn view(&self) -> FieldView {
        FieldView { name: self.name@, cardinality: self.cardinality, target: self.target@ }
    }
}

/// The resolved shape of one node type.
#[derive(Clone, Debug)]
pub enum ResolvedNodeShape {
    /// A leaf wrapping raw source text.
    ValueLeaf,
    /// An internal node with resolved fields, in declared order; a declared
    /// `children` group appears as a trailing positional pseudo-field.
    CompoundNode { fields: Vec<ResolvedField> },
    /// A union over the listed variants, in declared order, first
    /// occurrence kept.
    UnionNode { variants: Vec<NodeType> },
}

impl View for ResolvedNodeShape {
    type V = ShapeView;

    open spec fn view(&self) -> ShapeView {
        match self {
            ResolvedNodeShape::ValueLeaf => ShapeView::ValueLeaf,
            ResolvedNodeShape::CompoundNode { fields } => ShapeView::CompoundNode(
                fields@.map_values(|f: ResolvedField| f@),
            ),
            ResolvedNodeShape::UnionNode { variants } => ShapeView::UnionNode(
                view_types(variants@),
            ),
        }
    }
}

/// One node type with its resolved shape.
#[derive(Clone, Debug)]
pub struct PlanEntry {
    pub node_type: NodeType,
    pub shape: ResolvedNodeShape,
}

impl View for PlanEntry {
    type V = EntryView;

    open spec fn view(&self) -> EntryView {
        EntryView { node_type: self.node_type@, shape: self.shape@ }
    }
}

/// The views of a list of union member-lists.
pub open spec fn view_unions(s: Seq<Vec<NodeType>>) -> Seq<Seq<NodeTypeView>> {
    s.map_values(|v: Vec<NodeType>| view_types(v@))
}

/// The views of a list of plan entries.
pub open spec fn view_entries(s: Seq<PlanEntry>) -> Seq<EntryView> {
    s.map_values(|e: PlanEntry| e@)
}

/// The fully resolved, backend-agnostic description of every node type's
/// shape, produced once per generation run and immutable afterwards.
#[derive(Clone, Debug)]
pub struct BindingPlan {
    entries: Vec<PlanEntry>,
    unions: Vec<Vec<NodeType>>,
}

impl View for BindingPlan {
    type V = PlanView;

    closed spec fn view(&self) -> PlanView {
        PlanView { entries: view_entries(self.entries@), unions: view_unions(self.unions@) }
    }
}

impl BindingPlan {
    /// One entry per node-type definition, in document order.
    pub fn entries(&self) -> (r: &Vec<PlanEntry>)
        ensures
            view_entries(r@) == self@.entries,
    {
        &self.entries
    }

    /// The synthesized anonymous unions, each listed once, in first-use
    /// order.
    pub fn synthesized_unions(&self) -> (r: &Vec<Vec<NodeType>>)
        ensures
            view_unions(r@) == self@.unions,
    {
        &self.unions
    }

    pub fn entry_count(&self) -> (r: usize)
        ensures
            r == self@.entries.len(),
    {
        self.entries.len()
    }

    /// Looks the resolved shape of one concrete node kind up; `None`
    /// exactly when the plan holds no entry for it.
    pub fn entry_for(&self, t: &NodeType) -> (r: Option<&PlanEntry>)
        ensures
            match r {
                Some(e) => find_entry(self@.entries, t@) == Some(e@),
                None => find_entry(self@.entries, t@) is None,
            },
    {
        let ghost ev = self@.entries;
        let mut i: usize = 0;
        while i < self.entries.len()
            invariant
                0 <= i <= self.entries@.len(),
                ev == view_entries(self.entries@),
                ev == self@.entries,
                find_entry(ev, t@) == find_entry_from(ev, t@, i as int),
            decreases self.entries@.len() - i,
        {
            let e = &self.entries[i];
            if e.node_type.same_kind(t) {
                proof {
                    assert(ev[i as int] == self.entries@[i as int]@);
                    assert(ev[i as int].node_type == t@);
                }
                return Some(e);
            }
            proof {
                assert(ev[i as int] == self.entries@[i as int]@);
            }
            i = i + 1;
        }
        None
    }
}

/// The first entry for this node kind, read from position `i`.
pub open spec fn find_entry_from(entries: Seq<EntryView>, t: NodeTypeView, i: int) -> Option<
    EntryView,
>
    decreases entries.len() - i,
{
    if i < 0 || i >= entries.len() {
        None
    } else if entries[i].node_type == t {
        Some(entries[i])
    } else {
        find_entry_from(entries, t, i + 1)
    }
}

/// The first entry for this node kind, if any.
pub open spec fn find_entry(entries: Seq<EntryView>, t: NodeTypeView) -> Option<EntryView> {
    find_entry_from(entries, t, 0)
}

/// The cardinality a declaration maps to: `multiple` yields `Repeated`
/// whatever `required` says; otherwise `required` decides between `Single`
/// and `Optional`.
pub open spec fn cardinality_of(multiple: bool, required: bool) -> Cardinality {
    if multiple {
        Cardinality::Repeated
    } else if required {
        Cardinality::Single
    } else {
        Cardinality::Optional
    }
}

/// The target a declared type list resolves to: the single type itself, or
/// a synthesized union over the list, order preserved.
pub open spec fn target_of(types: Seq<NodeTypeView>) -> TargetView {
    if types.len() == 1 {
        TargetView::Node(types[0])
    } else {
        TargetView::SynthesizedUnion(types)
    }
}

/// The resolved field a declaration maps to.
pub open spec fn field_of(name: Seq<char>, ch: ChildrenView) -> FieldView {
    FieldView {
        name,
        cardinality: cardinality_of(ch.multiple, ch.required),
        target: target_of(ch.types),
    }
}

/// The resolved fields of a compound node: the declared fields in declared
/// order, then, when a `children` group is declared, a trailing positional
/// pseudo-field under the name `children`.
pub open spec fn compound_fields(r: RegularView) -> Seq<FieldView> {
    let declared = match r.fields {
        Some(fs) => fs.map_values(|p: (Seq<char>, ChildrenView)| field_of(p.0, p.1)),
        None => Seq::empty(),
    };
    match r.children {
        Some(ch) => declared.push(field_of("children"@, ch)),
        None => declared,
    }
}

/// The given types with duplicates dropped, first occurrence kept.
pub open spec fn dedup_types(s: Seq<NodeTypeView>) -> Seq<NodeTypeView>
    decreases s.len(),
{
    if s.len() == 0 {
        Seq::empty()
    } else {
        let rest = dedup_types(s.drop_last());
        if rest.contains(s.last()) {
            rest
        } else {
            rest.push(s.last())
        }
    }
}

/// The shape one definition classifies to: a super-type is a union over its
/// subtypes; a regular definition without fields and children is a value
/// leaf; any other regular definition is a compound node.
pub open spec fn shape_of(k: KindView) -> ShapeView {
    match k {
        KindView::SuperType(subs) => ShapeView::UnionNode(dedup_types(subs)),
        KindView::Regular(r) => if terminal_view(r) {
            ShapeView::ValueLeaf
        } else {
            ShapeView::CompoundNode(compound_fields(r))
        },
    }
}

/// The plan entry one definition maps to.
pub open spec fn entry_of(d: DefView) -> EntryView {
    EntryView { node_type: d.node_type, shape: shape_of(d.kind) }
}

/// The plan entries of a document, in document order.
pub open spec fn plan_entries(doc: Seq<DefView>) -> Seq<EntryView> {
    doc.map_values(|d: DefView| entry_of(d))
}

/// The synthesized unions a field list asks for, in field order.
pub open spec fn union_reqs_of_fields(fields: Seq<FieldView>) -> Seq<Seq<NodeTypeView>>
    decreases fields.len(),
{
    if fields.len() == 0 {
        Seq::empty()
    } else {
        union_reqs_of_fields(fields.drop_last()) + (match fields.last().target {
            TargetView::SynthesizedUnion(m) => seq![m],
            TargetView::Node(_) => Seq::empty(),
        })
    }
}

/// The synthesized unions one entry asks for.
pub open spec fn entry_union_reqs(e: EntryView) -> Seq<Seq<NodeTypeView>> {
    match e.shape {
        ShapeView::CompoundNode(fields) => union_reqs_of_fields(fields),
        ShapeView::ValueLeaf => Seq::empty(),
        ShapeView::UnionNode(_) => Seq::empty(),
    }
}

/// The synthesized unions all entries ask for, in entry order.
pub open spec fn all_union_reqs(entries: Seq<EntryView>) -> Seq<Seq<NodeTypeView>>
    decreases entries.len(),
{
    if entries.len() == 0 {
        Seq::empty()
    } else {
        all_union_reqs(entries.drop_last()) + entry_union_reqs(entries.last())
    }
}

/// The given member-lists with structural duplicates dropped, first
/// occurrence kept: two fields declaring the identical ordered type list
/// share one synthesized union; a reordered list is a distinct union.
pub open spec fn dedup_unions(s: Seq<Seq<NodeTypeView>>) -> Seq<Seq<NodeTypeView>>
    decreases s.len(),
{
    if s.len() == 0 {
        Seq::empty()
    } else {
        let rest = dedup_unions(s.drop_last());
        if rest.contains(s.last()) {
            rest
        } else {
            rest.push(s.last())
        }
    }
}

/// The deduplicated synthesized unions of a document.
pub open spec fn plan_unions(doc: Seq<DefView>) -> Seq<Seq<NodeTypeView>> {
    dedup_unions(all_union_reqs(plan_entries(doc)))
}

/// The binding plan of a document: classification of every definition,
/// plus the deduplicated synthesized unions.
pub open spec fn plan_of(doc: Seq<DefView>) -> PlanView {
    PlanView { entries: plan_entries(doc), unions: plan_unions(doc) }
}

/// True exactly when the two lists hold the same node types in the same
/// order.
fn types_equal(a: &Vec<NodeType>, b: &Vec<NodeType>) -> (r: bool)
    ensures
        r == (view_types(a@) == view_types(b@)),
{
    if a.len() != b.len() {
        proof {
            assert(view_types(a@).len() != view_types(b@).len());
        }
        return false;
    }
    let mut i: usize = 0;
    while i < a.len()
        invariant
            0 <= i <= a@.len(),
            a@.len() == b@.len(),
            forall|k: int| 0 <= k < i ==> view_types(a@)[k] == view_types(b@)[k],
        decreases a@.len() - i,
    {
        if !a[i].same_kind(&b[i]) {
            proof {
                assert(view_types(a@)[i as int] != view_types(b@)[i as int]);
            }
            return false;
        }
        i = i + 1;
    }
    proof {
        assert(view_types(a@) =~= view_types(b@));
    }
    true
}

/// True exactly when `v` already lists a union with exactly these members.
fn unions_contain(v: &Vec<Vec<NodeType>>, m: &Vec<NodeType>) -> (r: bool)
    ensures
        r == view_unions(v@).contains(view_types(m@)),
{
    let mut i: usize = 0;
    while i < v.len()
        invariant
            0 <= i <= v@.len(),
            forall|k: int| 0 <= k < i ==> view_unions(v@)[k] != view_types(m@),
        decreases v@.len() - i,
    {
        if types_equal(&v[i], m) {
            proof {
                assert(view_unions(v@)[i as int] == view_types(m@));
            }
            return true;
        }
        i = i + 1;
    }
    proof {
        if view_unions(v@).contains(view_types(m@)) {
            let k = choose|k: int|
                0 <= k < view_unions(v@).len() && view_unions(v@)[k] == view_types(m@);
            assert(false);
        }
    }
    false
}

/// True exactly when `v` lists this node type.
fn types_contain(v: &Vec<NodeType>, t: &NodeType) -> (r: bool)
    ensures
        r == view_types(v@).contains(t@),
{
    let mut i: usize = 0;
    while i < v.len()
        invariant
            0 <= i <= v@.len(),
            forall|k: int| 0 <= k < i ==> view_types(v@)[k] != t@,
        decreases v@.len() - i,
    {
        if v[i].same_kind(t) {
            proof {
                assert(view_types(v@)[i as int] == t@);
            }
            return true;
        }
        i = i + 1;
    }
    proof {
        if view_types(v@).contains(t@) {
            let k = choose|k: int| 0 <= k < view_types(v@).len() && view_types(v@)[k] == t@;
            assert(false);
        }
    }
    false
}

/// The subtypes with duplicates dropped, first occurrence kept, as
/// `dedup_types` describes.
fn build_variants(subs: &Vec<NodeType>) -> (r: Vec<NodeType>)
    ensures
        view_types(r@) == dedup_types(view_types(subs@)),
{
    let ghost s = view_types(subs@);
    let mut out: Vec<NodeType> = Vec::new();
    let mut i: usize = 0;
    proof {
        assert(s.subrange(0, 0) =~= Seq::<NodeTypeView>::empty());
        assert(view_types(out@) =~= dedup_types(s.subrange(0, 0)));
    }
    while i < subs.len()
        invariant
            0 <= i <= subs@.len(),
            s == view_types(subs@),
            view_types(out@) == dedup_types(s.subrange(0, i as int)),
        decreases subs@.len() - i,
    {
        let present = types_contain(&out, &subs[i]);
        proof {
            let t = s.subrange(0, i as int);
            let t1 = s.subrange(0, i as int + 1);
            assert(t1.drop_last() =~= t);
            assert(t1.last() == s[i as int]);
            assert(s[i as int] == subs@[i as int]@);
            assert(dedup_types(t1) == if dedup_types(t).contains(s[i as int]) {
                dedup_types(t)
            } else {
                dedup_types(t).push(s[i as int])
            });
        }
        if !present {
            out.push(subs[i].duplicate());
            proof {
                assert(view_types(out@) =~= dedup_types(s.subrange(0, i as int)).push(
                    s[i as int],
                ));
            }
        }
        i = i + 1;
    }
    proof {
        assert(s.subrange(0, s.len() as int) =~= s);
    }
    out
}

/// The resolved field a declaration maps to, as `field_of` describes.
fn build_field(name: &String, ch: &NodeChildren) -> (r: ResolvedField)
    ensures
        r@ == field_of(name@, ch@),
{
    let cardinality = if ch.is_multiple() {
        Cardinality::Repeated
    } else if ch.is_required() {
        Cardinality::Single
    } else {
        Cardinality::Optional
    };
    let target = if ch.type_count() == 1 {
        let ts = ch.types();
        proof {
            assert(view_types(ts@)[0] == ch@.types[0]);
        }
        ResolvedFieldTarget::Node(ts[0].duplicate())
    } else {
        ResolvedFieldTarget::SynthesizedUnion(dup_types(ch.types()))
    };
    ResolvedField { name: name.clone(), cardinality, target }
}

/// The resolved shape of one definition, as `shape_of` describes.
fn build_shape(kind: &NodeTypeDefinitionKind) -> (r: ResolvedNodeShape)
    ensures
        r@ == shape_of(kind@),
{
    match kind.as_super_type() {
        Some(st) => {
            let variants = build_variants(st.subtypes());
            ResolvedNodeShape::UnionNode { variants }
        },
        None => {
            let reg = match kind.as_regular() {
                Some(reg) => reg,
                None => {
                    proof {
                        assert(false);
                    }
                    return ResolvedNodeShape::ValueLeaf;
                },
            };
            if reg.is_terminal() {
                ResolvedNodeShape::ValueLeaf
            } else {
                let mut fields: Vec<ResolvedField> = Vec::new();
                let ghost rv = reg@;
                let ghost declared = (match rv.fields {
                    Some(fs) => fs.map_values(|p: (Seq<char>, ChildrenView)| field_of(p.0, p.1)),
                    None => Seq::<FieldView>::empty(),
                });
                match reg.fields() {
                    Some(fs) => {
                        let mut i: usize = 0;
                        while i < fs.len()
                            invariant
                                0 <= i <= fs@.len(),
                                rv == reg@,
                                rv.fields == Some(
                                    crate::node_types::view_fields(fs@),
                                ),
                                declared == (match rv.fields {
                                    Some(fsv) => fsv.map_values(
                                        |p: (Seq<char>, ChildrenView)| field_of(p.0, p.1),
                                    ),
                                    None => Seq::<FieldView>::empty(),
                                }),
                                fields@.map_values(|f: ResolvedField| f@) == declared.subrange(
                                    0,
                                    i as int,
                                ),
                            decreases fs@.len() - i,
                        {
                            let f = build_field(&fs[i].0, &fs[i].1);
                            fields.push(f);
                            proof {
                                assert(declared[i as int] == field_of(fs@[i as int].0@, fs@[
                                i as int].1@));
                                assert(fields@.map_values(|f: ResolvedField| f@) =~= declared
                                    .subrange(0, i as int).push(declared[i as int]));
                                crate::order::lemma_prefix_push(declared, i as int);
                            }
                            i = i + 1;
                        }
                        proof {
                            assert(declared.subrange(0, declared.len() as int) =~= declared);
                        }
                    },
                    None => {
                        proof {
                            assert(fields@.map_values(|f: ResolvedField| f@) =~= declared);
                        }
                    },
                }
                match reg.children() {
                    Some(ch) => {
                        let name = String::from_str("children");
                        let f = build_field(&name, ch);
                        fields.push(f);
                        proof {
                            assert(fields@.map_values(|f: ResolvedField| f@) =~= declared.push(
                                field_of("children"@, rv.children->0),
                            ));
                        }
                    },
                    None => {
                    },
                }
                ResolvedNodeShape::CompoundNode { fields }
            }
        },
    }
}

/// Builds the binding plan of a document, as `plan_of` describes: one entry
/// per definition in document order, and the synthesized unions collected
/// in first-use order, deduplicated.
pub(crate) fn build_plan(node_types: &NodeTypesFile) -> (r: BindingPlan)
    ensures
        r@ == plan_of(node_types@),
{
    let ghost doc = node_types@;
    let defs = node_types.definitions();
    let mut entries: Vec<PlanEntry> = Vec::new();
    let mut i: usize = 0;
    while i < defs.len()
        invariant
            0 <= i <= defs@.len(),
            doc == crate::node_types::view_defs(defs@),
            doc == node_types@,
            view_entries(entries@) == plan_entries(doc).subrange(0, i as int),
        decreases defs@.len() - i,
    {
        let d = &defs[i];
        let shape = build_shape(d.kind());
        let entry = PlanEntry { node_type: d.node_type().duplicate(), shape };
        entries.push(entry);
        proof {
            assert(plan_entries(doc)[i as int] == entry_of(doc[i as int]));
            assert(view_entries(entries@) =~= plan_entries(doc).subrange(0, i as int).push(
                plan_entries(doc)[i as int],
            ));
            crate::order::lemma_prefix_push(plan_entries(doc), i as int);
        }
        i = i + 1;
    }
    proof {
        assert(plan_entries(doc).subrange(0, plan_entries(doc).len() as int) =~= plan_entries(
            doc,
        ));
        assert(view_entries(entries@) == plan_entries(doc));
    }
    let mut unions: Vec<Vec<NodeType>> = Vec::new();
    let ghost eviews = plan_entries(doc);
    let mut e: usize = 0;
    proof {
        assert(eviews.subrange(0, 0) =~= Seq::<EntryView>::empty());
        assert(view_unions(unions@) =~= dedup_unions(all_union_reqs(eviews.subrange(0, 0))));
    }
    while e < entries.len()
        invariant
            0 <= e <= entries@.len(),
            eviews == plan_entries(doc),
            view_entries(entries@) == eviews,
            view_unions(unions@) == dedup_unions(all_union_reqs(eviews.subrange(0, e as int))),
        decreases entries@.len() - e,
    {
        let ghost before = all_union_reqs(eviews.subrange(0, e as int));
        let ghost ev = eviews[e as int];
        match &entries[e].shape {
            ResolvedNodeShape::CompoundNode { fields } => {
                let ghost fviews = fields@.map_values(|f: ResolvedField| f@);
                proof {
                    assert(view_entries(entries@)[e as int] == entries@[e as int]@);
                    assert(ev.shape == ShapeView::CompoundNode(fviews));
                    assert(union_reqs_of_fields(fviews.subrange(0, 0)) =~= Seq::<
                        Seq<NodeTypeView>,
                    >::empty());
                    assert(before + union_reqs_of_fields(fviews.subrange(0, 0)) =~= before);
                }
                let mut k: usize = 0;
                while k < fields.len()
                    invariant
                        0 <= k <= fields@.len(),
                        fviews == fields@.map_values(|f: ResolvedField| f@),
                        view_unions(unions@) == dedup_unions(
                            before + union_reqs_of_fields(fviews.subrange(0, k as int)),
                        ),
                    decreases fields@.len() - k,
                {
                    proof {
                        let t = fviews.subrange(0, k as int);
                        let t1 = fviews.subrange(0, k as int + 1);
                        assert(t1.drop_last() =~= t);
                        assert(t1.last() == fviews[k as int]);
                        assert(fviews[k as int] == fields@[k as int]@);
                    }
                    match &fields[k].target {
                        ResolvedFieldTarget::SynthesizedUnion(m) => {
                            let present = unions_contain(&unions, m);
                            proof {
                                let t = fviews.subrange(0, k as int);
                                let t1 = fviews.subrange(0, k as int + 1);
                                let mv = view_types(m@);
                                assert(fviews[k as int].target == TargetView::SynthesizedUnion(
                                    mv,
                                ));
                                assert(union_reqs_of_fields(t1) == union_reqs_of_fields(t)
                                    + seq![mv]);
                                let whole = before + union_reqs_of_fields(t1);
                                assert(whole.drop_last() =~= before + union_reqs_of_fields(t));
                                assert(whole.last() == mv);
                                assert(dedup_unions(whole) == if dedup_unions(
                                    before + union_reqs_of_fields(t),
                                ).contains(mv) {
                                    dedup_unions(before + union_reqs_of_fields(t))
                                } else {
                                    dedup_unions(before + union_reqs_of_fields(t)).push(mv)
                                });
                            }
                            if !present {
                                let copy = dup_types(m);
                                unions.push(copy);
                                proof {
                                    let t = fviews.subrange(0, k as int);
                                    let t1 = fviews.subrange(0, k as int + 1);
                                    assert(view_unions(unions@) =~= dedup_unions(
                                        before + union_reqs_of_fields(t),
                                    ).push(view_types(m@)));
                                }
                            }
                        },
                        ResolvedFieldTarget::Node(_) => {
                            proof {
                                let t = fviews.subrange(0, k as int);
                                let t1 = fviews.subrange(0, k as int + 1);
                                assert(union_reqs_of_fields(t1) == union_reqs_of_fields(t));
                                assert(before + union_reqs_of_fields(t1) =~= before
                                    + union_reqs_of_fields(t));
                            }
                        },
                    }
                    k = k + 1;
                }
                proof {
                    assert(fviews.subrange(0, fviews.len() as int) =~= fviews);
                    assert(entry_union_reqs(ev) == union_reqs_of_fields(fviews));
                    crate::order::lemma_prefix_push(eviews, e as int);
                    let t1 = eviews.subrange(0, e as int + 1);
                    assert(t1.drop_last() =~= eviews.subrange(0, e as int));
                    assert(t1.last() == ev);
                    assert(all_union_reqs(t1) == before + entry_union_reqs(ev));
                }
            },
            ResolvedNodeShape::ValueLeaf => {
                proof {
                    assert(view_entries(entries@)[e as int] == entries@[e as int]@);
                    assert(entry_union_reqs(ev) =~= Seq::<Seq<NodeTypeView>>::empty());
                    let t1 = eviews.subrange(0, e as int + 1);
                    assert(t1.drop_last() =~= eviews.subrange(0, e as int));
                    assert(t1.last() == ev);
                    assert(all_union_reqs(t1) =~= before);
                }
            },
            ResolvedNodeShape::UnionNode { variants: _ } => {
                proof {
                    assert(view_entries(entries@)[e as int] == entries@[e as int]@);
                    assert(entry_union_reqs(ev) =~= Seq::<Seq<NodeTypeView>>::empty());
                    let t1 = eviews.subrange(0, e as int + 1);
                    assert(t1.drop_last() =~= eviews.subrange(0, e as int));
                    assert(t1.last() == ev);
                    assert(all_union_reqs(t1) =~= before);
                }
            },
        }
        e = e + 1;
    }
    proof {
        assert(eviews.subrange(0, eviews.len() as int) =~= eviews);
    }
    BindingPlan { entries, unions }
}

} // verus!
