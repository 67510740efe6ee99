//! The emission request: the binding plan flattened into an ordered list
//! of emission units, one per node shape, ready for a code-emission
//! backend.  The ordering is stable — unions before compounds before
//! leaves, lexicographic by name within each group — so repeated runs over
//! unchanged input are byte-for-byte reproducible.
use vstd::prelude::*;
use crate::node_types::{NodeType, NodeTypeView, view_types};
use crate::order::{lex_le, view_strings, str_lex_le};
use crate::plan::{
    BindingPlan, Cardinality, EntryView, FieldView, PlanView, PlanEntry, ResolvedField,
    ResolvedFieldTarget, ResolvedNodeShape, ShapeView, TargetView,
};
use vstd::string::StringExecFns;

verus! {

/// Mathematical model of a [`FieldSpec`].
pub ghost struct FieldSpecView {
    pub name: Seq<char>,
    pub cardinality: Cardinality,
    pub target: Seq<char>,
}

/// Mathematical model of an [`EmissionUnit`].
pub ghost enum UnitView {
    Union { name: Seq<char>, variants: Seq<Seq<char>> },
    Compound { name: Seq<char>, fields: Seq<FieldSpecView> },
    Leaf { name: Seq<char> },
}

/// One accessor method the backend will emit: the field's name, its
/// cardinality, and the name of its target type.
#[derive(Clone, Debug)]
pub struct FieldSpec {
    pub name: String,
    pub cardinality: Cardinality,
    pub target: String,
}

impl View for FieldSpec {
    type V = FieldSpecView;

    open spec fn view(&self) -> FieldSpecView {
        FieldSpecView { name: self.name@, cardinality: self.cardinality, target: self.target@ }
    }
}

/// One named type the backend will emit.
#[derive(Clone, Debug)]
pub enum EmissionUnit {
    /// A union type over the named variants, in declared order.
    Union { name: String, variants: Vec<String> },
    /// A compound type with the given accessor methods, in declared order.
    Compound { name: String, fields: Vec<FieldSpec> },
    /// A text-wrapping leaf type.
    Leaf { name: String },
}

impl View for EmissionUnit {
    type V = UnitView;

    open spec fn view(&self) -> UnitView {
        match self {
            EmissionUnit::Union { name, variants } => UnitView::Union {
                name: name@,
                variants: view_strings(variants@),
            },
            EmissionUnit::Compound { name, fields } => UnitView::Compound {
                name: name@,
                fields: fields@.map_values(|f: FieldSpec| f@),
            },
            EmissionUnit::Leaf { name } => UnitView::Leaf { name: name@ },
        }
    }
}

/// The views of a list of units.
pub open spec fn view_units(s: Seq<EmissionUnit>) -> Seq<UnitView> {
    s.map_values(|u: EmissionUnit| u@)
}

/// The name of a synthesized union: the member names joined by `_or_`.
pub open spec fn union_name_of(members: Seq<NodeTypeView>) -> Seq<char>
    decreases members.len(),
{
    if members.len() == 0 {
        Seq::empty()
    } else if members.len() == 1 {
        members[0].name
    } else {
        union_name_of(members.drop_last()) + "_or_"@ + members.last().name
    }
}

/// The type name a resolved target is emitted under.
pub open spec fn target_name_of(t: TargetView) -> Seq<char> {
    match t {
        TargetView::Node(nt) => nt.name,
        TargetView::SynthesizedUnion(m) => union_name_of(m),
    }
}

/// The accessor specification of one resolved field.
pub open spec fn field_spec_of(f: FieldView) -> FieldSpecView {
    FieldSpecView {
        name: f.name,
        cardinality: f.cardinality,
        target: target_name_of(f.target),
    }
}

/// The names of a list of node types.
pub open spec fn type_names(s: Seq<NodeTypeView>) -> Seq<Seq<char>> {
    s.map_values(|t: NodeTypeView| t.name)
}

/// The unit one plan entry is emitted as.
pub open spec fn unit_of_entry(e: EntryView) -> UnitView {
    match e.shape {
        ShapeView::UnionNode(vars) => UnitView::Union {
            name: e.node_type.name,
            variants: type_names(vars),
        },
        ShapeView::CompoundNode(fields) => UnitView::Compound {
            name: e.node_type.name,
            fields: fields.map_values(|f: FieldView| field_spec_of(f)),
        },
        ShapeView::ValueLeaf => UnitView::Leaf { name: e.node_type.name },
    }
}

/// The unit one synthesized union is emitted as.
pub open spec fn unit_of_union(m: Seq<NodeTypeView>) -> UnitView {
    UnitView::Union { name: union_name_of(m), variants: type_names(m) }
}

/// Every unit of a plan, before ordering: the entries in plan order, then
/// the synthesized unions in first-use order.
pub open spec fn units_of_plan(p: PlanView) -> Seq<UnitView> {
    p.entries.map_values(|e: EntryView| unit_of_entry(e)) + p.unions.map_values(
        |m: Seq<NodeTypeView>| unit_of_union(m),
    )
}

/// The ordering group of a unit: unions first, then compounds, then
/// leaves.
pub open spec fn unit_rank(u: UnitView) -> int {
    match u {
        UnitView::Union { .. } => 0,
        UnitView::Compound { .. } => 1,
        UnitView::Leaf { .. } => 2,
    }
}

/// The name of a unit.
pub open spec fn unit_name(u: UnitView) -> Seq<char> {
    match u {
        UnitView::Union { name, .. } => name,
        UnitView::Compound { name, .. } => name,
        UnitView::Leaf { name } => name,
    }
}

/// `a` comes no later than `b`: by group, then lexicographically by name.
pub open spec fn unit_le(a: UnitView, b: UnitView) -> bool {
    unit_rank(a) < unit_rank(b) || (unit_rank(a) == unit_rank(b) && lex_le(
        unit_name(a),
        unit_name(b),
    ))
}

/// Inserts `x` before the first unit it comes no later than.
pub open spec fn insert_unit(x: UnitView, s: Seq<UnitView>) -> Seq<UnitView>
    decreases s.len(),
{
    if s.len() == 0 {
        seq![x]
    } else if unit_le(x, s[0]) {
        seq![x] + s
    } else {
        seq![s[0]] + insert_unit(x, s.subrange(1, s.len() as int))
    }
}

/// The units in emission order: a stable insertion sort under `unit_le`.
pub open spec fn sort_units(s: Seq<UnitView>) -> Seq<UnitView>
    decreases s.len(),
{
    if s.len() == 0 {
        Seq::empty()
    } else {
        insert_unit(s[0], sort_units(s.subrange(1, s.len() as int)))
    }
}

/// Adjacent units are in order.
pub open spec fn units_sorted(s: Seq<UnitView>) -> bool {
    forall|i: int| 0 <= i < s.len() - 1 ==> unit_le(#[trigger] s[i], s[i + 1])
}

/// The order is total.
pub proof fn lemma_unit_le_total(a: UnitView, b: UnitView)
    ensures
        unit_le(a, b) || unit_le(b, a),
{
    crate::order::lemma_lex_le_total(unit_name(a), unit_name(b));
}

pub proof fn lemma_insert_unit_sorted(x: UnitView, s: Seq<UnitView>)
    requires
        units_sorted(s),
    ensures
        units_sorted(insert_unit(x, s)),
    decreases s.len(),
{
    if s.len() == 0 {
    } else if unit_le(x, s[0]) {
        let ins = seq![x] + s;
        assert forall|i: int| 0 <= i < ins.len() - 1 implies unit_le(
            #[trigger] ins[i],
            ins[i + 1],
        ) by {
            if i == 0 {
                assert(ins[0] == x && ins[1] == s[0]);
            } else {
                assert(ins[i] == s[i - 1] && ins[i + 1] == s[i]);
            }
        }
    } else {
        let rest = s.subrange(1, s.len() as int);
        assert(units_sorted(rest)) by {
            assert forall|i: int| 0 <= i < rest.len() - 1 implies unit_le(
                #[trigger] rest[i],
                rest[i + 1],
            ) by {
                assert(rest[i] == s[i + 1] && rest[i + 1] == s[i + 2]);
            }
        }
        lemma_insert_unit_sorted(x, rest);
        let inner = insert_unit(x, rest);
        let ins = seq![s[0]] + inner;
        assert(insert_unit(x, s) == ins);
        lemma_unit_le_total(x, s[0]);
        assert(unit_le(s[0], x));
        assert forall|i: int| 0 <= i < ins.len() - 1 implies unit_le(
            #[trigger] ins[i],
            ins[i + 1],
        ) by {
            if i == 0 {
                assert(ins[0] == s[0]);
                assert(ins[1] == inner[0]);
                if rest.len() == 0 {
                    assert(inner == seq![x]);
                    assert(inner[0] == x);
                } else if unit_le(x, rest[0]) {
                    assert(inner == seq![x] + rest);
                    assert(inner[0] == x);
                } else {
                    assert(inner == seq![rest[0]] + insert_unit(x, rest.subrange(
                        1,
                        rest.len() as int,
                    )));
                    assert(inner[0] == rest[0]);
                    assert(s[1] == rest[0]);
                }
            } else {
                assert(ins[i] == inner[i - 1] && ins[i + 1] == inner[i]);
            }
        }
    }
}

pub proof fn lemma_sort_units_sorted(s: Seq<UnitView>)
    ensures
        units_sorted(sort_units(s)),
    decreases s.len(),
{
    if s.len() != 0 {
        let rest = s.subrange(1, s.len() as int);
        lemma_sort_units_sorted(rest);
        lemma_insert_unit_sorted(s[0], sort_units(rest));
    }
}

/// The ordered list of emission units of one binding plan.
#[derive(Clone, Debug)]
pub struct EmissionRequest {
    units: Vec<EmissionUnit>,
}

impl View for EmissionRequest {
    type V = Seq<UnitView>;

    closed spec fn view(&self) -> Seq<UnitView> {
        view_units(self.units@)
    }
}

impl EmissionRequest {
    /// The units, in emission order.
    pub fn units(&self) -> (r: &Vec<EmissionUnit>)
        ensures
            view_units(r@) == self@,
    {
        &self.units
    }

    pub fn unit_count(&self) -> (r: usize)
        ensures
            r == self@.len(),
    {
        self.units.len()
    }
}

/// Builds the emitted name of a synthesized union, as `union_name_of`
/// describes.
fn build_union_name(members: &Vec<NodeType>) -> (r: String)
    ensures
        r@ == union_name_of(view_types(members@)),
{
    let ghost mv = view_types(members@);
    let mut out = String::new();
    let mut i: usize = 0;
    while i < members.len()
        invariant
            0 <= i <= members@.len(),
            mv == view_types(members@),
            out@ == union_name_of(mv.subrange(0, i as int)),
        decreases members@.len() - i,
    {
        proof {
            let u = mv.subrange(0, i as int);
            let u1 = mv.subrange(0, i as int + 1);
            assert(u1.drop_last() =~= u);
            assert(u1.last() == mv[i as int]);
            assert(mv[i as int] == members@[i as int]@);
        }
        if i > 0 {
            out.append("_or_");
        }
        out.append(members[i].node_type().as_str());
        proof {
            let u1 = mv.subrange(0, i as int + 1);
            if i == 0 {
                assert(u1.len() == 1);
                assert(out@ =~= union_name_of(u1));
            } else {
                assert(out@ =~= union_name_of(u1));
            }
        }
        i = i + 1;
    }
    proof {
        assert(mv.subrange(0, mv.len() as int) =~= mv);
    }
    out
}

/// The names of the listed node types, as `type_names` describes.
fn build_type_names(types: &Vec<NodeType>) -> (r: Vec<String>)
    ensures
        view_strings(r@) == type_names(view_types(types@)),
{
    let ghost names = type_names(view_types(types@));
    let mut out: Vec<String> = Vec::new();
    let mut i: usize = 0;
    while i < types.len()
        invariant
            0 <= i <= types@.len(),
            names == type_names(view_types(types@)),
            view_strings(out@) == names.subrange(0, i as int),
        decreases types@.len() - i,
    {
        out.push(types[i].node_type().clone());
        proof {
            assert(view_strings(out@) =~= names.subrange(0, i as int).push(names[i as int]));
            crate::order::lemma_prefix_push(names, i as int);
        }
        i = i + 1;
    }
    proof {
        assert(names.subrange(0, names.len() as int) =~= names);
    }
    out
}

/// The unit one plan entry is emitted as, as `unit_of_entry` describes.
fn build_unit_of_entry(e: &PlanEntry) -> (r: EmissionUnit)
    ensures
        r@ == unit_of_entry(e@),
{
    let name = e.node_type.node_type().clone();
    match &e.shape {
        ResolvedNodeShape::UnionNode { variants } => {
            let vnames = build_type_names(variants);
            EmissionUnit::Union { name, variants: vnames }
        },
        ResolvedNodeShape::ValueLeaf => EmissionUnit::Leaf { name },
        ResolvedNodeShape::CompoundNode { fields } => {
            let ghost fviews = fields@.map_values(|f: ResolvedField| f@);
            let ghost specs = fviews.map_values(|f: FieldView| field_spec_of(f));
            let mut out: Vec<FieldSpec> = Vec::new();
            let mut i: usize = 0;
            while i < fields.len()
                invariant
                    0 <= i <= fields@.len(),
                    fviews == fields@.map_values(|f: ResolvedField| f@),
                    specs == fviews.map_values(|f: FieldView| field_spec_of(f)),
                    out@.map_values(|f: FieldSpec| f@) == specs.subrange(0, i as int),
                decreases fields@.len() - i,
            {
                let f = &fields[i];
                let target = match &f.target {
                    ResolvedFieldTarget::Node(t) => t.node_type().clone(),
                    ResolvedFieldTarget::SynthesizedUnion(m) => build_union_name(m),
                };
                out.push(FieldSpec { name: f.name.clone(), cardinality: f.cardinality, target });
                proof {
                    assert(fviews[i as int] == fields@[i as int]@);
                    assert(specs[i as int] == field_spec_of(fviews[i as int]));
                    assert(out@.map_values(|f: FieldSpec| f@) =~= specs.subrange(0, i as int).push(
                        specs[i as int],
                    ));
                    crate::order::lemma_prefix_push(specs, i as int);
                }
                i = i + 1;
            }
            proof {
                assert(specs.subrange(0, specs.len() as int) =~= specs);
            }
            EmissionUnit::Compound { name, fields: out }
        },
    }
}

/// Decides `unit_le` on two units.
fn unit_le_exec(a: &EmissionUnit, b: &EmissionUnit) -> (r: bool)
    ensures
        r == unit_le(a@, b@),
{
    let ra: u8 = match a {
        EmissionUnit::Union { .. } => 0,
        EmissionUnit::Compound { .. } => 1,
        EmissionUnit::Leaf { .. } => 2,
    };
    let rb: u8 = match b {
        EmissionUnit::Union { .. } => 0,
        EmissionUnit::Compound { .. } => 1,
        EmissionUnit::Leaf { .. } => 2,
    };
    if ra < rb {
        true
    } else if rb < ra {
        false
    } else {
        let na = match a {
            EmissionUnit::Union { name, .. } => name,
            EmissionUnit::Compound { name, .. } => name,
            EmissionUnit::Leaf { name } => name,
        };
        let nb = match b {
            EmissionUnit::Union { name, .. } => name,
            EmissionUnit::Compound { name, .. } => name,
            EmissionUnit::Leaf { name } => name,
        };
        str_lex_le(na.as_str(), nb.as_str())
    }
}

/// Inserts `x` into `out` as `insert_unit` describes.
fn insert_unit_exec(out: &mut Vec<EmissionUnit>, x: EmissionUnit)
    ensures
        view_units(final(out)@) == insert_unit(x@, view_units(old(out)@)),
{
    let ghost s = view_units(old(out)@);
    let ghost xv = x@;
    proof {
        assert(s.subrange(0, s.len() as int) =~= s);
        assert(s.subrange(0, 0) + insert_unit(xv, s.subrange(0, s.len() as int)) =~= insert_unit(
            xv,
            s,
        ));
    }
    let mut j: usize = 0;
    loop
        invariant
            0 <= j <= out@.len(),
            out@ == old(out)@,
            s == view_units(out@),
            insert_unit(xv, s) == s.subrange(0, j as int) + insert_unit(xv, s.subrange(
                j as int,
                s.len() as int,
            )),
            xv == x@,
        decreases out@.len() - j,
    {
        proof {
            assert(s.subrange(j as int, s.len() as int).len() == s.len() - j);
        }
        if j >= out.len() {
            proof {
                assert(s.subrange(j as int, s.len() as int) =~= Seq::<UnitView>::empty());
                assert(insert_unit(xv, s.subrange(j as int, s.len() as int)) =~= seq![xv]);
            }
            out.push(x);
            proof {
                assert(view_units(out@) =~= s.subrange(0, j as int) + seq![xv]);
                assert(s.subrange(0, j as int) =~= s);
            }
            return ;
        }
        let ghost tail = s.subrange(j as int, s.len() as int);
        proof {
            assert(tail[0] == s[j as int]);
            assert(view_units(out@)[j as int] == out@[j as int]@);
        }
        if unit_le_exec(&x, &out[j]) {
            proof {
                assert(insert_unit(xv, tail) == seq![xv] + tail);
            }
            out.insert(j, x);
            proof {
                assert(view_units(out@) =~= s.subrange(0, j as int) + (seq![xv] + tail));
            }
            return ;
        }
        proof {
            let tail2 = s.subrange(j as int + 1, s.len() as int);
            assert(tail.subrange(1, tail.len() as int) =~= tail2);
            assert(insert_unit(xv, tail) == seq![tail[0]] + insert_unit(xv, tail2));
            assert(s.subrange(0, j as int) + (seq![tail[0]] + insert_unit(xv, tail2))
                =~= s.subrange(0, j as int + 1) + insert_unit(xv, tail2));
        }
        j = j + 1;
    }
}

/// Translates a binding plan into its emission request: one unit per
/// entry, one per synthesized union, in the stable emission order.  A
/// pure, non-failing transform; equal plans yield equal requests.
pub fn translate(plan: &BindingPlan) -> (r: EmissionRequest)
    ensures
        r@ == sort_units(units_of_plan(plan@)),
        units_sorted(r@),
{
    let ghost pv = plan@;
    let ghost raw = units_of_plan(pv);
    let entries = plan.entries();
    let unions = plan.synthesized_unions();
    let ghost entry_units = pv.entries.map_values(|e: EntryView| unit_of_entry(e));
    let ghost union_units = pv.unions.map_values(|m: Seq<NodeTypeView>| unit_of_union(m));
    let mut units: Vec<EmissionUnit> = Vec::new();
    let mut i: usize = 0;
    while i < entries.len()
        invariant
            0 <= i <= entries@.len(),
            crate::plan::view_entries(entries@) == pv.entries,
            entry_units == pv.entries.map_values(|e: EntryView| unit_of_entry(e)),
            view_units(units@) == entry_units.subrange(0, i as int),
        decreases entries@.len() - i,
    {
        let u = build_unit_of_entry(&entries[i]);
        units.push(u);
        proof {
            assert(crate::plan::view_entries(entries@)[i as int] == entries@[i as int]@);
            assert(entry_units[i as int] == unit_of_entry(pv.entries[i as int]));
            assert(view_units(units@) =~= entry_units.subrange(0, i as int).push(
                entry_units[i as int],
            ));
            crate::order::lemma_prefix_push(entry_units, i as int);
        }
        i = i + 1;
    }
    proof {
        assert(entry_units.subrange(0, entry_units.len() as int) =~= entry_units);
    }
    let mut k: usize = 0;
    while k < unions.len()
        invariant
            0 <= k <= unions@.len(),
            crate::plan::view_unions(unions@) == pv.unions,
            entry_units == pv.entries.map_values(|e: EntryView| unit_of_entry(e)),
            union_units == pv.unions.map_values(|m: Seq<NodeTypeView>| unit_of_union(m)),
            view_units(units@) == entry_units + union_units.subrange(0, k as int),
        decreases unions@.len() - k,
    {
        let m = &unions[k];
        let name = build_union_name(m);
        let vnames = build_type_names(m);
        units.push(EmissionUnit::Union { name, variants: vnames });
        proof {
            assert(crate::plan::view_unions(unions@)[k as int] == view_types(unions@[k as int]@));
            assert(union_units[k as int] == unit_of_union(pv.unions[k as int]));
            assert(view_units(units@) =~= (entry_units + union_units.subrange(0, k as int)).push(
                union_units[k as int],
            ));
            crate::order::lemma_prefix_push(union_units, k as int);
            assert((entry_units + union_units.subrange(0, k as int)).push(union_units[k as int])
                =~= entry_units + union_units.subrange(0, k as int + 1));
        }
        k = k + 1;
    }
    proof {
        assert(union_units.subrange(0, union_units.len() as int) =~= union_units);
        assert(view_units(units@) == raw);
    }
    let mut sorted: Vec<EmissionUnit> = Vec::new();
    let ghost uv = view_units(units@);
    let mut n: usize = units.len();
    proof {
        assert(uv.subrange(n as int, uv.len() as int) =~= Seq::<UnitView>::empty());
        assert(uv.subrange(0, n as int) =~= uv);
    }
    while n > 0
        invariant
            0 <= n <= uv.len(),
            view_units(units@) == uv.subrange(0, n as int),
            view_units(sorted@) == sort_units(uv.subrange(n as int, uv.len() as int)),
        decreases n,
    {
        let x = match units.pop() {
            Some(x) => x,
            None => {
                proof {
                    assert(false);
                }
                return EmissionRequest { units: sorted };
            },
        };
        proof {
            let pre = uv.subrange(0, n as int);
            assert(x@ == pre.last());
            assert(pre.last() == uv[n as int - 1]);
            assert(view_units(units@) =~= uv.subrange(0, n as int - 1));
        }
        n = n - 1;
        proof {
            let tail = uv.subrange(n as int, uv.len() as int);
            assert(tail[0] == uv[n as int]);
            assert(tail.subrange(1, tail.len() as int) =~= uv.subrange(
                n as int + 1,
                uv.len() as int,
            ));
            assert(sort_units(tail) == insert_unit(uv[n as int], sort_units(uv.subrange(
                n as int + 1,
                uv.len() as int,
            ))));
        }
        insert_unit_exec(&mut sorted, x);
    }
    proof {
        assert(uv.subrange(0, uv.len() as int) =~= uv);
        lemma_sort_units_sorted(uv);
    }
    EmissionRequest { units: sorted }
}

} // verus!
