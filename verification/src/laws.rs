//! The library's general laws, stated and proved over the models the
//! public contracts speak of.
use vstd::prelude::*;
use crate::node_types::{ChildrenView, DefView, KindView, NodeTypeView, terminal_view};
use crate::plan::{
    Cardinality, FieldView, PlanView, ShapeView, TargetView, all_union_reqs, cardinality_of,
    dedup_types, dedup_unions, entry_of, entry_union_reqs, field_of, plan_entries, plan_of,
    union_reqs_of_fields,
};
use crate::unify::{ErrorView, unify_errors, unify_outcome};
use crate::grammar::GrammarView;
use crate::emission::{UnitView, sort_units, units_of_plan};

verus! {

/// Determinism: the unifier's outcome is a function of the two document
/// models alone, so running it twice over equal models yields identical
/// results — the same plan, entries, unions and ordering included, or the
/// same error report.
pub proof fn lemma_unify_deterministic(
    chain: Seq<GrammarView>,
    doc: Seq<DefView>,
    r1: Result<PlanView, Seq<ErrorView>>,
    r2: Result<PlanView, Seq<ErrorView>>,
)
    requires
        unify_outcome(chain, doc, r1),
        unify_outcome(chain, doc, r2),
    ensures
        r1 == r2,
{
    match r1 {
        Ok(_) => {
            assert(unify_errors(chain, doc).len() == 0);
        },
        Err(_) => {
            assert(unify_errors(chain, doc).len() > 0);
        },
    }
}

/// Determinism of the emission step: the ordered unit list is a function
/// of the plan model alone, so repeated translation of equal plans yields
/// byte-for-byte identical requests.
pub proof fn lemma_translate_deterministic(
    p1: PlanView,
    p2: PlanView,
    r1: Seq<UnitView>,
    r2: Seq<UnitView>,
)
    requires
        p1 == p2,
        r1 == sort_units(units_of_plan(p1)),
        r2 == sort_units(units_of_plan(p2)),
    ensures
        r1 == r2,
{
}

/// Round-trip classification: the plan holds one entry per definition, in
/// document order; a regular definition without fields and children
/// becomes a value leaf; one with structure becomes a compound node; a
/// super-type becomes a union whose variants are the declared subtypes in
/// declared order, first occurrence kept.
pub proof fn lemma_round_trip_classification(doc: Seq<DefView>, i: int)
    requires
        0 <= i < doc.len(),
    ensures
        plan_of(doc).entries.len() == doc.len(),
        plan_of(doc).entries[i].node_type == doc[i].node_type,
        (doc[i].kind matches KindView::Regular(r) && terminal_view(r)) ==> plan_of(
            doc,
        ).entries[i].shape == ShapeView::ValueLeaf,
        (doc[i].kind matches KindView::Regular(r) && !terminal_view(r)) ==> plan_of(
            doc,
        ).entries[i].shape is CompoundNode,
        forall|subs: Seq<NodeTypeView>|
            doc[i].kind == KindView::SuperType(subs) ==> plan_of(doc).entries[i].shape
                == ShapeView::UnionNode(dedup_types(subs)),
{
    assert(plan_entries(doc)[i] == entry_of(doc[i]));
}

/// Round-trip classification of a duplicate-free super-type: the variants
/// equal the declared subtypes exactly.
pub proof fn lemma_supertype_variants_exact(subs: Seq<NodeTypeView>)
    requires
        forall|i: int, j: int| 0 <= i < j < subs.len() ==> #[trigger] subs[i] != #[trigger] subs[j],
    ensures
        dedup_types(subs) == subs,
    decreases subs.len(),
{
    if subs.len() != 0 {
        let front = subs.drop_last();
        assert(forall|i: int, j: int|
            0 <= i < j < front.len() ==> #[trigger] front[i] != #[trigger] front[j]);
        lemma_supertype_variants_exact(front);
        assert(!front.contains(subs.last())) by {
            if front.contains(subs.last()) {
                let k = choose|k: int| 0 <= k < front.len() && front[k] == subs.last();
                assert(subs[k] == subs[subs.len() - 1]);
                assert(false);
            }
        }
        assert(dedup_types(subs) =~= subs);
    } else {
        assert(dedup_types(subs) =~= subs);
    }
}

/// Cardinality mapping, exhaustive over the four declaration forms:
/// `multiple` always maps to `Repeated`, absorbing `required`; otherwise
/// `required` decides between `Single` and `Optional`.
pub proof fn lemma_cardinality_mapping()
    ensures
        cardinality_of(true, true) == Cardinality::Repeated,
        cardinality_of(true, false) == Cardinality::Repeated,
        cardinality_of(false, true) == Cardinality::Single,
        cardinality_of(false, false) == Cardinality::Optional,
{
}

/// Union synthesis stability: two fields — on possibly different compound
/// nodes, under any names — declaring the identical ordered type list
/// resolve to the identical target.
pub proof fn lemma_union_synthesis_stable(
    name_a: Seq<char>,
    a: ChildrenView,
    name_b: Seq<char>,
    b: ChildrenView,
)
    requires
        a.types == b.types,
    ensures
        field_of(name_a, a).target == field_of(name_b, b).target,
{
}

/// Union synthesis distinctness: two fields declaring different ordered
/// type lists — a reordering included — resolve to distinct synthesized
/// unions.
pub proof fn lemma_union_synthesis_distinct(
    name_a: Seq<char>,
    a: ChildrenView,
    name_b: Seq<char>,
    b: ChildrenView,
)
    requires
        a.types != b.types,
        a.types.len() != 1,
        b.types.len() != 1,
    ensures
        field_of(name_a, a).target != field_of(name_b, b).target,
{
}

proof fn lemma_dedup_unions_distinct_aux(s: Seq<Seq<NodeTypeView>>, i: int, j: int)
    requires
        0 <= i < j < dedup_unions(s).len(),
    ensures
        dedup_unions(s)[i] != dedup_unions(s)[j],
    decreases s.len(),
{
    let d = dedup_unions(s);
    let rest = dedup_unions(s.drop_last());
    if rest.contains(s.last()) {
        lemma_dedup_unions_distinct_aux(s.drop_last(), i, j);
    } else {
        if j < rest.len() {
            lemma_dedup_unions_distinct_aux(s.drop_last(), i, j);
        } else {
            assert(d == rest.push(s.last()));
            assert(d[j] == s.last());
            assert(d[i] == rest[i]);
            assert(rest.contains(rest[i]));
        }
    }
}

/// The plan lists each synthesized union once: no two of its unions are
/// equal.
pub proof fn lemma_plan_unions_distinct(doc: Seq<DefView>, i: int, j: int)
    requires
        0 <= i < j < plan_of(doc).unions.len(),
    ensures
        plan_of(doc).unions[i] != plan_of(doc).unions[j],
{
    lemma_dedup_unions_distinct_aux(all_union_reqs(plan_entries(doc)), i, j);
}

proof fn lemma_dedup_unions_membership(s: Seq<Seq<NodeTypeView>>, x: Seq<NodeTypeView>)
    ensures
        dedup_unions(s).contains(x) <==> s.contains(x),
    decreases s.len(),
{
    if s.len() != 0 {
        let front = s.drop_last();
        lemma_dedup_unions_membership(front, x);
        let rest = dedup_unions(front);
        assert(s.contains(x) <==> (front.contains(x) || s.last() == x)) by {
            if s.contains(x) {
                let k = choose|k: int| 0 <= k < s.len() && s[k] == x;
                if k < s.len() - 1 {
                    assert(front[k] == x);
                }
            }
            if front.contains(x) {
                let k = choose|k: int| 0 <= k < front.len() && front[k] == x;
                assert(s[k] == x);
            }
            if s.last() == x {
                assert(s[s.len() - 1] == x);
            }
        }
        if rest.contains(s.last()) {
        } else {
            let d = rest.push(s.last());
            assert(dedup_unions(s) == d);
            assert(d.contains(x) <==> (rest.contains(x) || s.last() == x)) by {
                if d.contains(x) {
                    let k = choose|k: int| 0 <= k < d.len() && d[k] == x;
                    if k < rest.len() {
                        assert(rest[k] == x);
                    }
                }
                if rest.contains(x) {
                    let k = choose|k: int| 0 <= k < rest.len() && rest[k] == x;
                    assert(d[k] == x);
                }
                assert(d[d.len() - 1] == s.last());
            }
        }
    }
}

proof fn lemma_union_reqs_of_fields_contains(fs: Seq<FieldView>, k: int, m: Seq<NodeTypeView>)
    requires
        0 <= k < fs.len(),
        fs[k].target == TargetView::SynthesizedUnion(m),
    ensures
        union_reqs_of_fields(fs).contains(m),
    decreases fs.len(),
{
    let reqs = union_reqs_of_fields(fs);
    if k == fs.len() - 1 {
        assert(reqs == union_reqs_of_fields(fs.drop_last()) + seq![m]);
        assert(reqs[reqs.len() - 1] == m);
    } else {
        let front = fs.drop_last();
        assert(front[k] == fs[k]);
        lemma_union_reqs_of_fields_contains(front, k, m);
        let fr = union_reqs_of_fields(front);
        let idx = choose|idx: int| 0 <= idx < fr.len() && fr[idx] == m;
        assert(reqs[idx] == m);
    }
}

proof fn lemma_all_union_reqs_contains(entries: Seq<crate::plan::EntryView>, e: int, x: Seq<
    NodeTypeView,
>)
    requires
        0 <= e < entries.len(),
        entry_union_reqs(entries[e]).contains(x),
    ensures
        all_union_reqs(entries).contains(x),
    decreases entries.len(),
{
    let all = all_union_reqs(entries);
    if e == entries.len() - 1 {
        assert(all == all_union_reqs(entries.drop_last()) + entry_union_reqs(entries.last()));
        let er = entry_union_reqs(entries[e]);
        let idx = choose|idx: int| 0 <= idx < er.len() && er[idx] == x;
        assert(all[all_union_reqs(entries.drop_last()).len() + idx] == x);
    } else {
        let front = entries.drop_last();
        assert(front[e] == entries[e]);
        lemma_all_union_reqs_contains(front, e, x);
        let fr = all_union_reqs(front);
        let idx = choose|idx: int| 0 <= idx < fr.len() && fr[idx] == x;
        assert(all[idx] == x);
    }
}

/// Union synthesis identity in the plan: the union a compound field
/// resolves to is listed among the plan's synthesized unions — and, with
/// `lemma_plan_unions_distinct`, listed exactly once, so every field
/// declaring the same ordered type list shares that one identity.
pub proof fn lemma_plan_union_identity(doc: Seq<DefView>, e: int, k: int, m: Seq<NodeTypeView>)
    requires
        0 <= e < plan_of(doc).entries.len(),
        plan_of(doc).entries[e].shape matches ShapeView::CompoundNode(fs) && 0 <= k < fs.len()
            && fs[k].target == TargetView::SynthesizedUnion(m),
    ensures
        plan_of(doc).unions.contains(m),
{
    let entries = plan_entries(doc);
    let fs = plan_of(doc).entries[e].shape->CompoundNode_0;
    lemma_union_reqs_of_fields_contains(fs, k, m);
    assert(entry_union_reqs(entries[e]).contains(m));
    lemma_all_union_reqs_contains(entries, e, m);
    lemma_dedup_unions_membership(all_union_reqs(entries), m);
}

} // verus!
