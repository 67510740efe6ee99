//! The schema unifier: merges a grammar document chain and a node-types
//! document into a binding plan, first collecting every structural
//! inconsistency; a plan is produced only when none was found.
//!
//! The single pass never stops at the first problem: every unresolved
//! symbol, unresolved node-type reference, classification mismatch, and
//! empty cardinality found anywhere in the two schemas is reported
//! together, and resolution is all-or-nothing.
use vstd::prelude::*;
use crate::ident::Identifier;
use crate::grammar::{GrammarFile, GrammarRule, GrammarView, RuleView, rule_symbols};
use crate::node_types::{
    NodeType, NodeTypeView, DefView, KindView, NodeTypesFile, terminal_view, find_named,
};
use crate::plan::{BindingPlan, plan_of, build_plan};
use vstd::string::StringExecFns;

verus! {

/// Mathematical model of a [`StructuralError`].
pub ghost enum ErrorView {
    UnresolvedSymbol { rule_name: Seq<char>, symbol: Seq<char> },
    UnresolvedSuperType { name: Seq<char> },
    ClassificationMismatch { name: Seq<char> },
    UnresolvedNodeType { context: Seq<char>, missing: NodeTypeView },
    EmptyCardinality { node_type: Seq<char>, field_name: Seq<char> },
}

/// One structural inconsistency between, or inside, the two schema
/// documents.
#[derive(Clone, Debug)]
pub enum StructuralError {
    /// A grammar rule references a rule name absent from its own and all
    /// inherited rule tables.
    UnresolvedSymbol { rule_name: Identifier, symbol: Identifier },
    /// A grammar-level super-type entry has no named definition in the
    /// node-types document.
    UnresolvedSuperType { name: Identifier },
    /// The two documents disagree about whether the node type is terminal,
    /// compound, or a union.
    ClassificationMismatch { name: String },
    /// A field's declared type, or a super-type's subtype, names a
    /// node type absent from the node-types document.
    UnresolvedNodeType { context: String, missing: NodeType },
    /// A children declaration with an empty type list.
    EmptyCardinality { node_type: String, field_name: String },
}

impl View for StructuralError {
    type V = ErrorView;

    open spec fn view(&self) -> ErrorView {
        match self {
            StructuralError::UnresolvedSymbol { rule_name, symbol } => ErrorView::UnresolvedSymbol {
                rule_name: rule_name@,
                symbol: symbol@,
            },
            StructuralError::UnresolvedSuperType { name } => ErrorView::UnresolvedSuperType {
                name: name@,
            },
            StructuralError::ClassificationMismatch { name } => ErrorView::ClassificationMismatch {
                name: name@,
            },
            StructuralError::UnresolvedNodeType { context, missing } => ErrorView::UnresolvedNodeType {
                context: context@,
                missing: missing@,
            },
            StructuralError::EmptyCardinality { node_type, field_name } => ErrorView::EmptyCardinality {
                node_type: node_type@,
                field_name: field_name@,
            },
        }
    }
}

/// The views of a list of errors.
pub open spec fn view_errors(s: Seq<StructuralError>) -> Seq<ErrorView> {
    s.map_values(|e: StructuralError| e@)
}

/// The views of a grammar chain.
pub open spec fn view_grammars(s: Seq<GrammarFile>) -> Seq<GrammarView> {
    s.map_values(|g: GrammarFile| g@)
}

/// The aggregate failure of a unification run: every structural
/// inconsistency found, in discovery order.  Never empty.
#[derive(Clone, Debug)]
pub struct StructuralReport {
    problems: Vec<StructuralError>,
}

impl View for StructuralReport {
    type V = Seq<ErrorView>;

    closed spec fn view(&self) -> Seq<ErrorView> {
        view_errors(self.problems@)
    }
}

impl StructuralReport {
    pub fn problems(&self) -> (r: &Vec<StructuralError>)
        ensures
            view_errors(r@) == self@,
    {
        &self.problems
    }

    pub fn problem_count(&self) -> (r: usize)
        ensures
            r == self@.len(),
    {
        self.problems.len()
    }
}

/// Some rule of the table bears this name.
pub open spec fn table_has(rules: Seq<(Seq<char>, RuleView)>, name: Seq<char>) -> bool {
    exists|i: int| 0 <= i < rules.len() && (#[trigger] rules[i]).0 == name
}

/// Some grammar of the chain, the document's own table or an inherited
/// one, defines a rule of this name.
pub open spec fn chain_has_rule(chain: Seq<GrammarView>, name: Seq<char>) -> bool {
    exists|g: int| 0 <= g < chain.len() && table_has(#[trigger] chain[g].rules, name)
}

/// Some definition of the document is for exactly this node type.
pub open spec fn doc_has_type(doc: Seq<DefView>, t: NodeTypeView) -> bool {
    exists|i: int| 0 <= i < doc.len() && (#[trigger] doc[i]).node_type == t
}

/// The unresolved-symbol errors of one rule body: one error per symbol
/// reference that no table of the chain defines, in reference order.
pub open spec fn symbol_errors_of_syms(
    chain: Seq<GrammarView>,
    rule_name: Seq<char>,
    syms: Seq<Seq<char>>,
) -> Seq<ErrorView>
    decreases syms.len(),
{
    if syms.len() == 0 {
        Seq::empty()
    } else {
        symbol_errors_of_syms(chain, rule_name, syms.drop_last()) + (if chain_has_rule(
            chain,
            syms.last(),
        ) {
            Seq::empty()
        } else {
            seq![ErrorView::UnresolvedSymbol { rule_name, symbol: syms.last() }]
        })
    }
}

/// The unresolved-symbol errors of one rule table, in table order.
pub open spec fn symbol_errors_of_table(
    chain: Seq<GrammarView>,
    rules: Seq<(Seq<char>, RuleView)>,
) -> Seq<ErrorView>
    decreases rules.len(),
{
    if rules.len() == 0 {
        Seq::empty()
    } else {
        symbol_errors_of_table(chain, rules.drop_last()) + symbol_errors_of_syms(
            chain,
            rules.last().0,
            rule_symbols(rules.last().1),
        )
    }
}

/// The unresolved-symbol errors of the first `k` grammars of the chain.
pub open spec fn symbol_errors_upto(chain: Seq<GrammarView>, k: int) -> Seq<ErrorView>
    decreases k,
{
    if k <= 0 {
        Seq::empty()
    } else {
        symbol_errors_upto(chain, k - 1) + symbol_errors_of_table(chain, chain[k - 1].rules)
    }
}

/// Every unresolved-symbol error of the chain.
pub open spec fn symbol_errors(chain: Seq<GrammarView>) -> Seq<ErrorView> {
    symbol_errors_upto(chain, chain.len() as int)
}

/// The error, if any, of one grammar-level super-type entry: the name must
/// have a named definition, and that definition must be a super-type.
pub open spec fn supertype_error(doc: Seq<DefView>, name: Seq<char>) -> Seq<ErrorView> {
    match find_named(doc, name) {
        None => seq![ErrorView::UnresolvedSuperType { name }],
        Some(d) => if d.kind is SuperType {
            Seq::empty()
        } else {
            seq![ErrorView::ClassificationMismatch { name }]
        },
    }
}

/// The super-type errors of one entry list, in declared order.
pub open spec fn supertype_errors_of_list(doc: Seq<DefView>, names: Seq<Seq<char>>) -> Seq<
    ErrorView,
>
    decreases names.len(),
{
    if names.len() == 0 {
        Seq::empty()
    } else {
        supertype_errors_of_list(doc, names.drop_last()) + supertype_error(doc, names.last())
    }
}

/// The super-type errors of the first `k` grammars of the chain.
pub open spec fn supertype_errors_upto(chain: Seq<GrammarView>, doc: Seq<DefView>, k: int) -> Seq<
    ErrorView,
>
    decreases k,
{
    if k <= 0 {
        Seq::empty()
    } else {
        supertype_errors_upto(chain, doc, k - 1) + supertype_errors_of_list(
            doc,
            chain[k - 1].supertypes,
        )
    }
}

/// Every super-type error of the chain.
pub open spec fn supertype_errors(chain: Seq<GrammarView>, doc: Seq<DefView>) -> Seq<ErrorView> {
    supertype_errors_upto(chain, doc, chain.len() as int)
}

/// The error, if any, of one external or extra rule: a direct symbol
/// reference implies the node has no internal structure, so a named
/// definition that declares fields, children, or subtypes disagrees.
pub open spec fn token_rule_error(doc: Seq<DefView>, r: RuleView) -> Seq<ErrorView> {
    match r {
        RuleView::Symbol { name } => match find_named(doc, name) {
            Some(d) => match d.kind {
                KindView::Regular(reg) => if terminal_view(reg) {
                    Seq::empty()
                } else {
                    seq![ErrorView::ClassificationMismatch { name }]
                },
                KindView::SuperType(_) => seq![ErrorView::ClassificationMismatch { name }],
            },
            None => Seq::empty(),
        },
        _ => Seq::empty(),
    }
}

/// The classification errors of one rule list, in order.
pub open spec fn token_errors_of_list(doc: Seq<DefView>, rs: Seq<RuleView>) -> Seq<ErrorView>
    decreases rs.len(),
{
    if rs.len() == 0 {
        Seq::empty()
    } else {
        token_errors_of_list(doc, rs.drop_last()) + token_rule_error(doc, rs.last())
    }
}

/// The classification errors of the first `k` grammars of the chain:
/// externals first, then extras, per grammar.
pub open spec fn token_errors_upto(chain: Seq<GrammarView>, doc: Seq<DefView>, k: int) -> Seq<
    ErrorView,
>
    decreases k,
{
    if k <= 0 {
        Seq::empty()
    } else {
        token_errors_upto(chain, doc, k - 1) + token_errors_of_list(doc, chain[k - 1].externals)
            + token_errors_of_list(doc, chain[k - 1].extras)
    }
}

/// Every externals/extras classification error of the chain.
pub open spec fn token_errors(chain: Seq<GrammarView>, doc: Seq<DefView>) -> Seq<ErrorView> {
    token_errors_upto(chain, doc, chain.len() as int)
}

/// The unresolved-node-type errors of one declared type list, in order.
pub open spec fn types_errors(doc: Seq<DefView>, context: Seq<char>, types: Seq<NodeTypeView>) -> Seq<
    ErrorView,
>
    decreases types.len(),
{
    if types.len() == 0 {
        Seq::empty()
    } else {
        types_errors(doc, context, types.drop_last()) + (if doc_has_type(doc, types.last()) {
            Seq::empty()
        } else {
            seq![ErrorView::UnresolvedNodeType { context, missing: types.last() }]
        })
    }
}

/// The errors of one children declaration: an empty type list is a
/// structurally empty cardinality; every listed type must be defined.
pub open spec fn children_errors(
    doc: Seq<DefView>,
    node_name: Seq<char>,
    field_name: Seq<char>,
    ch: crate::node_types::ChildrenView,
) -> Seq<ErrorView> {
    (if ch.types.len() == 0 {
        seq![ErrorView::EmptyCardinality { node_type: node_name, field_name }]
    } else {
        Seq::empty()
    }) + types_errors(doc, node_name, ch.types)
}

/// The errors of one field list, in declared order.
pub open spec fn fields_errors(
    doc: Seq<DefView>,
    node_name: Seq<char>,
    fields: Seq<(Seq<char>, crate::node_types::ChildrenView)>,
) -> Seq<ErrorView>
    decreases fields.len(),
{
    if fields.len() == 0 {
        Seq::empty()
    } else {
        fields_errors(doc, node_name, fields.drop_last()) + children_errors(
            doc,
            node_name,
            fields.last().0,
            fields.last().1,
        )
    }
}

/// The errors of one definition: unresolved subtypes of a super-type, or
/// the field and children errors of a regular definition.
pub open spec fn def_errors(doc: Seq<DefView>, d: DefView) -> Seq<ErrorView> {
    match d.kind {
        KindView::SuperType(subs) => types_errors(doc, d.node_type.name, subs),
        KindView::Regular(r) => (match r.fields {
            Some(fs) => fields_errors(doc, d.node_type.name, fs),
            None => Seq::empty(),
        }) + (match r.children {
            Some(ch) => children_errors(doc, d.node_type.name, "children"@, ch),
            None => Seq::empty(),
        }),
    }
}

/// The errors of the first `k` definitions of the document.
pub open spec fn doc_errors_upto(doc: Seq<DefView>, k: int) -> Seq<ErrorView>
    decreases k,
{
    if k <= 0 {
        Seq::empty()
    } else {
        doc_errors_upto(doc, k - 1) + def_errors(doc, doc[k - 1])
    }
}

/// Every error internal to the node-types document.
pub open spec fn doc_errors(doc: Seq<DefView>) -> Seq<ErrorView> {
    doc_errors_upto(doc, doc.len() as int)
}

/// Every structural inconsistency of the schema pair, in discovery order:
/// unresolved symbols, then super-type errors, then externals/extras
/// classification errors, then the node-types document's own errors.
pub open spec fn unify_errors(chain: Seq<GrammarView>, doc: Seq<DefView>) -> Seq<ErrorView> {
    symbol_errors(chain) + supertype_errors(chain, doc) + token_errors(chain, doc) + doc_errors(
        doc,
    )
}

/// What the unifier returns for the given document models: the plan of the
/// node-types document when the schema pair holds no structural
/// inconsistency, else the full list of inconsistencies, and nothing in
/// between.
pub open spec fn unify_outcome(
    chain: Seq<GrammarView>,
    doc: Seq<DefView>,
    r: Result<crate::plan::PlanView, Seq<ErrorView>>,
) -> bool {
    match r {
        Ok(p) => unify_errors(chain, doc).len() == 0 && p == plan_of(doc),
        Err(e) => e == unify_errors(chain, doc) && e.len() > 0,
    }
}

/// Appends one error.
fn push_error(out: &mut Vec<StructuralError>, e: StructuralError)
    ensures
        view_errors(final(out)@) == view_errors(old(out)@).push(e@),
{
    let ghost pre = out@;
    let ghost ev = e@;
    out.push(e);
    proof {
        assert(view_errors(out@) =~= view_errors(pre).push(ev));
    }
}

/// Decides `table_has` on a rule table.
fn table_has_exec(rules: &Vec<(Identifier, GrammarRule)>, name: &Identifier) -> (r: bool)
    ensures
        r == table_has(crate::grammar::view_rule_table(rules@), name@),
{
    let ghost tv = crate::grammar::view_rule_table(rules@);
    let mut i: usize = 0;
    while i < rules.len()
        invariant
            0 <= i <= rules@.len(),
            tv == crate::grammar::view_rule_table(rules@),
            forall|k: int| 0 <= k < i ==> (#[trigger] tv[k]).0 != name@,
        decreases rules@.len() - i,
    {
        if rules[i].0.same_as(name) {
            proof {
                assert(tv[i as int].0 == name@);
            }
            return true;
        }
        i = i + 1;
    }
    proof {
        if table_has(tv, name@) {
            let k = choose|k: int| 0 <= k < tv.len() && (#[trigger] tv[k]).0 == name@;
            assert(false);
        }
    }
    false
}

/// Decides `chain_has_rule` over the whole grammar chain.
fn has_rule(grammars: &Vec<GrammarFile>, name: &Identifier) -> (r: bool)
    ensures
        r == chain_has_rule(view_grammars(grammars@), name@),
{
    let ghost chain = view_grammars(grammars@);
    let mut g: usize = 0;
    while g < grammars.len()
        invariant
            0 <= g <= grammars@.len(),
            chain == view_grammars(grammars@),
            forall|k: int| 0 <= k < g ==> !table_has((#[trigger] chain[k]).rules, name@),
        decreases grammars@.len() - g,
    {
        let rules = grammars[g].rules();
        proof {
            assert(chain[g as int] == grammars@[g as int]@);
        }
        if table_has_exec(rules, name) {
            proof {
                assert(table_has(chain[g as int].rules, name@));
            }
            return true;
        }
        g = g + 1;
    }
    proof {
        if chain_has_rule(chain, name@) {
            let k = choose|k: int| 0 <= k < chain.len() && table_has((#[trigger] chain[k]).rules, name@);
            assert(false);
        }
    }
    false
}

/// Decides `doc_has_type` on the node-types document.
fn has_type(node_types: &NodeTypesFile, t: &NodeType) -> (r: bool)
    ensures
        r == doc_has_type(node_types@, t@),
{
    let ghost doc = node_types@;
    let defs = node_types.definitions();
    let mut i: usize = 0;
    while i < defs.len()
        invariant
            0 <= i <= defs@.len(),
            doc == crate::node_types::view_defs(defs@),
            doc == node_types@,
            forall|k: int| 0 <= k < i ==> (#[trigger] doc[k]).node_type != t@,
        decreases defs@.len() - i,
    {
        if defs[i].node_type().same_kind(t) {
            proof {
                assert(doc[i as int].node_type == t@);
            }
            return true;
        }
        i = i + 1;
    }
    proof {
        if doc_has_type(doc, t@) {
            let k = choose|k: int| 0 <= k < doc.len() && (#[trigger] doc[k]).node_type == t@;
            assert(false);
        }
    }
    false
}

/// Collects every unresolved-symbol error, as `symbol_errors` describes.
fn collect_symbol_errors(grammars: &Vec<GrammarFile>, out: &mut Vec<StructuralError>)
    ensures
        view_errors(final(out)@) == view_errors(old(out)@) + symbol_errors(view_grammars(
            grammars@,
        )),
{
    let ghost chain = view_grammars(grammars@);
    let ghost base = view_errors(old(out)@);
    proof {
        assert(base + symbol_errors_upto(chain, 0) =~= base);
    }
    let mut g: usize = 0;
    while g < grammars.len()
        invariant
            0 <= g <= grammars@.len(),
            chain == view_grammars(grammars@),
            view_errors(out@) == base + symbol_errors_upto(chain, g as int),
        decreases grammars@.len() - g,
    {
        let ghost gbase = base + symbol_errors_upto(chain, g as int);
        let rules = grammars[g].rules();
        proof {
            assert(chain[g as int] == grammars@[g as int]@);
            assert(chain[g as int].rules == crate::grammar::view_rule_table(rules@));
            assert(symbol_errors_of_table(chain, chain[g as int].rules.subrange(0, 0)) =~= Seq::<
                ErrorView,
            >::empty());
            assert(gbase + symbol_errors_of_table(chain, chain[g as int].rules.subrange(0, 0))
                =~= gbase);
        }
        let ghost table = chain[g as int].rules;
        let mut t: usize = 0;
        while t < rules.len()
            invariant
                0 <= t <= rules@.len(),
                chain == view_grammars(grammars@),
                table == crate::grammar::view_rule_table(rules@),
                table.len() == rules@.len(),
                view_errors(out@) == gbase + symbol_errors_of_table(chain, table.subrange(
                    0,
                    t as int,
                )),
            decreases rules@.len() - t,
        {
            let ghost tbase = gbase + symbol_errors_of_table(chain, table.subrange(0, t as int));
            let rname = &rules[t].0;
            let syms = rules[t].1.symbol_references();
            let ghost sv = crate::ident::view_idents(syms@);
            proof {
                assert(table[t as int] == (rules@[t as int].0@, crate::grammar::rule_view(
                    rules@[t as int].1,
                )));
                assert(sv == rule_symbols(table[t as int].1));
                assert(rname@ == table[t as int].0);
                assert(sv.subrange(0, 0) =~= Seq::<Seq<char>>::empty());
                assert(tbase + symbol_errors_of_syms(chain, rname@, sv.subrange(0, 0)) =~= tbase);
            }
            let mut s: usize = 0;
            while s < syms.len()
                invariant
                    0 <= s <= syms@.len(),
                    chain == view_grammars(grammars@),
                    sv == crate::ident::view_idents(syms@),
                    view_errors(out@) == tbase + symbol_errors_of_syms(chain, rname@, sv.subrange(
                        0,
                        s as int,
                    )),
                decreases syms@.len() - s,
            {
                proof {
                    let u = sv.subrange(0, s as int);
                    let u1 = sv.subrange(0, s as int + 1);
                    assert(u1.drop_last() =~= u);
                    assert(u1.last() == sv[s as int]);
                    assert(sv[s as int] == syms@[s as int]@);
                }
                if !has_rule(grammars, &syms[s]) {
                    push_error(
                        out,
                        StructuralError::UnresolvedSymbol {
                            rule_name: rname.duplicate(),
                            symbol: syms[s].duplicate(),
                        },
                    );
                    proof {
                        let u = sv.subrange(0, s as int);
                        let u1 = sv.subrange(0, s as int + 1);
                        assert(view_errors(out@) =~= tbase + symbol_errors_of_syms(
                            chain,
                            rname@,
                            u1,
                        ));
                    }
                } else {
                    proof {
                        let u = sv.subrange(0, s as int);
                        let u1 = sv.subrange(0, s as int + 1);
                        assert(symbol_errors_of_syms(chain, rname@, u1) =~= symbol_errors_of_syms(
                            chain,
                            rname@,
                            u,
                        ));
                    }
                }
                s = s + 1;
            }
            proof {
                assert(sv.subrange(0, sv.len() as int) =~= sv);
                let v = table.subrange(0, t as int);
                let v1 = table.subrange(0, t as int + 1);
                assert(v1.drop_last() =~= v);
                assert(v1.last() == table[t as int]);
                assert(symbol_errors_of_table(chain, v1) == symbol_errors_of_table(chain, v)
                    + symbol_errors_of_syms(chain, table[t as int].0, rule_symbols(
                    table[t as int].1,
                )));
                assert(view_errors(out@) =~= gbase + symbol_errors_of_table(chain, v1));
            }
            t = t + 1;
        }
        proof {
            assert(table.subrange(0, table.len() as int) =~= table);
            assert(symbol_errors_upto(chain, g as int + 1) == symbol_errors_upto(chain, g as int)
                + symbol_errors_of_table(chain, chain[g as int].rules));
            assert(view_errors(out@) =~= base + symbol_errors_upto(chain, g as int + 1));
        }
        g = g + 1;
    }
}

/// Collects every super-type error, as `supertype_errors` describes.
fn collect_supertype_errors(
    grammars: &Vec<GrammarFile>,
    node_types: &NodeTypesFile,
    out: &mut Vec<StructuralError>,
)
    ensures
        view_errors(final(out)@) == view_errors(old(out)@) + supertype_errors(
            view_grammars(grammars@),
            node_types@,
        ),
{
    let ghost chain = view_grammars(grammars@);
    let ghost doc = node_types@;
    let ghost base = view_errors(old(out)@);
    proof {
        assert(base + supertype_errors_upto(chain, doc, 0) =~= base);
    }
    let mut g: usize = 0;
    while g < grammars.len()
        invariant
            0 <= g <= grammars@.len(),
            chain == view_grammars(grammars@),
            doc == node_types@,
            view_errors(out@) == base + supertype_errors_upto(chain, doc, g as int),
        decreases grammars@.len() - g,
    {
        let ghost gbase = base + supertype_errors_upto(chain, doc, g as int);
        let names = grammars[g].supertypes();
        let ghost nv = chain[g as int].supertypes;
        proof {
            assert(chain[g as int] == grammars@[g as int]@);
            assert(nv == crate::ident::view_idents(names@));
            assert(nv.subrange(0, 0) =~= Seq::<Seq<char>>::empty());
            assert(gbase + supertype_errors_of_list(doc, nv.subrange(0, 0)) =~= gbase);
        }
        let mut i: usize = 0;
        while i < names.len()
            invariant
                0 <= i <= names@.len(),
                doc == node_types@,
                nv == crate::ident::view_idents(names@),
                view_errors(out@) == gbase + supertype_errors_of_list(doc, nv.subrange(
                    0,
                    i as int,
                )),
            decreases names@.len() - i,
        {
            proof {
                let u = nv.subrange(0, i as int);
                let u1 = nv.subrange(0, i as int + 1);
                assert(u1.drop_last() =~= u);
                assert(u1.last() == nv[i as int]);
                assert(nv[i as int] == names@[i as int]@);
            }
            let id = &names[i];
            match node_types.definition_named(id.as_str()) {
                None => {
                    push_error(out, StructuralError::UnresolvedSuperType { name: id.duplicate() });
                    proof {
                        assert(view_errors(out@) =~= gbase + supertype_errors_of_list(
                            doc,
                            nv.subrange(0, i as int + 1),
                        ));
                    }
                },
                Some(d) => {
                    if !d.kind().is_super_type() {
                        push_error(
                            out,
                            StructuralError::ClassificationMismatch {
                                name: String::from_str(id.as_str()),
                            },
                        );
                        proof {
                            assert(view_errors(out@) =~= gbase + supertype_errors_of_list(
                                doc,
                                nv.subrange(0, i as int + 1),
                            ));
                        }
                    } else {
                        proof {
                            assert(supertype_errors_of_list(doc, nv.subrange(0, i as int + 1))
                                =~= supertype_errors_of_list(doc, nv.subrange(0, i as int)));
                        }
                    }
                },
            }
            i = i + 1;
        }
        proof {
            assert(nv.subrange(0, nv.len() as int) =~= nv);
            assert(supertype_errors_upto(chain, doc, g as int + 1) == supertype_errors_upto(
                chain,
                doc,
                g as int,
            ) + supertype_errors_of_list(doc, chain[g as int].supertypes));
            assert(view_errors(out@) =~= base + supertype_errors_upto(chain, doc, g as int + 1));
        }
        g = g + 1;
    }
}

/// Appends the classification errors of one rule list, as
/// `token_errors_of_list` describes.
fn collect_token_errors_of_list(
    rules: &Vec<GrammarRule>,
    node_types: &NodeTypesFile,
    out: &mut Vec<StructuralError>,
)
    ensures
        view_errors(final(out)@) == view_errors(old(out)@) + token_errors_of_list(
            node_types@,
            crate::grammar::rules_view(rules@),
        ),
{
    let ghost doc = node_types@;
    let ghost rv = crate::grammar::rules_view(rules@);
    let ghost base = view_errors(old(out)@);
    proof {
        crate::grammar::lemma_rules_view_len(rules@);
        assert(rv.subrange(0, 0) =~= Seq::<RuleView>::empty());
        assert(base + token_errors_of_list(doc, rv.subrange(0, 0)) =~= base);
    }
    let mut i: usize = 0;
    while i < rules.len()
        invariant
            0 <= i <= rules@.len(),
            doc == node_types@,
            rv == crate::grammar::rules_view(rules@),
            rv.len() == rules@.len(),
            view_errors(out@) == base + token_errors_of_list(doc, rv.subrange(0, i as int)),
        decreases rules@.len() - i,
    {
        proof {
            let u = rv.subrange(0, i as int);
            let u1 = rv.subrange(0, i as int + 1);
            assert(u1.drop_last() =~= u);
            assert(u1.last() == rv[i as int]);
            crate::grammar::lemma_rules_view_index(rules@, i as int);
            assert(rv[i as int] == crate::grammar::rule_view(rules@[i as int]));
        }
        match &rules[i] {
            GrammarRule::Symbol { name } => {
                match node_types.definition_named(name.as_str()) {
                    Some(d) => {
                        if !d.kind().is_terminal() {
                            push_error(
                                out,
                                StructuralError::ClassificationMismatch {
                                    name: String::from_str(name.as_str()),
                                },
                            );
                            proof {
                                assert(view_errors(out@) =~= base + token_errors_of_list(
                                    doc,
                                    rv.subrange(0, i as int + 1),
                                ));
                            }
                        } else {
                            proof {
                                assert(token_errors_of_list(doc, rv.subrange(0, i as int + 1))
                                    =~= token_errors_of_list(doc, rv.subrange(0, i as int)));
                            }
                        }
                    },
                    None => {
                        proof {
                            assert(token_errors_of_list(doc, rv.subrange(0, i as int + 1))
                                =~= token_errors_of_list(doc, rv.subrange(0, i as int)));
                        }
                    },
                }
            },
            _ => {
                proof {
                    assert(token_rule_error(doc, rv[i as int]) =~= Seq::<ErrorView>::empty());
                    assert(token_errors_of_list(doc, rv.subrange(0, i as int + 1))
                        =~= token_errors_of_list(doc, rv.subrange(0, i as int)));
                }
            },
        }
        i = i + 1;
    }
    proof {
        assert(rv.subrange(0, rv.len() as int) =~= rv);
    }
}

/// Collects every externals/extras classification error, as `token_errors`
/// describes.
fn collect_token_errors(
    grammars: &Vec<GrammarFile>,
    node_types: &NodeTypesFile,
    out: &mut Vec<StructuralError>,
)
    ensures
        view_errors(final(out)@) == view_errors(old(out)@) + token_errors(
            view_grammars(grammars@),
            node_types@,
        ),
{
    let ghost chain = view_grammars(grammars@);
    let ghost doc = node_types@;
    let ghost base = view_errors(old(out)@);
    proof {
        assert(base + token_errors_upto(chain, doc, 0) =~= base);
    }
    let mut g: usize = 0;
    while g < grammars.len()
        invariant
            0 <= g <= grammars@.len(),
            chain == view_grammars(grammars@),
            doc == node_types@,
            view_errors(out@) == base + token_errors_upto(chain, doc, g as int),
        decreases grammars@.len() - g,
    {
        proof {
            assert(chain[g as int] == grammars@[g as int]@);
        }
        collect_token_errors_of_list(grammars[g].externals(), node_types, out);
        collect_token_errors_of_list(grammars[g].extras(), node_types, out);
        proof {
            assert(token_errors_upto(chain, doc, g as int + 1) == token_errors_upto(
                chain,
                doc,
                g as int,
            ) + token_errors_of_list(doc, chain[g as int].externals) + token_errors_of_list(
                doc,
                chain[g as int].extras,
            ));
            assert(view_errors(out@) =~= base + token_errors_upto(chain, doc, g as int + 1));
        }
        g = g + 1;
    }
}

/// Appends the unresolved-node-type errors of one declared type list, as
/// `types_errors` describes.
fn collect_types_errors(
    types: &Vec<NodeType>,
    context: &String,
    node_types: &NodeTypesFile,
    out: &mut Vec<StructuralError>,
)
    ensures
        view_errors(final(out)@) == view_errors(old(out)@) + types_errors(
            node_types@,
            context@,
            crate::node_types::view_types(types@),
        ),
{
    let ghost doc = node_types@;
    let ghost tv = crate::node_types::view_types(types@);
    let ghost base = view_errors(old(out)@);
    proof {
        assert(tv.subrange(0, 0) =~= Seq::<NodeTypeView>::empty());
        assert(base + types_errors(doc, context@, tv.subrange(0, 0)) =~= base);
    }
    let mut i: usize = 0;
    while i < types.len()
        invariant
            0 <= i <= types@.len(),
            doc == node_types@,
            tv == crate::node_types::view_types(types@),
            view_errors(out@) == base + types_errors(doc, context@, tv.subrange(0, i as int)),
        decreases types@.len() - i,
    {
        proof {
            let u = tv.subrange(0, i as int);
            let u1 = tv.subrange(0, i as int + 1);
            assert(u1.drop_last() =~= u);
            assert(u1.last() == tv[i as int]);
            assert(tv[i as int] == types@[i as int]@);
        }
        if !has_type(node_types, &types[i]) {
            push_error(
                out,
                StructuralError::UnresolvedNodeType {
                    context: context.clone(),
                    missing: types[i].duplicate(),
                },
            );
            proof {
                assert(view_errors(out@) =~= base + types_errors(doc, context@, tv.subrange(
                    0,
                    i as int + 1,
                )));
            }
        } else {
            proof {
                assert(types_errors(doc, context@, tv.subrange(0, i as int + 1)) =~= types_errors(
                    doc,
                    context@,
                    tv.subrange(0, i as int),
                ));
            }
        }
        i = i + 1;
    }
    proof {
        assert(tv.subrange(0, tv.len() as int) =~= tv);
    }
}

/// Appends the errors of one children declaration, as `children_errors`
/// describes.
fn collect_children_errors(
    ch: &crate::node_types::NodeChildren,
    node_name: &String,
    field_name: &String,
    node_types: &NodeTypesFile,
    out: &mut Vec<StructuralError>,
)
    ensures
        view_errors(final(out)@) == view_errors(old(out)@) + children_errors(
            node_types@,
            node_name@,
            field_name@,
            ch@,
        ),
{
    let ghost doc = node_types@;
    let ghost base = view_errors(old(out)@);
    if !ch.has_types() {
        push_error(
            out,
            StructuralError::EmptyCardinality {
                node_type: node_name.clone(),
                field_name: field_name.clone(),
            },
        );
    }
    let ghost mid = view_errors(out@);
    proof {
        if ch@.types.len() == 0 {
            assert(mid =~= base + seq![
                ErrorView::EmptyCardinality { node_type: node_name@, field_name: field_name@ },
            ]);
        } else {
            assert(mid =~= base);
        }
    }
    let ts = ch.types();
    collect_types_errors(ts, node_name, node_types, out);
    proof {
        assert(crate::node_types::view_types(ts@) == ch@.types);
        assert(view_errors(out@) =~= base + children_errors(doc, node_name@, field_name@, ch@));
    }
}

/// Collects every error internal to the node-types document, as
/// `doc_errors` describes.
fn collect_doc_errors(node_types: &NodeTypesFile, out: &mut Vec<StructuralError>)
    ensures
        view_errors(final(out)@) == view_errors(old(out)@) + doc_errors(node_types@),
{
    let ghost doc = node_types@;
    let ghost base = view_errors(old(out)@);
    proof {
        assert(base + doc_errors_upto(doc, 0) =~= base);
    }
    let defs = node_types.definitions();
    let mut i: usize = 0;
    while i < defs.len()
        invariant
            0 <= i <= defs@.len(),
            doc == crate::node_types::view_defs(defs@),
            doc == node_types@,
            view_errors(out@) == base + doc_errors_upto(doc, i as int),
        decreases defs@.len() - i,
    {
        let ghost dbase = base + doc_errors_upto(doc, i as int);
        let d = &defs[i];
        proof {
            assert(d@ == doc[i as int]);
        }
        match d.kind().as_super_type() {
            Some(st) => {
                let subs = st.subtypes();
                collect_types_errors(subs, d.node_type_name(), node_types, out);
                proof {
                    assert(crate::node_types::view_types(subs@) == st@);
                    assert(def_errors(doc, doc[i as int]) == types_errors(
                        doc,
                        doc[i as int].node_type.name,
                        st@,
                    ));
                    assert(view_errors(out@) =~= dbase + def_errors(doc, doc[i as int]));
                }
            },
            None => {
                let reg = match d.kind().as_regular() {
                    Some(reg) => reg,
                    None => {
                        proof {
                            assert(false);
                        }
                        return ;
                    },
                };
                let ghost rv = reg@;
                match reg.fields() {
                    Some(fs) => {
                        let ghost fv = crate::node_types::view_fields(fs@);
                        proof {
                            assert(fv.subrange(0, 0) =~= Seq::<
                                (Seq<char>, crate::node_types::ChildrenView),
                            >::empty());
                            assert(dbase + fields_errors(doc, doc[i as int].node_type.name, fv
                                .subrange(0, 0)) =~= dbase);
                        }
                        let mut k: usize = 0;
                        while k < fs.len()
                            invariant
                                0 <= k <= fs@.len(),
                                doc == node_types@,
                                fv == crate::node_types::view_fields(fs@),
                                view_errors(out@) == dbase + fields_errors(
                                    doc,
                                    doc[i as int].node_type.name,
                                    fv.subrange(0, k as int),
                                ),
                                0 <= i < doc.len(),
                                d@ == doc[i as int],
                            decreases fs@.len() - k,
                        {
                            proof {
                                let u = fv.subrange(0, k as int);
                                let u1 = fv.subrange(0, k as int + 1);
                                assert(u1.drop_last() =~= u);
                                assert(u1.last() == fv[k as int]);
                                assert(fv[k as int] == (fs@[k as int].0@, fs@[k as int].1@));
                            }
                            collect_children_errors(
                                &fs[k].1,
                                d.node_type_name(),
                                &fs[k].0,
                                node_types,
                                out,
                            );
                            proof {
                                assert(view_errors(out@) =~= dbase + fields_errors(
                                    doc,
                                    doc[i as int].node_type.name,
                                    fv.subrange(0, k as int + 1),
                                ));
                            }
                            k = k + 1;
                        }
                        proof {
                            assert(fv.subrange(0, fv.len() as int) =~= fv);
                        }
                    },
                    None => {
                    },
                }
                let ghost fbase = view_errors(out@);
                proof {
                    assert(fbase =~= dbase + (match rv.fields {
                        Some(fs2) => fields_errors(doc, doc[i as int].node_type.name, fs2),
                        None => Seq::<ErrorView>::empty(),
                    }));
                }
                match reg.children() {
                    Some(ch) => {
                        let fname = String::from_str("children");
                        collect_children_errors(ch, d.node_type_name(), &fname, node_types, out);
                        proof {
                            assert(view_errors(out@) =~= dbase + def_errors(doc, doc[i as int]));
                        }
                    },
                    None => {
                        proof {
                            assert(view_errors(out@) =~= dbase + def_errors(doc, doc[i as int]));
                        }
                    },
                }
            },
        }
        proof {
            assert(doc_errors_upto(doc, i as int + 1) == doc_errors_upto(doc, i as int)
                + def_errors(doc, doc[i as int]));
            assert(view_errors(out@) =~= base + doc_errors_upto(doc, i as int + 1));
        }
        i = i + 1;
    }
}

/// Merges the grammar chain and the node-types document into a binding
/// plan.  The chain lists the main grammar first, each later entry the
/// parent that the one before it inherits from; rule lookup falls through
/// the chain in that order.
///
/// Success is owed exactly when the schema pair holds no structural
/// inconsistency; otherwise every inconsistency found is reported together
/// and no plan is produced.
pub fn unify(grammars: &Vec<GrammarFile>, node_types: &NodeTypesFile) -> (r: Result<
    BindingPlan,
    StructuralReport,
>)
    requires
        grammars@.len() >= 1,
    ensures
        match r {
            Ok(plan) => unify_errors(view_grammars(grammars@), node_types@) == Seq::<
                ErrorView,
            >::empty() && plan@ == plan_of(node_types@),
            Err(report) => report@ == unify_errors(view_grammars(grammars@), node_types@)
                && report@.len() > 0,
        },
        unify_outcome(
            view_grammars(grammars@),
            node_types@,
            (match r {
                Ok(plan) => Ok(plan@),
                Err(report) => Err(report@),
            }),
        ),
{
    let ghost chain = view_grammars(grammars@);
    let ghost doc = node_types@;
    let mut errs: Vec<StructuralError> = Vec::new();
    proof {
        assert(view_errors(errs@) =~= Seq::<ErrorView>::empty());
    }
    collect_symbol_errors(grammars, &mut errs);
    collect_supertype_errors(grammars, node_types, &mut errs);
    collect_token_errors(grammars, node_types, &mut errs);
    collect_doc_errors(node_types, &mut errs);
    proof {
        assert(view_errors(errs@) =~= unify_errors(chain, doc));
    }
    if errs.len() == 0 {
        proof {
            assert(unify_errors(chain, doc) =~= Seq::<ErrorView>::empty());
        }
        Ok(build_plan(node_types))
    } else {
        Err(StructuralReport { problems: errs })
    }
}

} // verus!
