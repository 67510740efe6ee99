//! Tests of the schema unifier: classification, cardinality, union
//! synthesis, and the aggregate failure report.
use cargo_tsgen::grammar::{GrammarFile, GrammarRule};
use cargo_tsgen::ident::Identifier;
use cargo_tsgen::node_types::{
    NodeChildren, NodeType, NodeTypeDefinition, NodeTypeDefinitionKind, NodeTypesFile,
    RegularNodeDefinition, SuperTypeNodeDefinition,
};
use cargo_tsgen::plan::{Cardinality, ResolvedFieldTarget, ResolvedNodeShape};
use cargo_tsgen::unify::{unify, StructuralError};

fn ident(s: &str) -> Identifier {
    Identifier::new(String::from(s)).expect("valid identifier")
}

fn named(s: &str) -> NodeType {
    NodeType::new_named(String::from(s))
}

fn terminal_def(name: &str) -> NodeTypeDefinition {
    NodeTypeDefinition::new_named(
        String::from(name),
        NodeTypeDefinitionKind::Regular(RegularNodeDefinition::terminal()),
    )
}

fn field(name: &str, multiple: bool, required: bool, types: Vec<NodeType>) -> (String, NodeChildren) {
    (String::from(name), NodeChildren::new(multiple, required, types))
}

fn compound_def(name: &str, fields: Vec<(String, NodeChildren)>) -> NodeTypeDefinition {
    NodeTypeDefinition::new_named(
        String::from(name),
        NodeTypeDefinitionKind::Regular(RegularNodeDefinition::regular(Some(fields), None)),
    )
}

fn symbol(name: &str) -> GrammarRule {
    GrammarRule::Symbol { name: ident(name) }
}

fn grammar_with_rules(rules: Vec<(Identifier, GrammarRule)>) -> GrammarFile {
    GrammarFile::new(
        ident("test_grammar"),
        None,
        rules,
        vec![],
        vec![],
        vec![],
        vec![],
        vec![],
        vec![],
        None,
    )
}

fn module_grammar() -> GrammarFile {
    let module_rule = GrammarRule::Sequence {
        members: vec![
            GrammarRule::Field {
                name: ident("name"),
                content: Box::new(symbol("identifier")),
            },
            GrammarRule::Field {
                name: ident("body"),
                content: Box::new(symbol("module_body")),
            },
        ],
    };
    grammar_with_rules(vec![
        (ident("module"), module_rule),
        (
            ident("identifier"),
            GrammarRule::Pattern { value: String::from("[a-z]+"), flags: None },
        ),
        (ident("module_body"), GrammarRule::Blank),
    ])
}

fn module_node_types() -> NodeTypesFile {
    NodeTypesFile::new(vec![
        compound_def(
            "module",
            vec![
                field("name", false, true, vec![named("identifier")]),
                field("body", false, true, vec![named("module_body")]),
            ],
        ),
        terminal_def("identifier"),
        terminal_def("module_body"),
    ])
}

#[test]
fn test_end_to_end_module_plan() {
    let grammars = vec![module_grammar()];
    let node_types = module_node_types();
    let plan = unify(&grammars, &node_types).expect("well-formed schema pair");
    let entries = plan.entries();
    assert_eq!(entries.len(), 3);

    assert_eq!(entries[0].node_type.node_type(), "module");
    match &entries[0].shape {
        ResolvedNodeShape::CompoundNode { fields } => {
            assert_eq!(fields.len(), 2);
            assert_eq!(fields[0].name, "name");
            assert_eq!(fields[0].cardinality, Cardinality::Single);
            match &fields[0].target {
                ResolvedFieldTarget::Node(t) => assert_eq!(t.node_type(), "identifier"),
                other => panic!("expected single node target, got {other:?}"),
            }
            assert_eq!(fields[1].name, "body");
            assert_eq!(fields[1].cardinality, Cardinality::Single);
            match &fields[1].target {
                ResolvedFieldTarget::Node(t) => assert_eq!(t.node_type(), "module_body"),
                other => panic!("expected single node target, got {other:?}"),
            }
        },
        other => panic!("expected compound node, got {other:?}"),
    }

    assert_eq!(entries[1].node_type.node_type(), "identifier");
    assert!(matches!(entries[1].shape, ResolvedNodeShape::ValueLeaf));
    assert_eq!(entries[2].node_type.node_type(), "module_body");
    assert!(matches!(entries[2].shape, ResolvedNodeShape::ValueLeaf));
}

#[test]
fn test_optional_union_field() {
    let grammars = vec![grammar_with_rules(vec![(ident("doc"), GrammarRule::Blank)])];
    let node_types = NodeTypesFile::new(vec![
        compound_def("doc", vec![field("base", false, false, vec![named("iri"), named("blank")])]),
        terminal_def("iri"),
        terminal_def("blank"),
    ]);
    let plan = unify(&grammars, &node_types).expect("well-formed schema pair");
    match &plan.entries()[0].shape {
        ResolvedNodeShape::CompoundNode { fields } => {
            assert_eq!(fields.len(), 1);
            assert_eq!(fields[0].name, "base");
            assert_eq!(fields[0].cardinality, Cardinality::Optional);
            match &fields[0].target {
                ResolvedFieldTarget::SynthesizedUnion(members) => {
                    assert_eq!(members.len(), 2);
                    assert_eq!(members[0].node_type(), "iri");
                    assert_eq!(members[1].node_type(), "blank");
                },
                other => panic!("expected synthesized union, got {other:?}"),
            }
        },
        other => panic!("expected compound node, got {other:?}"),
    }
    let unions = plan.synthesized_unions();
    assert_eq!(unions.len(), 1);
    assert_eq!(unions[0][0].node_type(), "iri");
    assert_eq!(unions[0][1].node_type(), "blank");
}

#[test]
fn test_cardinality_mapping_exhaustive() {
    let grammars = vec![grammar_with_rules(vec![(ident("doc"), GrammarRule::Blank)])];
    let node_types = NodeTypesFile::new(vec![
        compound_def(
            "doc",
            vec![
                field("both", true, true, vec![named("leaf")]),
                field("many", true, false, vec![named("leaf")]),
                field("one", false, true, vec![named("leaf")]),
                field("maybe", false, false, vec![named("leaf")]),
            ],
        ),
        terminal_def("leaf"),
    ]);
    let plan = unify(&grammars, &node_types).expect("well-formed schema pair");
    match &plan.entries()[0].shape {
        ResolvedNodeShape::CompoundNode { fields } => {
            assert_eq!(fields[0].cardinality, Cardinality::Repeated);
            assert_eq!(fields[1].cardinality, Cardinality::Repeated);
            assert_eq!(fields[2].cardinality, Cardinality::Single);
            assert_eq!(fields[3].cardinality, Cardinality::Optional);
        },
        other => panic!("expected compound node, got {other:?}"),
    }
}

#[test]
fn test_supertype_union_declared_order() {
    let grammars = vec![grammar_with_rules(vec![(ident("doc"), GrammarRule::Blank)])];
    let node_types = NodeTypesFile::new(vec![
        NodeTypeDefinition::new_named(
            String::from("expression"),
            NodeTypeDefinitionKind::SuperType(SuperTypeNodeDefinition::new(vec![
                named("zeta"),
                named("alpha"),
                named("zeta"),
            ])),
        ),
        terminal_def("zeta"),
        terminal_def("alpha"),
    ]);
    let plan = unify(&grammars, &node_types).expect("well-formed schema pair");
    match &plan.entries()[0].shape {
        ResolvedNodeShape::UnionNode { variants } => {
            // declared order preserved, duplicate dropped at first occurrence
            assert_eq!(variants.len(), 2);
            assert_eq!(variants[0].node_type(), "zeta");
            assert_eq!(variants[1].node_type(), "alpha");
        },
        other => panic!("expected union node, got {other:?}"),
    }
}

#[test]
fn test_union_synthesis_shared_and_distinct() {
    let grammars = vec![grammar_with_rules(vec![(ident("doc"), GrammarRule::Blank)])];
    let node_types = NodeTypesFile::new(vec![
        compound_def("one", vec![field("a", false, true, vec![named("x"), named("y")])]),
        compound_def("two", vec![field("b", false, true, vec![named("x"), named("y")])]),
        compound_def("three", vec![field("c", false, true, vec![named("y"), named("x")])]),
        terminal_def("x"),
        terminal_def("y"),
    ]);
    let plan = unify(&grammars, &node_types).expect("well-formed schema pair");
    let unions = plan.synthesized_unions();
    // the identical ordered pair is shared; the reordered pair is its own union
    assert_eq!(unions.len(), 2);
    assert_eq!(unions[0][0].node_type(), "x");
    assert_eq!(unions[0][1].node_type(), "y");
    assert_eq!(unions[1][0].node_type(), "y");
    assert_eq!(unions[1][1].node_type(), "x");
}

#[test]
fn test_determinism_repeated_runs() {
    let grammars = vec![module_grammar()];
    let node_types = module_node_types();
    let first = unify(&grammars, &node_types).expect("well-formed schema pair");
    let second = unify(&grammars, &node_types).expect("well-formed schema pair");
    assert_eq!(format!("{first:?}"), format!("{second:?}"));
}

#[test]
fn test_aggregate_failure_three_problems() {
    // one unresolved symbol, one unresolved node-type, one classification
    // mismatch: the report holds exactly the three, not only the first
    let grammar = GrammarFile::new(
        ident("test_grammar"),
        None,
        vec![
            (ident("doc"), symbol("missing_rule")),
            (ident("thing"), GrammarRule::Blank),
        ],
        vec![],
        vec![],
        vec![],
        vec![],
        vec![],
        vec![ident("thing")],
        None,
    );
    let node_types = NodeTypesFile::new(vec![
        compound_def("doc", vec![field("part", false, true, vec![named("missing_node")])]),
        terminal_def("thing"),
    ]);
    let report = unify(&vec![grammar], &node_types).expect_err("three inconsistencies");
    let problems = report.problems();
    assert_eq!(problems.len(), 3);
    assert!(matches!(&problems[0], StructuralError::UnresolvedSymbol { .. }));
    assert!(matches!(&problems[1], StructuralError::ClassificationMismatch { .. }));
    assert!(matches!(&problems[2], StructuralError::UnresolvedNodeType { .. }));
}

#[test]
fn test_unresolved_symbol_reports_rule_and_symbol() {
    let grammar = grammar_with_rules(vec![(ident("doc"), symbol("nowhere"))]);
    let node_types = NodeTypesFile::new(vec![terminal_def("doc")]);
    let report = unify(&vec![grammar], &node_types).expect_err("unresolved symbol");
    match &report.problems()[0] {
        StructuralError::UnresolvedSymbol { rule_name, symbol } => {
            assert_eq!(rule_name.as_str(), "doc");
            assert_eq!(symbol.as_str(), "nowhere");
        },
        other => panic!("expected unresolved symbol, got {other:?}"),
    }
}

#[test]
fn test_symbol_resolved_through_inherited_table() {
    let child = GrammarFile::new(
        ident("child"),
        Some(ident("parent")),
        vec![(ident("doc"), symbol("base_rule"))],
        vec![],
        vec![],
        vec![],
        vec![],
        vec![],
        vec![],
        None,
    );
    let parent = grammar_with_rules(vec![(ident("base_rule"), GrammarRule::Blank)]);
    let node_types = NodeTypesFile::new(vec![terminal_def("doc")]);
    assert!(unify(&vec![child, parent], &node_types).is_ok());
}

#[test]
fn test_unresolved_supertype_entry() {
    let grammar = GrammarFile::new(
        ident("test_grammar"),
        None,
        vec![(ident("doc"), GrammarRule::Blank)],
        vec![],
        vec![],
        vec![],
        vec![],
        vec![],
        vec![ident("ghostly")],
        None,
    );
    let node_types = NodeTypesFile::new(vec![terminal_def("doc")]);
    let report = unify(&vec![grammar], &node_types).expect_err("unresolved super-type");
    match &report.problems()[0] {
        StructuralError::UnresolvedSuperType { name } => assert_eq!(name.as_str(), "ghostly"),
        other => panic!("expected unresolved super-type, got {other:?}"),
    }
}

#[test]
fn test_extras_classification_mismatch() {
    // an extras symbol implies no internal structure, but the node-types
    // document declares a field for it
    let grammar = GrammarFile::new(
        ident("test_grammar"),
        None,
        vec![
            (ident("doc"), GrammarRule::Blank),
            (ident("comment"), GrammarRule::Blank),
        ],
        vec![],
        vec![],
        vec![symbol("comment")],
        vec![],
        vec![],
        vec![],
        None,
    );
    let node_types = NodeTypesFile::new(vec![
        terminal_def("doc"),
        compound_def("comment", vec![field("text", false, true, vec![named("doc")])]),
    ]);
    let report = unify(&vec![grammar], &node_types).expect_err("classification mismatch");
    match &report.problems()[0] {
        StructuralError::ClassificationMismatch { name } => assert_eq!(name, "comment"),
        other => panic!("expected classification mismatch, got {other:?}"),
    }
}

#[test]
fn test_unresolved_subtype_of_supertype() {
    let grammars = vec![grammar_with_rules(vec![(ident("doc"), GrammarRule::Blank)])];
    let node_types = NodeTypesFile::new(vec![
        NodeTypeDefinition::new_named(
            String::from("expression"),
            NodeTypeDefinitionKind::SuperType(SuperTypeNodeDefinition::new(vec![named(
                "not_defined",
            )])),
        ),
        terminal_def("doc"),
    ]);
    let report = unify(&grammars, &node_types).expect_err("unresolved subtype");
    match &report.problems()[0] {
        StructuralError::UnresolvedNodeType { context, missing } => {
            assert_eq!(context, "expression");
            assert_eq!(missing.node_type(), "not_defined");
        },
        other => panic!("expected unresolved node type, got {other:?}"),
    }
}

#[test]
fn test_empty_cardinality_error() {
    let grammars = vec![grammar_with_rules(vec![(ident("doc"), GrammarRule::Blank)])];
    let node_types = NodeTypesFile::new(vec![compound_def(
        "doc",
        vec![field("parts", false, true, vec![])],
    )]);
    let report = unify(&grammars, &node_types).expect_err("empty cardinality");
    match &report.problems()[0] {
        StructuralError::EmptyCardinality { node_type, field_name } => {
            assert_eq!(node_type, "doc");
            assert_eq!(field_name, "parts");
        },
        other => panic!("expected empty cardinality, got {other:?}"),
    }
}

#[test]
fn test_unnamed_and_named_are_distinct_kinds() {
    // the same string along the other axis does not resolve the reference
    let grammars = vec![grammar_with_rules(vec![(ident("doc"), GrammarRule::Blank)])];
    let node_types = NodeTypesFile::new(vec![
        compound_def("doc", vec![field("op", false, true, vec![named("plus")])]),
        NodeTypeDefinition::new_unnamed(
            String::from("plus"),
            NodeTypeDefinitionKind::Regular(RegularNodeDefinition::terminal()),
        ),
    ]);
    let report = unify(&grammars, &node_types).expect_err("named reference unresolved");
    assert_eq!(report.problems().len(), 1);
    assert!(matches!(&report.problems()[0], StructuralError::UnresolvedNodeType { .. }));
}

#[test]
fn test_children_pseudo_field() {
    let grammars = vec![grammar_with_rules(vec![(ident("doc"), GrammarRule::Blank)])];
    let node_types = NodeTypesFile::new(vec![
        NodeTypeDefinition::new_named(
            String::from("doc"),
            NodeTypeDefinitionKind::Regular(RegularNodeDefinition::regular(
                Some(vec![field("title", false, true, vec![named("leaf")])]),
                Some(NodeChildren::new(true, false, vec![named("leaf")])),
            )),
        ),
        terminal_def("leaf"),
    ]);
    let plan = unify(&grammars, &node_types).expect("well-formed schema pair");
    match &plan.entries()[0].shape {
        ResolvedNodeShape::CompoundNode { fields } => {
            assert_eq!(fields.len(), 2);
            assert_eq!(fields[0].name, "title");
            assert_eq!(fields[1].name, "children");
            assert_eq!(fields[1].cardinality, Cardinality::Repeated);
        },
        other => panic!("expected compound node, got {other:?}"),
    }
}

#[test]
fn test_plan_entry_lookup() {
    let grammars = vec![module_grammar()];
    let node_types = module_node_types();
    let plan = unify(&grammars, &node_types).expect("well-formed schema pair");
    let entry = plan.entry_for(&named("identifier")).expect("planned");
    assert!(matches!(entry.shape, ResolvedNodeShape::ValueLeaf));
    assert!(plan.entry_for(&named("nowhere")).is_none());
    assert!(plan.entry_for(&NodeType::new_unnamed(String::from("identifier"))).is_none());
}

#[test]
fn test_symbol_references_depth_first() {
    let rule = GrammarRule::Sequence {
        members: vec![
            GrammarRule::Field {
                name: ident("lhs"),
                content: Box::new(symbol("first")),
            },
            GrammarRule::Choice {
                members: vec![
                    symbol("second"),
                    GrammarRule::Repeat { content: Box::new(symbol("third")) },
                ],
            },
            GrammarRule::Literal { value: String::from("fin") },
        ],
    };
    let refs = rule.symbol_references();
    let names: Vec<&str> = refs.iter().map(|i| i.as_str()).collect();
    assert_eq!(names, vec!["first", "second", "third"]);
}
