//! Tests of the emission-request translation and its stable ordering.
use cargo_tsgen::grammar::{GrammarFile, GrammarRule};
use cargo_tsgen::ident::Identifier;
use cargo_tsgen::node_types::{
    NodeChildren, NodeType, NodeTypeDefinition, NodeTypeDefinitionKind, NodeTypesFile,
    RegularNodeDefinition, SuperTypeNodeDefinition,
};
use cargo_tsgen::emission::{translate, EmissionUnit};
use cargo_tsgen::plan::Cardinality;
use cargo_tsgen::unify::unify;
use cargo_tsgen::writer::{ConstantsFile, ForLanguage, WrapperFile};

fn ident(s: &str) -> Identifier {
    Identifier::new(String::from(s)).expect("valid identifier")
}

fn named(s: &str) -> NodeType {
    NodeType::new_named(String::from(s))
}

fn terminal_def(s: &str) -> NodeTypeDefinition {
    NodeTypeDefinition::new_named(
        String::from(s),
        NodeTypeDefinitionKind::Regular(RegularNodeDefinition::terminal()),
    )
}

fn compound_def(name: &str, fields: Vec<(String, NodeChildren)>) -> NodeTypeDefinition {
    NodeTypeDefinition::new_named(
        String::from(name),
        NodeTypeDefinitionKind::Regular(RegularNodeDefinition::regular(Some(fields), None)),
    )
}

fn field(name: &str, multiple: bool, required: bool, types: Vec<NodeType>) -> (String, NodeChildren) {
    (String::from(name), NodeChildren::new(multiple, required, types))
}

fn empty_grammar() -> GrammarFile {
    GrammarFile::new(
        ident("test_grammar"),
        None,
        vec![(ident("doc"), GrammarRule::Blank)],
        vec![],
        vec![],
        vec![],
        vec![],
        vec![],
        vec![],
        None,
    )
}

fn sample_node_types() -> NodeTypesFile {
    NodeTypesFile::new(vec![
        terminal_def("zeta_leaf"),
        compound_def("beta", vec![field("part", false, true, vec![named("zeta_leaf")])]),
        NodeTypeDefinition::new_named(
            String::from("omega_union"),
            NodeTypeDefinitionKind::SuperType(SuperTypeNodeDefinition::new(vec![
                named("beta"),
                named("zeta_leaf"),
            ])),
        ),
        terminal_def("alpha_leaf"),
        compound_def(
            "alpha_compound",
            vec![field("pick", false, false, vec![named("alpha_leaf"), named("zeta_leaf")])],
        ),
        terminal_def("doc"),
    ])
}

fn unit_name(u: &EmissionUnit) -> &str {
    match u {
        EmissionUnit::Union { name, .. } => name,
        EmissionUnit::Compound { name, .. } => name,
        EmissionUnit::Leaf { name } => name,
    }
}

#[test]
fn test_emission_order_groups_then_names() {
    let grammars = vec![empty_grammar()];
    let node_types = sample_node_types();
    let plan = unify(&grammars, &node_types).expect("well-formed schema pair");
    let request = translate(&plan);
    let names: Vec<&str> = request.units().iter().map(unit_name).collect();
    // unions first (declared and synthesized alike), then compounds, then
    // leaves, each group lexicographic
    assert_eq!(
        names,
        vec![
            "alpha_leaf_or_zeta_leaf",
            "omega_union",
            "alpha_compound",
            "beta",
            "alpha_leaf",
            "doc",
            "zeta_leaf",
        ],
    );
}

#[test]
fn test_emission_union_unit_contents() {
    let grammars = vec![empty_grammar()];
    let node_types = sample_node_types();
    let plan = unify(&grammars, &node_types).expect("well-formed schema pair");
    let request = translate(&plan);
    let units = request.units();
    match &units[1] {
        EmissionUnit::Union { name, variants } => {
            assert_eq!(name, "omega_union");
            assert_eq!(variants, &vec![String::from("beta"), String::from("zeta_leaf")]);
        },
        other => panic!("expected union unit, got {other:?}"),
    }
    match &units[0] {
        EmissionUnit::Union { name, variants } => {
            assert_eq!(name, "alpha_leaf_or_zeta_leaf");
            assert_eq!(variants, &vec![String::from("alpha_leaf"), String::from("zeta_leaf")]);
        },
        other => panic!("expected union unit, got {other:?}"),
    }
}

#[test]
fn test_emission_compound_field_specs() {
    let grammars = vec![empty_grammar()];
    let node_types = sample_node_types();
    let plan = unify(&grammars, &node_types).expect("well-formed schema pair");
    let request = translate(&plan);
    match &request.units()[2] {
        EmissionUnit::Compound { name, fields } => {
            assert_eq!(name, "alpha_compound");
            assert_eq!(fields.len(), 1);
            assert_eq!(fields[0].name, "pick");
            assert_eq!(fields[0].cardinality, Cardinality::Optional);
            assert_eq!(fields[0].target, "alpha_leaf_or_zeta_leaf");
        },
        other => panic!("expected compound unit, got {other:?}"),
    }
}

#[test]
fn test_emission_deterministic() {
    let grammars = vec![empty_grammar()];
    let node_types = sample_node_types();
    let plan = unify(&grammars, &node_types).expect("well-formed schema pair");
    let first = translate(&plan);
    let second = translate(&plan);
    assert_eq!(format!("{first:?}"), format!("{second:?}"));
}

#[test]
fn test_for_language_surface() {
    let lang = ForLanguage::parse("rust").expect("known language");
    assert_eq!(lang, ForLanguage::Rust);
    assert!(ForLanguage::parse("fortran").is_none());
    assert_eq!(lang.output_dir(), "rust");
    assert_eq!(lang.file_extension(), "rs");
    assert_eq!(lang.as_str(), "rust");
    assert_eq!(ForLanguage::default(), ForLanguage::Rust);
}

#[test]
fn test_output_file_paths() {
    let constants = ConstantsFile;
    assert_eq!(constants.file_path(ForLanguage::Rust, None), "bindings/rust/nodes.rs");
    let over = String::from("target/out");
    assert_eq!(constants.file_path(ForLanguage::Rust, Some(&over)), "target/out/nodes.rs");
    let wrapper = WrapperFile;
    assert_eq!(wrapper.file_path(ForLanguage::Rust, None), "bindings/rust/wrapper.rs");
}

#[test]
fn test_wrapper_context_names() {
    let grammars = vec![empty_grammar()];
    let node_types = sample_node_types();
    let plan = unify(&grammars, &node_types).expect("well-formed schema pair");
    let request = translate(&plan);
    let context = WrapperFile.context(&grammars[0], &request);
    assert_eq!(context.name, "test_grammar");
    assert_eq!(
        context.compound_nodes,
        vec![String::from("alpha_compound"), String::from("beta")],
    );
    assert_eq!(
        context.value_nodes,
        vec![String::from("alpha_leaf"), String::from("doc"), String::from("zeta_leaf")],
    );
}

#[test]
fn test_constants_context_name_sets() {
    let node_types = sample_node_types();
    let context = ConstantsFile.context(&node_types);
    assert_eq!(context.super_node_names, vec![String::from("omega_union")]);
    assert_eq!(
        context.node_names,
        vec![String::from("alpha_compound"), String::from("beta")],
    );
    assert_eq!(context.field_names, vec![String::from("part"), String::from("pick")]);
    assert_eq!(
        context.terminal_names,
        vec![String::from("alpha_leaf"), String::from("doc"), String::from("zeta_leaf")],
    );
}
