//! Tests of the two document models and the identifier type.
use cargo_tsgen::grammar::{GrammarFile, GrammarRule};
use cargo_tsgen::ident::Identifier;
use cargo_tsgen::node_types::{
    NodeChildren, NodeType, NodeTypeDefinition, NodeTypeDefinitionKind, NodeTypesFile,
    RegularNodeDefinition, SuperTypeNodeDefinition,
};

fn ident(s: &str) -> Identifier {
    Identifier::new(String::from(s)).expect("valid identifier")
}

fn named(s: &str) -> NodeType {
    NodeType::new_named(String::from(s))
}

fn terminal_def(s: &str) -> NodeTypeDefinition {
    NodeTypeDefinition::new_named(
        String::from(s),
        NodeTypeDefinitionKind::Regular(RegularNodeDefinition::terminal()),
    )
}

fn sample_file() -> NodeTypesFile {
    NodeTypesFile::new(vec![
        NodeTypeDefinition::new_named(
            String::from("statement"),
            NodeTypeDefinitionKind::SuperType(SuperTypeNodeDefinition::new(vec![
                named("assignment"),
                named("call"),
            ])),
        ),
        NodeTypeDefinition::new_named(
            String::from("assignment"),
            NodeTypeDefinitionKind::Regular(RegularNodeDefinition::regular(
                Some(vec![
                    (String::from("target"), NodeChildren::new(false, true, vec![named("name")])),
                    (String::from("value"), NodeChildren::new(false, true, vec![named("call")])),
                ]),
                None,
            )),
        ),
        terminal_def("call"),
        terminal_def("name"),
    ])
}

#[test]
fn test_identifier_validation() {
    assert!(Identifier::new(String::from("module_body")).is_some());
    assert!(Identifier::new(String::from("_private")).is_some());
    assert!(Identifier::new(String::from("Rule7")).is_some());
    assert!(Identifier::new(String::from("")).is_none());
    assert!(Identifier::new(String::from("7rule")).is_none());
    assert!(Identifier::new(String::from("with-dash")).is_none());
    assert!(Identifier::new(String::from("with space")).is_none());
}

#[test]
fn test_node_type_axes() {
    let a = NodeType::new_named(String::from("plus"));
    let b = NodeType::new_unnamed(String::from("plus"));
    assert_eq!(a.node_type(), "plus");
    assert!(a.is_named());
    assert!(!b.is_named());
    assert!(a.same_kind(&a.duplicate()));
    assert!(!a.same_kind(&b));
}

#[test]
fn test_node_children_accessors() {
    let ch = NodeChildren::new(true, false, vec![named("x"), named("y")]);
    assert!(ch.is_multiple());
    assert!(!ch.is_required());
    assert!(ch.has_types());
    assert_eq!(ch.type_count(), 2);
    assert_eq!(ch.types()[1].node_type(), "y");
    let empty = NodeChildren::new(false, false, vec![]);
    assert!(!empty.has_types());
    assert_eq!(empty.type_count(), 0);
}

#[test]
fn test_definition_kind_classification() {
    let term = NodeTypeDefinitionKind::Regular(RegularNodeDefinition::terminal());
    assert!(term.is_terminal());
    assert!(!term.is_regular());
    assert!(!term.is_super_type());
    assert!(term.as_regular().is_some());
    assert!(term.as_super_type().is_none());

    let reg = NodeTypeDefinitionKind::Regular(RegularNodeDefinition::regular(
        None,
        Some(NodeChildren::new(true, true, vec![named("x")])),
    ));
    assert!(reg.is_regular());
    assert!(!reg.is_terminal());

    let sup = NodeTypeDefinitionKind::SuperType(SuperTypeNodeDefinition::new(vec![named("x")]));
    assert!(sup.is_super_type());
    assert!(!sup.is_regular());
    assert!(!sup.is_terminal());
    assert_eq!(sup.as_super_type().unwrap().subtype_count(), 1);
    assert!(sup.as_super_type().unwrap().has_subtypes());
}

#[test]
fn test_regular_definition_accessors() {
    let reg = RegularNodeDefinition::regular(
        Some(vec![
            (String::from("beta"), NodeChildren::new(false, true, vec![named("x")])),
            (String::from("alpha"), NodeChildren::new(false, false, vec![named("y")])),
        ]),
        None,
    );
    assert!(!reg.is_terminal());
    assert!(reg.has_fields());
    // declared order is preserved, not sorted
    assert_eq!(reg.field_names(), vec![String::from("beta"), String::from("alpha")]);
    assert!(reg.children().is_none());
    assert_eq!(reg.fields().unwrap().len(), 2);

    let term = RegularNodeDefinition::terminal();
    assert!(term.is_terminal());
    assert!(!term.has_fields());
    assert!(term.field_names().is_empty());
}

#[test]
fn test_node_types_file_counts_and_filters() {
    let file = sample_file();
    assert!(file.has_definitions());
    assert_eq!(file.definition_count(), 4);
    assert_eq!(file.definitions().len(), 4);
    assert_eq!(file.super_type_definitions().len(), 1);
    assert_eq!(file.regular_definitions().len(), 1);
    assert_eq!(file.terminal_definitions().len(), 2);
    assert_eq!(
        file.super_type_definitions()[0].node_type_name(),
        "statement",
    );
}

#[test]
fn test_node_types_file_name_sets() {
    let file = sample_file();
    assert_eq!(
        file.node_type_names(),
        vec![
            String::from("assignment"),
            String::from("call"),
            String::from("name"),
            String::from("statement"),
        ],
    );
    assert_eq!(file.super_type_node_type_names(), vec![String::from("statement")]);
    assert_eq!(file.regular_node_type_names(), vec![String::from("assignment")]);
    assert_eq!(
        file.terminal_node_type_names(),
        vec![String::from("call"), String::from("name")],
    );
    assert_eq!(
        file.field_names(),
        vec![String::from("target"), String::from("value")],
    );
}

#[test]
fn test_definition_accessors() {
    let def = NodeTypeDefinition::new(
        NodeType::new(String::from("leaf"), true),
        NodeTypeDefinitionKind::Regular(RegularNodeDefinition::terminal()),
    );
    assert_eq!(def.node_type_name(), "leaf");
    assert!(def.node_type().is_named());
    assert!(def.kind().is_terminal());
    let anon = NodeTypeDefinition::new_unnamed(
        String::from(";"),
        NodeTypeDefinitionKind::Regular(RegularNodeDefinition::terminal()),
    );
    assert!(!anon.node_type().is_named());
}

#[test]
fn test_grammar_file_accessors() {
    let grammar = GrammarFile::new(
        ident("sample"),
        Some(ident("base")),
        vec![
            (ident("doc"), GrammarRule::Blank),
            (ident("word_rule"), GrammarRule::Literal { value: String::from("kw") }),
        ],
        vec![vec![ident("doc"), ident("word_rule")]],
        vec![GrammarRule::Symbol { name: ident("ext_token") }],
        vec![GrammarRule::Pattern { value: String::from("\\s"), flags: None }],
        vec![ident("doc")],
        vec![(ident("ctx"), vec![GrammarRule::Literal { value: String::from("if") }])],
        vec![ident("statement")],
        Some(ident("word_rule")),
    );
    assert_eq!(grammar.name().as_str(), "sample");
    assert_eq!(grammar.inherits().unwrap().as_str(), "base");
    assert_eq!(grammar.rules().len(), 2);
    let rule_names: Vec<&str> = grammar.rule_names().iter().map(|i| i.as_str()).collect();
    assert_eq!(rule_names, vec!["doc", "word_rule"]);
    assert_eq!(grammar.conflicts().len(), 1);
    assert_eq!(grammar.externals().len(), 1);
    assert_eq!(grammar.extras().len(), 1);
    assert_eq!(grammar.inline().len(), 1);
    assert_eq!(grammar.reserved().len(), 1);
    let reserved_names: Vec<&str> = grammar.reserved_names().iter().map(|i| i.as_str()).collect();
    assert_eq!(reserved_names, vec!["ctx"]);
    assert_eq!(grammar.supertypes()[0].as_str(), "statement");
    assert_eq!(grammar.word().unwrap().as_str(), "word_rule");
}

#[test]
fn test_rule_lookup_by_name() {
    let grammar = GrammarFile::new(
        ident("sample"),
        None,
        vec![
            (ident("doc"), GrammarRule::Blank),
            (ident("word_rule"), GrammarRule::Literal { value: String::from("kw") }),
        ],
        vec![],
        vec![],
        vec![],
        vec![],
        vec![],
        vec![],
        None,
    );
    match grammar.rule_named(&ident("word_rule")) {
        Some(GrammarRule::Literal { value }) => assert_eq!(value, "kw"),
        other => panic!("expected the literal rule, got {other:?}"),
    }
    assert!(grammar.rule_named(&ident("absent")).is_none());
}

#[test]
fn test_definition_lookup_by_name() {
    let file = sample_file();
    let def = file.definition_named("assignment").expect("defined");
    assert!(def.kind().is_regular());
    assert!(file.definition_named("nothing_here").is_none());
    // the lookup walks the named axis only
    let anon_only = NodeTypesFile::new(vec![NodeTypeDefinition::new_unnamed(
        String::from("plus"),
        NodeTypeDefinitionKind::Regular(RegularNodeDefinition::terminal()),
    )]);
    assert!(anon_only.definition_named("plus").is_none());
}

#[test]
fn test_identifier_validation_function() {
    assert!(cargo_tsgen::ident::is_valid_identifier("module_body"));
    assert!(!cargo_tsgen::ident::is_valid_identifier("9lives"));
    assert!(!cargo_tsgen::ident::is_valid_identifier(""));
}

#[test]
fn test_schema_uri_names_grammar_schema() {
    assert!(cargo_tsgen::grammar::SCHEMA_URI.ends_with("grammar.schema.json"));
}

#[test]
fn test_identifier_text_queries() {
    let id = ident("module");
    assert_eq!(id.as_str(), "module");
    assert!(id.text_is("module"));
    assert!(!id.text_is("modul"));
    assert!(id.same_as(&id.duplicate()));
    assert!(!id.same_as(&ident("other")));
}
