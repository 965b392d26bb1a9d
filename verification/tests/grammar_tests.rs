use grammar_gen::compile::{gen_enum_variant, gen_leaf, gen_nonterminal, generate_grammar, generate_grammars, resolve_root};
use grammar_gen::error::CompileError;
use grammar_gen::grammar::{Rule, RuleEntry};
use grammar_gen::json::to_json;
use grammar_gen::schema::{Container, Field, LeafSpec, Nonterminal, Production, SchemaItem, SchemaTree};

fn leaf(pattern: &str) -> Field {
    Field {
        name: None,
        leaf: Some(LeafSpec::Pattern(pattern.to_string())),
    }
}

fn named_leaf(name: &str, pattern: &str) -> Field {
    Field {
        name: Some(name.to_string()),
        leaf: Some(LeafSpec::Pattern(pattern.to_string())),
    }
}

fn production(name: &str, fields: Vec<Field>) -> Production {
    Production {
        name: name.to_string(),
        fields,
    }
}

fn nonterminal(name: &str, is_root: bool, productions: Vec<Production>) -> Nonterminal {
    Nonterminal {
        name: name.to_string(),
        is_root,
        productions,
    }
}

fn group(name: &str, is_grammar: bool, items: Vec<SchemaItem>) -> Container {
    Container {
        name: name.to_string(),
        is_grammar,
        items,
    }
}

fn symbol(name: &str) -> String {
    name.to_string()
}

#[test]
fn enum_transformed_fields() {
    let m = group(
        "ffi",
        false,
        vec![SchemaItem::Nonterminal(nonterminal(
            "Expression",
            true,
            vec![production("Number", vec![leaf("\\d+")])],
        ))],
    );
    assert_eq!(
        to_json(&generate_grammar(&m).unwrap()),
        "{\"name\":\"grammar\",\"rules\":{\"source_file\":{\"type\":\"ALIAS\",\"named\":false,\"value\":\"Expression\",\"content\":{\"type\":\"SYMBOL\",\"name\":\"Expression\"}},\"Expression_Number_0\":{\"type\":\"PATTERN\",\"value\":\"\\\\d+\"},\"Expression_Number\":{\"type\":\"SEQ\",\"members\":[{\"type\":\"SYMBOL\",\"name\":\"Expression_Number_0\"}]},\"Expression\":{\"type\":\"CHOICE\",\"members\":[{\"type\":\"SYMBOL\",\"name\":\"Expression_Number\"}]}}}"
    );
}

#[test]
fn single_leaf_rules() {
    let m = group(
        "g",
        true,
        vec![SchemaItem::Nonterminal(nonterminal(
            "Expr",
            true,
            vec![production("Number", vec![leaf("\\d+")])],
        ))],
    );
    let g = generate_grammar(&m).unwrap();
    assert_eq!(g.name, "grammar");
    assert_eq!(g.rules.len(), 4);
    assert_eq!(g.rules[0].id, "source_file");
    assert_eq!(
        g.rules[0].rule,
        Rule::Alias {
            named: false,
            value: "Expr".to_string(),
            content: "Expr".to_string(),
        }
    );
    assert_eq!(g.rules[1].id, "Expr_Number_0");
    assert_eq!(g.rules[1].rule, Rule::Pattern("\\d+".to_string()));
    assert_eq!(g.rules[2].id, "Expr_Number");
    assert_eq!(g.rules[2].rule, Rule::Sequence(vec![symbol("Expr_Number_0")]));
    assert_eq!(g.rules[3].id, "Expr");
    assert_eq!(g.rules[3].rule, Rule::Choice(vec![symbol("Expr_Number")]));
}

#[test]
fn empty_productions_compile_to_empty_sequences() {
    let m = group(
        "g",
        true,
        vec![SchemaItem::Nonterminal(nonterminal(
            "Unit",
            true,
            vec![production("A", vec![]), production("B", vec![])],
        ))],
    );
    let g = generate_grammar(&m).unwrap();
    assert_eq!(g.rules.len(), 4);
    assert_eq!(g.rules[1].id, "Unit_A");
    assert_eq!(g.rules[1].rule, Rule::Sequence(vec![]));
    assert_eq!(g.rules[2].id, "Unit_B");
    assert_eq!(g.rules[2].rule, Rule::Sequence(vec![]));
    assert_eq!(g.rules[3].id, "Unit");
    assert_eq!(g.rules[3].rule, Rule::Choice(vec![symbol("Unit_A"), symbol("Unit_B")]));
}

#[test]
fn empty_nonterminal_compiles_to_empty_choice() {
    let m = group(
        "g",
        true,
        vec![SchemaItem::Nonterminal(nonterminal("Never", true, vec![]))],
    );
    let g = generate_grammar(&m).unwrap();
    assert_eq!(g.rules.len(), 2);
    assert_eq!(g.rules[1].id, "Never");
    assert_eq!(g.rules[1].rule, Rule::Choice(vec![]));
}

#[test]
fn missing_root_is_reported() {
    let m = group(
        "lang",
        true,
        vec![SchemaItem::Nonterminal(nonterminal(
            "Expr",
            false,
            vec![production("Number", vec![leaf("\\d+")])],
        ))],
    );
    assert_eq!(
        generate_grammar(&m),
        Err(CompileError::MissingRootAnnotation("lang".to_string()))
    );
}

#[test]
fn ambiguous_root_lists_all_candidates() {
    let m = group(
        "lang",
        true,
        vec![
            SchemaItem::Nonterminal(nonterminal("A", true, vec![])),
            SchemaItem::Nonterminal(nonterminal("B", true, vec![])),
        ],
    );
    assert_eq!(
        generate_grammar(&m),
        Err(CompileError::AmbiguousRootAnnotation(vec![
            "A".to_string(),
            "B".to_string()
        ]))
    );
}

#[test]
fn non_string_pattern_is_reported_with_field_path() {
    let m = group(
        "g",
        true,
        vec![SchemaItem::Nonterminal(nonterminal(
            "Expr",
            true,
            vec![production(
                "Number",
                vec![Field {
                    name: None,
                    leaf: Some(LeafSpec::NonString),
                }],
            )],
        ))],
    );
    assert_eq!(
        generate_grammar(&m),
        Err(CompileError::MalformedLeafSpec("Expr_Number_0".to_string()))
    );
}

#[test]
fn missing_pattern_is_reported_with_field_path() {
    let m = group(
        "g",
        true,
        vec![SchemaItem::Nonterminal(nonterminal(
            "Expr",
            true,
            vec![production(
                "Pair",
                vec![named_leaf("left", "a"), Field {
                    name: Some("right".to_string()),
                    leaf: Some(LeafSpec::Missing),
                }],
            )],
        ))],
    );
    assert_eq!(
        generate_grammar(&m),
        Err(CompileError::MalformedLeafSpec("Expr_Pair_right".to_string()))
    );
}

#[test]
fn plain_field_is_reported_with_field_path() {
    let m = group(
        "g",
        true,
        vec![SchemaItem::Nonterminal(nonterminal(
            "Expr",
            true,
            vec![production(
                "Wrap",
                vec![Field {
                    name: Some("inner".to_string()),
                    leaf: None,
                }],
            )],
        ))],
    );
    assert_eq!(
        generate_grammar(&m),
        Err(CompileError::MalformedLeafSpec("Expr_Wrap_inner".to_string()))
    );
}

#[test]
fn duplicate_production_identity_is_reported() {
    let m = group(
        "g",
        true,
        vec![SchemaItem::Nonterminal(nonterminal(
            "A",
            true,
            vec![production("B", vec![]), production("B", vec![])],
        ))],
    );
    assert_eq!(
        generate_grammar(&m),
        Err(CompileError::DuplicateRuleName("A_B".to_string()))
    );
}

#[test]
fn nonterminal_clashing_with_source_file_is_reported() {
    let m = group(
        "g",
        true,
        vec![
            SchemaItem::Nonterminal(nonterminal("Expr", true, vec![])),
            SchemaItem::Nonterminal(nonterminal("source_file", false, vec![])),
        ],
    );
    assert_eq!(
        generate_grammar(&m),
        Err(CompileError::DuplicateRuleName("source_file".to_string()))
    );
}

#[test]
fn unsupported_item_is_reported() {
    let m = group(
        "g",
        true,
        vec![
            SchemaItem::Nonterminal(nonterminal("Expr", true, vec![])),
            SchemaItem::Other("struct Helper".to_string()),
        ],
    );
    assert_eq!(
        generate_grammar(&m),
        Err(CompileError::UnsupportedSchemaItem("struct Helper".to_string()))
    );
}

#[test]
fn field_declaration_order_is_kept() {
    let m = group(
        "g",
        true,
        vec![SchemaItem::Nonterminal(nonterminal(
            "Expr",
            true,
            vec![production(
                "Triple",
                vec![
                    named_leaf("first", "a"),
                    named_leaf("second", "b"),
                    named_leaf("third", "c"),
                ],
            )],
        ))],
    );
    let g = generate_grammar(&m).unwrap();
    assert_eq!(g.rules[4].id, "Expr_Triple");
    assert_eq!(
        g.rules[4].rule,
        Rule::Sequence(vec![
            symbol("Expr_Triple_first"),
            symbol("Expr_Triple_second"),
            symbol("Expr_Triple_third"),
        ])
    );
}

#[test]
fn positional_indices_reach_two_digits() {
    let fields: Vec<Field> = (0..11).map(|_| leaf("x")).collect();
    let m = group(
        "g",
        true,
        vec![SchemaItem::Nonterminal(nonterminal(
            "Expr",
            true,
            vec![production("Wide", fields)],
        ))],
    );
    let g = generate_grammar(&m).unwrap();
    let seq_rule = &g.rules[12];
    assert_eq!(seq_rule.id, "Expr_Wide");
    match &seq_rule.rule {
        Rule::Sequence(members) => {
            assert_eq!(members.len(), 11);
            assert_eq!(members[0], "Expr_Wide_0");
            assert_eq!(members[9], "Expr_Wide_9");
            assert_eq!(members[10], "Expr_Wide_10");
        }
        other => panic!("expected a sequence rule, got {:?}", other),
    }
}

#[test]
fn nested_groups_compile_inner_first() {
    let tree = SchemaTree {
        items: vec![SchemaItem::Container(group(
            "outer",
            true,
            vec![
                SchemaItem::Container(group(
                    "inner",
                    true,
                    vec![SchemaItem::Nonterminal(nonterminal(
                        "In",
                        true,
                        vec![production("P", vec![leaf("i")])],
                    ))],
                )),
                SchemaItem::Nonterminal(nonterminal(
                    "Out",
                    true,
                    vec![production("Q", vec![leaf("o")])],
                )),
            ],
        ))],
    };
    let results = generate_grammars(&tree);
    assert_eq!(results.len(), 2);
    let inner = results[0].as_ref().unwrap();
    assert_eq!(
        inner.rules[0].rule,
        Rule::Alias {
            named: false,
            value: "In".to_string(),
            content: "In".to_string(),
        }
    );
    let outer = results[1].as_ref().unwrap();
    assert_eq!(
        outer.rules[0].rule,
        Rule::Alias {
            named: false,
            value: "Out".to_string(),
            content: "Out".to_string(),
        }
    );
}

#[test]
fn unmarked_containers_are_searched_but_not_compiled() {
    let tree = SchemaTree {
        items: vec![
            SchemaItem::Other("fn main".to_string()),
            SchemaItem::Container(group(
                "wrapper",
                false,
                vec![SchemaItem::Container(group(
                    "lang",
                    true,
                    vec![SchemaItem::Nonterminal(nonterminal(
                        "Expr",
                        true,
                        vec![production("Number", vec![leaf("\\d+")])],
                    ))],
                ))],
            )),
        ],
    };
    let results = generate_grammars(&tree);
    assert_eq!(results.len(), 1);
    assert!(results[0].is_ok());
}

#[test]
fn group_failures_do_not_stop_other_groups() {
    let tree = SchemaTree {
        items: vec![
            SchemaItem::Container(group("bad", true, vec![])),
            SchemaItem::Container(group(
                "good",
                true,
                vec![SchemaItem::Nonterminal(nonterminal(
                    "Expr",
                    true,
                    vec![production("Number", vec![leaf("\\d+")])],
                ))],
            )),
        ],
    };
    let results = generate_grammars(&tree);
    assert_eq!(results.len(), 2);
    assert_eq!(
        results[0],
        Err(CompileError::MissingRootAnnotation("bad".to_string()))
    );
    assert!(results[1].is_ok());
}

#[test]
fn compiling_twice_yields_identical_documents() {
    let build = || {
        group(
            "g",
            true,
            vec![SchemaItem::Nonterminal(nonterminal(
                "Expr",
                true,
                vec![
                    production("Number", vec![leaf("\\d+")]),
                    production("Word", vec![named_leaf("text", "[a-z]+")]),
                ],
            ))],
        )
    };
    let first = to_json(&generate_grammar(&build()).unwrap());
    let second = to_json(&generate_grammar(&build()).unwrap());
    assert_eq!(first, second);
}

fn two_nonterminal_group() -> Container {
    group(
        "calc",
        true,
        vec![
            SchemaItem::Nonterminal(nonterminal(
                "Expr",
                true,
                vec![
                    production("Number", vec![leaf("\\d+")]),
                    production("Word", vec![named_leaf("text", "[a-z]+")]),
                ],
            )),
            SchemaItem::Nonterminal(nonterminal(
                "Op",
                false,
                vec![production("Plus", vec![leaf("\\+")])],
            )),
        ],
    )
}

#[test]
fn rule_identifiers_are_unique() {
    let g = generate_grammar(&two_nonterminal_group()).unwrap();
    for i in 0..g.rules.len() {
        for j in 0..g.rules.len() {
            if i != j {
                assert_ne!(g.rules[i].id, g.rules[j].id);
            }
        }
    }
}

#[test]
fn symbol_references_resolve_within_the_object() {
    let g = generate_grammar(&two_nonterminal_group()).unwrap();
    let mut refs: Vec<String> = Vec::new();
    for entry in &g.rules {
        match &entry.rule {
            Rule::Pattern(_) => {}
            Rule::Sequence(members) => refs.extend(members.iter().cloned()),
            Rule::Choice(members) => refs.extend(members.iter().cloned()),
            Rule::Alias { content, .. } => refs.push(content.clone()),
        }
    }
    assert!(!refs.is_empty());
    for name in refs {
        assert!(
            g.rules.iter().any(|entry| entry.id == name),
            "unresolved symbol reference: {}",
            name
        );
    }
}

#[test]
fn gen_leaf_extracts_the_pattern() {
    assert_eq!(
        gen_leaf(&"Expr_Number_0".to_string(), &leaf("\\d+")),
        Ok(Rule::Pattern("\\d+".to_string()))
    );
    let bad = Field {
        name: None,
        leaf: Some(LeafSpec::Missing),
    };
    assert_eq!(
        gen_leaf(&"Expr_Number_0".to_string(), &bad),
        Err(CompileError::MalformedLeafSpec("Expr_Number_0".to_string()))
    );
}

#[test]
fn gen_enum_variant_appends_field_and_sequence_rules() {
    let mut out: Vec<RuleEntry> = Vec::new();
    let prod = production("Number", vec![leaf("\\d+")]);
    let r = gen_enum_variant(&"Expr_Number".to_string(), &prod, &mut out);
    assert_eq!(r, Ok(()));
    assert_eq!(out.len(), 2);
    assert_eq!(out[0].id, "Expr_Number_0");
    assert_eq!(out[0].rule, Rule::Pattern("\\d+".to_string()));
    assert_eq!(out[1].id, "Expr_Number");
    assert_eq!(out[1].rule, Rule::Sequence(vec![symbol("Expr_Number_0")]));
}

#[test]
fn gen_enum_variant_leaves_map_unchanged_on_error() {
    let mut out: Vec<RuleEntry> = Vec::new();
    let good = production("Number", vec![leaf("\\d+")]);
    assert_eq!(gen_enum_variant(&"Expr_Number".to_string(), &good, &mut out), Ok(()));
    let before = out.clone();
    let bad = production(
        "Bad",
        vec![leaf("a"), Field { name: None, leaf: Some(LeafSpec::NonString) }],
    );
    assert_eq!(
        gen_enum_variant(&"Expr_Bad".to_string(), &bad, &mut out),
        Err(CompileError::MalformedLeafSpec("Expr_Bad_1".to_string()))
    );
    assert_eq!(out, before);
}

#[test]
fn gen_nonterminal_appends_choice_rule() {
    let mut out: Vec<RuleEntry> = Vec::new();
    let nt = nonterminal("Op", false, vec![production("Plus", vec![leaf("\\+")])]);
    assert_eq!(gen_nonterminal(&nt, &mut out), Ok(()));
    assert_eq!(out.len(), 3);
    assert_eq!(out[2].id, "Op");
    assert_eq!(out[2].rule, Rule::Choice(vec![symbol("Op_Plus")]));
}

#[test]
fn resolve_root_produces_the_alias_rule() {
    let m = two_nonterminal_group();
    let entry = resolve_root(&m).unwrap();
    assert_eq!(entry.id, "source_file");
    assert_eq!(
        entry.rule,
        Rule::Alias {
            named: false,
            value: "Expr".to_string(),
            content: "Expr".to_string(),
        }
    );
}
