use grammar_gen::compile::generate_grammar;
use grammar_gen::json::to_json;
use grammar_gen::schema::{Container, Field, LeafSpec, Nonterminal, Production, SchemaItem};

fn single_leaf_group(pattern: &str) -> Container {
    Container {
        name: "g".to_string(),
        is_grammar: true,
        items: vec![SchemaItem::Nonterminal(Nonterminal {
            name: "Expr".to_string(),
            is_root: true,
            productions: vec![Production {
                name: "Number".to_string(),
                fields: vec![Field {
                    name: None,
                    leaf: Some(LeafSpec::Pattern(pattern.to_string())),
                }],
            }],
        })],
    }
}

#[test]
fn document_parses_as_json_with_expected_shape() {
    let g = generate_grammar(&single_leaf_group("\\d+")).unwrap();
    let text = to_json(&g);
    let v: serde_json::Value = serde_json::from_str(&text).unwrap();
    assert_eq!(v["name"], "grammar");
    assert_eq!(v["rules"]["source_file"]["type"], "ALIAS");
    assert_eq!(v["rules"]["source_file"]["named"], false);
    assert_eq!(v["rules"]["source_file"]["value"], "Expr");
    assert_eq!(v["rules"]["source_file"]["content"]["type"], "SYMBOL");
    assert_eq!(v["rules"]["source_file"]["content"]["name"], "Expr");
    assert_eq!(v["rules"]["Expr_Number_0"]["type"], "PATTERN");
    assert_eq!(v["rules"]["Expr_Number_0"]["value"], "\\d+");
    assert_eq!(v["rules"]["Expr_Number"]["type"], "SEQ");
    assert_eq!(v["rules"]["Expr_Number"]["members"][0]["name"], "Expr_Number_0");
    assert_eq!(v["rules"]["Expr"]["type"], "CHOICE");
    assert_eq!(v["rules"]["Expr"]["members"][0]["name"], "Expr_Number");
    assert_eq!(v["rules"].as_object().unwrap().len(), 4);
}

#[test]
fn pattern_text_survives_escaping_round_trip() {
    let pattern = "a\"b\\c\nd\te\rf\u{8}g\u{c}h\u{1}i";
    let g = generate_grammar(&single_leaf_group(pattern)).unwrap();
    let text = to_json(&g);
    let v: serde_json::Value = serde_json::from_str(&text).unwrap();
    assert_eq!(v["rules"]["Expr_Number_0"]["value"], pattern);
}

#[test]
fn control_characters_use_unicode_escapes() {
    let g = generate_grammar(&single_leaf_group("x\u{1}y\u{1f}z")).unwrap();
    let text = to_json(&g);
    assert!(text.contains("x\\u0001y\\u001fz"));
}

#[test]
fn quotes_and_backslashes_are_escaped() {
    let g = generate_grammar(&single_leaf_group("say \"hi\\now\"")).unwrap();
    let text = to_json(&g);
    assert!(text.contains("say \\\"hi\\\\now\\\""));
}
