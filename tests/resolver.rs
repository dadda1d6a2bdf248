use cfn_lsp::{
    completion_applies, detect_file_type, detect_template_language, extract_resource_type, goto_definition, parse,
    resource_type_under_cursor, should_complete, template_language_for, word_under_cursor, Location, Position,
    Range, Session, TemplateLanguage,
};

const TEMPLATE: &str = "Parameters:
  MyParameter:
    Type: String
Resources:
  Topic:
    Type: AWS::SNS::Topic
    Properties:
      DisplayName: !Ref MyParameter
";

#[test]
fn extract_simple() {
    let line = "Type: AWS::SNS::Topic";
    let pos = Position::new(0, 8);
    let resource_type = extract_resource_type(line, pos).expect("extracting resource name");
    assert_eq!(resource_type, "AWS::SNS::Topic");
}

#[test]
fn with_indent() {
    let line = "        Type: AWS::SNS::Topic";
    let pos = Position::new(0, 16);
    let resource_type = extract_resource_type(line, pos).expect("extracting resource name");
    assert_eq!(resource_type, "AWS::SNS::Topic");
}

#[test]
fn extract_not_over() {
    let line = "Type: AWS::SNS::Topic";
    let pos = Position::new(0, 0);
    assert!(extract_resource_type(line, pos).is_none());
}

#[test]
fn extract_past_end() {
    let line = "Type: AWS::SNS::Topic     ";
    let pos = Position::new(0, line.len() - 1);
    assert!(extract_resource_type(line, pos).is_none());
}

#[test]
fn extract_from_json() {
    let line = r#""Type": "AWS::SNS::Topic",""#;
    let pos = Position::new(0, 10);
    assert_eq!(extract_resource_type(line, pos), Some("AWS::SNS::Topic".to_string()));
}

#[test]
fn single_word_under_cursor() {
    let content = "This is a test";
    //             0123456789
    for (c, expected) in [0, 1, 2, 3, 4, 5, 6, 7, 8, 9].into_iter().zip([
        Some("This".to_string()),
        Some("This".to_string()),
        Some("This".to_string()),
        Some("This".to_string()),
        None,
        Some("is".to_string()),
        Some("is".to_string()),
        None,
        Some("a".to_string()),
        None,
    ]) {
        let position = Position { line: 0, column: c };
        assert_eq!(word_under_cursor(content, position), expected);
    }
}

#[test]
fn larger_template() {
    let mut content = String::new();
    for i in 0..46 {
        content.push_str(&format!("# line {i}\n"));
    }
    content.push_str("             Principal: TrustedAccounts\n");
    let position = Position { line: 46, column: 24 };
    assert_eq!(word_under_cursor(&content, position), Some("TrustedAccounts".to_string()));
}

#[test]
fn word_out_of_range_is_none() {
    assert_eq!(word_under_cursor("abc\ndef", Position::new(2, 0)), None);
    assert_eq!(word_under_cursor("abc\ndef", Position::new(1, 3)), None);
    assert_eq!(word_under_cursor("abc\ndef", Position::new(1, 1)), Some("def".to_string()));
    assert_eq!(word_under_cursor("", Position::new(0, 0)), None);
}

#[test]
fn goto_definition_finds_the_site() {
    let index = parse(TEMPLATE).unwrap();
    let found = goto_definition(TEMPLATE, &index, Position::new(7, 27));
    assert_eq!(
        found,
        vec![Location {
            name: "MyParameter".to_string(),
            range: Range { start: Position { line: 1, column: 2 }, end: Position { line: 1, column: 13 } },
        }]
    );
}

#[test]
fn goto_definition_without_match_is_empty() {
    let index = parse(TEMPLATE).unwrap();
    assert!(goto_definition(TEMPLATE, &index, Position::new(5, 7)).is_empty());
    assert!(goto_definition(TEMPLATE, &index, Position::new(5, 4)).is_empty());
}

#[test]
fn goto_definition_returns_every_site_of_a_name() {
    let text = "Resources:\n  Dup:\n    Type: AWS::SNS::Topic\nOutputs:\n  Dup:\n    Value: !Ref Dup\n";
    let index = parse(text).unwrap();
    let found = goto_definition(text, &index, Position::new(5, 17));
    assert_eq!(found.len(), 2);
    assert_eq!(found[0].range.start, Position::new(1, 2));
    assert_eq!(found[1].range.start, Position::new(4, 2));
}

#[test]
fn resource_type_on_a_line_of_the_text() {
    assert_eq!(resource_type_under_cursor(TEMPLATE, Position::new(5, 12)), Some("AWS::SNS::Topic".to_string()));
    assert_eq!(resource_type_under_cursor(TEMPLATE, Position::new(5, 2)), None);
    assert_eq!(resource_type_under_cursor(TEMPLATE, Position::new(40, 2)), None);
}

#[test]
fn completion_only_on_type_lines() {
    assert!(should_complete("    Type: AWS::", TemplateLanguage::Yaml));
    assert!(!should_complete("    Properties:", TemplateLanguage::Yaml));
    assert!(should_complete("  \"Type\": \"", TemplateLanguage::Json));
    assert!(!should_complete("    Type: AWS::", TemplateLanguage::Json));
    assert!(completion_applies(TEMPLATE, TemplateLanguage::Yaml, Position::new(5, 0)));
    assert!(!completion_applies(TEMPLATE, TemplateLanguage::Yaml, Position::new(4, 0)));
    assert!(!completion_applies(TEMPLATE, TemplateLanguage::Yaml, Position::new(99, 0)));
}

#[test]
fn language_detection() {
    assert_eq!(detect_template_language("/tmp/template.json", "Resources:"), TemplateLanguage::Json);
    assert_eq!(detect_template_language("/tmp/template.yml", "{}"), TemplateLanguage::Yaml);
    assert_eq!(detect_template_language("/tmp/template.yaml", "{}"), TemplateLanguage::Yaml);
    assert_eq!(detect_template_language("/tmp/template", "  \n{ }"), TemplateLanguage::Json);
    assert_eq!(detect_template_language("/tmp/template.txt", "Resources:"), TemplateLanguage::Yaml);
    assert_eq!(template_language_for(Some("json"), ""), TemplateLanguage::Json);
    assert_eq!(template_language_for(None, "{"), TemplateLanguage::Json);
    assert_eq!(detect_file_type(" x"), TemplateLanguage::Yaml);
}

#[test]
fn session_keeps_last_good_index() {
    let mut session = Session::new();
    assert!(session.goto_definition(Position::new(0, 0)).is_empty());
    session.set_text(TEMPLATE.to_string()).unwrap();
    assert_eq!(session.goto_definition(Position::new(7, 27)).len(), 1);
    assert_eq!(session.resource_type_at(Position::new(5, 12)), Some("AWS::SNS::Topic".to_string()));
    assert!(session.completion_applies("/tmp/t.yaml", Position::new(5, 3)));
    let before = session.index.clone();
    session.set_text("Resources:\n  Other:\n    Type: AWS::S3::Bucket\n".to_string()).unwrap();
    assert_ne!(session.index, before);
    assert_eq!(session.index.destinations[0].name, "Other");
}
