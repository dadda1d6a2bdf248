use cfn_lsp::{CloudformationParser, Mark, Position, Range, ResourceProperties, Template, YamlEvent};
use yaml_rust::parser::Parser;
use yaml_rust::Event;

fn build(text: &str) -> Template {
    let mut parser = Parser::new(text.chars());
    let mut model = CloudformationParser::new();
    loop {
        let (ev, mark) = parser.next().expect("well-formed YAML");
        let end = ev == Event::StreamEnd;
        let ev = match ev {
            Event::Nothing => YamlEvent::Nothing,
            Event::StreamStart => YamlEvent::StreamStart,
            Event::StreamEnd => YamlEvent::StreamEnd,
            Event::DocumentStart => YamlEvent::DocumentStart,
            Event::DocumentEnd => YamlEvent::DocumentEnd,
            Event::Alias(id) => YamlEvent::Alias(id),
            Event::Scalar(value, ..) => YamlEvent::Scalar(value),
            Event::SequenceStart(_) => YamlEvent::SequenceStart,
            Event::SequenceEnd => YamlEvent::SequenceEnd,
            Event::MappingStart(_) => YamlEvent::MappingStart,
            Event::MappingEnd => YamlEvent::MappingEnd,
        };
        model.on_event(ev, Mark { index: mark.index(), line: mark.line(), col: mark.col() });
        if end {
            return model.get_template();
        }
    }
}

fn span(line: usize, start: usize, end: usize) -> Range {
    Range { start: Position { line, column: start }, end: Position { line, column: end } }
}

#[test]
fn parse_basic_template() {
    let example_contents = "Resources:
    MyTopic:
        Type: AWS::SNS::Topic
";
    let template = build(example_contents.trim());
    assert_eq!(template.version, None);
    assert_eq!(template.resources.len(), 1);
    let (name, resource) = &template.resources[0];
    assert_eq!(name.value, "MyTopic");
    assert_eq!(resource.value.kind.value, "AWS::SNS::Topic");
    assert_eq!(resource.value.kind.range, span(3, 14, 29));
    assert!(resource.value.properties.is_none());
}

#[test]
fn template_with_every_section() {
    let text = "AWSTemplateFormatVersion: 2010-09-09
Description: A topic
Parameters:
  Name:
    Type: String
    Default: topic
Resources:
  Topic:
    Type: AWS::SNS::Topic
    Properties:
      TopicName: x
      Tags:
        Team: core
Outputs:
  Arn:
    Value: arn
";
    let template = build(text);
    assert_eq!(template.version.as_ref().unwrap().value, "2010-09-09");
    assert_eq!(template.description.as_ref().unwrap().range, span(2, 13, 20));
    assert_eq!(template.parameters.len(), 1);
    let parameter = &template.parameters[0].1.value;
    assert_eq!(parameter.kind.value, "String");
    assert_eq!(parameter.default.as_ref().unwrap().value, "topic");
    assert_eq!(template.outputs.len(), 1);
    assert_eq!(template.outputs[0].1.value.value.value, "arn");
    assert_eq!(template.parameters[0].0.value, "Name");
    assert_eq!(template.outputs[0].0.value, "Arn");
    assert_eq!(template.resources.len(), 1);
    assert_eq!(template.resources[0].0.value, "Topic");
    let properties = template.resources[0].1.value.properties.as_ref().unwrap();
    match &properties.value {
        ResourceProperties::Mapping(entries) => {
            let keys: Vec<&str> = entries.iter().map(|(k, _)| k.value.as_str()).collect();
            assert_eq!(keys, vec!["TopicName", "Tags"]);
            match &entries[1].1.value {
                ResourceProperties::Mapping(inner) => assert_eq!(inner[0].0.value, "Team"),
                other => panic!("expected a mapping, got {other:?}"),
            }
        }
        other => panic!("expected a mapping, got {other:?}"),
    }
}

#[test]
fn events_without_a_document_do_not_panic() {
    let mut model = CloudformationParser::new();
    let mark = Mark { index: 0, line: 1, col: 0 };
    model.on_event(YamlEvent::MappingEnd, mark);
    model.on_event(YamlEvent::DocumentEnd, mark);
    model.on_event(YamlEvent::DocumentEnd, mark);
    model.on_event(YamlEvent::Scalar("x".to_string()), mark);
    model.on_event(YamlEvent::Scalar("y".to_string()), mark);
    model.on_event(YamlEvent::MappingStart, mark);
    let template = model.get_template();
    assert!(template.resources.is_empty());
}

fn names<V>(entries: &[(cfn_lsp::Located<String>, V)]) -> Vec<&str> {
    entries.iter().map(|(k, _)| k.value.as_str()).collect()
}

#[test]
fn nested_mappings_stay_inside_their_resource() {
    let text = "Resources:
  Bucket:
    Type: AWS::S3::Bucket
    Metadata:
      Foo: bar
  Queue:
    Type: AWS::SQS::Queue
Parameters:
  Env:
    Type: String
    AllowedValues:
      - dev
      - prod
    Meta:
      Deep: x
Outputs:
  Arn:
    Value: arn
    Export:
      Name: exported
";
    let template = build(text);
    assert_eq!(names(&template.resources), vec!["Bucket", "Queue"]);
    assert_eq!(template.resources[0].1.value.kind.value, "AWS::S3::Bucket");
    assert_eq!(template.resources[1].1.value.kind.value, "AWS::SQS::Queue");
    assert_eq!(names(&template.parameters), vec!["Env"]);
    assert_eq!(template.parameters[0].1.value.kind.value, "String");
    assert_eq!(names(&template.outputs), vec!["Arn"]);
    assert_eq!(template.outputs[0].1.value.value.value, "arn");
}

#[test]
fn sequence_items_are_not_keys() {
    let text = "Resources:
  Topic:
    DependsOn: [A, B]
    Type: AWS::SNS::Topic
  Other:
    DependsOn:
      - A
      - Key: v
    Type: AWS::SQS::Queue
";
    let template = build(text);
    assert_eq!(names(&template.resources), vec!["Topic", "Other"]);
    assert_eq!(template.resources[0].1.value.kind.value, "AWS::SNS::Topic");
    assert_eq!(template.resources[1].1.value.kind.value, "AWS::SQS::Queue");
}

#[test]
fn sections_the_model_does_not_read_are_passed_over() {
    let text = "Conditions:
  IsProd: !Equals [a, b]
Mappings:
  M:
    K: v
Resources:
  Topic:
    Type: AWS::SNS::Topic
";
    let template = build(text);
    assert_eq!(names(&template.resources), vec!["Topic"]);
}
