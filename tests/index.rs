use cfn_lsp::{
    extract_all, extract_dependsons, extract_findinmaps, extract_getatts, extract_ifs, extract_refs, extract_subs,
    parse, parse_from, Destinations, Error, JumpDestinationType, Location, Position, Range, Reference,
    ReferenceKind, Targets,
};

fn loc(name: &str, line: usize, col: usize) -> Location {
    Location {
        name: name.to_string(),
        range: Range { start: Position { line, column: col }, end: Position { line, column: col + name.len() } },
    }
}

fn reference(kind: ReferenceKind, target: &str, line: usize, col: usize) -> Reference {
    Reference {
        kind,
        target: target.to_string(),
        span: Range { start: Position { line, column: col }, end: Position { line, column: col + target.len() } },
    }
}

const TWO_RESOURCES: &str = "Resources:
  Topic:
    Type: AWS::SNS::Topic

  Parameter:
    Type: AWS::SSM::Parameter
    Properties:
      Type: String
      Value: !Ref Topic
";

const PARAMETERS: &str = "Parameters:
  MyParameter:
    Type: String
Resources:
  Topic:
    Type: AWS::SNS::Topic
    Properties:
      DisplayName: !Ref MyParameter
";

/// The text of `text` at a single-line span.
fn text_at(text: &str, range: &Range) -> String {
    let line = text.split('\n').nth(range.start.line).unwrap();
    assert_eq!(range.start.line, range.end.line);
    line.chars().skip(range.start.column).take(range.end.column - range.start.column).collect()
}

#[test]
fn parse_simple() {
    let targets = parse("Resources:\n  MyTopic:\n    Type: AWS::SNS::Topic\n").unwrap();
    assert_eq!(targets, Targets { destinations: vec![loc("MyTopic", 1, 2)], sources: Vec::new() });
    assert_eq!(targets.destinations[0].range.end.column, 9);
}

#[test]
fn parse_two_resources() {
    let targets = parse(TWO_RESOURCES).unwrap();
    assert_eq!(
        targets,
        Targets {
            destinations: vec![loc("Parameter", 4, 2), loc("Topic", 1, 2)],
            sources: vec![reference(ReferenceKind::Ref, "Topic", 8, 18)],
        }
    );
}

#[test]
fn parse_with_references() {
    let targets = parse(PARAMETERS).expect("parsing file for targets");
    assert_eq!(
        targets,
        Targets {
            destinations: vec![
                Location {
                    name: "MyParameter".to_string(),
                    range: Range { start: Position { line: 1, column: 2 }, end: Position { line: 1, column: 13 } },
                },
                Location {
                    name: "Topic".to_string(),
                    range: Range { start: Position { line: 4, column: 2 }, end: Position { line: 4, column: 7 } },
                },
            ],
            sources: vec![Reference {
                kind: ReferenceKind::Ref,
                target: "MyParameter".to_string(),
                span: Range { start: Position { line: 7, column: 24 }, end: Position { line: 7, column: 35 } },
            }],
        }
    );
}

#[test]
fn extract_from_subs() {
    let text = "Resources:
  MyTopic:
    Type: AWS::SNS::Topic
    Properties:
      TopicName:
        Fn::Sub: \"${MyParameter}\"
";
    let subs = extract_subs(text).unwrap();
    assert_eq!(subs, vec![reference(ReferenceKind::Sub, "MyParameter", 5, 20)]);
    assert_eq!(text_at(text, &subs[0].span), "MyParameter");
}

#[test]
fn sub_reference_names_each_placeholder() {
    let text = "Outputs:
  Arn:
    Value: !Sub \"arn:${AWS::Partition}:${Bucket.Arn}/${!Literal}\"
";
    let subs = extract_subs(text).unwrap();
    let targets: Vec<&str> = subs.iter().map(|r| r.target.as_str()).collect();
    assert_eq!(targets, vec!["AWS::Partition", "Bucket"]);
    for s in &subs {
        assert_eq!(text_at(text, &s.span), s.target);
    }
}

#[test]
fn extract_from_getatt() {
    let text = "Outputs:
  Arn:
    Value: !GetAtt MyResource.Arn
";
    let refs = extract_getatts(text).unwrap();
    assert_eq!(refs, vec![reference(ReferenceKind::GetAtt, "MyResource", 2, 19)]);
    assert_eq!(refs[0].span.end.column, refs[0].span.start.column + "MyResource".len());
}

#[test]
fn getatt_list_form() {
    let text = "Outputs:
  Arn:
    Value:
      Fn::GetAtt: [MyResource, Arn]
";
    let refs = extract_getatts(text).unwrap();
    assert_eq!(refs, vec![reference(ReferenceKind::GetAtt, "MyResource", 3, 19)]);
}

const INTRINSICS: &str = "Resources:
  Instance:
    Type: AWS::EC2::Instance
    DependsOn: [Bucket, Queue]
    Properties:
      ImageId: !FindInMap [RegionMap, !Ref AWS::Region, AMI]
      InstanceType: !If [IsProd, m5.large, t3.micro]
";

#[test]
fn extract_from_findinmap() {
    assert_eq!(
        extract_findinmaps(INTRINSICS).unwrap(),
        vec![reference(ReferenceKind::FindInMap, "RegionMap", 5, 27)]
    );
    let text = "Resources:\n  A:\n    Properties:\n      B:\n        Fn::FindInMap:\n          - Map\n          - Key\n";
    assert_eq!(extract_findinmaps(text).unwrap(), vec![reference(ReferenceKind::FindInMap, "Map", 5, 12)]);
}

#[test]
fn extract_from_if() {
    assert_eq!(extract_ifs(INTRINSICS).unwrap(), vec![reference(ReferenceKind::If, "IsProd", 6, 25)]);
    let text = "Outputs:\n  A:\n    Value:\n      Fn::If: [Cond, a, b]\n";
    assert_eq!(extract_ifs(text).unwrap(), vec![reference(ReferenceKind::If, "Cond", 3, 15)]);
}

#[test]
fn extract_from_dependson() {
    assert_eq!(
        extract_dependsons(INTRINSICS).unwrap(),
        vec![reference(ReferenceKind::DependsOn, "Bucket", 3, 16), reference(ReferenceKind::DependsOn, "Queue", 3, 24)]
    );
    let text = "Resources:\n  A:\n    Type: T\n    DependsOn: B\n";
    assert_eq!(extract_dependsons(text).unwrap(), vec![reference(ReferenceKind::DependsOn, "B", 3, 15)]);
}

#[test]
fn extract_from_two_resources() {
    assert_eq!(extract_refs(TWO_RESOURCES).unwrap(), vec![reference(ReferenceKind::Ref, "Topic", 8, 18)]);
}

#[test]
fn extract_from_parameters() {
    assert_eq!(extract_refs(PARAMETERS).unwrap(), vec![reference(ReferenceKind::Ref, "MyParameter", 7, 24)]);
}

const OUTPUTS: &str = "Resources:
  Topic:
    Type: AWS::SNS::Topic
Outputs:
  TopicArn:
    Value: !Ref Topic
  TopicName:
    Value:
      Ref: Topic
";

#[test]
fn extract_from_outputs() {
    assert_eq!(
        extract_refs(OUTPUTS).unwrap(),
        vec![reference(ReferenceKind::Ref, "Topic", 5, 16), reference(ReferenceKind::Ref, "Topic", 8, 11)]
    );
}

#[test]
fn extract_from_template() {
    let refs = extract_refs(INTRINSICS).unwrap();
    assert_eq!(refs, vec![reference(ReferenceKind::Ref, "AWS::Region", 5, 43)]);
    let flow = "Resources:\n  A:\n    Properties:\n      B: {Ref: C}\n";
    assert_eq!(extract_refs(flow).unwrap(), vec![reference(ReferenceKind::Ref, "C", 3, 15)]);
}

#[test]
fn parse_with_outputs() {
    let mut destinations = Destinations::new(OUTPUTS);
    let defs = destinations.definitions().unwrap();
    let names: Vec<(&str, JumpDestinationType)> = defs.iter().map(|d| (d.name.as_str(), d.kind)).collect();
    assert_eq!(
        names,
        vec![
            ("Topic", JumpDestinationType::Resource),
            ("TopicArn", JumpDestinationType::Output),
            ("TopicName", JumpDestinationType::Output)
        ]
    );
    assert_eq!((defs[2].span.start.line, defs[2].span.start.col, defs[2].span.end.col), (6, 2, 11));
}

#[test]
fn parse_parameters() {
    let mut destinations = Destinations::new(PARAMETERS);
    let defs = destinations.definitions().unwrap();
    assert_eq!(defs.len(), 2);
    assert_eq!(defs[1].name, "MyParameter");
    assert_eq!(defs[1].kind, JumpDestinationType::Parameter);
    assert_eq!((defs[1].span.start.line, defs[1].span.start.col, defs[1].span.end.col), (1, 2, 13));
}

#[test]
fn dependson_block_list() {
    let text = "Resources:
  Instance:
    Type: AWS::EC2::Instance
    DependsOn:
      - Bucket
";
    assert_eq!(extract_dependsons(text).unwrap(), vec![reference(ReferenceKind::DependsOn, "Bucket", 4, 8)]);
}

#[test]
fn extract_all_combines_references() {
    let text = "Resources:
  A:
    Type: AWS::SNS::Topic
    DependsOn: B
    Properties:
      X: !Ref B
      Y: !GetAtt B.Arn
      Z: !Sub \"${B}\"
";
    let all = extract_all(text).unwrap();
    let mut individual = Vec::new();
    individual.extend(extract_refs(text).unwrap());
    individual.extend(extract_subs(text).unwrap());
    individual.extend(extract_getatts(text).unwrap());
    individual.extend(extract_findinmaps(text).unwrap());
    individual.extend(extract_ifs(text).unwrap());
    individual.extend(extract_dependsons(text).unwrap());
    assert_eq!(all, individual);
    assert_eq!(all.len(), 4);
}

#[test]
fn index_is_deterministic() {
    assert_eq!(parse(PARAMETERS).unwrap(), parse(PARAMETERS).unwrap());
    assert_eq!(parse(TWO_RESOURCES).unwrap(), parse(TWO_RESOURCES).unwrap());
}

#[test]
fn index_has_no_duplicates_and_is_sorted() {
    let text = "Resources:
  Zeta:
    Type: AWS::SNS::Topic
    Properties:
      A: !Ref Alpha
      B: !Ref Alpha
  Alpha:
    Type: AWS::SNS::Topic
Outputs:
  Alpha:
    Value: !Ref Zeta
";
    let targets = parse(text).unwrap();
    let names: Vec<&str> = targets.destinations.iter().map(|l| l.name.as_str()).collect();
    assert_eq!(names, vec!["Alpha", "Alpha", "Zeta"]);
    let sources: Vec<&str> = targets.sources.iter().map(|r| r.target.as_str()).collect();
    assert_eq!(sources, vec!["Alpha", "Alpha", "Zeta"]);
    for (i, a) in targets.destinations.iter().enumerate() {
        for b in targets.destinations.iter().skip(i + 1) {
            assert_ne!(a, b);
            assert!(a.name <= b.name);
        }
    }
    for (i, a) in targets.sources.iter().enumerate() {
        for b in targets.sources.iter().skip(i + 1) {
            assert_ne!(a, b);
            assert!(a.target <= b.target);
        }
    }
}

#[test]
fn every_record_spans_its_name() {
    let targets = parse(PARAMETERS).unwrap();
    for d in &targets.destinations {
        assert_eq!(text_at(PARAMETERS, &d.range), d.name);
    }
    for s in &targets.sources {
        assert_eq!(text_at(PARAMETERS, &s.span), s.target);
    }
}

#[test]
fn nested_keys_are_not_destinations() {
    let text = "Resources:
  Bucket:
    Type: AWS::S3::Bucket
    Properties:
      BucketName: x
Mappings:
  RegionMap:
    us-east-1:
      AMI: ami-1
";
    let targets = parse(text).unwrap();
    assert_eq!(targets.destinations, vec![loc("Bucket", 1, 2), loc("RegionMap", 6, 2)]);
}

#[test]
fn empty_text_has_empty_index() {
    assert_eq!(parse("").unwrap(), Targets::default());
}

#[test]
fn json_template() {
    let text = "{\n  \"Resources\": {\n    \"Topic\": {\"Type\": \"AWS::SNS::Topic\"},\n    \"Sub\": {\"Properties\": {\"T\": {\"Ref\": \"Topic\"}}}\n  }\n}\n";
    let targets = parse(text).unwrap();
    assert_eq!(targets.destinations, vec![loc("Sub", 3, 5), loc("Topic", 2, 5)]);
    assert_eq!(targets.sources, vec![reference(ReferenceKind::Ref, "Topic", 3, 41)]);
}

#[test]
fn non_ascii_columns_count_characters() {
    let text = "Resources:\n  Tópico:\n    Type: AWS::SNS::Topic\n    Properties:\n      Name: !Ref Tópico\n";
    let targets = parse(text).unwrap();
    assert_eq!(targets.destinations[0].range, Range { start: Position { line: 1, column: 2 }, end: Position { line: 1, column: 8 } });
    assert_eq!(targets.sources[0].span, Range { start: Position { line: 4, column: 17 }, end: Position { line: 4, column: 23 } });
}

#[test]
fn parse_from_bytes() {
    assert_eq!(parse_from(TWO_RESOURCES.as_bytes()).unwrap(), parse(TWO_RESOURCES).unwrap());
    assert_eq!(parse_from(&[0x52, 0xff, 0x0a]), Err(Error::NotUtf8));
}

#[test]
fn definitions_carry_their_section() {
    let mut destinations = Destinations::new(PARAMETERS);
    let defs = destinations.definitions().unwrap();
    let kinds: Vec<(&str, JumpDestinationType)> = defs.iter().map(|d| (d.name.as_str(), d.kind)).collect();
    assert_eq!(kinds, vec![("Topic", JumpDestinationType::Resource), ("MyParameter", JumpDestinationType::Parameter)]);
    assert_eq!(defs[1].span.start.col, 2);
    assert_eq!(defs[1].span.end.col, 13);
}

#[test]
fn outputs_are_destinations() {
    let text = "Resources:\n  Topic:\n    Type: AWS::SNS::Topic\nOutputs:\n  TopicArn:\n    Value: !Ref Topic\n";
    let mut destinations = Destinations::new(text);
    let defs = destinations.definitions().unwrap();
    assert_eq!(defs.len(), 2);
    assert_eq!(defs[1].name, "TopicArn");
    assert_eq!(defs[1].kind, JumpDestinationType::Output);
}

fn capture(name: &str, start_byte: usize, end_byte: usize) -> cfn_lsp::RawCapture {
    cfn_lsp::RawCapture { name: name.to_string(), start_byte, end_byte }
}

#[test]
fn captures_become_references() {
    let text = "x: !Ref Abc\ny: é\nz: \"Q\"";
    let caps = vec![
        capture("key", 0, 1),
        capture("ref.target", 8, 11),
        capture("ref.target", 15, 16),
        capture("ref.target", 15, 17),
        capture("ref.quoted", 21, 24),
        capture("ref.target", 30, 40),
    ];
    let refs = cfn_lsp::references_from_captures(text, ReferenceKind::Ref, &caps);
    assert_eq!(
        refs,
        vec![
            reference(ReferenceKind::Ref, "Abc", 0, 8),
            Reference {
                kind: ReferenceKind::Ref,
                target: "é".to_string(),
                span: Range { start: Position { line: 1, column: 3 }, end: Position { line: 1, column: 4 } },
            },
            reference(ReferenceKind::Ref, "Q", 2, 4),
        ]
    );
}

#[test]
fn value_captures_are_read_by_kind() {
    let text = "s: \"${A}-${B.C}-${!D}\"\ng: Res.Arn";
    let sub = cfn_lsp::references_from_captures(text, ReferenceKind::Sub, &vec![capture("sub.value", 3, 22)]);
    assert_eq!(sub, vec![reference(ReferenceKind::Sub, "A", 0, 6), reference(ReferenceKind::Sub, "B", 0, 11)]);
    let getatt = cfn_lsp::references_from_captures(text, ReferenceKind::GetAtt, &vec![capture("getatt.value", 26, 33)]);
    assert_eq!(getatt, vec![reference(ReferenceKind::GetAtt, "Res", 1, 3)]);
    let other = cfn_lsp::references_from_captures(text, ReferenceKind::If, &vec![capture("if.value", 26, 33)]);
    assert!(other.is_empty());
}

#[test]
fn captures_become_destinations() {
    let text = "Resources:\n  Topic:\n";
    let defs = cfn_lsp::destinations_from_captures(
        text,
        JumpDestinationType::Resource,
        &vec![capture("section", 0, 9), capture("name.target", 13, 18)],
    );
    assert_eq!(defs.len(), 1);
    assert_eq!(defs[0].name, "Topic");
    assert_eq!((defs[0].span.start.line, defs[0].span.start.col, defs[0].span.end.col), (1, 2, 7));
}
