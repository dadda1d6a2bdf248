use cfn_lsp::{
    extract_resource_from_bundle, get_resource_types, resource_info_from_schema, schema_file_name,
    strip_properties_prefix, Handler, HandlerEntry, Resource, SchemaBundle, SchemaDocument, SchemaError,
    SchemaFile,
};

fn role() -> SchemaDocument {
    SchemaDocument {
        resource_type: "AWS::IAM::Role".to_string(),
        description: Some("Creates a role".to_string()),
        handlers: Some(vec![
            HandlerEntry {
                name: "create".to_string(),
                permissions: Some(vec![
                    Some("iam:CreateRole".to_string()),
                    Some("iam:PutRolePolicy".to_string()),
                    Some("iam:AttachRolePolicy".to_string()),
                    Some("iam:GetRolePolicy".to_string()),
                    Some("iam:TagRole".to_string()),
                    Some("iam:UntagRole".to_string()),
                    Some("iam:GetRole".to_string()),
                ]),
            },
            HandlerEntry { name: "list".to_string(), permissions: Some(vec![Some("iam:ListRoles".to_string())]) },
            HandlerEntry { name: "read".to_string(), permissions: Some(vec![Some("iam:GetRole".to_string()), None]) },
            HandlerEntry { name: "delete".to_string(), permissions: None },
        ]),
        create_only_properties: Some(vec!["/properties/Path".to_string(), "/properties/RoleName".to_string()]),
        primary_identifier: Some(vec!["/properties/RoleName".to_string(), "/properties/Arn".to_string()]),
        read_only_properties: Some(vec!["/properties/Arn".to_string()]),
        write_only_properties: None,
    }
}

#[test]
fn extracting_from_file() {
    let result = resource_info_from_schema(&role());
    assert_eq!(result.resource_type, "AWS::IAM::Role");
    let create = result.handler_permissions.iter().find(|(h, _)| *h == Handler::Create).unwrap().1.clone();
    assert_eq!(
        create,
        Some(vec![
            "iam:CreateRole".to_string(),
            "iam:PutRolePolicy".to_string(),
            "iam:AttachRolePolicy".to_string(),
            "iam:GetRolePolicy".to_string(),
            "iam:TagRole".to_string(),
            "iam:UntagRole".to_string(),
            "iam:GetRole".to_string(),
        ])
    );
    let read = result.handler_permissions.iter().find(|(h, _)| *h == Handler::Read).unwrap().1.clone();
    assert_eq!(read, Some(vec!["iam:GetRole".to_string()]));
    assert!(result.handler_permissions.iter().all(|(h, _)| *h != Handler::Delete));
    assert_eq!(result.handler_permissions.len(), 2);
    assert_eq!(result.create_only_properties, vec!["Path".to_string(), "RoleName".to_string()]);
    assert_eq!(result.read_only_properties, vec!["Arn".to_string()]);
    assert!(result.write_only_properties.is_empty());
    assert_eq!(result.primary_identifier, "RoleName|Arn");
}

#[test]
fn properties_prefix_is_stripped() {
    assert_eq!(strip_properties_prefix("/properties/Arn".to_string()), "Arn");
    assert_eq!(strip_properties_prefix("/properties/A/properties/B".to_string()), "A/properties/B");
    assert_eq!(strip_properties_prefix("/properties//properties/".to_string()), "/properties/");
    assert_eq!(strip_properties_prefix("Name/properties/".to_string()), "Name/properties/");
    assert_eq!(strip_properties_prefix("/propertiesX".to_string()), "/propertiesX");
    assert_eq!(strip_properties_prefix(String::new()), "");
}

#[test]
fn file_name_of_a_type() {
    assert_eq!(schema_file_name("AWS::IAM::Role"), "aws-iam-role.json");
    assert_eq!(schema_file_name("AWS::S3::Bucket"), "aws-s3-bucket.json");
}

fn bundle() -> SchemaBundle {
    SchemaBundle {
        files: vec![
            SchemaFile { name: "aws-iam-role.json".to_string(), document: Some(role()) },
            SchemaFile { name: "aws-s3-bucket.json".to_string(), document: None },
            SchemaFile {
                name: "README.txt".to_string(),
                document: Some(SchemaDocument {
                    resource_type: "Not::A::Type".to_string(),
                    description: None,
                    handlers: None,
                    create_only_properties: None,
                    primary_identifier: None,
                    read_only_properties: None,
                    write_only_properties: None,
                }),
            },
        ],
    }
}

#[test]
fn resource_info_from_bundle() {
    let info = extract_resource_from_bundle(&bundle(), "AWS::IAM::Role").unwrap();
    assert_eq!(info.description, Some("Creates a role".to_string()));
    assert_eq!(
        extract_resource_from_bundle(&bundle(), "AWS::S3::Bucket"),
        Err(SchemaError::ParseJson { filename: "aws-s3-bucket.json".to_string() })
    );
    assert_eq!(
        extract_resource_from_bundle(&bundle(), "AWS::SNS::Topic"),
        Err(SchemaError::FileNotFound { filename: "aws-sns-topic.json".to_string() })
    );
}

#[test]
fn resource_types_of_bundle() {
    assert_eq!(
        get_resource_types(&bundle()),
        vec![Resource { resource_type: "AWS::IAM::Role".to_string(), description: Some("Creates a role".to_string()) }]
    );
}

#[test]
fn handler_names() {
    assert_eq!(Handler::Create.name(), "Create");
    assert_eq!(Handler::Delete.name(), "Delete");
}
