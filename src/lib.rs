//! Indexing and cross-reference resolution for infrastructure templates.
//!
//! A template's text is parsed with a YAML grammar; structural patterns find
//! its definition sites (the keys under `Resources`, `Parameters`, `Outputs`
//! and `Mappings`) and its reference sites (`Ref`, `Fn::Sub`, `Fn::GetAtt`,
//! `Fn::FindInMap`, `Fn::If`, `DependsOn`). The index holds both, without
//! duplicates and in ascending order of name; the resolver answers what is
//! under the cursor and where it is defined. A located template model can
//! also be built from the events of a YAML parser.
mod captures;
mod destinations;
mod index;
mod order;
mod references;
mod resolver;
mod schema;
mod session;
mod syntax;
mod template;
mod text;
mod types;

pub use captures::{ParsingError, ValueRule};
pub use destinations::{destinations_from_captures, Destinations, JumpDestination, JumpDestinationType, Position as DestinationPosition, Span};
pub use index::{
    extract_all, lemma_extracted_lines, lemma_index_deterministic, lemma_index_lines, lemma_index_no_duplicates,
    lemma_index_sorted, lemma_index_spans,
    parse, parse_from, Error,
};
pub use references::{
    extract_dependsons, extract_findinmaps, extract_getatts, extract_ifs, extract_references, extract_refs,
    extract_subs, references_from_captures,
};
pub use resolver::{
    completion_applies, definition_candidates, detect_file_type, detect_template_language, extract_resource_type,
    goto_definition, is_whitespace, resource_type_under_cursor, should_complete, template_language_for,
    word_under_cursor, TemplateLanguage,
};
pub use schema::{
    extract_resource_from_bundle, get_resource_types, resource_info_from_schema, schema_file_name,
    strip_properties_prefix, Handler, HandlerEntry, Resource, ResourceInfo, SchemaBundle, SchemaDocument,
    SchemaError, SchemaFile,
};
pub use session::Session;
pub use syntax::RawCapture;
pub use template::{
    CloudformationParser, Located, LocatedProperties, Mark, Output, Parameter, Resource as TemplateResource,
    ResourceProperties, State, Template, YamlEvent,
};
pub use types::{Location, Position, Range, Reference, ReferenceKind, Targets};
