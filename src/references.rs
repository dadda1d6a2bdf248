//! The reference extractor: one pattern per intrinsic form, and the rule that
//! turns each pattern's captures into reference sites.
use vstd::prelude::*;
use crate::captures::{captures_plan, ranges_of_captures, ranges_view, ranges_within, ParsingError, ValueRule};
use crate::syntax::{captures_view, run_yaml_query, yaml_query_captures, RawCapture};
use crate::text::{chars_of, position_at};
use crate::types::{span_of, Position, Range, Reference, ReferenceKind};

verus! {

/// `Ref: Name`, `{Ref: Name}`, `!Ref Name` and `{"Ref": "Name"}`.
pub const REF_PATTERN: &'static str = r#"
(block_mapping_pair key: (flow_node) @key value: (flow_node (plain_scalar) @ref.target) (#eq? @key "Ref"))
(flow_pair key: (flow_node) @key value: (flow_node (plain_scalar) @ref.target) (#eq? @key "Ref"))
(flow_node (tag) @tag (plain_scalar) @ref.target (#eq? @tag "!Ref"))
(flow_pair key: (flow_node) @key value: (flow_node (double_quote_scalar) @ref.quoted) (#eq? @key "\"Ref\""))
"#;

/// `Fn::Sub` and `!Sub` on a string, or on a list whose first item is the string.
pub const SUB_PATTERN: &'static str = r#"
(block_mapping_pair key: (flow_node) @key value: (flow_node [(double_quote_scalar) (single_quote_scalar) (plain_scalar)] @sub.value) (#eq? @key "Fn::Sub"))
(block_mapping_pair key: (flow_node) @key value: (flow_node (flow_sequence . (flow_node) @sub.value)) (#eq? @key "Fn::Sub"))
(block_mapping_pair key: (flow_node) @key value: (block_node (block_sequence . (block_sequence_item (flow_node) @sub.value))) (#eq? @key "Fn::Sub"))
(flow_node (tag) @tag [(double_quote_scalar) (single_quote_scalar) (plain_scalar)] @sub.value (#eq? @tag "!Sub"))
(flow_node (tag) @tag (flow_sequence . (flow_node) @sub.value) (#eq? @tag "!Sub"))
(flow_pair key: (flow_node) @key value: (flow_node (double_quote_scalar) @sub.value) (#eq? @key "\"Fn::Sub\""))
(flow_pair key: (flow_node) @key value: (flow_node (flow_sequence . (flow_node) @sub.value)) (#eq? @key "\"Fn::Sub\""))
"#;

/// `Fn::GetAtt: [Name, Attr]` in either list form, and `Name.Attr` after
/// `Fn::GetAtt` or `!GetAtt`.
pub const GETATT_PATTERN: &'static str = r#"
(block_mapping_pair key: (flow_node) @key value: (flow_node (flow_sequence . (flow_node) @getatt.target)) (#eq? @key "Fn::GetAtt"))
(block_mapping_pair key: (flow_node) @key value: (block_node (block_sequence . (block_sequence_item (flow_node) @getatt.target))) (#eq? @key "Fn::GetAtt"))
(block_mapping_pair key: (flow_node) @key value: (flow_node (plain_scalar) @getatt.value) (#eq? @key "Fn::GetAtt"))
(flow_node (tag) @tag (plain_scalar) @getatt.value (#eq? @tag "!GetAtt"))
(flow_node (tag) @tag (flow_sequence . (flow_node) @getatt.target) (#eq? @tag "!GetAtt"))
(flow_pair key: (flow_node) @key value: (flow_node (flow_sequence . (flow_node (double_quote_scalar) @getatt.quoted))) (#eq? @key "\"Fn::GetAtt\""))
"#;

/// The first item of `Fn::FindInMap` or `!FindInMap`.
pub const FINDINMAP_PATTERN: &'static str = r#"
(block_mapping_pair key: (flow_node) @key value: (flow_node (flow_sequence . (flow_node) @findinmap.target)) (#eq? @key "Fn::FindInMap"))
(block_mapping_pair key: (flow_node) @key value: (block_node (block_sequence . (block_sequence_item (flow_node) @findinmap.target))) (#eq? @key "Fn::FindInMap"))
(flow_node (tag) @tag (flow_sequence . (flow_node) @findinmap.target) (#eq? @tag "!FindInMap"))
(flow_pair key: (flow_node) @key value: (flow_node (flow_sequence . (flow_node (double_quote_scalar) @findinmap.quoted))) (#eq? @key "\"Fn::FindInMap\""))
"#;

/// The first item of `Fn::If` or `!If`: the condition's name.
pub const IF_PATTERN: &'static str = r#"
(block_mapping_pair key: (flow_node) @key value: (flow_node (flow_sequence . (flow_node) @if.target)) (#eq? @key "Fn::If"))
(block_mapping_pair key: (flow_node) @key value: (block_node (block_sequence . (block_sequence_item (flow_node) @if.target))) (#eq? @key "Fn::If"))
(flow_node (tag) @tag (flow_sequence . (flow_node) @if.target) (#eq? @tag "!If"))
(flow_pair key: (flow_node) @key value: (flow_node (flow_sequence . (flow_node (double_quote_scalar) @if.quoted))) (#eq? @key "\"Fn::If\""))
"#;

/// `DependsOn: Name`, or each name of a list after `DependsOn`.
pub const DEPENDSON_PATTERN: &'static str = r#"
(block_mapping_pair key: (flow_node) @key value: (flow_node (plain_scalar) @dependson.target) (#eq? @key "DependsOn"))
(block_mapping_pair key: (flow_node) @key value: (flow_node (flow_sequence (flow_node) @dependson.target)) (#eq? @key "DependsOn"))
(block_mapping_pair key: (flow_node) @key value: (block_node (block_sequence (block_sequence_item (flow_node) @dependson.target))) (#eq? @key "DependsOn"))
(flow_pair key: (flow_node) @key value: (flow_node (double_quote_scalar) @dependson.quoted) (#eq? @key "\"DependsOn\""))
(flow_pair key: (flow_node) @key value: (flow_node (flow_sequence (flow_node (double_quote_scalar) @dependson.quoted))) (#eq? @key "\"DependsOn\""))
"#;

/// How each kind reads a name out of a `.value` capture.
pub open spec fn value_rule(kind: ReferenceKind) -> ValueRule {
    match kind {
        ReferenceKind::Sub => ValueRule::Placeholders,
        ReferenceKind::GetAtt => ValueRule::BeforeDot,
        _ => ValueRule::Ignore,
    }
}

fn rule_for(kind: ReferenceKind) -> (r: ValueRule)
    ensures
        r == value_rule(kind),
{
    match kind {
        ReferenceKind::Sub => ValueRule::Placeholders,
        ReferenceKind::GetAtt => ValueRule::BeforeDot,
        _ => ValueRule::Ignore,
    }
}

pub open spec fn pattern_for(kind: ReferenceKind) -> Seq<char> {
    match kind {
        ReferenceKind::Ref => REF_PATTERN@,
        ReferenceKind::Sub => SUB_PATTERN@,
        ReferenceKind::GetAtt => GETATT_PATTERN@,
        ReferenceKind::FindInMap => FINDINMAP_PATTERN@,
        ReferenceKind::If => IF_PATTERN@,
        ReferenceKind::DependsOn => DEPENDSON_PATTERN@,
    }
}
/// The reference record for the characters `p.0..p.1` of `t`.
pub open spec fn reference_view(t: Seq<char>, kind: ReferenceKind, p: (int, int)) -> (
    ReferenceKind,
    Seq<char>,
    Range,
) {
    (kind, t.subrange(p.0, p.1), span_of(t, p.0, p.1))
}

/// The reference records of the text `t` for all captures of one kind.
pub open spec fn references_view(t: Seq<char>, kind: ReferenceKind, cs: Seq<(Seq<char>, int, int)>) -> Seq<
    (ReferenceKind, Seq<char>, Range),
> {
    captures_plan(t, value_rule(kind), cs).map_values(|p: (int, int)| reference_view(t, kind, p))
}

/// What extracting the references of one kind from `t` yields.
pub open spec fn extracted(t: Seq<char>, kind: ReferenceKind) -> Option<
    Seq<(ReferenceKind, Seq<char>, Range)>,
> {
    match yaml_query_captures(t, pattern_for(kind)) {
        Some(cs) => Some(references_view(t, kind, cs)),
        None => None,
    }
}
pub open spec fn references_seq_view(v: Seq<Reference>) -> Seq<(ReferenceKind, Seq<char>, Range)> {
    v.map_values(|r: Reference| r@)
}
/// The reference records for character ranges of `text`.
fn build_references(text: &str, chars: &Vec<char>, kind: ReferenceKind, ranges: &Vec<(usize, usize)>) -> (r: Vec<Reference>)
    requires
        chars@ == text@,
        ranges_within(ranges@, text@.len() as int),
    ensures
        references_seq_view(r@) == ranges_view(ranges@).map_values(
            |p: (int, int)| reference_view(text@, kind, p),
        ),
{
    let ghost t = text@;
    let mut out: Vec<Reference> = Vec::new();
    let mut k: usize = 0;
    while k < ranges.len()
        invariant
            chars@ == t,
            t == text@,
            k <= ranges@.len(),
            ranges_within(ranges@, t.len() as int),
            references_seq_view(out@) == ranges_view(ranges@).take(k as int).map_values(
                |p: (int, int)| reference_view(t, kind, p),
            ),
        decreases ranges.len() - k,
    {
        let (x, y) = ranges[k];
        let target = text.substring_char(x, y).to_owned();
        let (sl, sc) = position_at(chars, x);
        let (el, ec) = position_at(chars, y);
        let span = Range { start: Position { line: sl, column: sc }, end: Position { line: el, column: ec } };
        let ghost prev = out@;
        out.push(Reference { kind, target, span });
        assert(ranges_view(ranges@).take(k + 1) =~= ranges_view(ranges@).take(k as int).push(
            ranges_view(ranges@)[k as int],
        ));
        assert(references_seq_view(out@) =~= references_seq_view(prev).push(
            reference_view(t, kind, (x as int, y as int)),
        ));
        assert(ranges_view(ranges@).take(k + 1).map_values(|p: (int, int)| reference_view(t, kind, p))
            =~= ranges_view(ranges@).take(k as int).map_values(|p: (int, int)| reference_view(t, kind, p)).push(
            reference_view(t, kind, (x as int, y as int)),
        ));
        k = k + 1;
    }
    assert(ranges_view(ranges@).take(ranges@.len() as int) =~= ranges_view(ranges@));
    out
}

/// The references of one kind in `text`, in the order of the captures that
/// produce them; a capture whose bytes do not fall on character boundaries is
/// passed over.
pub fn extract_references(text: &str, kind: ReferenceKind) -> (r: Result<Vec<Reference>, ParsingError>)
    ensures
        r is Err <==> extracted(text@, kind) is None,
        r matches Ok(v) ==> extracted(text@, kind) == Some(references_seq_view(v@)),
{
    match run_yaml_query(text, pattern(kind)) {
        Some(caps) => Ok(references_from_captures(text, kind, &caps)),
        None => Err(ParsingError::SettingLanguage),
    }
}

/// The references of one kind that the captures `caps` of its pattern over
/// `text` yield, in order; a capture whose bytes do not fall on character
/// boundaries is passed over.
pub fn references_from_captures(text: &str, kind: ReferenceKind, caps: &Vec<RawCapture>) -> (r: Vec<Reference>)
    ensures
        references_seq_view(r@) == references_view(text@, kind, captures_view(caps@)),
{
    let chars = chars_of(text);
    let ranges = ranges_of_captures(text, &chars, rule_for(kind), caps);
    build_references(text, &chars, kind, &ranges)
}

/// The `Ref` references of `text`.
pub fn extract_refs(text: &str) -> (r: Result<Vec<Reference>, ParsingError>)
    ensures
        r is Err <==> extracted(text@, ReferenceKind::Ref) is None,
        r matches Ok(v) ==> extracted(text@, ReferenceKind::Ref) == Some(references_seq_view(v@)),
{
    extract_references(text, ReferenceKind::Ref)
}

/// The `Fn::Sub` references of `text`: one for each placeholder name.
pub fn extract_subs(text: &str) -> (r: Result<Vec<Reference>, ParsingError>)
    ensures
        r is Err <==> extracted(text@, ReferenceKind::Sub) is None,
        r matches Ok(v) ==> extracted(text@, ReferenceKind::Sub) == Some(references_seq_view(v@)),
{
    extract_references(text, ReferenceKind::Sub)
}

/// The `Fn::GetAtt` references of `text`.
pub fn extract_getatts(text: &str) -> (r: Result<Vec<Reference>, ParsingError>)
    ensures
        r is Err <==> extracted(text@, ReferenceKind::GetAtt) is None,
        r matches Ok(v) ==> extracted(text@, ReferenceKind::GetAtt) == Some(references_seq_view(v@)),
{
    extract_references(text, ReferenceKind::GetAtt)
}

/// The `Fn::FindInMap` references of `text`.
pub fn extract_findinmaps(text: &str) -> (r: Result<Vec<Reference>, ParsingError>)
    ensures
        r is Err <==> extracted(text@, ReferenceKind::FindInMap) is None,
        r matches Ok(v) ==> extracted(text@, ReferenceKind::FindInMap) == Some(references_seq_view(v@)),
{
    extract_references(text, ReferenceKind::FindInMap)
}

/// The `Fn::If` references of `text`.
pub fn extract_ifs(text: &str) -> (r: Result<Vec<Reference>, ParsingError>)
    ensures
        r is Err <==> extracted(text@, ReferenceKind::If) is None,
        r matches Ok(v) ==> extracted(text@, ReferenceKind::If) == Some(references_seq_view(v@)),
{
    extract_references(text, ReferenceKind::If)
}

/// The `DependsOn` references of `text`.
pub fn extract_dependsons(text: &str) -> (r: Result<Vec<Reference>, ParsingError>)
    ensures
        r is Err <==> extracted(text@, ReferenceKind::DependsOn) is None,
        r matches Ok(v) ==> extracted(text@, ReferenceKind::DependsOn) == Some(references_seq_view(v@)),
{
    extract_references(text, ReferenceKind::DependsOn)
}

fn pattern(kind: ReferenceKind) -> (r: &'static str)
    ensures
        r@ == pattern_for(kind),
{
    match kind {
        ReferenceKind::Ref => REF_PATTERN,
        ReferenceKind::Sub => SUB_PATTERN,
        ReferenceKind::GetAtt => GETATT_PATTERN,
        ReferenceKind::FindInMap => FINDINMAP_PATTERN,
        ReferenceKind::If => IF_PATTERN,
        ReferenceKind::DependsOn => DEPENDSON_PATTERN,
    }
}

} // verus!
