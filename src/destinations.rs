//! The destination indexer: the named definition sites directly under the
//! four template sections.
use vstd::prelude::*;
use crate::captures::{captures_plan, ranges_of_captures, ranges_view, ranges_within, ParsingError, ValueRule};
use crate::syntax::{captures_view, run_yaml_query, yaml_query_captures, RawCapture};
use crate::text::{chars_of, pos_at, position_at};

verus! {

/// The keys directly under the top-level `Resources` key.
pub const RESOURCES_PATTERN: &'static str = r#"
((document (block_node (block_mapping (block_mapping_pair key: (flow_node) @section value: (block_node (block_mapping (block_mapping_pair key: (flow_node) @name.target))))))) (#eq? @section "Resources"))
((document (flow_node (flow_mapping (flow_pair key: (flow_node) @section value: (flow_node (flow_mapping (flow_pair key: (flow_node (double_quote_scalar) @name.quoted)))))))) (#eq? @section "\"Resources\""))
"#;

/// The keys directly under the top-level `Parameters` key.
pub const PARAMETERS_PATTERN: &'static str = r#"
((document (block_node (block_mapping (block_mapping_pair key: (flow_node) @section value: (block_node (block_mapping (block_mapping_pair key: (flow_node) @name.target))))))) (#eq? @section "Parameters"))
((document (flow_node (flow_mapping (flow_pair key: (flow_node) @section value: (flow_node (flow_mapping (flow_pair key: (flow_node (double_quote_scalar) @name.quoted)))))))) (#eq? @section "\"Parameters\""))
"#;

/// The keys directly under the top-level `Outputs` key.
pub const OUTPUTS_PATTERN: &'static str = r#"
((document (block_node (block_mapping (block_mapping_pair key: (flow_node) @section value: (block_node (block_mapping (block_mapping_pair key: (flow_node) @name.target))))))) (#eq? @section "Outputs"))
((document (flow_node (flow_mapping (flow_pair key: (flow_node) @section value: (flow_node (flow_mapping (flow_pair key: (flow_node (double_quote_scalar) @name.quoted)))))))) (#eq? @section "\"Outputs\""))
"#;

/// The keys directly under the top-level `Mappings` key.
pub const MAPPINGS_PATTERN: &'static str = r#"
((document (block_node (block_mapping (block_mapping_pair key: (flow_node) @section value: (block_node (block_mapping (block_mapping_pair key: (flow_node) @name.target))))))) (#eq? @section "Mappings"))
((document (flow_node (flow_mapping (flow_pair key: (flow_node) @section value: (flow_node (flow_mapping (flow_pair key: (flow_node (double_quote_scalar) @name.quoted)))))))) (#eq? @section "\"Mappings\""))
"#;

/// The template section that a definition belongs to.
#[derive(Clone, Copy, Debug, PartialEq, Eq, Hash, Structural)]
pub enum JumpDestinationType {
    Resource,
    Parameter,
    Mapping,
    Output,
}

/// A zero-based line and column; columns count characters.
#[derive(Clone, Copy, Debug, PartialEq, Eq, Hash, Structural)]
pub struct Position {
    pub line: usize,
    pub col: usize,
}

/// A half-open span.
#[derive(Clone, Copy, Debug, PartialEq, Eq, Hash, Structural)]
pub struct Span {
    pub start: Position,
    pub end: Position,
}

/// A definition site with its section.
#[derive(Clone, Debug, PartialEq, Eq, Hash)]
pub struct JumpDestination {
    pub name: String,
    pub kind: JumpDestinationType,
    pub span: Span,
}

impl View for JumpDestination {
    type V = (Seq<char>, JumpDestinationType, Span);

    open spec fn view(&self) -> (Seq<char>, JumpDestinationType, Span) {
        (self.name@, self.kind, self.span)
    }
}

/// The definition sites of one template text.
pub struct Destinations<'s> {
    content: &'s str,
}

/// The sections in the order in which their definitions are listed.
pub open spec fn section_at(i: int) -> JumpDestinationType {
    if i == 0 {
        JumpDestinationType::Resource
    } else if i == 1 {
        JumpDestinationType::Parameter
    } else if i == 2 {
        JumpDestinationType::Output
    } else {
        JumpDestinationType::Mapping
    }
}

pub open spec fn section_pattern(kind: JumpDestinationType) -> Seq<char> {
    match kind {
        JumpDestinationType::Resource => RESOURCES_PATTERN@,
        JumpDestinationType::Parameter => PARAMETERS_PATTERN@,
        JumpDestinationType::Output => OUTPUTS_PATTERN@,
        JumpDestinationType::Mapping => MAPPINGS_PATTERN@,
    }
}

/// The span of the characters `x..y` of `t`.
pub open spec fn jump_span_of(t: Seq<char>, x: int, y: int) -> Span {
    Span {
        start: Position { line: pos_at(t, x).0 as usize, col: pos_at(t, x).1 as usize },
        end: Position { line: pos_at(t, y).0 as usize, col: pos_at(t, y).1 as usize },
    }
}

pub open spec fn destination_view(t: Seq<char>, kind: JumpDestinationType, p: (int, int)) -> (
    Seq<char>,
    JumpDestinationType,
    Span,
) {
    (t.subrange(p.0, p.1), kind, jump_span_of(t, p.0, p.1))
}

/// The definition sites of one section of `t`; `None` where its pattern
/// cannot be run.
pub open spec fn section_definitions(t: Seq<char>, kind: JumpDestinationType) -> Option<
    Seq<(Seq<char>, JumpDestinationType, Span)>,
> {
    match yaml_query_captures(t, section_pattern(kind)) {
        Some(cs) => Some(
            captures_plan(t, ValueRule::Ignore, cs).map_values(|p: (int, int)| destination_view(t, kind, p)),
        ),
        None => None,
    }
}

/// The definition sites of the first `n` sections of `t`, section by section.
pub open spec fn definitions_upto(t: Seq<char>, n: int) -> Option<Seq<(Seq<char>, JumpDestinationType, Span)>>
    decreases n,
{
    if n <= 0 {
        Some(seq![])
    } else {
        match (definitions_upto(t, n - 1), section_definitions(t, section_at(n - 1))) {
            (Some(a), Some(b)) => Some(a + b),
            _ => None,
        }
    }
}

/// The definition sites of `t`: those of `Resources`, then `Parameters`,
/// `Outputs` and `Mappings`, each section in the order of the text.
pub open spec fn definitions_of(t: Seq<char>) -> Option<Seq<(Seq<char>, JumpDestinationType, Span)>> {
    definitions_upto(t, 4)
}

pub open spec fn destinations_view(v: Seq<JumpDestination>) -> Seq<(Seq<char>, JumpDestinationType, Span)> {
    v.map_values(|d: JumpDestination| d@)
}

fn section(i: usize) -> (r: JumpDestinationType)
    ensures
        r == section_at(i as int),
{
    if i == 0 {
        JumpDestinationType::Resource
    } else if i == 1 {
        JumpDestinationType::Parameter
    } else if i == 2 {
        JumpDestinationType::Output
    } else {
        JumpDestinationType::Mapping
    }
}

fn pattern(kind: JumpDestinationType) -> (r: &'static str)
    ensures
        r@ == section_pattern(kind),
{
    match kind {
        JumpDestinationType::Resource => RESOURCES_PATTERN,
        JumpDestinationType::Parameter => PARAMETERS_PATTERN,
        JumpDestinationType::Output => OUTPUTS_PATTERN,
        JumpDestinationType::Mapping => MAPPINGS_PATTERN,
    }
}

/// The definition sites of one section that the captures `caps` of its
/// pattern over `text` yield, in order.
pub fn destinations_from_captures(text: &str, kind: JumpDestinationType, caps: &Vec<RawCapture>) -> (r: Vec<JumpDestination>)
    ensures
        destinations_view(r@) == captures_plan(text@, ValueRule::Ignore, captures_view(caps@)).map_values(
            |p: (int, int)| destination_view(text@, kind, p),
        ),
{
    let ghost t = text@;
    let chars = chars_of(text);
    let ranges = ranges_of_captures(text, &chars, ValueRule::Ignore, caps);
    let ghost plan = ranges_view(ranges@).map_values(|p: (int, int)| destination_view(t, kind, p));
    let mut out: Vec<JumpDestination> = Vec::new();
    let mut k: usize = 0;
    while k < ranges.len()
        invariant
            chars@ == t,
            t == text@,
            k <= ranges@.len(),
            ranges_within(ranges@, t.len() as int),
            plan == ranges_view(ranges@).map_values(|p: (int, int)| destination_view(t, kind, p)),
            destinations_view(out@) == plan.take(k as int),
        decreases ranges.len() - k,
    {
        let (x, y) = ranges[k];
        let name = text.substring_char(x, y).to_owned();
        let (sl, sc) = position_at(&chars, x);
        let (el, ec) = position_at(&chars, y);
        let span = Span { start: Position { line: sl, col: sc }, end: Position { line: el, col: ec } };
        let ghost prev = out@;
        out.push(JumpDestination { name, kind, span });
        assert(plan.take(k + 1) =~= plan.take(k as int).push(plan[k as int]));
        assert(destinations_view(out@) =~= destinations_view(prev).push(plan[k as int]));
        k = k + 1;
    }
    assert(plan.take(ranges@.len() as int) =~= plan);
    out
}

/// Appends to `out` the definition sites of one section of `text`; false
/// where its pattern cannot be run.
fn push_section(text: &str, kind: JumpDestinationType, out: &mut Vec<JumpDestination>) -> (r: bool)
    ensures
        r <==> section_definitions(text@, kind) is Some,
        r ==> destinations_view(final(out)@) == destinations_view(old(out)@) + section_definitions(
            text@,
            kind,
        )->0,
        !r ==> final(out)@ == old(out)@,
{
    let caps = match run_yaml_query(text, pattern(kind)) {
        Some(caps) => caps,
        None => return false,
    };
    let ghost before = out@;
    let mut found = destinations_from_captures(text, kind, &caps);
    out.append(&mut found);
    assert(destinations_view(out@) =~= destinations_view(before) + section_definitions(text@, kind)->0);
    true
}

impl<'s> Destinations<'s> {
    pub fn new(content: &'s str) -> (r: Destinations<'s>)
        ensures
            r.content() == content@,
    {
        Destinations { content }
    }

    pub closed spec fn content(&self) -> Seq<char> {
        self.content@
    }

    /// The definition sites of the text: keys directly under the top-level
    /// `Resources`, `Parameters`, `Outputs` and `Mappings` keys.
    pub fn definitions(&mut self) -> (r: Result<Vec<JumpDestination>, ParsingError>)
        ensures
            final(self).content() == old(self).content(),
            r is Err <==> definitions_of(old(self).content()) is None,
            r matches Ok(v) ==> definitions_of(old(self).content()) == Some(destinations_view(v@)),
    {
        let text = self.content;
        let mut out: Vec<JumpDestination> = Vec::new();
        let mut i: usize = 0;
        while i < 4
            invariant
                text@ == self.content(),
                i <= 4,
                definitions_upto(text@, i as int) == Some(destinations_view(out@)),
            decreases 4 - i,
        {
            if !push_section(text, section(i), &mut out) {
                proof {
                    lemma_upto_none(text@, i as int + 1, 4);
                }
                return Err(ParsingError::SettingLanguage);
            }
            i = i + 1;
        }
        Ok(out)
    }
}

proof fn lemma_upto_none(t: Seq<char>, n: int, m: int)
    requires
        1 <= n <= m,
        section_definitions(t, section_at(n - 1)) is None,
    ensures
        definitions_upto(t, m) is None,
    decreases m - n,
{
    if m > n {
        lemma_upto_none(t, n, m - 1);
    }
}

} // verus!
