//! A located template model, built from the event stream of a YAML parser.
//!
//! The parser hands over one event at a time (a scalar, the start or end of a
//! mapping, ...) with the mark where it stands; [`CloudformationParser`]
//! keeps a stack of states and builds the template's version, description,
//! resources, parameters and outputs, each with its span.
use vstd::prelude::*;
use crate::text::same_text;
use crate::types::{Position, Range};

verus! {

/// A value with the span where it stands. Two located values are equal where
/// both their values and their spans are.
#[derive(Clone, Debug, PartialEq, Eq, Hash)]
pub struct Located<T> {
    pub value: T,
    pub range: Range,
}

impl<T> Located<T> {
    pub fn new_at(value: T, range: Range) -> (r: Located<T>)
        ensures
            r.value == value,
            r.range == range,
    {
        Located { value, range }
    }
}

impl Located<String> {
    /// A copy of this located string.
    pub fn duplicate(&self) -> (r: Located<String>)
        ensures
            r == *self,
    {
        Located { value: self.value.clone(), range: self.range }
    }

    /// Equality of text and span.
    pub fn same_as(&self, other: &Located<String>) -> (r: bool)
        ensures
            r == same_key(*self, *other),
    {
        self.range == other.range && self.value == other.value
    }
}

/// Where an event stands: its character index, line and column, as the YAML
/// parser counts them.
#[derive(Clone, Copy, Debug, PartialEq, Eq, Hash, Structural)]
pub struct Mark {
    pub index: usize,
    pub line: usize,
    pub col: usize,
}

/// The events of a YAML parser that the template model reads.
#[derive(Clone, Debug, PartialEq, Eq)]
pub enum YamlEvent {
    Nothing,
    StreamStart,
    StreamEnd,
    DocumentStart,
    DocumentEnd,
    Alias(usize),
    Scalar(String),
    SequenceStart,
    SequenceEnd,
    MappingStart,
    MappingEnd,
}

/// The properties of a resource: a mapping, or a scalar.
#[derive(Debug, PartialEq, Eq)]
pub enum ResourceProperties {
    Mapping(Vec<(Located<String>, LocatedProperties)>),
    String(Located<String>),
}

/// Properties with the span where they stand.
#[derive(Debug, PartialEq, Eq)]
pub struct LocatedProperties {
    pub value: ResourceProperties,
    pub range: Range,
}

#[derive(Debug, PartialEq, Eq)]
pub struct Resource {
    pub kind: Located<String>,
    pub properties: Option<LocatedProperties>,
}

#[derive(Clone, Debug, PartialEq, Eq)]
pub struct Output {
    pub value: Located<String>,
}

#[derive(Clone, Debug, PartialEq, Eq)]
pub struct Parameter {
    pub kind: Located<String>,
    pub default: Option<Located<String>>,
}

/// A template with the span of each of its parts. Each list is keyed by its
/// first element, once.
#[derive(Debug, PartialEq, Eq)]
pub struct Template {
    pub version: Option<Located<String>>,
    pub description: Option<Located<String>>,
    pub resources: Vec<(Located<String>, Located<Resource>)>,
    pub outputs: Vec<(Located<String>, Located<Output>)>,
    pub parameters: Vec<(Located<String>, Located<Parameter>)>,
}

/// Where in the template the parser stands.
#[derive(Clone, Debug, PartialEq, Eq)]
pub enum State {
    Start,
    Doc,
    Root,
    InResources,
    InResource,
    InParameters,
    InParameter,
    InOutputs,
    InOutput,
    /// Inside the properties of a resource, at the given path of keys.
    InProperties(Vec<Located<String>>),
    /// Inside a mapping that the template model does not read.
    Nested,
    /// Inside a sequence; its items are not read.
    InSequence,
}

/// Builds a [`Template`] from the events of a YAML parser.
///
/// Scalars in a mapping alternate between keys and values; a mapping or a
/// sequence that is the value of a key pops that key when it ends. Mappings
/// that the model does not read (a resource's `Metadata`, an output's
/// `Export`, other top-level sections) and sequences are passed over, so a
/// resource, parameter or output is recorded only when its own mapping ends,
/// under its own key.
pub struct CloudformationParser {
    pub template: Template,
    pub state_stack: Vec<State>,
    pub key_stack: Vec<Located<String>>,
    pub map_start_stack: Vec<Mark>,
    pub is_key: bool,
    pub temp_resource: Option<Resource>,
    pub temp_parameter: Option<Parameter>,
    pub temp_output: Option<Output>,
    pub temp_properties_stack: Vec<Vec<(Located<String>, LocatedProperties)>>,
}

/// `a` and `b` have the same text and span.
pub open spec fn same_key(a: Located<String>, b: Located<String>) -> bool {
    a.value@ == b.value@ && a.range == b.range
}

/// The index of the first entry of `m`, from `i` on, with key `k`.
pub open spec fn key_index<V>(m: Seq<(Located<String>, V)>, k: Located<String>, i: int) -> Option<int>
    decreases m.len() - i,
{
    if i >= m.len() || i < 0 {
        None
    } else if same_key(m[i].0, k) {
        Some(i)
    } else {
        key_index(m, k, i + 1)
    }
}

/// `m` with `v` under key `k`: in place of the entry with that key, or added
/// at the end.
pub open spec fn put<V>(m: Seq<(Located<String>, V)>, k: Located<String>, v: V) -> Seq<(Located<String>, V)> {
    match key_index(m, k, 0) {
        Some(i) => m.update(i, (k, v)),
        None => m.push((k, v)),
    }
}

/// Puts `v` under key `k` in `m`.
fn put_entry<V>(m: &mut Vec<(Located<String>, V)>, k: Located<String>, v: V)
    ensures
        final(m)@ == put(old(m)@, k, v),
{
    let mut i: usize = 0;
    while i < m.len()
        invariant
            i <= m@.len(),
            m@ == old(m)@,
            key_index(m@, k, i as int) == key_index(m@, k, 0),
        decreases m.len() - i,
    {
        if m[i].0.same_as(&k) {
            m.set(i, (k, v));
            return;
        }
        i = i + 1;
    }
    m.push((k, v));
}

/// The state the parser stands in: the top of its stack.
pub open spec fn current(p: CloudformationParser) -> State {
    if p.state_stack@.len() == 0 {
        State::Start
    } else {
        p.state_stack@.last()
    }
}

/// The state is that of a mapping, whose scalars alternate between keys and
/// values.
pub open spec fn is_mapping_state(s: State) -> bool {
    !(s is Start || s is Doc || s is InSequence)
}

/// The state on top of the stack is the value of a key of the mapping below
/// it.
pub open spec fn keyed(p: CloudformationParser) -> bool {
    p.state_stack@.len() >= 2 && is_mapping_state(p.state_stack@[p.state_stack@.len() - 2])
}

/// The span of a scalar: from its mark, as many columns as it has characters.
pub open spec fn located_scalar(value: String, mark: Mark) -> Located<String> {
    Located {
        value,
        range: Range {
            start: Position { line: mark.line, column: mark.col },
            end: Position {
                line: mark.line,
                column: if mark.col + value@.len() > usize::MAX {
                    usize::MAX
                } else {
                    (mark.col + value@.len()) as usize
                },
            },
        },
    }
}

/// An empty located string at the start of the text.
pub open spec fn is_blank(l: Located<String>) -> bool {
    l.value@.len() == 0 && l.range == Range {
        start: Position { line: 0, column: 0 },
        end: Position { line: 0, column: 0 },
    }
}

/// The innermost key is `name`.
pub open spec fn key_is(p: CloudformationParser, name: Seq<char>) -> bool {
    p.key_stack@.len() > 0 && p.key_stack@.last().value@ == name
}

/// The parts that a mapping start or end leaves alone.
pub open spec fn same_temps(o: CloudformationParser, f: CloudformationParser) -> bool {
    &&& f.temp_resource == o.temp_resource
    &&& f.temp_parameter == o.temp_parameter
    &&& f.temp_output == o.temp_output
    &&& f.temp_properties_stack@ == o.temp_properties_stack@
}

/// A new, empty properties map is on top of the stack of maps being built.
pub open spec fn properties_opened(o: CloudformationParser, f: CloudformationParser) -> bool {
    &&& f.temp_properties_stack@.len() == o.temp_properties_stack@.len() + 1
    &&& f.temp_properties_stack@.drop_last() == o.temp_properties_stack@
    &&& f.temp_properties_stack@.last()@.len() == 0
    &&& f.temp_resource == o.temp_resource
    &&& f.temp_parameter == o.temp_parameter
    &&& f.temp_output == o.temp_output
}

/// What a mapping start does in the current state, `next` being the state
/// that it opens.
pub open spec fn opened(o: CloudformationParser, f: CloudformationParser, next: State) -> bool {
    match current(o) {
        State::Doc => next == State::Root && same_temps(o, f),
        State::Root => same_temps(o, f) && next == if key_is(o, "Resources"@) {
            State::InResources
        } else if key_is(o, "Parameters"@) {
            State::InParameters
        } else if key_is(o, "Outputs"@) {
            State::InOutputs
        } else {
            State::Nested
        },
        State::InResources => {
            &&& next == State::InResource
            &&& f.temp_resource matches Some(r) && is_blank(r.kind) && r.properties is None
            &&& f.temp_parameter == o.temp_parameter
            &&& f.temp_output == o.temp_output
            &&& f.temp_properties_stack@ == o.temp_properties_stack@
        },
        State::InParameters => {
            &&& next == State::InParameter
            &&& f.temp_parameter matches Some(q) && is_blank(q.kind) && q.default is None
            &&& f.temp_resource == o.temp_resource
            &&& f.temp_output == o.temp_output
            &&& f.temp_properties_stack@ == o.temp_properties_stack@
        },
        State::InOutputs => {
            &&& next == State::InOutput
            &&& f.temp_output matches Some(q) && is_blank(q.value)
            &&& f.temp_resource == o.temp_resource
            &&& f.temp_parameter == o.temp_parameter
            &&& f.temp_properties_stack@ == o.temp_properties_stack@
        },
        State::InResource | State::InParameter | State::InOutput => if key_is(o, "Properties"@) {
            next matches State::InProperties(path) && path@.len() == 0 && properties_opened(o, f)
        } else {
            next == State::Nested && same_temps(o, f)
        },
        State::Nested | State::InSequence => next == State::Nested && same_temps(o, f),
        State::InProperties(path) => {
            &&& next matches State::InProperties(p) && p@ == if o.key_stack@.len() > 0 {
                path@.push(o.key_stack@.last())
            } else {
                path@
            }
            &&& properties_opened(o, f)
        },
        State::Start => next == State::Start && same_temps(o, f),
    }
}

/// What a mapping start does.
pub open spec fn after_mapping_start(o: CloudformationParser, f: CloudformationParser, mark: Mark) -> bool {
    &&& f.map_start_stack@ == o.map_start_stack@.push(mark)
    &&& f.is_key
    &&& f.template == o.template
    &&& f.key_stack@ == o.key_stack@
    &&& f.state_stack@.len() == o.state_stack@.len() + 1
    &&& f.state_stack@.drop_last() == o.state_stack@
    &&& opened(o, f, f.state_stack@.last())
}

/// The span of the mapping that ends at `mark`.
pub open spec fn mapping_range(o: CloudformationParser, mark: Mark) -> Range {
    let start = if o.map_start_stack@.len() > 0 {
        o.map_start_stack@.last()
    } else {
        mark
    };
    Range {
        start: Position { line: start.line, column: start.col },
        end: Position { line: mark.line, column: mark.col },
    }
}

/// The parts that the end of a mapping leaves alone, but for the stacks of
/// states and of mapping starts.
pub open spec fn only_stacks(o: CloudformationParser, f: CloudformationParser) -> bool {
    &&& f.template == o.template
    &&& f.key_stack@ == o.key_stack@
    &&& same_temps(o, f)
}

/// What the end of a mapping does with what it closes.
pub open spec fn closed(o: CloudformationParser, f: CloudformationParser, range: Range) -> bool {
    let has_key = o.key_stack@.len() > 0;
    let name = Located { value: o.key_stack@.last().value, range };
    match current(o) {
        State::InResource => if has_key && o.temp_resource is Some {
            &&& f.template.resources@ == put(o.template.resources@, name, Located { value: o.temp_resource->0, range })
            &&& f.template.outputs == o.template.outputs
            &&& f.template.parameters == o.template.parameters
            &&& f.template.version == o.template.version
            &&& f.template.description == o.template.description
            &&& f.key_stack@ == o.key_stack@.drop_last()
            &&& f.temp_resource is None
            &&& f.temp_parameter == o.temp_parameter
            &&& f.temp_output == o.temp_output
            &&& f.temp_properties_stack@ == o.temp_properties_stack@
        } else {
            only_stacks(o, f)
        },
        State::InParameter => if has_key && o.temp_parameter is Some {
            &&& f.template.parameters@ == put(o.template.parameters@, name, Located { value: o.temp_parameter->0, range })
            &&& f.template.outputs == o.template.outputs
            &&& f.template.resources == o.template.resources
            &&& f.template.version == o.template.version
            &&& f.template.description == o.template.description
            &&& f.key_stack@ == o.key_stack@.drop_last()
            &&& f.temp_parameter is None
            &&& f.temp_resource == o.temp_resource
            &&& f.temp_output == o.temp_output
            &&& f.temp_properties_stack@ == o.temp_properties_stack@
        } else {
            only_stacks(o, f)
        },
        State::InOutput => if has_key && o.temp_output is Some {
            &&& f.template.outputs@ == put(o.template.outputs@, name, Located { value: o.temp_output->0, range })
            &&& f.template.parameters == o.template.parameters
            &&& f.template.resources == o.template.resources
            &&& f.template.version == o.template.version
            &&& f.template.description == o.template.description
            &&& f.key_stack@ == o.key_stack@.drop_last()
            &&& f.temp_output is None
            &&& f.temp_resource == o.temp_resource
            &&& f.temp_parameter == o.temp_parameter
            &&& f.temp_properties_stack@ == o.temp_properties_stack@
        } else {
            only_stacks(o, f)
        },
        State::InProperties(path) => if o.temp_properties_stack@.len() == 0 {
            only_stacks(o, f)
        } else {
            let n = o.temp_properties_stack@.len();
            let done = LocatedProperties { value: ResourceProperties::Mapping(o.temp_properties_stack@.last()), range };
            &&& f.template == o.template
            &&& f.temp_parameter == o.temp_parameter
            &&& f.temp_output == o.temp_output
            &&& if path@.len() == 0 {
                &&& f.temp_properties_stack@ == o.temp_properties_stack@.drop_last()
                &&& f.key_stack@ == if has_key {
                    o.key_stack@.drop_last()
                } else {
                    o.key_stack@
                }
                &&& f.temp_resource == match o.temp_resource {
                    Some(r) => Some(Resource { kind: r.kind, properties: Some(done) }),
                    None => None,
                }
            } else if n >= 2 && has_key {
                &&& f.temp_properties_stack@.len() == n - 1
                &&& f.temp_properties_stack@.take(n - 2) == o.temp_properties_stack@.take(n - 2)
                &&& f.temp_properties_stack@[n - 2]@ == put(o.temp_properties_stack@[n - 2]@, name, done)
                &&& f.key_stack@ == o.key_stack@.drop_last()
                &&& f.temp_resource == o.temp_resource
            } else {
                &&& f.temp_properties_stack@ == o.temp_properties_stack@.drop_last()
                &&& f.key_stack@ == o.key_stack@
                &&& f.temp_resource == o.temp_resource
            }
        },
        _ => if keyed(o) && has_key {
            &&& f.key_stack@ == o.key_stack@.drop_last()
            &&& f.template == o.template
            &&& same_temps(o, f)
        } else {
            only_stacks(o, f)
        },
    }
}

/// What the end of a mapping does: it closes the state on top, and a mapping
/// that was the value of a key pops that key.
pub open spec fn after_mapping_end(o: CloudformationParser, f: CloudformationParser, mark: Mark) -> bool {
    &&& f.is_key
    &&& f.map_start_stack@ == if o.map_start_stack@.len() > 0 {
        o.map_start_stack@.drop_last()
    } else {
        o.map_start_stack@
    }
    &&& f.state_stack@ == if o.state_stack@.len() > 0 {
        o.state_stack@.drop_last()
    } else {
        o.state_stack@
    }
    &&& closed(o, f, mapping_range(o, mark))
}

/// The parts that a value scalar leaves alone, but for the key it pops.
pub open spec fn value_ignored(o: CloudformationParser, f: CloudformationParser) -> bool {
    &&& f.template == o.template
    &&& same_temps(o, f)
}

/// What a scalar in value position does with its key in the current state.
pub open spec fn value_set(o: CloudformationParser, f: CloudformationParser, key: Located<String>, v: Located<String>) -> bool {
    match current(o) {
        State::Root => same_temps(o, f) && f.template.resources == o.template.resources && f.template.outputs
            == o.template.outputs && f.template.parameters == o.template.parameters && if key.value@
            == "AWSTemplateFormatVersion"@ {
            f.template.version == Some(v) && f.template.description == o.template.description
        } else if key.value@ == "Description"@ {
            f.template.description == Some(v) && f.template.version == o.template.version
        } else {
            f.template == o.template
        },
        State::InResource => f.template == o.template && f.temp_parameter == o.temp_parameter && f.temp_output
            == o.temp_output && f.temp_properties_stack@ == o.temp_properties_stack@ && f.temp_resource == if key.value@
            == "Type"@ && o.temp_resource is Some {
            Some(Resource { kind: v, properties: o.temp_resource->0.properties })
        } else {
            o.temp_resource
        },
        State::InParameter => f.template == o.template && f.temp_resource == o.temp_resource && f.temp_output
            == o.temp_output && f.temp_properties_stack@ == o.temp_properties_stack@ && f.temp_parameter == match o.temp_parameter {
            Some(q) => if key.value@ == "Type"@ {
                Some(Parameter { kind: v, default: q.default })
            } else if key.value@ == "Default"@ {
                Some(Parameter { kind: q.kind, default: Some(v) })
            } else {
                Some(q)
            },
            None => None,
        },
        State::InOutput => f.template == o.template && f.temp_resource == o.temp_resource && f.temp_parameter
            == o.temp_parameter && f.temp_properties_stack@ == o.temp_properties_stack@ && f.temp_output == if key.value@
            == "Value"@ && o.temp_output is Some {
            Some(Output { value: v })
        } else {
            o.temp_output
        },
        State::InProperties(_) => f.template == o.template && f.temp_resource == o.temp_resource
            && f.temp_parameter == o.temp_parameter && f.temp_output == o.temp_output && if o.temp_properties_stack@.len()
            > 0 {
            &&& f.temp_properties_stack@.len() == o.temp_properties_stack@.len()
            &&& f.temp_properties_stack@.drop_last() == o.temp_properties_stack@.drop_last()
            &&& f.temp_properties_stack@.last()@ == put(
                o.temp_properties_stack@.last()@,
                key,
                LocatedProperties { value: ResourceProperties::String(v), range: v.range },
            )
        } else {
            f.temp_properties_stack@ == o.temp_properties_stack@
        },
        _ => value_ignored(o, f),
    }
}

/// What a scalar does: in a sequence, nothing; else as a key it is pushed,
/// and as a value it is set under the key it pops.
pub open spec fn after_scalar(o: CloudformationParser, f: CloudformationParser, value: String, mark: Mark) -> bool {
    if current(o) is InSequence {
        f.state_stack@ == o.state_stack@ && untouched(o, f)
    } else {
        in_mapping_scalar(o, f, value, mark)
    }
}

/// What a scalar does in a mapping.
pub open spec fn in_mapping_scalar(o: CloudformationParser, f: CloudformationParser, value: String, mark: Mark) -> bool {
    &&& f.is_key == !o.is_key
    &&& f.state_stack@ == o.state_stack@
    &&& f.map_start_stack@ == o.map_start_stack@
    &&& if o.is_key {
        f.key_stack@ == o.key_stack@.push(located_scalar(value, mark)) && value_ignored(o, f)
    } else if o.key_stack@.len() == 0 {
        f.key_stack@ == o.key_stack@ && value_ignored(o, f)
    } else {
        f.key_stack@ == o.key_stack@.drop_last() && value_set(
            o,
            f,
            o.key_stack@.last(),
            located_scalar(value, mark),
        )
    }
}

/// What the end of a sequence does: where a sequence is open, it closes it,
/// pops the key whose value it was, and expects a key next.
pub open spec fn after_sequence_end(o: CloudformationParser, f: CloudformationParser) -> bool {
    if current(o) is InSequence {
        &&& f.state_stack@ == o.state_stack@.drop_last()
        &&& f.is_key
        &&& f.key_stack@ == if keyed(o) && o.key_stack@.len() > 0 {
            o.key_stack@.drop_last()
        } else {
            o.key_stack@
        }
        &&& f.template == o.template
        &&& f.map_start_stack@ == o.map_start_stack@
        &&& same_temps(o, f)
    } else {
        f.state_stack@ == o.state_stack@ && untouched(o, f)
    }
}

/// The parts that every event but these leaves alone.
pub open spec fn untouched(o: CloudformationParser, f: CloudformationParser) -> bool {
    &&& f.template == o.template
    &&& f.key_stack@ == o.key_stack@
    &&& f.map_start_stack@ == o.map_start_stack@
    &&& f.is_key == o.is_key
    &&& same_temps(o, f)
}

/// An empty located string at the start of the text.
fn blank() -> (r: Located<String>)
    ensures
        is_blank(r),
{
    Located {
        value: String::new(),
        range: Range { start: Position { line: 0, column: 0 }, end: Position { line: 0, column: 0 } },
    }
}

/// A copy of a path of keys.
fn copy_keys(p: &Vec<Located<String>>) -> (r: Vec<Located<String>>)
    ensures
        r@ == p@,
{
    let mut out: Vec<Located<String>> = Vec::new();
    let mut i: usize = 0;
    while i < p.len()
        invariant
            i <= p@.len(),
            out@ == p@.take(i as int),
        decreases p.len() - i,
    {
        out.push(p[i].duplicate());
        assert(p@.take(i + 1) =~= p@.take(i as int).push(p@[i as int]));
        i = i + 1;
    }
    assert(p@.take(p@.len() as int) =~= p@);
    out
}

impl CloudformationParser {
    /// A parser that has seen no event: at the start, with an empty template.
    pub fn new() -> (r: CloudformationParser)
        ensures
            r.state_stack@ == seq![State::Start],
            r.key_stack@.len() == 0,
            r.map_start_stack@.len() == 0,
            r.is_key,
            r.temp_resource is None,
            r.temp_parameter is None,
            r.temp_output is None,
            r.temp_properties_stack@.len() == 0,
            r.template.version is None,
            r.template.description is None,
            r.template.resources@.len() == 0,
            r.template.outputs@.len() == 0,
            r.template.parameters@.len() == 0,
    {
        let mut state_stack: Vec<State> = Vec::new();
        state_stack.push(State::Start);
        assert(state_stack@ =~= seq![State::Start]);
        CloudformationParser {
            template: Template {
                version: None,
                description: None,
                resources: Vec::new(),
                outputs: Vec::new(),
                parameters: Vec::new(),
            },
            state_stack,
            key_stack: Vec::new(),
            map_start_stack: Vec::new(),
            is_key: true,
            temp_resource: None,
            temp_parameter: None,
            temp_output: None,
            temp_properties_stack: Vec::new(),
        }
    }

    /// The template built so far.
    pub fn get_template(self) -> (r: Template)
        ensures
            r == self.template,
    {
        self.template
    }

    fn last_key_is(&self, name: &str) -> (r: bool)
        ensures
            r == key_is(*self, name@),
    {
        let n = self.key_stack.len();
        if n == 0 {
            false
        } else {
            same_text(self.key_stack[n - 1].value.as_str(), name)
        }
    }

    fn start_mapping(&mut self, mark: Mark)
        ensures
            after_mapping_start(*old(self), *final(self), mark),
    {
        let ghost o = *self;
        self.map_start_stack.push(mark);
        self.is_key = true;
        let cur = self.state_stack.pop();
        let next = match &cur {
            None => State::Start,
            Some(State::Start) => State::Start,
            Some(State::Doc) => State::Root,
            Some(State::Root) => {
                if self.last_key_is("Resources") {
                    State::InResources
                } else if self.last_key_is("Parameters") {
                    State::InParameters
                } else if self.last_key_is("Outputs") {
                    State::InOutputs
                } else {
                    State::Nested
                }
            },
            Some(State::InResources) => {
                self.temp_resource = Some(Resource { kind: blank(), properties: None });
                State::InResource
            },
            Some(State::InParameters) => {
                self.temp_parameter = Some(Parameter { kind: blank(), default: None });
                State::InParameter
            },
            Some(State::InOutputs) => {
                self.temp_output = Some(Output { value: blank() });
                State::InOutput
            },
            Some(State::InResource) | Some(State::InParameter) | Some(State::InOutput) => {
                if self.last_key_is("Properties") {
                    self.temp_properties_stack.push(Vec::new());
                    State::InProperties(Vec::new())
                } else {
                    State::Nested
                }
            },
            Some(State::Nested) | Some(State::InSequence) => State::Nested,
            Some(State::InProperties(path)) => {
                let mut p = copy_keys(path);
                let n = self.key_stack.len();
                if n > 0 {
                    p.push(self.key_stack[n - 1].duplicate());
                }
                self.temp_properties_stack.push(Vec::new());
                State::InProperties(p)
            },
        };
        match cur {
            Some(c) => self.state_stack.push(c),
            None => {},
        }
        self.state_stack.push(next);
        assert(self.state_stack@.drop_last() =~= o.state_stack@);
        assert(self.temp_properties_stack@.len() > o.temp_properties_stack@.len() ==> self.temp_properties_stack@.drop_last() =~= o.temp_properties_stack@);
    }

    fn end_mapping(&mut self, mark: Mark)
        ensures
            after_mapping_end(*old(self), *final(self), mark),
    {
        let ghost o = *self;
        let start = match self.map_start_stack.pop() {
            Some(m) => m,
            None => mark,
        };
        let range = Range {
            start: Position { line: start.line, column: start.col },
            end: Position { line: mark.line, column: mark.col },
        };
        assert(range == mapping_range(o, mark));
        let cur = self.state_stack.pop();
        self.is_key = true;
        match cur {
            Some(State::InResource) => {
                if self.key_stack.len() > 0 && self.temp_resource.is_some() {
                    let name = self.key_stack.pop().unwrap();
                    let resource = self.temp_resource.take().unwrap();
                    put_entry(&mut self.template.resources, Located { value: name.value, range }, Located { value: resource, range });
                }
            },
            Some(State::InParameter) => {
                if self.key_stack.len() > 0 && self.temp_parameter.is_some() {
                    let name = self.key_stack.pop().unwrap();
                    let parameter = self.temp_parameter.take().unwrap();
                    put_entry(&mut self.template.parameters, Located { value: name.value, range }, Located { value: parameter, range });
                }
            },
            Some(State::InOutput) => {
                if self.key_stack.len() > 0 && self.temp_output.is_some() {
                    let name = self.key_stack.pop().unwrap();
                    let output = self.temp_output.take().unwrap();
                    put_entry(&mut self.template.outputs, Located { value: name.value, range }, Located { value: output, range });
                }
            },
            Some(State::InProperties(path)) => {
                if self.temp_properties_stack.len() > 0 {
                    let props = self.temp_properties_stack.pop().unwrap();
                    let done = LocatedProperties { value: ResourceProperties::Mapping(props), range };
                    if path.len() == 0 {
                        if self.key_stack.len() > 0 {
                            self.key_stack.pop();
                        }
                        match self.temp_resource.take() {
                            Some(r) => {
                                self.temp_resource = Some(Resource { kind: r.kind, properties: Some(done) });
                            },
                            None => {},
                        }
                    } else if self.temp_properties_stack.len() > 0 && self.key_stack.len() > 0 {
                        let key = self.key_stack.pop().unwrap();
                        let mut parent = self.temp_properties_stack.pop().unwrap();
                        put_entry(&mut parent, Located { value: key.value, range }, done);
                        self.temp_properties_stack.push(parent);
                        assert(self.temp_properties_stack@.take(o.temp_properties_stack@.len() - 2)
                            =~= o.temp_properties_stack@.take(o.temp_properties_stack@.len() - 2));
                    }
                }
            },
            _ => {
                if self.top_is_mapping() && self.key_stack.len() > 0 {
                    self.key_stack.pop();
                }
            },
        }
    }

    /// The state on top of the stack is that of a mapping.
    fn top_is_mapping(&self) -> (r: bool)
        ensures
            r == (self.state_stack@.len() > 0 && is_mapping_state(self.state_stack@.last())),
    {
        let n = self.state_stack.len();
        if n == 0 {
            false
        } else {
            match &self.state_stack[n - 1] {
                State::Start | State::Doc | State::InSequence => false,
                _ => true,
            }
        }
    }

    /// Whether the state on top of the stack is a sequence.
    fn in_sequence(&self) -> (r: bool)
        ensures
            r == (current(*self) is InSequence),
    {
        let n = self.state_stack.len();
        if n == 0 {
            false
        } else {
            match &self.state_stack[n - 1] {
                State::InSequence => true,
                _ => false,
            }
        }
    }

    fn end_sequence(&mut self)
        ensures
            after_sequence_end(*old(self), *final(self)),
    {
        if !self.in_sequence() {
            return;
        }
        self.state_stack.pop();
        self.is_key = true;
        if self.top_is_mapping() && self.key_stack.len() > 0 {
            self.key_stack.pop();
        }
    }

    fn scalar(&mut self, value: String, mark: Mark)
        ensures
            after_scalar(*old(self), *final(self), value, mark),
    {
        let ghost o = *self;
        let len = value.as_str().unicode_len();
        let end = mark.col.saturating_add(len);
        let lv = Located {
            value,
            range: Range {
                start: Position { line: mark.line, column: mark.col },
                end: Position { line: mark.line, column: end },
            },
        };
        assert(lv == located_scalar(value, mark));
        if self.in_sequence() {
            return;
        }
        if self.is_key {
            self.key_stack.push(lv);
            self.is_key = false;
            return;
        }
        self.is_key = true;
        let key = match self.key_stack.pop() {
            Some(k) => k,
            None => return,
        };
        let n = self.state_stack.len();
        if n == 0 {
            return;
        }
        match &self.state_stack[n - 1] {
            State::Root => {
                if same_text(key.value.as_str(), "AWSTemplateFormatVersion") {
                    self.template.version = Some(lv);
                } else if same_text(key.value.as_str(), "Description") {
                    self.template.description = Some(lv);
                }
            },
            State::InResource => {
                if same_text(key.value.as_str(), "Type") {
                    match self.temp_resource.take() {
                        Some(r) => {
                            self.temp_resource = Some(Resource { kind: lv, properties: r.properties });
                        },
                        None => {},
                    }
                }
            },
            State::InParameter => {
                match self.temp_parameter.take() {
                    Some(q) => {
                        if same_text(key.value.as_str(), "Type") {
                            self.temp_parameter = Some(Parameter { kind: lv, default: q.default });
                        } else if same_text(key.value.as_str(), "Default") {
                            self.temp_parameter = Some(Parameter { kind: q.kind, default: Some(lv) });
                        } else {
                            self.temp_parameter = Some(q);
                        }
                    },
                    None => {},
                }
            },
            State::InOutput => {
                if same_text(key.value.as_str(), "Value") && self.temp_output.is_some() {
                    self.temp_output = Some(Output { value: lv });
                }
            },
            State::InProperties(_) => {
                if self.temp_properties_stack.len() > 0 {
                    let mut top = self.temp_properties_stack.pop().unwrap();
                    let r = lv.range;
                    put_entry(&mut top, key, LocatedProperties { value: ResourceProperties::String(lv), range: r });
                    self.temp_properties_stack.push(top);
                    assert(self.temp_properties_stack@.drop_last() =~= o.temp_properties_stack@.drop_last());
                }
            },
            _ => {},
        }
    }

    /// Takes in one event of the YAML parser, at `mark`.
    pub fn on_event(&mut self, ev: YamlEvent, mark: Mark)
        ensures
            match ev {
                YamlEvent::DocumentStart => final(self).state_stack@ == old(self).state_stack@.push(State::Doc)
                    && untouched(*old(self), *final(self)),
                YamlEvent::DocumentEnd => final(self).state_stack@ == (if old(self).state_stack@.len() > 0 {
                    old(self).state_stack@.drop_last()
                } else {
                    old(self).state_stack@
                }) && untouched(*old(self), *final(self)),
                YamlEvent::MappingStart => after_mapping_start(*old(self), *final(self), mark),
                YamlEvent::MappingEnd => after_mapping_end(*old(self), *final(self), mark),
                YamlEvent::Scalar(value) => after_scalar(*old(self), *final(self), value, mark),
                YamlEvent::SequenceStart => final(self).state_stack@ == old(self).state_stack@.push(State::InSequence)
                    && untouched(*old(self), *final(self)),
                YamlEvent::SequenceEnd => after_sequence_end(*old(self), *final(self)),
                _ => final(self).state_stack@ == old(self).state_stack@ && untouched(*old(self), *final(self)),
            },
    {
        match ev {
            YamlEvent::DocumentStart => self.state_stack.push(State::Doc),
            YamlEvent::DocumentEnd => {
                self.state_stack.pop();
            },
            YamlEvent::MappingStart => self.start_mapping(mark),
            YamlEvent::MappingEnd => self.end_mapping(mark),
            YamlEvent::Scalar(value) => self.scalar(value, mark),
            YamlEvent::SequenceStart => self.state_stack.push(State::InSequence),
            YamlEvent::SequenceEnd => self.end_sequence(),
            _ => {},
        }
    }
}

} // verus!
