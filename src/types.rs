//! The records of the index: positions, spans, definition sites and reference
//! sites, and their mathematical views.
use vstd::prelude::*;
use crate::text::pos_at;

verus! {

/// A zero-based line and column; columns count characters.
#[derive(Clone, Copy, Debug, PartialEq, Eq, Hash, Structural)]
pub struct Position {
    pub line: usize,
    pub column: usize,
}

impl Position {
    pub fn new(line: usize, column: usize) -> (r: Position)
        ensures
            r.line == line,
            r.column == column,
    {
        Position { line, column }
    }
}

/// A half-open span: `end` is one past the last character.
#[derive(Clone, Copy, Debug, PartialEq, Eq, Hash, Structural)]
pub struct Range {
    pub start: Position,
    pub end: Position,
}

/// The position of character offset `k` of text `t`.
pub open spec fn position_of(t: Seq<char>, k: int) -> Position {
    Position { line: pos_at(t, k).0 as usize, column: pos_at(t, k).1 as usize }
}

/// The span of the characters `x..y` of text `t`.
pub open spec fn span_of(t: Seq<char>, x: int, y: int) -> Range {
    Range { start: position_of(t, x), end: position_of(t, y) }
}

/// A definition site: a name and where it stands.
#[derive(Clone, Debug, PartialEq, Eq, Hash)]
pub struct Location {
    pub name: String,
    pub range: Range,
}

impl View for Location {
    type V = (Seq<char>, Range);

    open spec fn view(&self) -> (Seq<char>, Range) {
        (self.name@, self.range)
    }
}

impl Location {
    /// A copy of this location.
    pub fn duplicate(&self) -> (r: Location)
        ensures
            r@ == self@,
    {
        Location { name: self.name.clone(), range: self.range }
    }

    /// Equality of name and span.
    pub fn same_as(&self, other: &Location) -> (r: bool)
        ensures
            r == (self@ == other@),
    {
        self.range == other.range && self.name == other.name
    }
}

/// The intrinsic forms that refer to another part of a template.
#[derive(Clone, Copy, Debug, PartialEq, Eq, Hash, Structural)]
pub enum ReferenceKind {
    Ref,
    Sub,
    GetAtt,
    FindInMap,
    If,
    DependsOn,
}

/// A reference site: the form used, the name referred to, and its span.
#[derive(Clone, Debug, PartialEq, Eq, Hash)]
pub struct Reference {
    pub kind: ReferenceKind,
    pub target: String,
    pub span: Range,
}

impl View for Reference {
    type V = (ReferenceKind, Seq<char>, Range);

    open spec fn view(&self) -> (ReferenceKind, Seq<char>, Range) {
        (self.kind, self.target@, self.span)
    }
}

impl Reference {
    /// A copy of this reference.
    pub fn duplicate(&self) -> (r: Reference)
        ensures
            r@ == self@,
    {
        Reference { kind: self.kind, target: self.target.clone(), span: self.span }
    }

    /// Equality of kind, target and span.
    pub fn same_as(&self, other: &Reference) -> (r: bool)
        ensures
            r == (self@ == other@),
    {
        self.kind == other.kind && self.span == other.span && self.target == other.target
    }
}

/// The index of one template: its definition sites and its reference sites,
/// each without duplicates and in ascending order of name.
#[derive(Clone, Debug, PartialEq, Eq, Default)]
pub struct Targets {
    pub destinations: Vec<Location>,
    pub sources: Vec<Reference>,
}

} // verus!
