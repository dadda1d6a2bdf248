//! Template index assembly: every definition site and every reference site of
//! a text, each without duplicates and in ascending order of name.
use vstd::prelude::*;
use vstd::utf8::*;
use crate::captures::{captures_plan, lemma_captures_plan_within, ParsingError, ValueRule};
use crate::destinations::{
    definitions_of, definitions_upto, destination_view, destinations_view, section_at, section_definitions,
    section_pattern, Destinations, JumpDestination, JumpDestinationType, Span,
};
use crate::order::{
    bytes_lt, insert_pos, insert_sorted, is_sorted_by, lemma_insert_pos, lemma_sort_dedup, no_duplicates,
    sort_dedup,
};
use crate::references::{extract_references, extracted, pattern_for, reference_view, references_seq_view, value_rule};
use crate::resolver::{lemma_line_slice, nth_line};
use crate::syntax::yaml_query_captures;
use crate::text::lemma_pos_bounds;
use crate::types::{span_of, Location, Position, Range, Reference, ReferenceKind, Targets};

verus! {

/// Why a text could not be indexed.
#[derive(Clone, Copy, Debug, PartialEq, Eq, Structural)]
pub enum Error {
    /// The bytes given are not UTF-8.
    NotUtf8,
    /// The syntax tree or a pattern could not be had.
    Parsing(ParsingError),
}

/// Locations are ordered by the UTF-8 form of their names.
pub open spec fn location_key() -> spec_fn((Seq<char>, Range)) -> Seq<u8> {
    |v: (Seq<char>, Range)| encode_utf8(v.0)
}

/// References are ordered by the UTF-8 form of their targets.
pub open spec fn reference_key() -> spec_fn((ReferenceKind, Seq<char>, Range)) -> Seq<u8> {
    |v: (ReferenceKind, Seq<char>, Range)| encode_utf8(v.1)
}

pub open spec fn locations_view(v: Seq<Location>) -> Seq<(Seq<char>, Range)> {
    v.map_values(|l: Location| l@)
}

/// The location of a definition site.
pub open spec fn location_of(d: (Seq<char>, JumpDestinationType, Span)) -> (Seq<char>, Range) {
    (
        d.0,
        Range {
            start: Position { line: d.2.start.line, column: d.2.start.col },
            end: Position { line: d.2.end.line, column: d.2.end.col },
        },
    )
}

/// The locations of definition sites.
pub open spec fn locations_of(d: Seq<(Seq<char>, JumpDestinationType, Span)>) -> Seq<(Seq<char>, Range)> {
    d.map_values(|x: (Seq<char>, JumpDestinationType, Span)| location_of(x))
}

/// The kinds in the order in which their references are gathered.
pub open spec fn kind_at(i: int) -> ReferenceKind {
    if i == 0 {
        ReferenceKind::Ref
    } else if i == 1 {
        ReferenceKind::Sub
    } else if i == 2 {
        ReferenceKind::GetAtt
    } else if i == 3 {
        ReferenceKind::FindInMap
    } else if i == 4 {
        ReferenceKind::If
    } else {
        ReferenceKind::DependsOn
    }
}

/// The references of the first `n` kinds of `t`, kind by kind.
pub open spec fn references_upto(t: Seq<char>, n: int) -> Option<Seq<(ReferenceKind, Seq<char>, Range)>>
    decreases n,
{
    if n <= 0 {
        Some(seq![])
    } else {
        match (references_upto(t, n - 1), extracted(t, kind_at(n - 1))) {
            (Some(a), Some(b)) => Some(a + b),
            _ => None,
        }
    }
}

/// All references of `t`: those of `Ref`, `Fn::Sub`, `Fn::GetAtt`,
/// `Fn::FindInMap`, `Fn::If` and `DependsOn`, in that order.
pub open spec fn all_references(t: Seq<char>) -> Option<Seq<(ReferenceKind, Seq<char>, Range)>> {
    references_upto(t, 6)
}

/// The index of `t`: its definition sites and its references, each once and
/// in ascending order of name; `None` where the text cannot be parsed.
pub open spec fn index_of(t: Seq<char>) -> Option<(Seq<(Seq<char>, Range)>, Seq<(ReferenceKind, Seq<char>, Range)>)> {
    match (definitions_of(t), all_references(t)) {
        (Some(d), Some(r)) => Some(
            (sort_dedup(locations_of(d), location_key()),
            sort_dedup(r, reference_key())),
        ),
        _ => None,
    }
}

fn kind(i: usize) -> (r: ReferenceKind)
    ensures
        r == kind_at(i as int),
{
    if i == 0 {
        ReferenceKind::Ref
    } else if i == 1 {
        ReferenceKind::Sub
    } else if i == 2 {
        ReferenceKind::GetAtt
    } else if i == 3 {
        ReferenceKind::FindInMap
    } else if i == 4 {
        ReferenceKind::If
    } else {
        ReferenceKind::DependsOn
    }
}

proof fn lemma_references_none(t: Seq<char>, n: int, m: int)
    requires
        1 <= n <= m,
        extracted(t, kind_at(n - 1)) is None,
    ensures
        references_upto(t, m) is None,
    decreases m - n,
{
    if m > n {
        lemma_references_none(t, n, m - 1);
    }
}

/// Every reference of `text`, kind by kind.
pub fn extract_all(text: &str) -> (r: Result<Vec<Reference>, ParsingError>)
    ensures
        r is Err <==> all_references(text@) is None,
        r matches Ok(v) ==> all_references(text@) == Some(references_seq_view(v@)),
{
    let mut out: Vec<Reference> = Vec::new();
    let mut i: usize = 0;
    while i < 6
        invariant
            i <= 6,
            references_upto(text@, i as int) == Some(references_seq_view(out@)),
        decreases 6 - i,
    {
        match extract_references(text, kind(i)) {
            Ok(found) => {
                let ghost before = out@;
                let mut found = found;
                out.append(&mut found);
                assert(references_seq_view(out@) =~= references_seq_view(before) + extracted(
                    text@,
                    kind_at(i as int),
                )->0);
            },
            Err(e) => {
                proof {
                    lemma_references_none(text@, i as int + 1, 6);
                }
                return Err(e);
            },
        }
        i = i + 1;
    }
    Ok(out)
}

/// Adds `x` to the sorted `v` in order, unless `v` already holds it.
fn insert_location(v: &mut Vec<Location>, x: Location)
    ensures
        locations_view(final(v)@) == insert_sorted(locations_view(old(v)@), x@, location_key()),
{
    let ghost s = locations_view(v@);
    let mut i: usize = 0;
    while i < v.len()
        invariant
            s == locations_view(v@),
            i <= v@.len(),
            forall|k: int| 0 <= k < i ==> s[k] != x@,
        decreases v.len() - i,
    {
        if v[i].same_as(&x) {
            assert(s[i as int] == v@[i as int]@);
            assert(s.contains(x@));
            return;
        }
        i = i + 1;
    }
    assert(!s.contains(x@));
    let key = x.name.as_str().as_bytes();
    let mut p: usize = 0;
    proof {
        lemma_insert_pos(s, x@, location_key(), 0);
    }
    while p < v.len() && !bytes_lt(key, v[p].name.as_str().as_bytes())
        invariant
            s == locations_view(v@),
            p <= v@.len(),
            key@ == encode_utf8(x@.0),
            insert_pos(s, x@, location_key(), p as int) == insert_pos(s, x@, location_key(), 0),
        decreases v.len() - p,
    {
        p = p + 1;
    }
    v.insert(p, x);
    assert(locations_view(v@) =~= s.insert(p as int, x@));
}

/// Adds `x` to the sorted `v` in order, unless `v` already holds it.
fn insert_reference(v: &mut Vec<Reference>, x: Reference)
    ensures
        references_seq_view(final(v)@) == insert_sorted(references_seq_view(old(v)@), x@, reference_key()),
{
    let ghost s = references_seq_view(v@);
    let mut i: usize = 0;
    while i < v.len()
        invariant
            s == references_seq_view(v@),
            i <= v@.len(),
            forall|k: int| 0 <= k < i ==> s[k] != x@,
        decreases v.len() - i,
    {
        if v[i].same_as(&x) {
            assert(s[i as int] == v@[i as int]@);
            assert(s.contains(x@));
            return;
        }
        i = i + 1;
    }
    assert(!s.contains(x@));
    let key = x.target.as_str().as_bytes();
    let mut p: usize = 0;
    while p < v.len() && !bytes_lt(key, v[p].target.as_str().as_bytes())
        invariant
            s == references_seq_view(v@),
            p <= v@.len(),
            key@ == encode_utf8(x@.1),
            insert_pos(s, x@, reference_key(), p as int) == insert_pos(s, x@, reference_key(), 0),
        decreases v.len() - p,
    {
        p = p + 1;
    }
    v.insert(p, x);
    assert(references_seq_view(v@) =~= s.insert(p as int, x@));
}

/// The location of a definition site.
fn to_location(d: &JumpDestination) -> (r: Location)
    ensures
        r@ == location_of(d@),
{
    Location {
        name: d.name.clone(),
        range: Range {
            start: Position { line: d.span.start.line, column: d.span.start.col },
            end: Position { line: d.span.end.line, column: d.span.end.col },
        },
    }
}

/// Builds the index of `content`: its definition sites and its references,
/// each without duplicates and in ascending order of name.
pub fn parse(content: &str) -> (r: Result<Targets, Error>)
    ensures
        r is Err <==> index_of(content@) is None,
        r matches Err(e) ==> e == Error::Parsing(ParsingError::SettingLanguage),
        r matches Ok(tg) ==> index_of(content@) == Some(
            (locations_view(tg.destinations@), references_seq_view(tg.sources@)),
        ),
{
    let mut destinations = Destinations::new(content);
    let defs = match destinations.definitions() {
        Ok(d) => d,
        Err(e) => return Err(Error::Parsing(e)),
    };
    let refs = match extract_all(content) {
        Ok(r) => r,
        Err(e) => return Err(Error::Parsing(e)),
    };
    let ghost dv = locations_of(destinations_view(defs@));
    let mut sorted_defs: Vec<Location> = Vec::new();
    let mut i: usize = 0;
    while i < defs.len()
        invariant
            i <= defs@.len(),
            dv == locations_of(destinations_view(defs@)),
            locations_view(sorted_defs@) == sort_dedup(dv.take(i as int), location_key()),
        decreases defs.len() - i,
    {
        insert_location(&mut sorted_defs, to_location(&defs[i]));
        assert(dv.take(i + 1).drop_last() =~= dv.take(i as int));
        i = i + 1;
    }
    assert(dv.take(defs@.len() as int) =~= dv);
    let mut sorted_refs: Vec<Reference> = Vec::new();
    let mut j: usize = 0;
    while j < refs.len()
        invariant
            j <= refs@.len(),
            references_seq_view(sorted_refs@) == sort_dedup(references_seq_view(refs@).take(j as int), reference_key()),
        decreases refs.len() - j,
    {
        insert_reference(&mut sorted_refs, refs[j].duplicate());
        assert(references_seq_view(refs@).take(j + 1).drop_last() =~= references_seq_view(refs@).take(j as int));
        j = j + 1;
    }
    assert(references_seq_view(refs@).take(refs@.len() as int) =~= references_seq_view(refs@));
    Ok(Targets { destinations: sorted_defs, sources: sorted_refs })
}


/// `name` is the text of `t` at `range`.
pub open spec fn spans_text(t: Seq<char>, name: Seq<char>, range: Range) -> bool {
    exists|x: int, y: int|
        #![trigger span_of(t, x, y)]
        0 <= x <= y <= t.len() && name == t.subrange(x, y) && range == span_of(t, x, y)
}

proof fn lemma_section_spans(t: Seq<char>, kind: JumpDestinationType)
    ensures
        section_definitions(t, kind) matches Some(v) ==> forall|k: int|
            0 <= k < v.len() ==> spans_text(t, location_of(#[trigger] v[k]).0, location_of(v[k]).1),
{
    if let Some(cs) = yaml_query_captures(t, section_pattern(kind)) {
        lemma_captures_plan_within(t, ValueRule::Ignore, cs);
        let p = captures_plan(t, ValueRule::Ignore, cs);
        let v = section_definitions(t, kind)->0;
        assert forall|k: int| 0 <= k < v.len() implies spans_text(
            t,
            location_of(#[trigger] v[k]).0,
            location_of(v[k]).1,
        ) by {
            assert(v[k] == destination_view(t, kind, p[k]));
            assert(location_of(v[k]).1 == span_of(t, p[k].0, p[k].1));
        }
    }
}

proof fn lemma_definitions_spans(t: Seq<char>, n: int)
    ensures
        definitions_upto(t, n) matches Some(v) ==> forall|k: int|
            0 <= k < v.len() ==> spans_text(t, location_of(#[trigger] v[k]).0, location_of(v[k]).1),
    decreases n,
{
    if n > 0 {
        lemma_definitions_spans(t, n - 1);
        lemma_section_spans(t, section_at(n - 1));
        if let (Some(a), Some(b)) = (definitions_upto(t, n - 1), section_definitions(t, section_at(n - 1))) {
            let v = a + b;
            assert forall|k: int| 0 <= k < v.len() implies spans_text(
                t,
                location_of(#[trigger] v[k]).0,
                location_of(v[k]).1,
            ) by {
                if k < a.len() {
                    assert(v[k] == a[k]);
                } else {
                    assert(v[k] == b[k - a.len()]);
                }
            }
        }
    }
}

proof fn lemma_extracted_spans(t: Seq<char>, kind: ReferenceKind)
    ensures
        extracted(t, kind) matches Some(v) ==> forall|k: int|
            0 <= k < v.len() ==> spans_text(t, (#[trigger] v[k]).1, v[k].2),
{
    if let Some(cs) = yaml_query_captures(t, pattern_for(kind)) {
        lemma_captures_plan_within(t, value_rule(kind), cs);
        let p = captures_plan(t, value_rule(kind), cs);
        let v = extracted(t, kind)->0;
        assert forall|k: int| 0 <= k < v.len() implies spans_text(t, (#[trigger] v[k]).1, v[k].2) by {
            assert(v[k] == reference_view(t, kind, p[k]));
            assert(v[k].2 == span_of(t, p[k].0, p[k].1));
        }
    }
}

proof fn lemma_references_spans(t: Seq<char>, n: int)
    ensures
        references_upto(t, n) matches Some(v) ==> forall|k: int|
            0 <= k < v.len() ==> spans_text(t, (#[trigger] v[k]).1, v[k].2),
    decreases n,
{
    if n > 0 {
        lemma_references_spans(t, n - 1);
        lemma_extracted_spans(t, kind_at(n - 1));
        if let (Some(a), Some(b)) = (references_upto(t, n - 1), extracted(t, kind_at(n - 1))) {
            let v = a + b;
            assert forall|k: int| 0 <= k < v.len() implies spans_text(t, (#[trigger] v[k]).1, v[k].2) by {
                if k < a.len() {
                    assert(v[k] == a[k]);
                } else {
                    assert(v[k] == b[k - a.len()]);
                }
            }
        }
    }
}

/// Every definition site and every reference of the index names exactly the
/// text at its span: a `Fn::Sub` reference spans the placeholder's name
/// within the string, and a `Name.Attr` reference spans `Name` alone.
pub proof fn lemma_index_spans(t: Seq<char>)
    ensures
        index_of(t) matches Some(ix) ==> (forall|i: int|
            0 <= i < ix.0.len() ==> spans_text(t, (#[trigger] ix.0[i]).0, ix.0[i].1)) && (forall|i: int|
            0 <= i < ix.1.len() ==> spans_text(t, (#[trigger] ix.1[i]).1, ix.1[i].2)),
{
    if let (Some(d), Some(r)) = (definitions_of(t), all_references(t)) {
        let dl = locations_of(d);
        lemma_sort_dedup(dl, location_key());
        lemma_sort_dedup(r, reference_key());
        lemma_definitions_spans(t, 4);
        lemma_references_spans(t, 6);
        let ix = index_of(t)->0;
        assert(ix.0 == sort_dedup(dl, location_key()));
        assert(ix.1 == sort_dedup(r, reference_key()));
        assert forall|i: int| 0 <= i < ix.0.len() implies spans_text(t, (#[trigger] ix.0[i]).0, ix.0[i].1) by {
            assert(ix.0.contains(ix.0[i]));
            assert(dl.contains(ix.0[i]));
            let k = choose|k: int| 0 <= k < dl.len() && dl[k] == ix.0[i];
            assert(dl[k] == location_of(d[k]));
        }
        assert forall|i: int| 0 <= i < ix.1.len() implies spans_text(t, (#[trigger] ix.1[i]).1, ix.1[i].2) by {
            assert(ix.1.contains(ix.1[i]));
            assert(r.contains(ix.1[i]));
            let k = choose|k: int| 0 <= k < r.len() && r[k] == ix.1[i];
        }
    }
}

/// `s` holds no line feed.
pub open spec fn no_line_feed(s: Seq<char>) -> bool {
    forall|k: int| 0 <= k < s.len() ==> s[k] != '\n'
}

/// `range` starts and ends on one line of `t`, and that line, cut at its
/// columns, is `name`.
pub open spec fn on_one_line(t: Seq<char>, name: Seq<char>, range: Range) -> bool {
    range.start.line == range.end.line && (nth_line(t, range.start.line as int) matches Some((s, e))
        && range.start.column <= range.end.column <= e - s && t.subrange(s, e).subrange(
        range.start.column as int,
        range.end.column as int,
    ) == name)
}

proof fn lemma_spans_on_one_line(t: Seq<char>, name: Seq<char>, range: Range)
    requires
        spans_text(t, name, range),
        no_line_feed(name),
        t.len() <= usize::MAX,
    ensures
        on_one_line(t, name, range),
{
    let (x, y) = choose|x: int, y: int|
        #![trigger span_of(t, x, y)]
        0 <= x <= y <= t.len() && name == t.subrange(x, y) && range == span_of(t, x, y);
    assert forall|k: int| x <= k < y implies t[k] != '\n' by {
        assert(name[k - x] == t[k]);
    }
    lemma_line_slice(t, x, y);
    lemma_pos_bounds(t, x);
    lemma_pos_bounds(t, y);
}

/// Every definition site and every reference of the index whose name holds
/// no line feed stands on one line of the text: the line it starts on, cut
/// at its start and end columns, is its name (a `Fn::Sub` placeholder's name
/// without the quotes or `${`, a `Name.Attr` reference's `Name` alone).
pub proof fn lemma_index_lines(t: Seq<char>)
    requires
        t.len() <= usize::MAX,
    ensures
        index_of(t) matches Some(ix) ==> (forall|i: int|
            0 <= i < ix.0.len() && no_line_feed(#[trigger] ix.0[i].0) ==> on_one_line(t, ix.0[i].0, ix.0[i].1))
            && (forall|i: int|
            0 <= i < ix.1.len() && no_line_feed(#[trigger] ix.1[i].1) ==> on_one_line(t, ix.1[i].1, ix.1[i].2)),
{
    lemma_index_spans(t);
    if let Some(ix) = index_of(t) {
        assert forall|i: int| 0 <= i < ix.0.len() && no_line_feed(#[trigger] ix.0[i].0) implies on_one_line(
            t,
            ix.0[i].0,
            ix.0[i].1,
        ) by {
            lemma_spans_on_one_line(t, ix.0[i].0, ix.0[i].1);
        }
        assert forall|i: int| 0 <= i < ix.1.len() && no_line_feed(#[trigger] ix.1[i].1) implies on_one_line(
            t,
            ix.1[i].1,
            ix.1[i].2,
        ) by {
            lemma_spans_on_one_line(t, ix.1[i].1, ix.1[i].2);
        }
    }
}

/// Every reference of one kind, extracted from `t`, whose target holds no
/// line feed stands on one line of the text, which, cut at its columns, is
/// the target.
pub proof fn lemma_extracted_lines(t: Seq<char>, kind: ReferenceKind)
    requires
        t.len() <= usize::MAX,
    ensures
        extracted(t, kind) matches Some(v) ==> forall|k: int|
            0 <= k < v.len() && no_line_feed(#[trigger] v[k].1) ==> on_one_line(t, v[k].1, v[k].2),
{
    lemma_extracted_spans(t, kind);
    if let Some(v) = extracted(t, kind) {
        assert forall|k: int| 0 <= k < v.len() && no_line_feed(#[trigger] v[k].1) implies on_one_line(
            t,
            v[k].1,
            v[k].2,
        ) by {
            lemma_spans_on_one_line(t, v[k].1, v[k].2);
        }
    }
}

/// The definition sites and the references of the index are each in
/// ascending order of name.
pub proof fn lemma_index_sorted(t: Seq<char>)
    ensures
        index_of(t) matches Some(ix) ==> is_sorted_by(ix.0, location_key()) && is_sorted_by(
            ix.1,
            reference_key(),
        ),
{
    if let (Some(d), Some(r)) = (definitions_of(t), all_references(t)) {
        lemma_sort_dedup(locations_of(d), location_key());
        lemma_sort_dedup(r, reference_key());
    }
}

/// No definition site and no reference occurs twice in the index, even where
/// the patterns yield one node more than once; and each one that the text
/// yields is there.
pub proof fn lemma_index_no_duplicates(t: Seq<char>)
    ensures
        index_of(t) matches Some(ix) ==> {
            &&& no_duplicates(ix.0)
            &&& no_duplicates(ix.1)
            &&& forall|l: (Seq<char>, Range)|
                ix.0.contains(l) <==> locations_of(definitions_of(t)->0).contains(l)
            &&& forall|r: (ReferenceKind, Seq<char>, Range)|
                ix.1.contains(r) <==> all_references(t)->0.contains(r)
        },
{
    if let (Some(d), Some(r)) = (definitions_of(t), all_references(t)) {
        lemma_sort_dedup(locations_of(d), location_key());
        lemma_sort_dedup(r, reference_key());
    }
}

/// The index depends on the text alone: indexing one text twice gives the
/// same destinations and sources.
pub proof fn lemma_index_deterministic(a: Seq<char>, b: Seq<char>)
    requires
        a == b,
    ensures
        index_of(a) == index_of(b),
{
}

/// Relies on std's `str::from_utf8`: it accepts exactly the well-formed UTF-8
/// byte sequences, and the text it returns has those bytes.
#[verifier::external_body]
fn utf8_text(bytes: &[u8]) -> (r: Option<&str>)
    ensures
        r is Some <==> valid_utf8(bytes@),
        r matches Some(s) ==> encode_utf8(s@) == bytes@,
{
    std::str::from_utf8(bytes).ok()
}

/// Builds the index of a template given as bytes; `Error::NotUtf8` where they
/// are not UTF-8.
pub fn parse_from(bytes: &[u8]) -> (r: Result<Targets, Error>)
    ensures
        !valid_utf8(bytes@) ==> r == Err::<Targets, Error>(Error::NotUtf8),
        valid_utf8(bytes@) ==> {
            &&& r is Err <==> index_of(decode_utf8(bytes@)) is None
            &&& r matches Err(e) ==> e == Error::Parsing(ParsingError::SettingLanguage)
            &&& r matches Ok(tg) ==> index_of(decode_utf8(bytes@)) == Some(
                (locations_view(tg.destinations@), references_seq_view(tg.sources@)),
            )
        },
{
    match utf8_text(bytes) {
        Some(text) => {
            proof {
                encode_utf8_decode_utf8(text@);
            }
            parse(text)
        },
        None => Err(Error::NotUtf8),
    }
}

} // verus!
