//! Turning the captures of a pattern into character ranges of names.
//!
//! A capture whose name ends in `.target` binds a node that is the name
//! itself; one ending in `.quoted` binds the name between two quote
//! characters; one ending in `.value` binds a node that holds the name inside
//! more text, which a [`ValueRule`] reads. Other captures only anchor patterns.
use vstd::prelude::*;
use crate::syntax::{captures_view, RawCapture};
use crate::text::{char_offset, char_range_of, ends_with, has_suffix, is_boundary, lemma_char_offsets};

verus! {

/// The failure to obtain a syntax tree or to run a pattern over it.
#[derive(Clone, Copy, Debug, PartialEq, Eq, Structural)]
pub enum ParsingError {
    SettingLanguage,
}

/// How the name is read out of a `.value` capture.
#[derive(Clone, Copy, Debug, PartialEq, Eq, Structural)]
pub enum ValueRule {
    /// The node yields no name.
    Ignore,
    /// Each `${Name}` placeholder of the node's text.
    Placeholders,
    /// The node's text up to its first `.`.
    BeforeDot,
}

/// The suffix of a capture whose node is the referenced name itself.
pub open spec fn target_suffix() -> Seq<char> {
    seq!['.', 't', 'a', 'r', 'g', 'e', 't']
}

/// The suffix of a capture whose node holds the name inside more text.
pub open spec fn value_suffix() -> Seq<char> {
    seq!['.', 'v', 'a', 'l', 'u', 'e']
}

/// The suffix of a capture whose node is the name in quotes.
pub open spec fn quoted_suffix() -> Seq<char> {
    seq!['.', 'q', 'u', 'o', 't', 'e', 'd']
}

/// The character ranges of the names of the `${Name}` placeholders in
/// `t[i..end]`, when scanning starts at `i`, inside a placeholder whose name
/// began at `open` (or outside any, where `open` is negative). A name ends at
/// the first `}` or `.`; names that are empty or begin with `!` (a literal)
/// are passed over.
pub open spec fn placeholders(t: Seq<char>, end: int, i: int, open: int) -> Seq<(int, int)>
    decreases end - i,
{
    if i >= end {
        seq![]
    } else if open < 0 {
        if t[i] == '$' && i + 1 < end && t[i + 1] == '{' {
            placeholders(t, end, i + 2, i + 2)
        } else {
            placeholders(t, end, i + 1, -1)
        }
    } else if t[i] == '}' || t[i] == '.' {
        if i > open && t[open] != '!' {
            seq![(open, i)] + placeholders(t, end, i + 1, -1)
        } else {
            placeholders(t, end, i + 1, -1)
        }
    } else {
        placeholders(t, end, i + 1, open)
    }
}

/// The offset of the first `.` in `t[i..end]`, or `end` where there is none.
pub open spec fn first_dot(t: Seq<char>, end: int, i: int) -> int
    decreases end - i,
{
    if i >= end {
        end
    } else if t[i] == '.' {
        i
    } else {
        first_dot(t, end, i + 1)
    }
}

/// The character ranges of the names that one capture refers to.
pub open spec fn capture_plan(t: Seq<char>, rule: ValueRule, c: (Seq<char>, int, int)) -> Seq<
    (int, int),
> {
    if !(c.1 <= c.2 && is_boundary(t, c.1) && is_boundary(t, c.2)) {
        seq![]
    } else {
        let a = char_offset(t, c.1);
        let b = char_offset(t, c.2);
        if ends_with(c.0, target_suffix()) {
            seq![(a, b)]
        } else if ends_with(c.0, quoted_suffix()) {
            if a + 2 <= b {
                seq![(a + 1, b - 1)]
            } else {
                seq![]
            }
        } else if ends_with(c.0, value_suffix()) {
            match rule {
                ValueRule::Placeholders => placeholders(t, b, a, -1),
                ValueRule::BeforeDot => seq![(a, first_dot(t, b, a))],
                ValueRule::Ignore => seq![],
            }
        } else {
            seq![]
        }
    }
}

/// The character ranges of the names that a sequence of captures refers to.
pub open spec fn captures_plan(t: Seq<char>, rule: ValueRule, cs: Seq<(Seq<char>, int, int)>) -> Seq<
    (int, int),
>
    decreases cs.len(),
{
    if cs.len() == 0 {
        seq![]
    } else {
        captures_plan(t, rule, cs.drop_last()) + capture_plan(t, rule, cs.last())
    }
}

/// Each range of `v` is ordered and ends by `n`.
pub open spec fn ranges_within(v: Seq<(usize, usize)>, n: int) -> bool {
    forall|k: int| 0 <= k < v.len() ==> v[k].0 <= #[trigger] v[k].1 <= n
}

pub open spec fn ranges_view(v: Seq<(usize, usize)>) -> Seq<(int, int)> {
    v.map_values(|p: (usize, usize)| (p.0 as int, p.1 as int))
}

/// The ranges of the placeholder names in the characters `a..b`.
fn placeholder_ranges(chars: &Vec<char>, a: usize, b: usize) -> (r: Vec<(usize, usize)>)
    requires
        a <= b <= chars@.len(),
    ensures
        ranges_view(r@) == placeholders(chars@, b as int, a as int, -1),
        forall|k: int| 0 <= k < r@.len() ==> #[trigger] r@[k].0 <= r@[k].1 <= b,
{
    let mut out: Vec<(usize, usize)> = Vec::new();
    let mut i: usize = a;
    let mut inside = false;
    let mut open: usize = 0;
    while i < b
        invariant
            a <= i <= b <= chars@.len(),
            open <= i,
            forall|k: int| 0 <= k < out@.len() ==> #[trigger] out@[k].0 <= out@[k].1 <= b,
            ranges_view(out@) + placeholders(chars@, b as int, i as int, if inside { open as int } else { -1 })
                == placeholders(chars@, b as int, a as int, -1),
        decreases b - i,
    {
        let ghost before = out@;
        if !inside {
            if chars[i] == '$' && i + 1 < b && chars[i + 1] == '{' {
                inside = true;
                open = i + 2;
                i = i + 2;
            } else {
                i = i + 1;
            }
        } else if chars[i] == '}' || chars[i] == '.' {
            if i > open && chars[open] != '!' {
                out.push((open, i));
                assert(ranges_view(out@) =~= ranges_view(before) + seq![(open as int, i as int)]);
            }
            inside = false;
            i = i + 1;
        } else {
            i = i + 1;
        }
    }
    out
}

/// The offset of the first `.` in the characters `i..end`, or `end`.
fn find_dot(chars: &Vec<char>, end: usize, i: usize) -> (r: usize)
    requires
        i <= end <= chars@.len(),
    ensures
        r == first_dot(chars@, end as int, i as int),
        i <= r <= end,
{
    let mut j = i;
    while j < end
        invariant
            i <= j <= end <= chars@.len(),
            first_dot(chars@, end as int, j as int) == first_dot(chars@, end as int, i as int),
        decreases end - j,
    {
        if chars[j] == '.' {
            return j;
        }
        j = j + 1;
    }
    j
}

/// Appends to `out` the ranges of the names that one capture refers to.
fn capture_ranges(text: &str, chars: &Vec<char>, rule: ValueRule, c: &RawCapture, out: &mut Vec<(usize, usize)>)
    requires
        chars@ == text@,
    ensures
        ranges_view(final(out)@) == ranges_view(old(out)@) + capture_plan(
            text@,
            rule,
            (c.name@, c.start_byte as int, c.end_byte as int),
        ),
        forall|k: int|
            old(out)@.len() <= k < final(out)@.len() ==> #[trigger] final(out)@[k].0 <= final(out)@[k].1
                <= text@.len(),
        forall|k: int| 0 <= k < old(out)@.len() ==> final(out)@[k] == old(out)@[k],
{
    let ghost t = text@;
    let ghost before = out@;
    let range = char_range_of(text, c.start_byte, c.end_byte);
    let (a, b) = match range {
        Some(p) => p,
        None => {
            assert(ranges_view(out@) =~= ranges_view(before) + seq![]);
            return;
        },
    };
    proof {
        reveal_strlit(".target");
        reveal_strlit(".value");
        reveal_strlit(".quoted");
        assert(".quoted"@ =~= quoted_suffix());
        assert(".target"@ =~= target_suffix());
        assert(".value"@ =~= value_suffix());
    }
    if has_suffix(&c.name, ".target") {
        out.push((a, b));
        assert(ranges_view(out@) =~= ranges_view(before) + seq![(a as int, b as int)]);
    } else if has_suffix(&c.name, ".quoted") {
        if b >= 2 && a <= b - 2 {
            out.push((a + 1, b - 1));
            assert(ranges_view(out@) =~= ranges_view(before) + seq![(a + 1 as int, b - 1 as int)]);
        } else {
            assert(ranges_view(out@) =~= ranges_view(before) + seq![]);
        }
    } else if has_suffix(&c.name, ".value") {
        match rule {
            ValueRule::Placeholders => {
                let found = placeholder_ranges(chars, a, b);
                let mut k: usize = 0;
                while k < found.len()
                    invariant
                        k <= found@.len(),
                        b <= t.len(),
                        forall|m: int| 0 <= m < found@.len() ==> #[trigger] found@[m].0 <= found@[m].1 <= b,
                        ranges_view(out@) == ranges_view(before) + ranges_view(found@).take(k as int),
                        forall|m: int| 0 <= m < before.len() ==> out@[m] == before[m],
                        out@.len() == before.len() + k,
                        forall|m: int| before.len() <= m < out@.len() ==> #[trigger] out@[m].0 <= out@[m].1 <= t.len(),
                    decreases found.len() - k,
                {
                    let ghost prev = out@;
                    out.push(found[k]);
                    assert(ranges_view(found@).take(k + 1) =~= ranges_view(found@).take(k as int).push(
                        ranges_view(found@)[k as int],
                    ));
                    assert(ranges_view(out@) =~= ranges_view(prev).push(ranges_view(found@)[k as int]));
                    k = k + 1;
                }
                assert(ranges_view(found@).take(found@.len() as int) =~= ranges_view(found@));
            },
            ValueRule::BeforeDot => {
                let d = find_dot(chars, b, a);
                out.push((a, d));
                assert(ranges_view(out@) =~= ranges_view(before) + seq![(a as int, d as int)]);
            },
            ValueRule::Ignore => {
                assert(ranges_view(out@) =~= ranges_view(before) + seq![]);
            },
        }
    } else {
        assert(ranges_view(out@) =~= ranges_view(before) + seq![]);
    }
}

/// Each range is ordered and lies within `lo..hi`.
pub open spec fn plan_within(p: Seq<(int, int)>, lo: int, hi: int) -> bool {
    forall|k: int| 0 <= k < p.len() ==> lo <= #[trigger] p[k].0 <= p[k].1 <= hi
}

proof fn lemma_placeholders_within(t: Seq<char>, end: int, i: int, open: int)
    requires
        open < 0 || open <= i,
    ensures
        plan_within(placeholders(t, end, i, open), if open < 0 { i } else { open }, end),
    decreases end - i,
{
    if i < end {
        if open < 0 {
            if t[i] == '$' && i + 1 < end && t[i + 1] == '{' {
                lemma_placeholders_within(t, end, i + 2, i + 2);
            } else {
                lemma_placeholders_within(t, end, i + 1, -1);
            }
        } else if t[i] == '}' || t[i] == '.' {
            lemma_placeholders_within(t, end, i + 1, -1);
        } else {
            lemma_placeholders_within(t, end, i + 1, open);
        }
    }
}

proof fn lemma_first_dot(t: Seq<char>, end: int, i: int)
    requires
        i <= end,
    ensures
        i <= first_dot(t, end, i) <= end,
    decreases end - i,
{
    if i < end && t[i] != '.' {
        lemma_first_dot(t, end, i + 1);
    }
}

/// Every range that captures yield is ordered and lies within the text.
pub proof fn lemma_captures_plan_within(t: Seq<char>, rule: ValueRule, cs: Seq<(Seq<char>, int, int)>)
    ensures
        plan_within(captures_plan(t, rule, cs), 0, t.len() as int),
    decreases cs.len(),
{
    if cs.len() > 0 {
        lemma_captures_plan_within(t, rule, cs.drop_last());
        let c = cs.last();
        if c.1 <= c.2 && is_boundary(t, c.1) && is_boundary(t, c.2) {
            lemma_char_offsets(t, c.1, c.2);
            let a = char_offset(t, c.1);
            let b = char_offset(t, c.2);
            lemma_placeholders_within(t, b, a, -1);
            lemma_first_dot(t, b, a);
        }
        let p = captures_plan(t, rule, cs);
        let p1 = captures_plan(t, rule, cs.drop_last());
        let p2 = capture_plan(t, rule, c);
        assert forall|k: int| 0 <= k < p.len() implies 0 <= #[trigger] p[k].0 <= p[k].1 <= t.len() by {
            if k >= p1.len() {
                assert(p[k] == p2[k - p1.len()]);
            } else {
                assert(p[k] == p1[k]);
            }
        }
    }
}

/// The character ranges of the names that the captures `caps` of a pattern
/// over `text` refer to.
pub fn ranges_of_captures(text: &str, chars: &Vec<char>, rule: ValueRule, caps: &Vec<RawCapture>) -> (r: Vec<(usize, usize)>)
    requires
        chars@ == text@,
    ensures
        ranges_view(r@) == captures_plan(text@, rule, captures_view(caps@)),
        ranges_within(r@, text@.len() as int),
{
    let ghost cs = captures_view(caps@);
    let mut ranges: Vec<(usize, usize)> = Vec::new();
    let mut i: usize = 0;
    while i < caps.len()
        invariant
            chars@ == text@,
            cs == captures_view(caps@),
            i <= caps@.len(),
            ranges_view(ranges@) == captures_plan(text@, rule, cs.take(i as int)),
            ranges_within(ranges@, text@.len() as int),
        decreases caps.len() - i,
    {
        capture_ranges(text, chars, rule, &caps[i], &mut ranges);
        assert(cs.take(i + 1).drop_last() =~= cs.take(i as int));
        i = i + 1;
    }
    assert(cs.take(caps@.len() as int) =~= cs);
    ranges
}

} // verus!
