//! The resolver: what stands under the cursor, and where it is defined.
//!
//! These lookups read the current text directly rather than its syntax tree,
//! so that they work on text that does not parse.
use vstd::prelude::*;
use crate::index::locations_view;
use crate::text::{chars_of, has_prefix, lemma_pos_bounds, pos_at, same_text, starts_with};
use crate::types::{Location, Position, Range, Targets};

verus! {

/// Unicode's `White_Space` characters.
pub open spec fn is_white_space(c: char) -> bool {
    let u = c as u32;
    (0x09 <= u <= 0x0d) || u == 0x20 || u == 0x85 || u == 0xa0 || u == 0x1680 || (0x2000 <= u <= 0x200a)
        || u == 0x2028 || u == 0x2029 || u == 0x202f || u == 0x205f || u == 0x3000
}

/// Whether `c` is a whitespace character.
pub fn is_whitespace(c: char) -> (r: bool)
    ensures
        r == is_white_space(c),
{
    let u = c as u32;
    (0x09 <= u && u <= 0x0d) || u == 0x20 || u == 0x85 || u == 0xa0 || u == 0x1680 || (0x2000 <= u && u
        <= 0x200a) || u == 0x2028 || u == 0x2029 || u == 0x202f || u == 0x205f || u == 0x3000
}

/// The range of line `n` of `t`, lines being separated by `\n`, scanning from
/// `i` in a line that began at `start`, with `n` more separators to pass.
pub open spec fn line_range(t: Seq<char>, i: int, start: int, n: int) -> Option<(int, int)>
    decreases t.len() - i,
{
    if i >= t.len() {
        if n == 0 {
            Some((start, t.len() as int))
        } else {
            None
        }
    } else if t[i] == '\n' {
        if n == 0 {
            Some((start, i))
        } else {
            line_range(t, i + 1, i + 1, n - 1)
        }
    } else {
        line_range(t, i + 1, start, n)
    }
}

/// The character range of line `n` of `t`; `None` where `t` has fewer lines.
pub open spec fn nth_line(t: Seq<char>, n: int) -> Option<(int, int)> {
    line_range(t, 0, 0, n)
}

/// Where the run of non-whitespace characters that holds `c` begins, looking
/// no further back than `s`.
pub open spec fn word_start(t: Seq<char>, s: int, c: int) -> int
    decreases c - s,
{
    if c > s && !is_white_space(t[c - 1]) {
        word_start(t, s, c - 1)
    } else {
        c
    }
}

/// Where the run of non-whitespace characters from `c` ends, looking no
/// further than `e`.
pub open spec fn word_end(t: Seq<char>, e: int, c: int) -> int
    decreases e - c,
{
    if c < e && !is_white_space(t[c]) {
        word_end(t, e, c + 1)
    } else {
        c
    }
}

/// The word under `(line, column)` in `t`: the longest run of non-whitespace
/// characters of that line that holds the column. `None` where the character
/// there is whitespace, or the line or the column is out of range.
pub open spec fn word_at(t: Seq<char>, line: int, column: int) -> Option<Seq<char>> {
    match nth_line(t, line) {
        Some((s, e)) => {
            let c = s + column;
            if c >= e || is_white_space(t[c]) {
                None
            } else {
                Some(t.subrange(word_start(t, s, c), word_end(t, e, c)))
            }
        },
        None => None,
    }
}

/// Line and column grow together: the line of a later offset is no smaller,
/// and a line feed before it makes it larger.
proof fn lemma_pos_monotonic(t: Seq<char>, i: int, k: int)
    requires
        0 <= i < k <= t.len(),
    ensures
        pos_at(t, k).0 >= pos_at(t, i + 1).0,
        t[i] == '\n' ==> pos_at(t, i + 1).0 == pos_at(t, i).0 + 1,
    decreases k - i,
{
    if k > i + 1 {
        lemma_pos_monotonic(t, i, k - 1);
    }
}

/// Scanning for line `n` of `t` reaches offset `k` at the start of `k`'s line.
proof fn lemma_scan_reaches(t: Seq<char>, k: int, i: int)
    requires
        0 <= i <= k <= t.len(),
    ensures
        line_range(t, i, i - pos_at(t, i).1, pos_at(t, k).0 - pos_at(t, i).0) == nth_line(t, pos_at(t, k).0),
    decreases i,
{
    if i > 0 {
        lemma_scan_reaches(t, k, i - 1);
        lemma_pos_bounds(t, i - 1);
        if t[i - 1] == '\n' {
            lemma_pos_monotonic(t, i - 1, k);
        }
    }
}

/// From `i` on, the line that began at `s` ends at the next line feed.
proof fn lemma_line_end(t: Seq<char>, i: int, s: int)
    requires
        0 <= i <= t.len(),
    ensures
        line_range(t, i, s, 0) matches Some((a, e)) && a == s && i <= e <= t.len() && forall|j: int|
            i <= j < e ==> t[j] != '\n',
        line_range(t, i, s, 0) matches Some((a, e)) ==> (e < t.len() ==> t[e] == '\n'),
    decreases t.len() - i,
{
    if i < t.len() && t[i] != '\n' {
        lemma_line_end(t, i + 1, s);
    }
}

/// A span with no line feed in it lies on one line: its columns differ by its
/// length, and that line of the text, cut at those columns, is the span's text.
pub proof fn lemma_line_slice(t: Seq<char>, x: int, y: int)
    requires
        0 <= x <= y <= t.len(),
        forall|k: int| x <= k < y ==> t[k] != '\n',
    ensures
        pos_at(t, y).0 == pos_at(t, x).0,
        pos_at(t, y).1 == pos_at(t, x).1 + (y - x),
        nth_line(t, pos_at(t, x).0) matches Some((s, e)) && s + pos_at(t, x).1 == x && y <= e
            && t.subrange(s, e).subrange(pos_at(t, x).1, pos_at(t, y).1) == t.subrange(x, y),
    decreases y - x,
{
    if y > x {
        lemma_line_slice(t, x, y - 1);
    } else {
        lemma_pos_bounds(t, x);
        lemma_scan_reaches(t, x, x);
        lemma_line_end(t, x, x - pos_at(t, x).1);
    }
    let (s, e) = nth_line(t, pos_at(t, x).0)->0;
    if y > x {
        lemma_pos_bounds(t, x);
        lemma_scan_reaches(t, x, x);
        lemma_line_end(t, x, x - pos_at(t, x).1);
        if e < y {
            assert(t[e] == '\n');
        }
    }
    assert(t.subrange(s, e).subrange(pos_at(t, x).1, pos_at(t, y).1) =~= t.subrange(x, y));
}

/// The character range of line `n` of the characters `chars`.
pub fn line_bounds(chars: &Vec<char>, n: usize) -> (r: Option<(usize, usize)>)
    ensures
        r matches Some(p) ==> nth_line(chars@, n as int) == Some((p.0 as int, p.1 as int)) && p.0 <= p.1
            <= chars@.len(),
        r is None ==> nth_line(chars@, n as int) is None,
{
    let mut i: usize = 0;
    let mut start: usize = 0;
    let mut rem: usize = n;
    while i < chars.len()
        invariant
            start <= i <= chars@.len(),
            line_range(chars@, i as int, start as int, rem as int) == nth_line(chars@, n as int),
        decreases chars.len() - i,
    {
        if chars[i] == '\n' {
            if rem == 0 {
                return Some((start, i));
            }
            rem = rem - 1;
            start = i + 1;
        }
        i = i + 1;
    }
    if rem == 0 {
        Some((start, i))
    } else {
        None
    }
}

/// The word under the cursor in `content`: the longest run of non-whitespace
/// characters on the cursor's line that holds the cursor's column; `None`
/// where the character at the cursor is whitespace, or the line or the column
/// is out of range.
pub fn word_under_cursor(content: &str, cursor: Position) -> (r: Option<String>)
    ensures
        r matches Some(w) ==> word_at(content@, cursor.line as int, cursor.column as int) == Some(w@),
        r is None ==> word_at(content@, cursor.line as int, cursor.column as int) is None,
{
    let chars = chars_of(content);
    let (s, e) = match line_bounds(&chars, cursor.line) {
        Some(p) => p,
        None => return None,
    };
    if cursor.column >= e - s {
        return None;
    }
    let c = s + cursor.column;
    if is_whitespace(chars[c]) {
        return None;
    }
    let mut a = c;
    while a > s && !is_whitespace(chars[a - 1])
        invariant
            s <= a <= c < e <= chars@.len(),
            word_start(chars@, s as int, a as int) == word_start(chars@, s as int, c as int),
        decreases a - s,
    {
        a = a - 1;
    }
    let mut b = c;
    while b < e && !is_whitespace(chars[b])
        invariant
            c <= b <= e <= chars@.len(),
            word_end(chars@, e as int, b as int) == word_end(chars@, e as int, c as int),
        decreases e - b,
    {
        b = b + 1;
    }
    Some(content.substring_char(a, b).to_owned())
}

/// The prefix that resource type names begin with.
pub open spec fn type_prefix() -> Seq<char> {
    seq!['A', 'W', 'S', ':', ':']
}

/// Where the token that begins at `i` ends: at the next whitespace or `"`.
pub open spec fn token_end(l: Seq<char>, i: int) -> int
    decreases l.len() - i,
{
    if i >= l.len() {
        l.len() as int
    } else if is_white_space(l[i]) || l[i] == '"' {
        i
    } else {
        token_end(l, i + 1)
    }
}

/// The first resource type name of `l`, from `c` on, whose token holds
/// column `col`.
pub open spec fn resource_type_from(l: Seq<char>, col: int, c: int) -> Option<Seq<char>>
    decreases l.len() - c,
{
    if c >= l.len() || c < 0 {
        None
    } else if starts_with(l.subrange(c, l.len() as int), type_prefix()) && c <= col < token_end(l, c) {
        Some(l.subrange(c, token_end(l, c)))
    } else {
        resource_type_from(l, col, c + 1)
    }
}

proof fn lemma_token_end(l: Seq<char>, i: int)
    requires
        0 <= i <= l.len(),
    ensures
        i <= token_end(l, i) <= l.len(),
    decreases l.len() - i,
{
    if i < l.len() && !(is_white_space(l[i]) || l[i] == '"') {
        lemma_token_end(l, i + 1);
    }
}

/// Where the token of `chars` that begins at `i` ends.
fn find_token_end(chars: &Vec<char>, i: usize) -> (r: usize)
    requires
        i <= chars@.len(),
    ensures
        r == token_end(chars@, i as int),
        i <= r <= chars@.len(),
{
    let mut j = i;
    while j < chars.len() && !(is_whitespace(chars[j]) || chars[j] == '"')
        invariant
            i <= j <= chars@.len(),
            token_end(chars@, j as int) == token_end(chars@, i as int),
        decreases chars.len() - j,
    {
        j = j + 1;
    }
    j
}

/// Whether the characters from `c` on begin with the resource type prefix.
fn has_type_prefix(chars: &Vec<char>, c: usize) -> (r: bool)
    requires
        c <= chars@.len(),
    ensures
        r == starts_with(chars@.subrange(c as int, chars@.len() as int), type_prefix()),
{
    let ghost rest = chars@.subrange(c as int, chars@.len() as int);
    if chars.len() - c < 5 {
        return false;
    }
    let r = chars[c] == 'A' && chars[c + 1] == 'W' && chars[c + 2] == 'S' && chars[c + 3] == ':' && chars[c + 4]
        == ':';
    assert(r ==> rest.subrange(0, 5) =~= type_prefix());
    assert(rest.subrange(0, 5) =~= type_prefix() ==> (rest[0] == 'A' && rest[1] == 'W' && rest[2] == 'S'
        && rest[3] == ':' && rest[4] == ':'));
    r
}

/// The resource type name (`AWS::...`) on `line` whose token holds the
/// column of `position`; the token ends at whitespace or a `"`.
pub fn extract_resource_type(line: &str, position: Position) -> (r: Option<String>)
    ensures
        r matches Some(s) ==> resource_type_from(line@, position.column as int, 0) == Some(s@),
        r is None ==> resource_type_from(line@, position.column as int, 0) is None,
{
    let chars = chars_of(line);
    let col = position.column;
    let mut c: usize = 0;
    while c < chars.len()
        invariant
            chars@ == line@,
            col == position.column,
            c <= chars@.len(),
            resource_type_from(line@, col as int, c as int) == resource_type_from(line@, col as int, 0),
        decreases chars.len() - c,
    {
        if has_type_prefix(&chars, c) {
            let end = find_token_end(&chars, c);
            if c <= col && col < end {
                return Some(line.substring_char(c, end).to_owned());
            }
        }
        c = c + 1;
    }
    None
}

/// The resource type name under `position` in `content`, looked up on the
/// position's line.
pub open spec fn resource_type_at(t: Seq<char>, position: Position) -> Option<Seq<char>> {
    match nth_line(t, position.line as int) {
        Some((s, e)) => resource_type_from(t.subrange(s, e), position.column as int, 0),
        None => None,
    }
}

/// The resource type name under the cursor in `content`.
pub fn resource_type_under_cursor(content: &str, position: Position) -> (r: Option<String>)
    ensures
        r matches Some(s) ==> resource_type_at(content@, position) == Some(s@),
        r is None ==> resource_type_at(content@, position) is None,
{
    let chars = chars_of(content);
    match line_bounds(&chars, position.line) {
        Some((s, e)) => extract_resource_type(content.substring_char(s, e), position),
        None => None,
    }
}

/// The definition sites of `s` named `w`, in their order.
pub open spec fn named(s: Seq<(Seq<char>, Range)>, w: Seq<char>) -> Seq<(Seq<char>, Range)>
    decreases s.len(),
{
    if s.len() == 0 {
        seq![]
    } else {
        named(s.drop_last(), w) + if s.last().0 == w {
            seq![s.last()]
        } else {
            seq![]
        }
    }
}

/// Every definition site of the index named `word`, in the index's order.
/// Where a template defines a name more than once, all of its sites are
/// returned, so that the editor can offer each.
pub fn definition_candidates(index: &Targets, word: &str) -> (r: Vec<Location>)
    ensures
        locations_view(r@) == named(locations_view(index.destinations@), word@),
{
    let ghost s = locations_view(index.destinations@);
    let w = word.to_owned();
    let mut out: Vec<Location> = Vec::new();
    let mut i: usize = 0;
    while i < index.destinations.len()
        invariant
            s == locations_view(index.destinations@),
            w@ == word@,
            i <= s.len(),
            locations_view(out@) == named(s.take(i as int), word@),
        decreases index.destinations.len() - i,
    {
        let d = &index.destinations[i];
        let ghost prev = out@;
        assert(s.take(i + 1).drop_last() =~= s.take(i as int));
        assert(s.take(i + 1).last() == d@);
        if d.name == w {
            out.push(d.duplicate());
            assert(locations_view(out@) =~= locations_view(prev) + seq![d@]);
        } else {
            assert(locations_view(out@) =~= locations_view(prev) + seq![]);
        }
        i = i + 1;
    }
    assert(s.take(s.len() as int) =~= s);
    out
}

/// Where the word under `cursor` in `t` is defined, by the index's sites.
pub open spec fn definitions_at(t: Seq<char>, index: Seq<(Seq<char>, Range)>, cursor: Position) -> Seq<
    (Seq<char>, Range),
> {
    match word_at(t, cursor.line as int, cursor.column as int) {
        Some(w) => named(index, w),
        None => seq![],
    }
}

/// Goto-definition: the definition sites named by the word under the cursor;
/// empty where there is no word there or no site of that name.
pub fn goto_definition(content: &str, index: &Targets, cursor: Position) -> (r: Vec<Location>)
    ensures
        locations_view(r@) == definitions_at(content@, locations_view(index.destinations@), cursor),
{
    match word_under_cursor(content, cursor) {
        Some(w) => definition_candidates(index, w.as_str()),
        None => Vec::new(),
    }
}

/// The two syntaxes that templates are written in.
#[derive(Clone, Copy, Debug, PartialEq, Eq, Hash, Structural)]
pub enum TemplateLanguage {
    Yaml,
    Json,
}

/// The offset of the first character of `l`, from `i` on, that is not
/// whitespace, or the length of `l`.
pub open spec fn first_non_space(l: Seq<char>, i: int) -> int
    decreases l.len() - i,
{
    if i >= l.len() {
        l.len() as int
    } else if !is_white_space(l[i]) {
        i
    } else {
        first_non_space(l, i + 1)
    }
}

/// `l` without its leading whitespace.
pub open spec fn trim_start(l: Seq<char>) -> Seq<char> {
    l.subrange(first_non_space(l, 0), l.len() as int)
}

/// The syntax that the content of `t` suggests: the bracketed one where its
/// first character that is not whitespace is `{`.
pub open spec fn content_language(t: Seq<char>) -> TemplateLanguage {
    let i = first_non_space(t, 0);
    if i < t.len() && t[i] == '{' {
        TemplateLanguage::Json
    } else {
        TemplateLanguage::Yaml
    }
}

/// The syntax of a template: by its file extension (`json`, or `yaml` and
/// `yml`), and else by its content.
pub open spec fn language_of(extension: Option<Seq<char>>, t: Seq<char>) -> TemplateLanguage {
    if extension == Some(seq!['j', 's', 'o', 'n']) {
        TemplateLanguage::Json
    } else if extension == Some(seq!['y', 'a', 'm', 'l']) || extension == Some(seq!['y', 'm', 'l']) {
        TemplateLanguage::Yaml
    } else {
        content_language(t)
    }
}

/// The key that a resource type declaration line begins with.
pub open spec fn type_key(language: TemplateLanguage) -> Seq<char> {
    match language {
        TemplateLanguage::Yaml => seq!['T', 'y', 'p', 'e', ':'],
        TemplateLanguage::Json => seq!['"', 'T', 'y', 'p', 'e', '"', ':'],
    }
}

/// Resource type completions are offered on `l`: it declares a type.
pub open spec fn completes(l: Seq<char>, language: TemplateLanguage) -> bool {
    starts_with(trim_start(l), type_key(language))
}

/// Resource type completions are offered at `position` of `t`.
pub open spec fn completes_at(t: Seq<char>, language: TemplateLanguage, position: Position) -> bool {
    match nth_line(t, position.line as int) {
        Some((s, e)) => completes(t.subrange(s, e), language),
        None => false,
    }
}

/// Where the leading whitespace of `chars` ends.
fn skip_space(chars: &Vec<char>) -> (r: usize)
    ensures
        r == first_non_space(chars@, 0),
        r <= chars@.len(),
{
    let mut i: usize = 0;
    while i < chars.len() && is_whitespace(chars[i])
        invariant
            i <= chars@.len(),
            first_non_space(chars@, i as int) == first_non_space(chars@, 0),
        decreases chars.len() - i,
    {
        i = i + 1;
    }
    i
}

/// The syntax that the content of a template suggests.
pub fn detect_file_type(content: &str) -> (r: TemplateLanguage)
    ensures
        r == content_language(content@),
{
    let chars = chars_of(content);
    let i = skip_space(&chars);
    if i < chars.len() && chars[i] == '{' {
        TemplateLanguage::Json
    } else {
        TemplateLanguage::Yaml
    }
}

/// The syntax of a template whose file has the given extension.
pub fn template_language_for(extension: Option<&str>, text: &str) -> (r: TemplateLanguage)
    ensures
        r == language_of(
            match extension {
                Some(e) => Some(e@),
                None => None,
            },
            text@,
        ),
{
    proof {
        reveal_strlit("json");
        reveal_strlit("yaml");
        reveal_strlit("yml");
    }
    match extension {
        Some(e) => {
            if same_text(e, "json") {
                assert("json"@ =~= seq!['j', 's', 'o', 'n']);
                return TemplateLanguage::Json;
            }
            assert("json"@ =~= seq!['j', 's', 'o', 'n']);
            assert("yaml"@ =~= seq!['y', 'a', 'm', 'l']);
            assert("yml"@ =~= seq!['y', 'm', 'l']);
            if same_text(e, "yaml") || same_text(e, "yml") {
                return TemplateLanguage::Yaml;
            }
            detect_file_type(text)
        },
        None => detect_file_type(text),
    }
}

/// Whether resource type completions are offered on `line`: once its leading
/// whitespace is trimmed, it begins with the type key of the syntax.
pub fn should_complete(line: &str, language: TemplateLanguage) -> (r: bool)
    ensures
        r == completes(line@, language),
{
    let chars = chars_of(line);
    let i = skip_space(&chars);
    let rest = line.substring_char(i, chars.len());
    proof {
        reveal_strlit("Type:");
        reveal_strlit("\"Type\":");
        assert("Type:"@ =~= type_key(TemplateLanguage::Yaml));
        assert("\"Type\":"@ =~= type_key(TemplateLanguage::Json));
    }
    match language {
        TemplateLanguage::Yaml => has_prefix(rest, "Type:"),
        TemplateLanguage::Json => has_prefix(rest, "\"Type\":"),
    }
}

/// Whether resource type completions are offered at `position` of `content`.
pub fn completion_applies(content: &str, language: TemplateLanguage, position: Position) -> (r: bool)
    ensures
        r == completes_at(content@, language, position),
{
    let chars = chars_of(content);
    match line_bounds(&chars, position.line) {
        Some((s, e)) => should_complete(content.substring_char(s, e), language),
        None => false,
    }
}

/// The extension of the file name of a path, as `Path::extension` gives it.
pub uninterp spec fn path_extension(path: Seq<char>) -> Option<Seq<char>>;

/// Relies on std's `Path::extension` and `OsStr::to_str`: the extension that
/// they give depends on the path alone.
#[verifier::external_body]
fn file_extension(path: &str) -> (r: Option<String>)
    ensures
        r matches Some(e) ==> path_extension(path@) == Some(e@),
        r is None ==> path_extension(path@) is None,
{
    std::path::Path::new(path).extension().and_then(|e| e.to_str()).map(|e| e.to_string())
}

/// The syntax of the template in the file `filename` with content `text`:
/// by the file's extension, and else by its content.
pub fn detect_template_language(filename: &str, text: &str) -> (r: TemplateLanguage)
    ensures
        r == language_of(path_extension(filename@), text@),
{
    match file_extension(filename) {
        Some(e) => template_language_for(Some(e.as_str()), text),
        None => template_language_for(None, text),
    }
}

} // verus!
