//! Text as a sequence of characters: line/column positions, and the conversion
//! of the grammar parser's byte offsets into character offsets.
use vstd::prelude::*;
use vstd::utf8::*;

verus! {

/// The position (line, column) of character offset `k` of `t`: the number of
/// line feeds before it, and the number of characters since the last of them.
pub open spec fn pos_at(t: Seq<char>, k: int) -> (int, int)
    decreases k,
{
    if k <= 0 {
        (0, 0)
    } else {
        let p = pos_at(t, k - 1);
        if t[k - 1] == '\n' {
            (p.0 + 1, 0)
        } else {
            (p.0, p.1 + 1)
        }
    }
}

/// The number of characters that the first `byte` bytes of the UTF-8 form of
/// `t` encode.
pub open spec fn char_offset(t: Seq<char>, byte: int) -> int {
    decode_utf8(encode_utf8(t).subrange(0, byte)).len() as int
}

/// Byte offset `byte` lies within the UTF-8 form of `t`, on a character boundary.
pub open spec fn is_boundary(t: Seq<char>, byte: int) -> bool {
    0 <= byte <= encode_utf8(t).len() && is_char_boundary(encode_utf8(t), byte)
}

pub proof fn lemma_pos_bounds(t: Seq<char>, k: int)
    requires
        0 <= k,
    ensures
        0 <= pos_at(t, k).0 <= k,
        0 <= pos_at(t, k).1 <= k,
    decreases k,
{
    if k > 0 {
        lemma_pos_bounds(t, k - 1);
    }
}

/// UTF-8 encoding distributes over concatenation.
pub proof fn lemma_encode_concat(a: Seq<char>, b: Seq<char>)
    ensures
        encode_utf8(a + b) == encode_utf8(a) + encode_utf8(b),
    decreases a.len(),
{
    if a.len() == 0 {
        assert(a + b =~= b);
        assert(encode_utf8(a) + encode_utf8(b) =~= encode_utf8(b));
    } else {
        assert((a + b).drop_first() =~= a.drop_first() + b);
        lemma_encode_concat(a.drop_first(), b);
        assert(encode_utf8(a + b) =~= encode_utf8(a) + encode_utf8(b));
    }
}

/// Every character takes at least one byte.
pub proof fn lemma_encode_len(a: Seq<char>)
    ensures
        encode_utf8(a).len() >= a.len(),
    decreases a.len(),
{
    if a.len() > 0 {
        lemma_encode_len(a.drop_first());
    }
}

/// Splitting the UTF-8 form of `t` at byte `m` splits `t` itself.
pub proof fn lemma_split_bytes(t: Seq<char>, m: int, p: Seq<char>, q: Seq<char>)
    requires
        0 <= m <= encode_utf8(t).len(),
        encode_utf8(p) == encode_utf8(t).subrange(0, m),
        encode_utf8(q) == encode_utf8(t).subrange(m, encode_utf8(t).len() as int),
    ensures
        t == p + q,
        char_offset(t, m) == p.len(),
{
    broadcast use encode_utf8_decode_utf8;

    lemma_encode_concat(p, q);
    assert(encode_utf8(p + q) =~= encode_utf8(t));
    assert(decode_utf8(encode_utf8(p + q)) == p + q);
    assert(decode_utf8(encode_utf8(t)) == t);
}

/// Character offsets grow with byte offsets.
pub proof fn lemma_prefix_order(t: Seq<char>, p1: Seq<char>, q1: Seq<char>, p2: Seq<char>, q2: Seq<char>)
    requires
        t == p1 + q1,
        t == p2 + q2,
        encode_utf8(p1).len() <= encode_utf8(p2).len(),
    ensures
        p1.len() <= p2.len(),
        p1 == t.take(p1.len() as int),
        p2 == t.take(p2.len() as int),
{
    assert(p1 =~= t.take(p1.len() as int));
    assert(p2 =~= t.take(p2.len() as int));
    if p1.len() > p2.len() {
        let x = t.subrange(p2.len() as int, p1.len() as int);
        assert(p1 =~= p2 + x);
        lemma_encode_concat(p2, x);
        lemma_encode_len(x);
    }
}

/// The character offsets that byte offsets `start_byte` and `end_byte` of
/// `text` stand for; `None` where either is not a character boundary of the
/// text or the two are out of order.
pub fn char_range_of(text: &str, start_byte: usize, end_byte: usize) -> (r: Option<(usize, usize)>)
    ensures
        r is Some <==> start_byte <= end_byte && is_boundary(text@, start_byte as int)
            && is_boundary(text@, end_byte as int),
        r matches Some(p) ==> p.0 == char_offset(text@, start_byte as int) && p.1 == char_offset(
            text@,
            end_byte as int,
        ) && p.0 <= p.1 <= text@.len(),
{
    if start_byte > end_byte || end_byte > text.as_bytes().len() {
        return None;
    }
    if !text.is_char_boundary(start_byte) || !text.is_char_boundary(end_byte) {
        return None;
    }
    let (p1, q1) = text.split_at(start_byte);
    let (p2, q2) = text.split_at(end_byte);
    let a = p1.unicode_len();
    let b = p2.unicode_len();
    proof {
        lemma_split_bytes(text@, start_byte as int, p1@, q1@);
        lemma_split_bytes(text@, end_byte as int, p2@, q2@);
        lemma_prefix_order(text@, p1@, q1@, p2@, q2@);
    }
    Some((a, b))
}

/// `s` ends with `suffix`.
pub open spec fn ends_with(s: Seq<char>, suffix: Seq<char>) -> bool {
    suffix.len() <= s.len() && s.subrange(s.len() - suffix.len(), s.len() as int) == suffix
}

/// `s` begins with `prefix`.
pub open spec fn starts_with(s: Seq<char>, prefix: Seq<char>) -> bool {
    prefix.len() <= s.len() && s.subrange(0, prefix.len() as int) == prefix
}

/// Character offsets of boundaries lie within the text and keep the order of
/// the byte offsets.
pub proof fn lemma_char_offsets(t: Seq<char>, x: int, y: int)
    requires
        x <= y,
        is_boundary(t, x),
        is_boundary(t, y),
    ensures
        0 <= char_offset(t, x) <= char_offset(t, y) <= t.len(),
{
    broadcast use encode_utf8_valid_utf8, decode_utf8_encode_utf8;

    let b = encode_utf8(t);
    valid_utf8_split(b, x);
    valid_utf8_split(b, y);
    let p1 = decode_utf8(b.subrange(0, x));
    let q1 = decode_utf8(b.subrange(x, b.len() as int));
    let p2 = decode_utf8(b.subrange(0, y));
    let q2 = decode_utf8(b.subrange(y, b.len() as int));
    lemma_split_bytes(t, x, p1, q1);
    lemma_split_bytes(t, y, p2, q2);
    lemma_prefix_order(t, p1, q1, p2, q2);
}

/// The characters of `text`, in order.
pub fn chars_of(text: &str) -> (r: Vec<char>)
    ensures
        r@ == text@,
{
    let mut v: Vec<char> = Vec::new();
    for c in it: text.chars()
        invariant
            it.seq() == text@,
            v@ == it.seq().take(it.index() as int),
    {
        v.push(c);
    }
    v
}

/// The position of character offset `k` of `chars`.
pub fn position_at(chars: &Vec<char>, k: usize) -> (r: (usize, usize))
    requires
        k <= chars@.len(),
    ensures
        r.0 == pos_at(chars@, k as int).0,
        r.1 == pos_at(chars@, k as int).1,
{
    let mut line: usize = 0;
    let mut column: usize = 0;
    let mut i: usize = 0;
    while i < k
        invariant
            i <= k <= chars@.len(),
            line == pos_at(chars@, i as int).0,
            column == pos_at(chars@, i as int).1,
        decreases k - i,
    {
        proof {
            lemma_pos_bounds(chars@, i as int);
        }
        if chars[i] == '\n' {
            line = line + 1;
            column = 0;
        } else {
            column = column + 1;
        }
        i = i + 1;
    }
    (line, column)
}

/// Whether `s` ends with `suffix`.
pub fn has_suffix(s: &str, suffix: &str) -> (r: bool)
    ensures
        r == ends_with(s@, suffix@),
{
    let a = chars_of(s);
    let b = chars_of(suffix);
    if b.len() > a.len() {
        return false;
    }
    let alen = a.len();
    let off = alen - b.len();
    let mut i: usize = 0;
    while i < b.len()
        invariant
            a@ == s@,
            b@ == suffix@,
            alen == a@.len(),
            off + b@.len() == alen,
            i <= b@.len(),
            forall|j: int| 0 <= j < i ==> a@[off + j] == b@[j],
        decreases b.len() - i,
    {
        if a[off + i] != b[i] {
            assert(a@.subrange(off as int, a@.len() as int)[i as int] != b@[i as int]);
            return false;
        }
        i = i + 1;
    }
    assert(a@.subrange(off as int, a@.len() as int) =~= b@);
    true
}

/// Whether `s` begins with `prefix`.
pub fn has_prefix(s: &str, prefix: &str) -> (r: bool)
    ensures
        r == starts_with(s@, prefix@),
{
    let a = chars_of(s);
    let b = chars_of(prefix);
    if b.len() > a.len() {
        return false;
    }
    let mut i: usize = 0;
    while i < b.len()
        invariant
            a@ == s@,
            b@ == prefix@,
            b@.len() <= a@.len(),
            i <= b@.len(),
            forall|j: int| 0 <= j < i ==> a@[j] == b@[j],
        decreases b.len() - i,
    {
        if a[i] != b[i] {
            assert(a@.subrange(0, b@.len() as int)[i as int] != b@[i as int]);
            return false;
        }
        i = i + 1;
    }
    assert(a@.subrange(0, b@.len() as int) =~= b@);
    true
}

/// Relies on std's `FromIterator<char>` for `String`: collecting characters
/// gives the string of those characters.
#[verifier::external_body]
pub(crate) fn string_of(chars: &Vec<char>) -> (r: String)
    ensures
        r@ == chars@,
{
    chars.iter().collect()
}

/// Whether `a` and `b` hold the same characters.
pub fn same_text(a: &str, b: &str) -> (r: bool)
    ensures
        r == (a@ == b@),
{
    let x = chars_of(a);
    let y = chars_of(b);
    if x.len() != y.len() {
        return false;
    }
    let mut i: usize = 0;
    while i < x.len()
        invariant
            x@ == a@,
            y@ == b@,
            x@.len() == y@.len(),
            i <= x@.len(),
            forall|j: int| 0 <= j < i ==> x@[j] == y@[j],
        decreases x.len() - i,
    {
        if x[i] != y[i] {
            return false;
        }
        i = i + 1;
    }
    assert(x@ =~= y@);
    true
}

} // verus!
