//! Text operations on character slices, each stated over `Seq<char>`.

use vstd::prelude::*;
use vstd::slice::slice_subrange;

verus! {

/// What `String::push` does: the string ends with the given character, and what
/// it held before stays in front of it.
pub assume_specification[ String::push ](s: &mut String, c: char)
    ensures
        final(s)@ == old(s)@.push(c),
;

// ── Specifications ──────────────────────────────────────────────────────────

/// The characters with the Unicode `White_Space` property.
pub open spec fn is_space(c: char) -> bool {
    ||| '\u{9}' <= c <= '\u{d}'
    ||| c == ' '
    ||| c == '\u{85}'
    ||| c == '\u{a0}'
    ||| c == '\u{1680}'
    ||| '\u{2000}' <= c <= '\u{200a}'
    ||| c == '\u{2028}'
    ||| c == '\u{2029}'
    ||| c == '\u{202f}'
    ||| c == '\u{205f}'
    ||| c == '\u{3000}'
}

/// A character does not occur in `s`.
pub open spec fn lacks(s: Seq<char>, c: char) -> bool {
    forall|i: int| 0 <= i < s.len() ==> #[trigger] s[i] != c
}

/// `s` is nothing but white space.
pub open spec fn blank(s: Seq<char>) -> bool {
    forall|i: int| 0 <= i < s.len() ==> is_space(#[trigger] s[i])
}

/// `s` holds something, and neither begins nor ends with white space.
pub open spec fn is_trimmed(s: Seq<char>) -> bool {
    s.len() > 0 && !is_space(s[0]) && !is_space(s.last())
}

/// `s` without its leading white space.
pub open spec fn trim_start(s: Seq<char>) -> Seq<char>
    decreases s.len(),
{
    if s.len() > 0 && is_space(s[0]) {
        trim_start(s.skip(1))
    } else {
        s
    }
}

/// `s` without its trailing white space.
pub open spec fn trim_end(s: Seq<char>) -> Seq<char>
    decreases s.len(),
{
    if s.len() > 0 && is_space(s.last()) {
        trim_end(s.drop_last())
    } else {
        s
    }
}

/// `s` without white space at either end.
pub open spec fn trim(s: Seq<char>) -> Seq<char> {
    trim_end(trim_start(s))
}

/// `p` stands in `s` at position `i`.
pub open spec fn occurs_at(s: Seq<char>, p: Seq<char>, i: int) -> bool {
    &&& 0 <= i
    &&& i + p.len() <= s.len()
    &&& s.subrange(i, i + p.len()) == p
}

/// `s` begins with `p`.
pub open spec fn starts_with(s: Seq<char>, p: Seq<char>) -> bool {
    occurs_at(s, p, 0)
}

/// `s` ends with `p`.
pub open spec fn ends_with(s: Seq<char>, p: Seq<char>) -> bool {
    occurs_at(s, p, s.len() - p.len())
}

/// The first position at or after `from` at which `p` stands in `s`.
pub open spec fn find_from(s: Seq<char>, p: Seq<char>, from: int) -> Option<int>
    decreases s.len() - from + 1,
{
    if from + p.len() > s.len() {
        None
    } else if occurs_at(s, p, from) {
        Some(from)
    } else {
        find_from(s, p, from + 1)
    }
}

/// The first position at which `p` stands in `s`.
pub open spec fn find(s: Seq<char>, p: Seq<char>) -> Option<int> {
    find_from(s, p, 0)
}

/// `p` stands somewhere in `s`.
pub open spec fn contains(s: Seq<char>, p: Seq<char>) -> bool {
    find(s, p) is Some
}

/// The last position at or before `from` at which `p` stands in `s`.
pub open spec fn rfind_from(s: Seq<char>, p: Seq<char>, from: int) -> Option<int>
    decreases from + 1,
{
    if from < 0 {
        None
    } else if occurs_at(s, p, from) {
        Some(from)
    } else {
        rfind_from(s, p, from - 1)
    }
}

/// The last position at which `p` stands in `s`.
pub open spec fn rfind(s: Seq<char>, p: Seq<char>) -> Option<int> {
    rfind_from(s, p, s.len() - p.len())
}

/// The pieces of `s` between the occurrences of `p`, scanned from the left.
pub open spec fn split(s: Seq<char>, p: Seq<char>) -> Seq<Seq<char>>
    decreases s.len(),
{
    match find(s, p) {
        Some(i) if p.len() > 0 => {
            proof {
                lemma_find(s, p);
            }
            seq![s.take(i)] + split(s.skip(i + p.len()), p)
        },
        _ => seq![s],
    }
}

/// `s` with every occurrence of `p`, scanned from the left, replaced by `r`.
pub open spec fn replace(s: Seq<char>, p: Seq<char>, r: Seq<char>) -> Seq<char>
    decreases s.len(),
{
    match find(s, p) {
        Some(i) if p.len() > 0 => {
            proof {
                lemma_find(s, p);
            }
            s.take(i) + r + replace(s.skip(i + p.len()), p, r)
        },
        _ => s,
    }
}

/// `s` without the `p`s it begins with.
pub open spec fn trim_start_matches(s: Seq<char>, p: Seq<char>) -> Seq<char>
    decreases s.len(),
{
    if p.len() > 0 && starts_with(s, p) {
        trim_start_matches(s.skip(p.len() as int), p)
    } else {
        s
    }
}

/// A line without the carriage return that precedes its line feed.
pub open spec fn strip_cr(s: Seq<char>) -> Seq<char> {
    if s.len() > 0 && s.last() == '\r' {
        s.drop_last()
    } else {
        s
    }
}

/// The lines of `s`: each ends at a line feed, alone or after a carriage
/// return, and the last line feed is optional.
pub open spec fn lines(s: Seq<char>) -> Seq<Seq<char>>
    decreases s.len(),
{
    if s.len() == 0 {
        seq![]
    } else {
        match find(s, seq!['\n']) {
            Some(i) => {
                proof {
                    lemma_find(s, seq!['\n']);
                }
                seq![strip_cr(s.take(i))] + lines(s.skip(i + 1))
            },
            None => seq![s],
        }
    }
}

/// How many characters of `s`, from the left, are not white space.
pub open spec fn word_len(s: Seq<char>) -> nat
    decreases s.len(),
{
    if s.len() > 0 && !is_space(s[0]) {
        1 + word_len(s.skip(1))
    } else {
        0
    }
}

/// The maximal runs of `s` without white space.
pub open spec fn words(s: Seq<char>) -> Seq<Seq<char>>
    decreases s.len(),
{
    if s.len() == 0 {
        seq![]
    } else if is_space(s[0]) {
        words(s.skip(1))
    } else {
        let n = word_len(s) as int;
        proof {
            lemma_word_len(s);
        }
        seq![s.take(n)] + words(s.skip(n))
    }
}

/// What stands in `s` before the first `p`: all of `s` where `p` does not stand
/// in it.
pub open spec fn before(s: Seq<char>, p: Seq<char>) -> Seq<char> {
    match find(s, p) {
        Some(i) => s.take(i),
        None => s,
    }
}

/// What stands in `s` after a `p` that it begins with.
pub open spec fn after(s: Seq<char>, p: Seq<char>) -> Seq<char> {
    s.skip(p.len() as int)
}

/// How many bytes UTF-8 takes for a character.
pub open spec fn utf8_width(c: char) -> nat {
    if c <= '\u{7f}' {
        1
    } else if c <= '\u{7ff}' {
        2
    } else if c <= '\u{ffff}' {
        3
    } else {
        4
    }
}

/// How many bytes UTF-8 takes for `s`.
pub open spec fn byte_len(s: Seq<char>) -> nat
    decreases s.len(),
{
    if s.len() == 0 {
        0
    } else {
        byte_len(s.drop_last()) + utf8_width(s.last())
    }
}

/// What an optional string holds.
pub open spec fn opt_view(s: Option<String>) -> Option<Seq<char>> {
    match s {
        Some(t) => Some(t@),
        None => None,
    }
}

/// The contents of a list of character slices.
pub open spec fn views(v: Seq<&[char]>) -> Seq<Seq<char>> {
    v.map_values(|x: &[char]| x@)
}

// ── Facts about the specifications ──────────────────────────────────────────

proof fn lemma_find_from(s: Seq<char>, p: Seq<char>, from: int)
    requires
        0 <= from,
    ensures
        match find_from(s, p, from) {
            Some(i) => {
                &&& from <= i
                &&& occurs_at(s, p, i)
                &&& forall|j: int| from <= j < i ==> !occurs_at(s, p, j)
            },
            None => forall|j: int| from <= j ==> !occurs_at(s, p, j),
        },
    decreases s.len() - from + 1,
{
    if from + p.len() > s.len() {
    } else if occurs_at(s, p, from) {
    } else {
        lemma_find_from(s, p, from + 1);
    }
}

/// `find` gives the least position at which the pattern stands, and `None`
/// exactly when it stands nowhere.
pub proof fn lemma_find(s: Seq<char>, p: Seq<char>)
    ensures
        match find(s, p) {
            Some(i) => {
                &&& occurs_at(s, p, i)
                &&& forall|j: int| j < i ==> !occurs_at(s, p, j)
            },
            None => forall|j: int| !occurs_at(s, p, j),
        },
{
    lemma_find_from(s, p, 0);
}

proof fn lemma_rfind_from(s: Seq<char>, p: Seq<char>, from: int)
    ensures
        match rfind_from(s, p, from) {
            Some(i) => {
                &&& i <= from
                &&& occurs_at(s, p, i)
                &&& forall|j: int| i < j <= from ==> !occurs_at(s, p, j)
            },
            None => forall|j: int| j <= from ==> !occurs_at(s, p, j),
        },
    decreases from + 1,
{
    if from < 0 {
    } else if occurs_at(s, p, from) {
    } else {
        lemma_rfind_from(s, p, from - 1);
    }
}

/// `rfind` gives the greatest position at which the pattern stands, and `None`
/// exactly when it stands nowhere.
pub proof fn law_rfind(s: Seq<char>, p: Seq<char>)
    ensures
        match rfind(s, p) {
            Some(i) => {
                &&& occurs_at(s, p, i)
                &&& forall|j: int| i < j ==> !occurs_at(s, p, j)
            },
            None => forall|j: int| !occurs_at(s, p, j),
        },
{
    lemma_rfind_from(s, p, s.len() - p.len());
}

/// `word_len` counts the characters before the first white space.
pub proof fn lemma_word_len(s: Seq<char>)
    ensures
        word_len(s) <= s.len(),
        forall|j: int| 0 <= j < word_len(s) ==> !is_space(#[trigger] s[j]),
        word_len(s) < s.len() ==> is_space(s[word_len(s) as int]),
    decreases s.len(),
{
    if s.len() > 0 && !is_space(s[0]) {
        lemma_word_len(s.skip(1));
        assert forall|j: int| 0 <= j < word_len(s) implies !is_space(#[trigger] s[j]) by {
            if j > 0 {
                assert(s[j] == s.skip(1)[j - 1]);
            }
        }
    }
}

/// A prefix takes no more bytes than the whole.
proof fn lemma_byte_len_prefix(s: Seq<char>, k: int)
    requires
        0 <= k <= s.len(),
    ensures
        byte_len(s.take(k)) <= byte_len(s),
    decreases s.len() - k,
{
    if k < s.len() {
        assert(s.take(k + 1).drop_last() =~= s.take(k));
        lemma_byte_len_prefix(s, k + 1);
    } else {
        assert(s.take(k) =~= s);
    }
}

/// The total length of some pieces, each counted one longer than it is.
pub open spec fn weight(pieces: Seq<Seq<char>>) -> nat
    decreases pieces.len(),
{
    if pieces.len() == 0 {
        0
    } else {
        weight(pieces.drop_last()) + pieces.last().len() + 1
    }
}

proof fn lemma_weight_front(x: Seq<char>, rest: Seq<Seq<char>>)
    ensures
        weight(seq![x] + rest) == x.len() + 1 + weight(rest),
    decreases rest.len(),
{
    let all = seq![x] + rest;
    if rest.len() == 0 {
        assert(all.drop_last() =~= seq![]);
        assert(weight(Seq::<Seq<char>>::empty()) == 0);
    } else {
        lemma_weight_front(x, rest.drop_last());
        assert(all.drop_last() =~= seq![x] + rest.drop_last());
    }
}

/// The pieces after the first take no more room than the text they come from.
pub proof fn lemma_split_weight(s: Seq<char>, p: Seq<char>)
    requires
        p.len() > 0,
    ensures
        split(s, p).len() > 0,
        weight(split(s, p)) <= s.len() + 1,
        weight(split(s, p).skip(1)) <= s.len(),
    decreases s.len(),
{
    lemma_find(s, p);
    match find(s, p) {
        Some(i) => {
            let rest = split(s.skip(i + p.len()), p);
            lemma_split_weight(s.skip(i + p.len()), p);
            lemma_weight_front(s.take(i), rest);
            assert(split(s, p).skip(1) =~= rest);
        },
        None => {
            lemma_weight_front(s, seq![]);
            assert(seq![s] + Seq::<Seq<char>>::empty() =~= seq![s]);
            assert(weight(Seq::<Seq<char>>::empty()) == 0);
            assert(split(s, p).skip(1) =~= seq![]);
        },
    }
}

/// There are no more lines than characters.
pub proof fn lemma_lines_len(s: Seq<char>)
    ensures
        lines(s).len() <= s.len(),
    decreases s.len(),
{
    if s.len() > 0 {
        lemma_find(s, seq!['\n']);
        match find(s, seq!['\n']) {
            Some(i) => {
                lemma_lines_len(s.skip(i + 1));
            },
            None => {},
        }
    }
}

// ── Conversions ─────────────────────────────────────────────────────────────

/// The characters of a string.
pub fn chars_of(s: &str) -> (v: Vec<char>)
    ensures
        v@ == s@,
{
    let mut v: Vec<char> = Vec::new();
    for c in it: s.chars()
        invariant
            it.seq() == s@,
            v@ == s@.take(it.index()),
    {
        v.push(c);
    }
    v
}

/// The string made of the given characters.
pub fn string_of(s: &[char]) -> (r: String)
    ensures
        r@ == s@,
{
    let mut r = String::new();
    let mut i: usize = 0;
    while i < s.len()
        invariant
            i <= s@.len(),
            r@ == s@.take(i as int),
        decreases s@.len() - i,
    {
        r.push(s[i]);
        i += 1;
    }
    assert(s@.take(i as int) =~= s@);
    r
}

/// What stands from position `from` on.
pub fn tail(s: &[char], from: usize) -> (r: &[char])
    requires
        from <= s@.len(),
    ensures
        r@ == s@.skip(from as int),
{
    let r = slice_subrange(s, from, s.len());
    assert(r@ =~= s@.skip(from as int));
    r
}

/// What stands before position `to`.
pub fn head(s: &[char], to: usize) -> (r: &[char])
    requires
        to <= s@.len(),
    ensures
        r@ == s@.take(to as int),
{
    let r = slice_subrange(s, 0, to);
    assert(r@ =~= s@.take(to as int));
    r
}

/// What stands from position `from` up to position `to`.
pub fn part(s: &[char], from: usize, to: usize) -> (r: &[char])
    requires
        from <= to <= s@.len(),
    ensures
        r@ == s@.subrange(from as int, to as int),
{
    slice_subrange(s, from, to)
}

// ── Operations ──────────────────────────────────────────────────────────────

/// Whether UTF-8 takes fewer than `bound` bytes for `s`.
pub fn shorter_than(s: &[char], bound: usize) -> (r: bool)
    ensures
        r == (byte_len(s@) < bound),
{
    if bound == 0 {
        return false;
    }
    let mut left: usize = bound;
    let mut i: usize = 0;
    while i < s.len()
        invariant
            i <= s@.len(),
            left > 0,
            byte_len(s@.take(i as int)) + left == bound,
        decreases s@.len() - i,
    {
        let c = s[i];
        let w: usize = if c <= '\u{7f}' {
            1
        } else if c <= '\u{7ff}' {
            2
        } else if c <= '\u{ffff}' {
            3
        } else {
            4
        };
        assert(s@.take(i + 1).drop_last() =~= s@.take(i as int));
        if w >= left {
            proof {
                lemma_byte_len_prefix(s@, i + 1);
            }
            return false;
        }
        left -= w;
        i += 1;
    }
    assert(s@.take(i as int) =~= s@);
    true
}

/// What stands in `s` after a `p` that it begins with; nothing where it does
/// not begin with `p`.
pub fn rest_after<'a>(s: &'a [char], p: &str) -> (r: Option<&'a [char]>)
    ensures
        match r {
            Some(t) => starts_with(s@, p@) && t@ == after(s@, p@),
            None => !starts_with(s@, p@),
        },
{
    if begins(s, p) {
        Some(tail(s, p.unicode_len()))
    } else {
        None
    }
}

/// What stands in `s` before the first `p`.
pub fn part_before<'a>(s: &'a [char], p: &str) -> (r: &'a [char])
    ensures
        r@ == before(s@, p@),
{
    match position(s, p) {
        Some(i) => head(s, i),
        None => s,
    }
}

/// Whether `c` is white space.
pub fn space_char(c: char) -> (r: bool)
    ensures
        r == is_space(c),
{
    ('\u{9}' <= c && c <= '\u{d}') || c == ' ' || c == '\u{85}' || c == '\u{a0}' || c == '\u{1680}'
        || ('\u{2000}' <= c && c <= '\u{200a}') || c == '\u{2028}' || c == '\u{2029}' || c
        == '\u{202f}' || c == '\u{205f}' || c == '\u{3000}'
}

/// Whether two slices hold the same characters.
pub fn same(a: &[char], b: &[char]) -> (r: bool)
    ensures
        r == (a@ == b@),
{
    if a.len() != b.len() {
        return false;
    }
    let mut i: usize = 0;
    while i < a.len()
        invariant
            i <= a@.len(),
            a@.len() == b@.len(),
            forall|j: int| 0 <= j < i ==> a@[j] == b@[j],
        decreases a@.len() - i,
    {
        if a[i] != b[i] {
            return false;
        }
        i += 1;
    }
    assert(a@ =~= b@);
    true
}

/// Whether the slice holds the characters of `b`.
pub fn is_text(a: &[char], b: &str) -> (r: bool)
    ensures
        r == (a@ == b@),
{
    let b = chars_of(b);
    same(a, b.as_slice())
}

/// Whether two strings hold the same characters.
pub fn same_str(a: &str, b: &str) -> (r: bool)
    ensures
        r == (a@ == b@),
{
    let a = chars_of(a);
    is_text(a.as_slice(), b)
}

/// The slice without white space at either end.
pub fn trimmed(s: &[char]) -> (r: &[char])
    ensures
        r@ == trim(s@),
{
    let mut a: usize = 0;
    assert(s@.skip(0) =~= s@);
    while a < s.len() && space_char(s[a])
        invariant
            a <= s@.len(),
            trim_start(s@.skip(a as int)) == trim_start(s@),
        decreases s@.len() - a,
    {
        assert(s@.skip(a as int).skip(1) =~= s@.skip(a + 1));
        a += 1;
    }
    let ghost t = s@.skip(a as int);
    assert(trim_start(s@) == t);
    let mut b: usize = s.len();
    assert(s@.subrange(a as int, b as int) =~= t);
    while a < b && space_char(s[b - 1])
        invariant
            a <= b <= s@.len(),
            trim_end(s@.subrange(a as int, b as int)) == trim_end(t),
        decreases b,
    {
        assert(s@.subrange(a as int, b as int).drop_last() =~= s@.subrange(a as int, b - 1));
        b -= 1;
    }
    slice_subrange(s, a, b)
}

/// The string without white space at either end.
pub fn trimmed_string(s: &str) -> (r: String)
    ensures
        r@ == trim(s@),
{
    let v = chars_of(s);
    string_of(trimmed(v.as_slice()))
}

/// Whether `p` stands in `s` at position `i`.
fn stands_at(s: &[char], p: &[char], i: usize) -> (r: bool)
    ensures
        r == occurs_at(s@, p@, i as int),
{
    if p.len() > s.len() || i > s.len() - p.len() {
        return false;
    }
    same(slice_subrange(s, i, i + p.len()), p)
}

/// Whether `s` begins with `p`.
pub fn begins(s: &[char], p: &str) -> (r: bool)
    ensures
        r == starts_with(s@, p@),
{
    let p = chars_of(p);
    stands_at(s, p.as_slice(), 0)
}

/// Whether `s` ends with `p`.
pub fn finishes(s: &[char], p: &str) -> (r: bool)
    ensures
        r == ends_with(s@, p@),
{
    let p = chars_of(p);
    if p.len() > s.len() {
        return false;
    }
    stands_at(s, p.as_slice(), s.len() - p.len())
}

/// The first position at which `p` stands in `s`.
pub fn position(s: &[char], p: &str) -> (r: Option<usize>)
    ensures
        match r {
            Some(i) => find(s@, p@) == Some(i as int) && i + p@.len() <= s@.len(),
            None => find(s@, p@) is None,
        },
{
    let pat = chars_of(p);
    if pat.len() > s.len() {
        return None;
    }
    let mut i: usize = 0;
    loop
        invariant
            pat@ == p@,
            i + p@.len() <= s@.len(),
            find(s@, p@) == find_from(s@, p@, i as int),
        decreases s@.len() - i,
    {
        if stands_at(s, pat.as_slice(), i) {
            return Some(i);
        }
        if i == s.len() - pat.len() {
            assert(find_from(s@, p@, i + 1) is None);
            return None;
        }
        i += 1;
    }
}

/// Whether `p` stands somewhere in `s`.
pub fn holds(s: &[char], p: &str) -> (r: bool)
    ensures
        r == contains(s@, p@),
{
    position(s, p).is_some()
}

/// The last position at which `p` stands in `s`.
pub fn last_position(s: &[char], p: &str) -> (r: Option<usize>)
    ensures
        match r {
            Some(i) => rfind(s@, p@) == Some(i as int) && i + p@.len() <= s@.len(),
            None => rfind(s@, p@) is None,
        },
{
    let pat = chars_of(p);
    if pat.len() > s.len() {
        return None;
    }
    let mut i: usize = s.len() - pat.len();
    loop
        invariant
            pat@ == p@,
            i + p@.len() <= s@.len(),
            rfind(s@, p@) == rfind_from(s@, p@, i as int),
        decreases i,
    {
        if stands_at(s, pat.as_slice(), i) {
            return Some(i);
        }
        if i == 0 {
            assert(rfind_from(s@, p@, -1) is None);
            return None;
        }
        i -= 1;
    }
}

/// The pieces of `s` between the occurrences of `p`.
pub fn split_on<'a>(s: &'a [char], p: &str) -> (r: Vec<&'a [char]>)
    requires
        p@.len() > 0,
    ensures
        views(r@) == split(s@, p@),
{
    let n = p.unicode_len();
    let mut rest: &[char] = s;
    let mut r: Vec<&'a [char]> = Vec::new();
    assert(views(r@) + split(rest@, p@) =~= split(s@, p@));
    loop
        invariant
            n == p@.len(),
            n > 0,
            views(r@) + split(rest@, p@) == split(s@, p@),
        decreases rest@.len(),
    {
        let len: usize = rest.len();
        match position(rest, p) {
            Some(i) => {
                let ghost before = r@;
                let ghost was = rest@;
                r.push(slice_subrange(rest, 0, i));
                rest = slice_subrange(rest, i + n, len);
                assert(was.take(i as int) =~= was.subrange(0, i as int));
                assert(rest@ =~= was.skip(i + n));
                assert(views(r@) =~= views(before).push(was.take(i as int)));
                assert(views(r@) + split(rest@, p@) =~= views(before) + split(was, p@));
            },
            None => {
                let ghost before = r@;
                r.push(rest);
                assert(views(r@) =~= views(before) + split(rest@, p@));
                return r;
            },
        }
    }
}

/// `s` with every occurrence of `p` replaced by `by`.
pub fn replaced(s: &[char], p: &str, by: &str) -> (r: Vec<char>)
    requires
        p@.len() > 0,
    ensures
        r@ == replace(s@, p@, by@),
{
    let n = p.unicode_len();
    let by_chars = chars_of(by);
    let mut rest: &[char] = s;
    let mut r: Vec<char> = Vec::new();
    assert(r@ + replace(rest@, p@, by@) =~= replace(s@, p@, by@));
    loop
        invariant
            n == p@.len(),
            n > 0,
            by_chars@ == by@,
            r@ + replace(rest@, p@, by@) == replace(s@, p@, by@),
        decreases rest@.len(),
    {
        let len: usize = rest.len();
        match position(rest, p) {
            Some(i) => {
                let ghost before = r@;
                let ghost was = rest@;
                extend(&mut r, slice_subrange(rest, 0, i));
                extend(&mut r, by_chars.as_slice());
                rest = slice_subrange(rest, i + n, len);
                assert(was.take(i as int) =~= was.subrange(0, i as int));
                assert(rest@ =~= was.skip(i + n));
                assert(r@ + replace(rest@, p@, by@) =~= before + replace(was, p@, by@));
            },
            None => {
                extend(&mut r, rest);
                return r;
            },
        }
    }
}

/// Appends the characters of `s`.
pub fn extend(v: &mut Vec<char>, s: &[char])
    ensures
        final(v)@ == old(v)@ + s@,
{
    let mut i: usize = 0;
    while i < s.len()
        invariant
            i <= s@.len(),
            v@ == old(v)@ + s@.take(i as int),
        decreases s@.len() - i,
    {
        v.push(s[i]);
        i += 1;
        assert(v@ =~= old(v)@ + s@.take(i as int));
    }
    assert(s@.take(i as int) =~= s@);
}

/// `s` without the `p`s it begins with.
pub fn without_leading<'a>(s: &'a [char], p: &str) -> (r: &'a [char])
    requires
        p@.len() > 0,
    ensures
        r@ == trim_start_matches(s@, p@),
{
    let n = p.unicode_len();
    let mut rest: &[char] = s;
    while begins(rest, p)
        invariant
            n == p@.len(),
            n > 0,
            trim_start_matches(rest@, p@) == trim_start_matches(s@, p@),
        decreases rest@.len(),
    {
        let ghost was = rest@;
        rest = slice_subrange(rest, n, rest.len());
        assert(rest@ =~= was.skip(n as int));
    }
    rest
}

/// The lines of `s`.
pub fn lines_of(s: &[char]) -> (r: Vec<&[char]>)
    ensures
        views(r@) == lines(s@),
{
    let mut rest: &[char] = s;
    let mut r: Vec<&[char]> = Vec::new();
    proof {
        reveal_strlit("\n");
        assert("\n"@ =~= seq!['\n']);
    }
    assert(views(r@) + lines(rest@) =~= lines(s@));
    while rest.len() > 0
        invariant
            "\n"@ == seq!['\n'],
            views(r@) + lines(rest@) == lines(s@),
        decreases rest@.len(),
    {
        let ghost before = r@;
        let ghost was = rest@;
        match position(rest, "\n") {
            Some(i) => {
                let end: usize = if i > 0 && rest[i - 1] == '\r' {
                    i - 1
                } else {
                    i
                };
                r.push(slice_subrange(rest, 0, end));
                rest = slice_subrange(rest, i + 1, rest.len());
                assert(rest@ =~= was.skip(i + 1));
                assert(was.subrange(0, end as int) =~= strip_cr(was.take(i as int)));
                assert(views(r@) =~= views(before).push(strip_cr(was.take(i as int))));
                assert(views(r@) + lines(rest@) =~= views(before) + lines(was));
            },
            None => {
                r.push(rest);
                let n = rest.len();
                rest = slice_subrange(rest, n, n);
                assert(views(r@) =~= views(before) + lines(was));
                assert(views(r@) + lines(rest@) =~= views(r@));
            },
        }
    }
    assert(views(r@) + lines(rest@) =~= views(r@));
    r
}

/// The maximal runs of `s` without white space.
pub fn words_of(s: &[char]) -> (r: Vec<&[char]>)
    ensures
        views(r@) == words(s@),
{
    let mut rest: &[char] = s;
    let mut r: Vec<&[char]> = Vec::new();
    assert(views(r@) + words(rest@) =~= words(s@));
    while rest.len() > 0
        invariant
            views(r@) + words(rest@) == words(s@),
        decreases rest@.len(),
    {
        let ghost before = r@;
        let ghost was = rest@;
        if space_char(rest[0]) {
            rest = slice_subrange(rest, 1, rest.len());
            assert(rest@ =~= was.skip(1));
        } else {
            let mut n: usize = 0;
            assert(was.skip(0) =~= was);
            while n < rest.len() && !space_char(rest[n])
                invariant
                    rest@ == was,
                    n <= was.len(),
                    word_len(was) == n + word_len(was.skip(n as int)),
                decreases was.len() - n,
            {
                assert(was.skip(n as int).skip(1) =~= was.skip(n + 1));
                n += 1;
            }
            r.push(slice_subrange(rest, 0, n));
            rest = slice_subrange(rest, n, rest.len());
            assert(rest@ =~= was.skip(n as int));
            assert(was.subrange(0, n as int) =~= was.take(n as int));
            assert(views(r@) =~= views(before).push(was.take(n as int)));
            assert(views(r@) + words(rest@) =~= views(before) + words(was));
        }
    }
    assert(views(r@) + words(rest@) =~= views(r@));
    r
}

// ── Columns ─────────────────────────────────────────────────────────────────

/// A number of spaces.
pub open spec fn spaces(n: nat) -> Seq<char> {
    Seq::new(n, |i: int| ' ')
}

/// A text filled up with spaces behind it to a width.
pub open spec fn left_in(s: Seq<char>, width: nat) -> Seq<char> {
    if s.len() < width {
        s + spaces((width - s.len()) as nat)
    } else {
        s
    }
}

/// A text filled up with spaces before it to a width.
pub open spec fn right_in(s: Seq<char>, width: nat) -> Seq<char> {
    if s.len() < width {
        spaces((width - s.len()) as nat) + s
    } else {
        s
    }
}

/// Adds a number of spaces.
fn add_spaces(s: &mut String, n: usize)
    ensures
        final(s)@ == old(s)@ + spaces(n as nat),
{
    let ghost before = s@;
    let mut i: usize = 0;
    assert(before + spaces(0) =~= before);
    while i < n
        invariant
            i <= n,
            s@ == before + spaces(i as nat),
        decreases n - i,
    {
        s.push(' ');
        i += 1;
        assert(s@ =~= before + spaces(i as nat));
    }
}

/// A text filled up with spaces behind it to a width.
pub fn left_column(s: &str, width: usize) -> (r: String)
    ensures
        r@ == left_in(s@, width as nat),
{
    let len: usize = s.unicode_len();
    let mut r = s.to_owned();
    if len < width {
        add_spaces(&mut r, width - len);
    }
    r
}

/// A text filled up with spaces before it to a width.
pub fn right_column(s: &str, width: usize) -> (r: String)
    ensures
        r@ == right_in(s@, width as nat),
{
    let len: usize = s.unicode_len();
    let mut r = String::new();
    if len < width {
        add_spaces(&mut r, width - len);
    }
    r.append(s);
    assert(r@ =~= right_in(s@, width as nat));
    r
}

/// Some texts one after the other with a separator between them.
pub open spec fn joined(parts: Seq<String>, sep: Seq<char>) -> Seq<char>
    decreases parts.len(),
{
    if parts.len() == 0 {
        seq![]
    } else if parts.len() == 1 {
        parts[0]@
    } else {
        joined(parts.drop_last(), sep) + sep + parts.last()@
    }
}

/// Some texts one after the other with a separator between them.
pub fn join(parts: &Vec<String>, sep: &str) -> (r: String)
    ensures
        r@ == joined(parts@, sep@),
{
    let mut r = String::new();
    let mut i: usize = 0;
    assert(r@ =~= joined(parts@.take(0), sep@));
    while i < parts.len()
        invariant
            i <= parts@.len(),
            r@ == joined(parts@.take(i as int), sep@),
        decreases parts@.len() - i,
    {
        assert(parts@.take(i + 1).drop_last() =~= parts@.take(i as int));
        if i > 0 {
            r.append(sep);
        }
        r.append(parts[i].as_str());
        i += 1;
        assert(r@ =~= joined(parts@.take(i as int), sep@));
    }
    assert(parts@.take(i as int) =~= parts@);
    r
}

// ── Laws ────────────────────────────────────────────────────────────────────

/// A text holds a pattern exactly where it is made of something, the pattern and
/// something more.
pub proof fn law_contains(s: Seq<char>, p: Seq<char>)
    ensures
        contains(s, p) <==> exists|a: Seq<char>, b: Seq<char>| s == #[trigger] (a + p + b),
{
    lemma_find(s, p);
    if contains(s, p) {
        let i = find(s, p)->0;
        assert(s =~= s.take(i) + p + s.skip(i + p.len()));
    }
    if exists|a: Seq<char>, b: Seq<char>| s == #[trigger] (a + p + b) {
        let (a, b) = choose|a: Seq<char>, b: Seq<char>| s == #[trigger] (a + p + b);
        assert(s.subrange(a.len() as int, a.len() as int + p.len()) =~= p);
        assert(occurs_at(s, p, a.len() as int));
    }
}


/// A pattern that stands at a position and nowhere before is found there.
pub proof fn lemma_found(s: Seq<char>, p: Seq<char>, i: int)
    requires
        occurs_at(s, p, i),
        forall|j: int| j < i ==> !occurs_at(s, p, j),
    ensures
        find(s, p) == Some(i),
{
    lemma_find(s, p);
}

/// A pattern is found at the first character that it begins with, where it
/// stands there.
pub proof fn lemma_found_by_head(s: Seq<char>, p: Seq<char>, i: int)
    requires
        p.len() > 0,
        occurs_at(s, p, i),
        forall|j: int| 0 <= j < i ==> s[j] != p[0],
    ensures
        find(s, p) == Some(i),
{
    assert forall|j: int| j < i implies !occurs_at(s, p, j) by {
        if occurs_at(s, p, j) {
            assert(s.subrange(j, j + p.len())[0] == s[j]);
        }
    }
    lemma_found(s, p, i);
}

/// What stands before the first separator is the first part, and the rest is
/// split on its own: a text is cut at each separator, and nowhere else.
pub proof fn law_split_head(a: Seq<char>, p: Seq<char>, b: Seq<char>)
    requires
        p.len() > 0,
        forall|j: int| 0 <= j < a.len() ==> a[j] != p[0],
    ensures
        split(a + p + b, p) == seq![a] + split(b, p),
        split(a, p) == seq![a],
{
    let s = a + p + b;
    assert(s.subrange(a.len() as int, a.len() as int + p.len()) =~= p);
    lemma_found_by_head(s, p, a.len() as int);
    assert(s.take(a.len() as int) =~= a);
    assert(s.skip(a.len() as int + p.len()) =~= b);
    lemma_find(a, p);
    if find(a, p) is Some {
        let i = find(a, p)->0;
        assert(a.subrange(i, i + p.len())[0] == a[i]);
    }
}

/// The parts of a text that was split are at least one.
pub proof fn lemma_split_some(s: Seq<char>, p: Seq<char>)
    ensures
        split(s, p).len() > 0,
{
}


proof fn lemma_trim_start(a: Seq<char>, b: Seq<char>)
    requires
        blank(a),
    ensures
        trim_start(a + b) == trim_start(b),
    decreases a.len(),
{
    if a.len() > 0 {
        assert((a + b)[0] == a[0]);
        assert((a + b).skip(1) =~= a.skip(1) + b);
        assert(forall|i: int| 0 <= i < a.skip(1).len() ==> #[trigger] a.skip(1)[i] == a[i + 1]);
        lemma_trim_start(a.skip(1), b);
    } else {
        assert(a + b =~= b);
    }
}

proof fn lemma_trim_end(a: Seq<char>, b: Seq<char>)
    requires
        blank(b),
    ensures
        trim_end(a + b) == trim_end(a),
    decreases b.len(),
{
    if b.len() > 0 {
        assert((a + b).last() == b.last());
        assert((a + b).drop_last() =~= a + b.drop_last());
        lemma_trim_end(a, b.drop_last());
    } else {
        assert(a + b =~= a);
    }
}

/// What stands between white space is what trimming leaves.
pub proof fn law_trim_between(a: Seq<char>, s: Seq<char>, b: Seq<char>)
    requires
        blank(a),
        blank(b),
    ensures
        is_trimmed(s) ==> trim(a + s + b) == s,
        s.len() == 0 ==> trim(a + s + b) == s,
{
    assert(a + s + b =~= a + (s + b));
    lemma_trim_start(a, s + b);
    if is_trimmed(s) {
        assert((s + b)[0] == s[0]);
        lemma_trim_end(s, b);
    } else if s.len() == 0 {
        assert(s + b =~= b + s);
        lemma_trim_start(b, s);
        assert(trim_end(s) =~= s);
    }
}

proof fn lemma_trim_start_at(s: Seq<char>) -> (i: int)
    ensures
        0 <= i <= s.len(),
        trim_start(s) == s.skip(i),
        blank(s.take(i)),
        i < s.len() ==> !is_space(s[i]),
    decreases s.len(),
{
    if s.len() > 0 && is_space(s[0]) {
        let rest = s.skip(1);
        let k = lemma_trim_start_at(rest);
        assert(rest.skip(k) =~= s.skip(k + 1));
        assert forall|j: int| 0 <= j < k + 1 implies is_space(#[trigger] s.take(k + 1)[j]) by {
            if j > 0 {
                assert(rest.take(k)[j - 1] == s[j]);
            }
        }
        k + 1
    } else {
        assert(s.skip(0) =~= s);
        0
    }
}

proof fn lemma_trim_end_at(s: Seq<char>) -> (i: int)
    ensures
        0 <= i <= s.len(),
        trim_end(s) == s.take(i),
        blank(s.skip(i)),
        i > 0 ==> !is_space(s[i - 1]),
    decreases s.len(),
{
    if s.len() > 0 && is_space(s.last()) {
        let front = s.drop_last();
        let k = lemma_trim_end_at(front);
        assert(front.take(k) =~= s.take(k));
        assert forall|j: int| 0 <= j < s.len() - k implies is_space(#[trigger] s.skip(k)[j]) by {
            if j < s.len() - k - 1 {
                assert(front.skip(k)[j] == s[k + j]);
            }
        }
        k
    } else {
        assert(s.take(s.len() as int) =~= s);
        s.len() as int
    }
}

/// `t` is what stands in `s` between `i` and `j`, with nothing but white space
/// around it.
pub open spec fn trimmed_to(s: Seq<char>, t: Seq<char>, i: int, j: int) -> bool {
    &&& 0 <= i <= j <= s.len()
    &&& t == s.subrange(i, j)
    &&& blank(s.take(i))
    &&& blank(s.skip(j))
}

/// Trimming takes white space off the two ends, all of it and nothing else.
pub proof fn law_trimmed(s: Seq<char>)
    ensures
        trim(s).len() > 0 ==> is_trimmed(trim(s)),
        exists|i: int, j: int| trimmed_to(s, trim(s), i, j),
{
    let t = trim_start(s);
    let i = lemma_trim_start_at(s);
    let k = lemma_trim_end_at(t);
    assert(trim(s) =~= s.subrange(i, i + k));
    assert(s.skip(i + k) =~= t.skip(k));
    assert(trimmed_to(s, trim(s), i, i + k));
    if trim(s).len() > 0 {
        assert(trim(s)[0] == s[i]);
        assert(trim(s).last() == t[k - 1]);
    }
}

/// A line ends at the first line feed, and the lines after it are those of the
/// rest.
pub proof fn law_lines_head(line: Seq<char>, rest: Seq<char>)
    requires
        lacks(line, '\n'),
    ensures
        lines(line + seq!['\n'] + rest) == seq![strip_cr(line)] + lines(rest),
        line.len() > 0 ==> lines(line) == seq![line],
{
    let s = line + seq!['\n'] + rest;
    let i = line.len() as int;
    assert(s.subrange(i, i + 1) =~= seq!['\n']);
    assert(forall|j: int| 0 <= j < i ==> #[trigger] s[j] == line[j]);
    lemma_found_by_head(s, seq!['\n'], i);
    assert(s.take(i) =~= line);
    assert(s.skip(i + 1) =~= rest);
    lemma_find(line, seq!['\n']);
    if find(line, seq!['\n']) is Some {
        let k = find(line, seq!['\n'])->0;
        assert(line.subrange(k, k + 1)[0] == line[k]);
    }
}

/// A word ends at the first white space, and the words after it are those of the
/// rest; white space in front of a word does not matter.
pub proof fn law_words_head(word: Seq<char>, gap: char, rest: Seq<char>)
    requires
        word.len() > 0,
        forall|i: int| 0 <= i < word.len() ==> !is_space(#[trigger] word[i]),
        is_space(gap),
    ensures
        words(word + seq![gap] + rest) == seq![word] + words(rest),
        words(seq![gap] + rest) == words(rest),
        words(word) == seq![word],
{
    let s = word + seq![gap] + rest;
    lemma_word_is_counted(word, seq![gap] + rest);
    assert(s =~= word + (seq![gap] + rest));
    assert(s[0] == word[0]);
    assert(s.take(word.len() as int) =~= word);
    assert(s.skip(word.len() as int) =~= seq![gap] + rest);
    assert((seq![gap] + rest).skip(1) =~= rest);
    assert((seq![gap] + rest)[0] == gap);
    assert(words(seq![gap] + rest) == words(rest));
    lemma_word_is_counted(word, seq![]);
    assert(word + Seq::<char>::empty() =~= word);
    assert(word.take(word.len() as int) =~= word);
    assert(words(word.skip(word.len() as int)) =~= seq![]);
    assert(words(word) =~= seq![word]);
}

proof fn lemma_word_is_counted(word: Seq<char>, rest: Seq<char>)
    requires
        forall|i: int| 0 <= i < word.len() ==> !is_space(#[trigger] word[i]),
        rest.len() > 0 ==> is_space(rest[0]),
    ensures
        word_len(word + rest) == word.len(),
    decreases word.len(),
{
    if word.len() > 0 {
        assert((word + rest)[0] == word[0]);
        assert((word + rest).skip(1) =~= word.skip(1) + rest);
        assert(forall|i: int|
            0 <= i < word.skip(1).len() ==> #[trigger] word.skip(1)[i] == word[i + 1]);
        lemma_word_is_counted(word.skip(1), rest);
    } else {
        assert(word + rest =~= rest);
    }
}

/// What stands before the first occurrence stays, the occurrence is replaced,
/// and so is every one after it; where there is none nothing changes.
pub proof fn law_replace_head(a: Seq<char>, p: Seq<char>, b: Seq<char>, r: Seq<char>)
    requires
        p.len() > 0,
        lacks(a, p[0]),
    ensures
        replace(a + p + b, p, r) == a + r + replace(b, p, r),
        replace(a, p, r) == a,
{
    let s = a + p + b;
    let i = a.len() as int;
    assert(s.subrange(i, i + p.len()) =~= p);
    assert(forall|j: int| 0 <= j < i ==> #[trigger] s[j] == a[j]);
    lemma_found_by_head(s, p, i);
    assert(s.take(i) =~= a);
    assert(s.skip(i + p.len()) =~= b);
    lemma_find(a, p);
    if find(a, p) is Some {
        let k = find(a, p)->0;
        assert(a.subrange(k, k + p.len())[0] == a[k]);
    }
}


/// The parts of a text, joined by the separator.
pub open spec fn joined_by(parts: Seq<Seq<char>>, p: Seq<char>) -> Seq<char>
    decreases parts.len(),
{
    if parts.len() == 0 {
        seq![]
    } else if parts.len() == 1 {
        parts[0]
    } else {
        parts[0] + p + joined_by(parts.skip(1), p)
    }
}

/// The parts that a text is split into hold no separator, and joined by it they
/// are the text again.
pub proof fn law_split_joined(s: Seq<char>, p: Seq<char>)
    requires
        p.len() > 0,
    ensures
        joined_by(split(s, p), p) == s,
        forall|i: int| 0 <= i < split(s, p).len() ==> !contains(#[trigger] split(s, p)[i], p),
    decreases s.len(),
{
    lemma_find(s, p);
    let parts = split(s, p);
    if find(s, p) is Some {
        let i = find(s, p)->0;
        let rest = s.skip(i + p.len());
        law_split_joined(rest, p);
        lemma_split_some(rest, p);
        assert(parts.skip(1) =~= split(rest, p));
        assert(s =~= s.take(i) + p + rest);
        lemma_find(s.take(i), p);
        if contains(s.take(i), p) {
            let k = find(s.take(i), p)->0;
            assert(s.take(i).subrange(k, k + p.len()) =~= s.subrange(k, k + p.len()));
            assert(occurs_at(s, p, k));
        }
        assert forall|k: int| 0 <= k < parts.len() implies !contains(#[trigger] parts[k], p) by {
            if k > 0 {
                assert(parts[k] == split(rest, p)[k - 1]);
            }
        }
    }
}

/// A text that begins with a heading, after white space, is the heading and what
/// follows it.
pub proof fn lemma_headed(pad: Seq<char>, heading: Seq<char>, value: Seq<char>)
    requires
        blank(pad),
        is_trimmed(heading),
    ensures
        starts_with(trim(pad + heading + value), heading),
        trim(after(trim(pad + heading + value), heading)) == trim(value),
        trim(pad + heading + value) == heading + trim_end(value),
{
    let s = heading + value;
    assert(pad + heading + value =~= pad + s);
    lemma_trim_start(pad, s);
    assert(s[0] == heading[0]);
    assert(trim_start(s) == s);
    let i = lemma_trim_end_at(value);
    let last = heading + value.take(i);
    assert(s =~= last + value.skip(i));
    lemma_trim_end(last, value.skip(i));
    if i > 0 {
        assert(last.last() == value[i - 1]);
    } else {
        assert(last =~= heading);
    }
    assert(trim_end(last) == last);
    let line = trim(pad + heading + value);
    assert(line == last);
    assert(line.subrange(0, heading.len() as int) =~= heading);
    assert(line.skip(heading.len() as int) =~= value.take(i));
    lemma_trim_of_trimmed_end(value);
}

proof fn lemma_trim_of_trimmed_end(s: Seq<char>)
    ensures
        trim(trim_end(s)) == trim(s),
{
    let j = lemma_trim_end_at(s);
    let t = s.take(j);
    let i = lemma_trim_start_at(t);
    let none = Seq::<char>::empty();
    assert(s =~= t + s.skip(j));
    if i < j {
        let m = t.skip(i);
        assert(m[0] == t[i]);
        assert(m.last() == s[j - 1]);
        assert(s =~= t.take(i) + m + s.skip(j));
        law_trim_between(t.take(i), m, s.skip(j));
        assert(t =~= t.take(i) + m + none);
        law_trim_between(t.take(i), m, none);
    } else {
        assert(t.take(i) =~= t);
        assert(s =~= t + none + s.skip(j));
        law_trim_between(t, none, s.skip(j));
        assert(t =~= t + none + none);
        law_trim_between(t, none, none);
    }
}


/// What is left of a text without its trailing white space begins it.
pub proof fn lemma_trim_end_within(s: Seq<char>)
    ensures
        trim_end(s).len() <= s.len(),
        forall|i: int| 0 <= i < trim_end(s).len() ==> #[trigger] trim_end(s)[i] == s[i],
{
    let k = lemma_trim_end_at(s);
}


/// White space in front of the words does not matter.
pub proof fn lemma_words_padded(pad: Seq<char>, rest: Seq<char>)
    requires
        blank(pad),
    ensures
        words(pad + rest) == words(rest),
    decreases pad.len(),
{
    if pad.len() > 0 {
        assert((pad + rest)[0] == pad[0]);
        assert((pad + rest).skip(1) =~= pad.skip(1) + rest);
        assert(forall|i: int| 0 <= i < pad.skip(1).len() ==> #[trigger] pad.skip(1)[i] == pad[i + 1]);
        lemma_words_padded(pad.skip(1), rest);
    } else {
        assert(pad + rest =~= rest);
    }
}


/// A text in a column is followed, or preceded, by as many spaces as fill the
/// column up; one that is too long for it stands as it is.
pub proof fn law_columns(s: Seq<char>, width: nat, i: int)
    ensures
        left_in(s, width).len() == (if s.len() < width {
            width
        } else {
            s.len()
        }),
        right_in(s, width).len() == left_in(s, width).len(),
        left_in(s, width).take(s.len() as int) == s,
        right_in(s, width).skip(right_in(s, width).len() - s.len()) == s,
        s.len() <= i < left_in(s, width).len() ==> left_in(s, width)[i] == ' ',
        0 <= i < right_in(s, width).len() - s.len() ==> right_in(s, width)[i] == ' ',
{
    assert(left_in(s, width).take(s.len() as int) =~= s);
    assert(right_in(s, width).skip(right_in(s, width).len() - s.len()) =~= s);
}

/// Texts that are joined stand in order, with the separator between each two of
/// them and nowhere else.
pub proof fn law_joined(parts: Seq<String>, sep: Seq<char>)
    ensures
        joined(parts, sep) == joined_by(parts.map_values(|p: String| p@), sep),
    decreases parts.len(),
{
    let all = parts.map_values(|p: String| p@);
    if parts.len() > 1 {
        let front = parts.drop_last();
        law_joined(front, sep);
        assert(front.map_values(|p: String| p@) =~= all.drop_last());
        lemma_joined_last(all, sep);
    }
}

proof fn lemma_joined_last(all: Seq<Seq<char>>, sep: Seq<char>)
    requires
        all.len() > 1,
    ensures
        joined_by(all, sep) == joined_by(all.drop_last(), sep) + sep + all.last(),
    decreases all.len(),
{
    let rest = all.skip(1);
    if all.len() == 2 {
        assert(joined_by(rest, sep) == all[1]);
        assert(joined_by(all.drop_last(), sep) == all[0]);
    } else {
        lemma_joined_last(rest, sep);
        assert(all.drop_last().skip(1) =~= rest.drop_last());
        assert(joined_by(all, sep) =~= joined_by(all.drop_last(), sep) + sep + all.last());
    }
}


/// The bytes of a text are those of its characters together: one for each of
/// ASCII, and up to four for the others.
pub proof fn law_byte_len(s: Seq<char>, c: char)
    ensures
        byte_len(s.push(c)) == byte_len(s) + utf8_width(c),
        byte_len(Seq::<char>::empty()) == 0,
        utf8_width(c) == 1 <==> (c as u32) < 0x80,
        utf8_width(c) <= 2 <==> (c as u32) < 0x800,
        utf8_width(c) <= 3 <==> (c as u32) < 0x10000,
        1 <= utf8_width(c) <= 4,
        s.len() <= byte_len(s) <= 4 * s.len(),
    decreases s.len(),
{
    assert(s.push(c).drop_last() =~= s);
    if s.len() > 0 {
        law_byte_len(s.drop_last(), s.last());
    }
}

} // verus!
