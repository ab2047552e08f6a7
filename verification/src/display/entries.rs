//! The list of modes as the compositor writes it, and what is read of it.

use crate::display::{self, ModeView};
use crate::number;
use crate::text;
use vstd::prelude::*;
use vstd::string::*;

verus! {

/// One entry of the list of modes. Its identifier is made of the columns, the
/// lines and what follows the `@`; `rest` is what stands between the refresh
/// rate and the properties.
pub struct Entry {
    pub columns: Seq<char>,
    pub lines: Seq<char>,
    pub suffix: Seq<char>,
    pub width: u32,
    pub height: u32,
    pub rate: Seq<char>,
    pub rest: Seq<char>,
    pub properties: Seq<char>,
}

/// The identifier of an entry.
pub open spec fn id_of(e: Entry) -> Seq<char> {
    e.columns + "x"@ + e.lines + "@"@ + e.suffix
}

/// What an entry holds between its opening quote and its properties.
pub open spec fn head_of(e: Entry) -> Seq<char> {
    id_of(e) + "', "@ + number::dec(e.width as nat) + ", "@ + number::dec(e.height as nat) + ", "@
        + e.rate + ", "@ + e.rest + ", {"@
}

/// An entry as it is written.
pub open spec fn entry_text(e: Entry) -> Seq<char> {
    "('"@ + head_of(e) + e.properties + "})"@
}

/// Some entries as they are written, one after the other.
pub open spec fn entries_text(es: Seq<Entry>) -> Seq<char>
    decreases es.len(),
{
    if es.len() == 0 {
        seq![]
    } else if es.len() == 1 {
        entry_text(es[0])
    } else {
        entry_text(es[0]) + ", "@ + entries_text(es.skip(1))
    }
}

/// What stands from `i` on to `j` is no beginning of an identifier of a mode.
pub open spec fn no_id(s: Seq<char>, i: int, j: int) -> bool {
    &&& i < j < s.len()
    &&& !number::is_digit(s[j]) && s[j] != 'x' && s[j] != '@'
    &&& forall|k: int| i < k < j ==> #[trigger] s[k] != '@'
}

/// No quote from `from` on, before `to`, opens an identifier of a mode.
pub open spec fn quiet_within(s: Seq<char>, from: int, to: int) -> bool {
    forall|i: int| from <= i < to && #[trigger] s[i] == '\'' ==> exists|j: int| no_id(s, i, j)
}

/// No quote opens an identifier of a mode.
pub open spec fn quiet(s: Seq<char>) -> bool {
    quiet_within(s, 0, s.len() as int)
}

/// An entry is well formed: its identifier is short, its numbers are numbers, and
/// brackets and quotes do not stand where they would end it.
pub open spec fn well_formed(e: Entry) -> bool {
    &&& number::all_digits(e.columns)
    &&& number::all_digits(e.lines)
    &&& e.columns.len() + e.lines.len() < 19
    &&& text::lacks(e.suffix, '\'') && text::lacks(e.suffix, '}')
    &&& number::is_float(e.rate)
    &&& text::lacks(e.rate, ',') && text::lacks(e.rate, '\'') && text::lacks(e.rate, '}')
    &&& text::lacks(e.rest, '\'') && text::lacks(e.rest, '}')
    &&& text::lacks(e.properties, '}')
    &&& quiet(e.properties)
}

/// The mode that an entry describes: it is in use, or preferred, exactly where
/// its own properties say so.
pub open spec fn mode_of(e: Entry) -> ModeView {
    ModeView {
        mode_id: id_of(e),
        width: e.width,
        height: e.height,
        refresh_rate: e.rate,
        rank: 0,
        is_current: text::contains(e.properties, "'is-current': <true>"@),
        is_preferred: text::contains(e.properties, "'is-preferred': <true>"@),
    }
}

proof fn lemma_no_id(s: Seq<char>, i: int, j: int)
    requires
        0 <= i,
        no_id(s, i, j),
    ensures
        display::mode_id_len(s.skip(i + 1)) is None,
{
    let rest = s.skip(i + 1);
    let odd = j - i - 1;
    assert(rest[odd] == s[j]);
    text::lemma_find(rest, "@"@);
    reveal_strlit("@");
    reveal_strlit("x");
    if text::find(rest, "@"@) is Some {
        let at = text::find(rest, "@"@)->0;
        assert(rest.subrange(at, at + 1)[0] == rest[at]);
        assert(rest[at] == s[at + i + 1]);
        assert(at > odd);
        let size = rest.take(at);
        assert(size[odd] == s[j]);
        text::lemma_find(size, "x"@);
        if text::find(size, "x"@) is Some {
            let x = text::find(size, "x"@)->0;
            assert(size.subrange(x, x + 1)[0] == size[x]);
            if odd < x {
                assert(size.take(x)[odd] == s[j]);
                assert(!number::all_digits(size.take(x)));
            } else {
                assert(size.skip(x + 1)[odd - x - 1] == s[j]);
                assert(!number::all_digits(size.skip(x + 1)));
            }
        }
    }
}

/// What holds no identifier of a mode is passed over.
proof fn lemma_passed_over(block: Seq<char>, from: int, to: int)
    requires
        0 <= from <= to <= block.len(),
        quiet_within(block, from, to),
    ensures
        display::modes_from(block, from) == display::modes_from(block, to),
    decreases to - from,
{
    reveal_strlit("'");
    let here = block.skip(from);
    let there = block.skip(to);
    text::lemma_find(here, "'"@);
    text::lemma_find(there, "'"@);
    if text::find(here, "'"@) is Some {
        let q = text::find(here, "'"@)->0;
        assert(here.subrange(q, q + 1)[0] == here[q]);
        assert(here[q] == block[from + q]);
        if from + q < to {
            let at = from + q;
            let j = choose|j: int| no_id(block, at, j);
            lemma_no_id(block, at, j);
            lemma_passed_over(block, at + 1, to);
        } else {
            let r = from + q - to;
            assert(there.subrange(r, r + 1) =~= here.subrange(q, q + 1));
            assert(text::occurs_at(there, "'"@, r));
            assert forall|k: int| 0 <= k < r implies there[k] != "'"@[0] by {
                if there[k] == '\'' {
                    let h = k + to - from;
                    assert(here.subrange(h, h + 1) =~= "'"@);
                    assert(text::occurs_at(here, "'"@, h));
                }
            }
            text::lemma_found_by_head(there, "'"@, r);
        }
    } else if text::find(there, "'"@) is Some {
        let r = text::find(there, "'"@)->0;
        assert(there.subrange(r, r + 1) =~= here.subrange(r + to - from, r + to - from + 1));
        assert(text::occurs_at(here, "'"@, r + to - from));
    }
}

proof fn lemma_byte_len_ascii(s: Seq<char>)
    requires
        forall|i: int| 0 <= i < s.len() ==> #[trigger] s[i] <= '\u{7f}',
    ensures
        text::byte_len(s) == s.len(),
    decreases s.len(),
{
    if s.len() > 0 {
        lemma_byte_len_ascii(s.drop_last());
    }
}

/// Before the quote that closes it, an identifier is recognised whole.
proof fn lemma_id_len(e: Entry, after: Seq<char>)
    requires
        well_formed(e),
    ensures
        display::mode_id_len(id_of(e) + "'"@ + after) == Some(id_of(e).len() as int),
{
    reveal_strlit("x");
    reveal_strlit("@");
    reveal_strlit("'");
    let rest = id_of(e) + "'"@ + after;
    let size = e.columns + "x"@ + e.lines;
    let at = size.len() as int;
    assert(rest.take(at) =~= size);
    assert(forall|i: int| 0 <= i < size.len() ==> #[trigger] rest[i] == size[i]);
    assert forall|i: int| 0 <= i < size.len() implies number::is_digit(#[trigger] size[i])
        || size[i] == 'x' by {
        if i < e.columns.len() {
            assert(size[i] == e.columns[i]);
        } else if i > e.columns.len() {
            assert(size[i] == e.lines[i - e.columns.len() - 1]);
        }
    }
    assert(rest.subrange(at, at + 1) =~= "@"@);
    text::lemma_found_by_head(rest, "@"@, at);
    lemma_byte_len_ascii(size);
    let x = e.columns.len() as int;
    assert(size.subrange(x, x + 1) =~= "x"@);
    assert forall|i: int| 0 <= i < x implies size[i] != "x"@[0] by {
        assert(number::is_digit(e.columns[i]));
    }
    text::lemma_found_by_head(size, "x"@, x);
    assert(size.take(x) =~= e.columns);
    assert(size.skip(x + 1) =~= e.lines);
    let tail = rest.skip(at);
    assert(tail =~= "@"@ + e.suffix + "'"@ + after);
    let end = 1 + e.suffix.len() as int;
    assert(tail.subrange(end, end + 1) =~= "'"@);
    text::lemma_found_by_head(tail, "'"@, end);
}

/// The numbers after an identifier are its width, its height and its rate, with
/// something after them.
proof fn lemma_numbers(w: Seq<char>, h: Seq<char>, rate: Seq<char>, after: Seq<char>)
    requires
        number::all_digits(w),
        w.len() > 0,
        number::all_digits(h),
        text::lacks(rate, ','),
    ensures
        ({
            let nums = display::mode_numbers(
                ", "@ + (w + ", "@ + (h + ", "@ + (rate + ", "@ + after))),
            );
            nums.len() >= 4 && nums[0] == w && nums[1] == h && nums[2] == rate
        }),
{
    reveal_strlit(", ");
    let third = rate + ", "@ + after;
    let second = h + ", "@ + third;
    let first = w + ", "@ + second;
    let all = ", "@ + first;
    assert(all.subrange(0, 2) =~= ", "@);
    assert(all.skip(2) =~= first);
    assert(first[0] == w[0] && number::is_digit(w[0]));
    if first.len() >= 2 {
        assert(first.subrange(0, 2)[0] == first[0]);
    }
    assert(text::trim_start_matches(first, ", "@) == first);
    assert(text::trim_start_matches(all, ", "@) == first);
    assert forall|j: int| 0 <= j < w.len() implies w[j] != ", "@[0] by {
        assert(number::is_digit(w[j]));
    }
    assert forall|j: int| 0 <= j < h.len() implies h[j] != ", "@[0] by {
        assert(number::is_digit(h[j]));
    }
    text::law_split_head(w, ", "@, second);
    text::law_split_head(h, ", "@, third);
    text::law_split_head(rate, ", "@, after);
    text::lemma_split_some(after, ", "@);
    let s3 = text::split(third, ", "@);
    let s2 = text::split(second, ", "@);
    assert(s3 == seq![rate] + text::split(after, ", "@));
    assert(s2 == seq![h] + s3);
    let nums = text::split(first, ", "@);
    assert(nums == seq![w] + s2);
    assert(nums[1] == s2[0] && nums[2] == s2[1] && s2[1] == s3[0]);
}


proof fn lemma_lacks(a: Seq<char>, b: Seq<char>, c: char)
    requires
        text::lacks(a, c),
        text::lacks(b, c),
    ensures
        text::lacks(a + b, c),
{
}

proof fn lemma_digits_lack(s: Seq<char>, c: char)
    requires
        number::all_digits(s),
        !number::is_digit(c),
    ensures
        text::lacks(s, c),
{
    assert(forall|i: int| 0 <= i < s.len() ==> number::is_digit(#[trigger] s[i]));
}

/// What an entry holds after its identifier.
spec fn numbers_of(e: Entry) -> Seq<char> {
    ", "@ + number::dec(e.width as nat) + ", "@ + number::dec(e.height as nat) + ", "@ + e.rate
        + ", "@ + e.rest + ", {"@
}

/// Neither the identifier of an entry nor its numbers hold a character that is
/// in none of their parts.
proof fn lemma_parts_lack(e: Entry, c: char)
    requires
        well_formed(e),
        text::lacks(e.suffix, c),
        text::lacks(e.rate, c),
        text::lacks(e.rest, c),
        c == '\'' || c == '}',
    ensures
        text::lacks(id_of(e), c),
        text::lacks(numbers_of(e), c),
{
    reveal_strlit("x");
    reveal_strlit("@");
    reveal_strlit(", ");
    reveal_strlit(", {");
    let w = number::dec(e.width as nat);
    let h = number::dec(e.height as nat);
    number::lemma_dec(e.width as nat);
    number::lemma_dec(e.height as nat);
    lemma_digits_lack(e.columns, c);
    lemma_digits_lack(e.lines, c);
    lemma_digits_lack(w, c);
    lemma_digits_lack(h, c);
    lemma_lacks(e.columns, "x"@, c);
    lemma_lacks(e.columns + "x"@, e.lines, c);
    lemma_lacks(e.columns + "x"@ + e.lines, "@"@, c);
    lemma_lacks(e.columns + "x"@ + e.lines + "@"@, e.suffix, c);
    lemma_lacks(", "@, w, c);
    lemma_lacks(", "@ + w, ", "@, c);
    lemma_lacks(", "@ + w + ", "@, h, c);
    lemma_lacks(", "@ + w + ", "@ + h, ", "@, c);
    lemma_lacks(", "@ + w + ", "@ + h + ", "@, e.rate, c);
    lemma_lacks(", "@ + w + ", "@ + h + ", "@ + e.rate, ", "@, c);
    lemma_lacks(", "@ + w + ", "@ + h + ", "@ + e.rate + ", "@, e.rest, c);
    lemma_lacks(", "@ + w + ", "@ + h + ", "@ + e.rate + ", "@ + e.rest, ", {"@, c);
}

/// An entry is its identifier, a quote and its numbers; the quote is the only one
/// and there is no closing brace.
proof fn lemma_head(e: Entry)
    requires
        well_formed(e),
    ensures
        head_of(e) == id_of(e) + "'"@ + numbers_of(e),
        text::lacks(head_of(e), '}'),
        forall|i: int|
            0 <= i < head_of(e).len() && #[trigger] head_of(e)[i] == '\'' ==> i == id_of(e).len(),
        id_of(e).len() + 1 < head_of(e).len(),
        head_of(e)[id_of(e).len() as int + 1] == ',',
{
    reveal_strlit("', ");
    reveal_strlit("'");
    reveal_strlit(", ");
    let id = id_of(e);
    let tail = number::dec(e.width as nat) + ", "@ + number::dec(e.height as nat) + ", "@ + e.rate
        + ", "@ + e.rest + ", {"@;
    assert("', "@ =~= "'"@ + ", "@);
    assert(head_of(e) =~= id + "'"@ + (", "@ + tail));
    assert(numbers_of(e) =~= ", "@ + tail);
    assert(head_of(e) =~= id + "'"@ + numbers_of(e));
    assert(numbers_of(e)[0] == ',');
    lemma_parts_lack(e, '\'');
    lemma_parts_lack(e, '}');
    let hd = id + "'"@ + numbers_of(e);
    assert forall|i: int| 0 <= i < hd.len() implies #[trigger] hd[i] != '}' && (hd[i] == '\'' ==> i
        == id.len()) by {
        if i < id.len() {
            assert(hd[i] == id[i]);
        } else if i > id.len() {
            assert(hd[i] == numbers_of(e)[i - id.len() - 1]);
        }
    }
}

/// A property is found in an entry exactly where it is one of its properties.
proof fn lemma_own_property(e: Entry, property: Seq<char>)
    requires
        well_formed(e),
        property.len() >= 2,
        property[0] == '\'',
        property[1] == 'i',
    ensures
        text::contains(head_of(e) + e.properties, property) == text::contains(
            e.properties,
            property,
        ),
{
    lemma_head(e);
    let hd = head_of(e);
    let s = hd + e.properties;
    text::lemma_find(s, property);
    text::lemma_find(e.properties, property);
    if text::contains(s, property) {
        let i = text::find(s, property)->0;
        assert(s.subrange(i, i + property.len())[0] == s[i]);
        assert(s.subrange(i, i + property.len())[1] == s[i + 1]);
        if i < hd.len() {
            assert(hd[i] == '\'');
            assert(hd[i + 1] == ',');
        }
        let k = i - hd.len();
        assert(e.properties.subrange(k, k + property.len()) =~= s.subrange(i, i + property.len()));
        assert(text::occurs_at(e.properties, property, k));
    }
    if text::contains(e.properties, property) {
        let k = text::find(e.properties, property)->0;
        let i = k + hd.len();
        assert(e.properties.subrange(k, k + property.len()) =~= s.subrange(i, i + property.len()));
        assert(text::occurs_at(s, property, i));
    }
}

/// What follows the last entry: it holds no further entry.
pub open spec fn ends_list(after: Seq<char>) -> bool {
    &&& !text::contains(after, "}), ('"@)
    &&& {
        ||| text::starts_with(after, "], {"@)
        ||| text::starts_with(after, "])"@) && !text::contains(after, "})], {"@)
    }
}

/// Another entry follows.
spec fn goes_on(after: Seq<char>) -> bool {
    text::starts_with(after, ", ('"@)
}

/// A pattern that begins with a closing brace, and stands neither at the first
/// closing brace nor after it, does not stand anywhere.
proof fn lemma_not_beyond(rest: Seq<char>, after: Seq<char>, k: int, p: Seq<char>)
    requires
        0 <= k,
        rest.len() == k + 2 + after.len(),
        forall|i: int| 0 <= i < k ==> #[trigger] rest[i] != '}',
        rest[k + 1] == ')',
        forall|i: int| k + 2 <= i < rest.len() ==> #[trigger] rest[i] == after[i - k - 2],
        p.len() > 3,
        p[0] == '}',
        !text::contains(after, p),
        after.len() > 1,
        p[2] != after[0] || p[3] != after[1],
    ensures
        text::find(rest, p) is None,
{
    text::lemma_find(rest, p);
    if text::find(rest, p) is Some {
        let i = text::find(rest, p)->0;
        let n = p.len() as int;
        assert(rest.subrange(i, i + n)[0] == rest[i]);
        assert(rest.subrange(i, i + n)[2] == rest[i + 2]);
        assert(rest.subrange(i, i + n)[3] == rest[i + 3]);
        assert(i >= k);
        if i >= k + 2 {
            let a = i - k - 2;
            assert(after.subrange(a, a + n) =~= rest.subrange(i, i + n));
            assert(text::occurs_at(after, p, a));
            text::lemma_find(after, p);
        }
    }
}

/// The entry of a mode ends with its own properties.
proof fn lemma_mode_end(e: Entry, after: Seq<char>, block: Seq<char>, start: int)
    requires
        well_formed(e),
        0 <= start <= block.len(),
        block.skip(start) == head_of(e) + e.properties + "})"@ + after,
        goes_on(after) || ends_list(after),
    ensures
        display::mode_end(block, start) == start + head_of(e).len() + e.properties.len(),
        block.subrange(start, display::mode_end(block, start)) == head_of(e) + e.properties,
{
    reveal_strlit("})");
    reveal_strlit(", ('");
    reveal_strlit("], {");
    reveal_strlit("}), ('");
    reveal_strlit("})], {");
    reveal_strlit("])");
    reveal_strlit("})])");
    lemma_head(e);
    let rest = block.skip(start);
    let own = head_of(e) + e.properties;
    let k = own.len() as int;
    assert forall|i: int| 0 <= i < k implies #[trigger] rest[i] != '}' by {
        if i < head_of(e).len() {
            assert(rest[i] == head_of(e)[i]);
        } else {
            assert(rest[i] == e.properties[i - head_of(e).len()]);
        }
    }
    assert(rest.take(k) =~= own);
    assert(rest[k] == '}' && rest[k + 1] == ')');
    assert(forall|i: int| k + 2 <= i < rest.len() ==> #[trigger] rest[i] == after[i - k - 2]);
    if goes_on(after) {
        assert(forall|i: int| 0 <= i < 4 ==> #[trigger] after[i] == after.subrange(0, 4)[i]);
        assert(rest.subrange(k, k + 6) =~= "}), ('"@);
        text::lemma_found_by_head(rest, "}), ('"@, k);
    } else {
        assert(after[0] == ']') by {
            if text::starts_with(after, "], {"@) {
                assert(after.subrange(0, 4)[0] == after[0]);
            } else {
                assert(after.subrange(0, 2)[0] == after[0]);
            }
        }
        lemma_not_beyond(rest, after, k, "}), ('"@);
        if text::starts_with(after, "], {"@) {
            assert(forall|i: int| 0 <= i < 4 ==> #[trigger] after[i] == after.subrange(0, 4)[i]);
            assert(rest.subrange(k, k + 6) =~= "})], {"@);
            text::lemma_found_by_head(rest, "})], {"@, k);
        } else {
            assert(forall|i: int| 0 <= i < 2 ==> #[trigger] after[i] == after.subrange(0, 2)[i]);
            lemma_not_beyond(rest, after, k, "})], {"@);
            assert(rest.subrange(k, k + 4) =~= "})])"@);
            text::lemma_found_by_head(rest, "})])"@, k);
        }
    }
    assert(block.subrange(start, start + k) =~= rest.take(k));
}


/// The numbers of an entry are read as they were written.
proof fn lemma_numbers_of(e: Entry, tail: Seq<char>)
    requires
        well_formed(e),
    ensures
        ({
            let nums = display::mode_numbers(numbers_of(e) + tail);
            &&& nums.len() >= 4
            &&& number::parse_nat(nums[0], u32::MAX as nat) == Some(e.width as nat)
            &&& number::parse_nat(nums[1], u32::MAX as nat) == Some(e.height as nat)
            &&& nums[2] == e.rate
        }),
{
    let w = number::dec(e.width as nat);
    let h = number::dec(e.height as nat);
    let after_rate = e.rest + ", {"@ + tail;
    assert(numbers_of(e) + tail =~= ", "@ + (w + ", "@ + (h + ", "@ + (e.rate + ", "@
        + after_rate))));
    number::lemma_dec(e.width as nat);
    number::lemma_dec(e.height as nat);
    lemma_numbers(w, h, e.rate, after_rate);
    number::law_parse_dec(e.width as nat, u32::MAX as nat);
    number::law_parse_dec(e.height as nat, u32::MAX as nat);
}

/// An entry is read as the mode that it describes.
proof fn lemma_entry_read(e: Entry, after: Seq<char>, block: Seq<char>, start: int)
    requires
        well_formed(e),
        0 <= start <= block.len(),
        block.skip(start) == head_of(e) + e.properties + "})"@ + after,
        goes_on(after) || ends_list(after),
    ensures
        display::mode_id_len(block.skip(start)) == Some(id_of(e).len() as int),
        display::mode_at(block, start, id_of(e).len() as int) == Some(mode_of(e)),
{
    let rest = block.skip(start);
    let id = id_of(e);
    let len = id.len() as int;
    let tail = e.properties + "})"@ + after;
    let own = head_of(e) + e.properties;
    assert(rest == id + "'"@ + (numbers_of(e) + tail)) by {
        lemma_head(e);
        assert(rest =~= id + "'"@ + (numbers_of(e) + tail));
    }
    lemma_id_len(e, numbers_of(e) + tail);
    assert(block.skip(start + len + 1) == numbers_of(e) + tail) by {
        reveal_strlit("'");
        assert(block.skip(start + len + 1) =~= rest.skip(len + 1));
        assert(rest.skip(len + 1) =~= numbers_of(e) + tail);
    }
    lemma_numbers_of(e, tail);
    assert(block.subrange(start, start + len) == id) by {
        assert(block.subrange(start, start + len) =~= rest.take(len));
        assert(rest.take(len) =~= id);
    }
    lemma_mode_end(e, after, block, start);
    assert(text::contains(own, "'is-current': <true>"@) == text::contains(
        e.properties,
        "'is-current': <true>"@,
    )) by {
        reveal_strlit("'is-current': <true>");
        lemma_own_property(e, "'is-current': <true>"@);
    }
    assert(text::contains(own, "'is-preferred': <true>"@) == text::contains(
        e.properties,
        "'is-preferred': <true>"@,
    )) by {
        reveal_strlit("'is-preferred': <true>");
        lemma_own_property(e, "'is-preferred': <true>"@);
    }
}

/// The modes that are read from an entry on are the mode that it describes and
/// those that are read after it.
proof fn lemma_entry_first(e: Entry, after: Seq<char>, block: Seq<char>, at: int)
    requires
        well_formed(e),
        0 <= at <= block.len(),
        block.skip(at) == entry_text(e) + after,
        goes_on(after) || ends_list(after),
    ensures
        display::modes_from(block, at) == seq![mode_of(e)] + display::modes_from(
            block,
            at + entry_text(e).len(),
        ),
{
    reveal_strlit("'");
    reveal_strlit("('");
    reveal_strlit("})");
    let here = block.skip(at);
    assert(here[0] == '(' && here[1] == '\'');
    assert(here.subrange(1, 2) =~= "'"@);
    text::lemma_found_by_head(here, "'"@, 1);
    let start = at + 2;
    assert(block.skip(start) =~= here.skip(2));
    assert(here.skip(2) =~= head_of(e) + e.properties + "})"@ + after);
    lemma_entry_read(e, after, block, start);
    lemma_head(e);
    let len = id_of(e).len() as int;
    let from = start + len;
    let to = at + entry_text(e).len() as int;
    let props_at = start + head_of(e).len() as int;
    assert(forall|i: int|
        start <= i < props_at ==> #[trigger] block[i] == head_of(e)[i - start]) by {
        assert forall|i: int| start <= i < props_at implies #[trigger] block[i] == head_of(e)[i
            - start] by {
            assert(block[i] == block.skip(start)[i - start]);
        }
    }
    assert(forall|i: int|
        props_at <= i < props_at + e.properties.len() ==> #[trigger] block[i] == e.properties[i
            - props_at]) by {
        assert forall|i: int|
            props_at <= i < props_at + e.properties.len() implies #[trigger] block[i]
            == e.properties[i - props_at] by {
            assert(block[i] == block.skip(start)[i - start]);
        }
    }
    assert(to == props_at + e.properties.len() + 2);
    assert(block[to - 2] == block.skip(start)[to - 2 - start]);
    assert(block[to - 1] == block.skip(start)[to - 1 - start]);
    assert forall|i: int| from <= i < to && #[trigger] block[i] == '\'' implies exists|j: int|
        no_id(block, i, j) by {
        if i < props_at {
            assert(head_of(e)[i - start] == '\'');
            assert(i == from);
            assert(block[from + 1] == ',');
            assert(no_id(block, i, i + 1));
        } else if i < props_at + e.properties.len() {
            let k = i - props_at;
            assert(e.properties[k] == '\'');
            let j = choose|j: int| no_id(e.properties, k, j);
            assert forall|m: int| i < m < props_at + j implies #[trigger] block[m] != '@' by {
                assert(block[m] == e.properties[m - props_at]);
            }
            assert(block[props_at + j] == e.properties[j]);
            assert(no_id(block, i, props_at + j));
        }
    }
    lemma_passed_over(block, from, to);
}

/// The modes that some entries describe.
pub open spec fn modes_of(es: Seq<Entry>) -> Seq<ModeView> {
    es.map_values(|e: Entry| mode_of(e))
}

proof fn lemma_entries(es: Seq<Entry>, after: Seq<char>, block: Seq<char>, at: int)
    requires
        forall|i: int| 0 <= i < es.len() ==> well_formed(#[trigger] es[i]),
        0 <= at <= block.len(),
        block.skip(at) == entries_text(es) + after,
        ends_list(after),
    ensures
        display::modes_from(block, at) == modes_of(es) + display::modes_from(
            block,
            at + entries_text(es).len(),
        ),
    decreases es.len(),
{
    if es.len() == 0 {
        assert(modes_of(es) =~= seq![]);
        assert(seq![] + display::modes_from(block, at) =~= display::modes_from(block, at));
    } else if es.len() == 1 {
        lemma_entry_first(es[0], after, block, at);
        assert(modes_of(es) =~= seq![mode_of(es[0])]);
    } else {
        reveal_strlit(", ");
        reveal_strlit("('");
        reveal_strlit(", ('");
        let rest = es.skip(1);
        let first = entry_text(es[0]);
        let later = ", "@ + entries_text(rest) + after;
        assert(block.skip(at) =~= first + later);
        assert(entries_text(rest).len() >= 2 && entries_text(rest)[0] == '('
            && entries_text(rest)[1] == '\'');
        assert(later.subrange(0, 4) =~= ", ('"@);
        lemma_entry_first(es[0], later, block, at);
        let gap = at + first.len() as int;
        let next = gap + 2;
        assert(block.skip(gap) =~= block.skip(at).skip(first.len() as int));
        assert((first + later).skip(first.len() as int) =~= later);
        assert(block[gap] == block.skip(gap)[0] && block[gap + 1] == block.skip(gap)[1]);
        lemma_passed_over(block, gap, next);
        assert(block.skip(next) =~= block.skip(gap).skip(2));
        assert(later.skip(2) =~= entries_text(rest) + after);
        assert(forall|i: int| 0 <= i < rest.len() ==> #[trigger] rest[i] == es[i + 1]);
        lemma_entries(rest, after, block, next);
        assert(modes_of(es) =~= seq![mode_of(es[0])] + modes_of(rest));
        assert(next + entries_text(rest).len() == at + entries_text(es).len());
        let end = display::modes_from(block, at + entries_text(es).len());
        assert(seq![mode_of(es[0])] + (modes_of(rest) + end) =~= modes_of(es) + end);
    }
}

// ── Laws ────────────────────────────────────────────────────────────────────

/// The modes that are read of a display are those that its list describes, one
/// for each entry and in order. What a mode is, and whether it is in use or
/// preferred, is decided by its own entry: what stands in the entries before and
/// after it, before the list or behind it has no influence.
pub proof fn law_modes_read_back(before: Seq<char>, es: Seq<Entry>, behind: Seq<char>)
    requires
        forall|i: int| 0 <= i < es.len() ==> well_formed(#[trigger] es[i]),
        quiet(before),
        quiet(behind),
        !text::contains(behind, "}), ('"@),
    ensures
        display::modes_from(before + "["@ + entries_text(es) + "], {"@ + behind, 0) == modes_of(es),
{
    reveal_strlit("], {");
    let after = "], {"@ + behind;
    assert(after.subrange(0, 4) =~= "], {"@);
    reveal_strlit("}), ('");
    lemma_foot_lacks("], {"@, behind, "}), ('"@);
    lemma_list_read(before, es, "], {"@, behind);
}

/// The same holds of a list that ends its display, with no properties of the
/// display behind it.
pub proof fn law_modes_read_back_at_end(before: Seq<char>, es: Seq<Entry>, behind: Seq<char>)
    requires
        forall|i: int| 0 <= i < es.len() ==> well_formed(#[trigger] es[i]),
        quiet(before),
        quiet(behind),
        !text::contains(behind, "}), ('"@),
        !text::contains(behind, "})], {"@),
    ensures
        display::modes_from(before + "["@ + entries_text(es) + "])"@ + behind, 0) == modes_of(es),
{
    reveal_strlit("])");
    let after = "])"@ + behind;
    assert(after.subrange(0, 2) =~= "])"@);
    reveal_strlit("}), ('");
    reveal_strlit("})], {");
    lemma_foot_lacks("])"@, behind, "}), ('"@);
    lemma_foot_lacks("])"@, behind, "})], {"@);
    lemma_list_read(before, es, "])"@, behind);
}

/// An entry that is never closed reaches to the end.
pub proof fn law_open_entry(block: Seq<char>, start: int)
    requires
        0 <= start <= block.len(),
        !text::contains(block.skip(start), "}), ('"@),
        !text::contains(block.skip(start), "})], {"@),
        !text::contains(block.skip(start), "})])"@),
    ensures
        display::mode_end(block, start) == block.len(),
{
}

/// An identifier of a mode is digits, `x`, digits and `@` within the first twenty
/// bytes, and ends before the first quote after that.
pub proof fn law_id_shape(rest: Seq<char>)
    ensures
        display::mode_id_len(rest) matches Some(n) ==> exists|x: int, at: int|
            #[trigger] is_id(rest, x, at, n),
{
    reveal_strlit("x");
    reveal_strlit("@");
    reveal_strlit("'");
    text::lemma_find(rest, "@"@);
    if display::mode_id_len(rest) is Some {
        let at = text::find(rest, "@"@)->0;
        let size = rest.take(at);
        let n = display::mode_id_len(rest)->0;
        text::lemma_find(size, "x"@);
        let x = text::find(size, "x"@)->0;
        let tail = rest.skip(at);
        text::lemma_find(tail, "'"@);
        let q = n - at;
        assert(rest.subrange(at, at + 1)[0] == rest[at]);
        assert(size.subrange(x, x + 1)[0] == size[x]);
        assert(tail.subrange(q, q + 1)[0] == tail[q]);
        assert forall|i: int| at <= i < n implies #[trigger] rest[i] != '\'' by {
            if rest[i] == '\'' {
                let k = i - at;
                assert(tail.subrange(k, k + 1) =~= "'"@);
                assert(text::occurs_at(tail, "'"@, k));
            }
        }
        assert(rest.take(x) =~= size.take(x));
        assert(rest.subrange(x + 1, at) =~= size.skip(x + 1));
        assert(is_id(rest, x, at, n));
    }
}

/// The first `n` characters are an identifier of a mode, with its `x` and its `@`
/// at the given places, and a quote follows it.
pub open spec fn is_id(rest: Seq<char>, x: int, at: int, n: int) -> bool {
    &&& 0 <= x < at < n < rest.len()
    &&& rest[x] == 'x' && rest[at] == '@' && rest[n] == '\''
    &&& number::all_digits(rest.take(x))
    &&& number::all_digits(rest.subrange(x + 1, at))
    &&& text::byte_len(rest.take(at)) < 20
    &&& forall|i: int| at <= i < n ==> #[trigger] rest[i] != '\''
}

/// What begins with a closing brace and does not stand in a text does not stand
/// in it with a foot before it.
proof fn lemma_foot_lacks(foot: Seq<char>, behind: Seq<char>, p: Seq<char>)
    requires
        p.len() > 0,
        p[0] == '}',
        text::lacks(foot, '}'),
        !text::contains(behind, p),
    ensures
        !text::contains(foot + behind, p),
{
    let after = foot + behind;
    let n = p.len() as int;
    let f = foot.len() as int;
    text::lemma_find(after, p);
    text::lemma_find(behind, p);
    if text::find(after, p) is Some {
        let i = text::find(after, p)->0;
        assert(after.subrange(i, i + n)[0] == after[i]);
        if i < f {
            assert(after[i] == foot[i]);
        }
        assert(behind.subrange(i - f, i - f + n) =~= after.subrange(i, i + n));
        assert(text::occurs_at(behind, p, i - f));
    }
}

proof fn lemma_list_read(before: Seq<char>, es: Seq<Entry>, foot: Seq<char>, behind: Seq<char>)
    requires
        forall|i: int| 0 <= i < es.len() ==> well_formed(#[trigger] es[i]),
        quiet(before),
        quiet(behind),
        text::lacks(foot, '\''),
        ends_list(foot + behind),
    ensures
        display::modes_from(before + "["@ + entries_text(es) + foot + behind, 0) == modes_of(es),
{
    reveal_strlit("[");
    reveal_strlit("'");
    let block = before + "["@ + entries_text(es) + foot + behind;
    let after = foot + behind;
    let at = before.len() as int + 1;
    assert(block.skip(at) =~= entries_text(es) + after);
    assert(forall|i: int| 0 <= i < before.len() ==> #[trigger] block[i] == before[i]);
    assert(block[at - 1] == '[');
    assert forall|i: int| 0 <= i < at && #[trigger] block[i] == '\'' implies exists|j: int|
        no_id(block, i, j) by {
        assert(before[i] == '\'');
        let j = choose|j: int| no_id(before, i, j);
        assert(no_id(block, i, j));
    }
    lemma_passed_over(block, 0, at);
    lemma_entries(es, after, block, at);
    let end = at + entries_text(es).len() as int;
    let len = block.len() as int;
    let base = end + foot.len() as int;
    assert(forall|i: int| base <= i < len ==> #[trigger] block[i] == behind[i - base]);
    assert(forall|i: int| end <= i < base ==> #[trigger] block[i] == foot[i - end]);
    assert forall|i: int| end <= i < len && #[trigger] block[i] == '\'' implies exists|j: int|
        no_id(block, i, j) by {
        assert(i >= base);
        let k = i - base;
        assert(behind[k] == '\'');
        let j = choose|j: int| no_id(behind, k, j);
        assert forall|m: int| i < m < base + j implies #[trigger] block[m] != '@' by {
            assert(block[m] == behind[m - base]);
        }
        assert(block[base + j] == behind[j]);
        assert(no_id(block, i, base + j));
    }
    lemma_passed_over(block, end, len);
    assert(display::modes_from(block, len) =~= seq![]) by {
        text::lemma_find(block.skip(len), "'"@);
    }
    assert(modes_of(es) + seq![] =~= modes_of(es));
}

} // verus!
