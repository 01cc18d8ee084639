//! Character sequences: the text primitives that the converter is built on.
//!
//! Text is modelled as `Seq<char>`; buffers are `Vec<char>`, whose view is that
//! sequence. Strings enter through [`to_chars`] and leave through [`to_string`].

use vstd::prelude::*;

verus! {

/// Whether `c` is white space in the sense of `char::is_whitespace`, that is,
/// whether it has the Unicode property `White_Space`.
pub uninterp spec fn is_white(c: char) -> bool;

/// Calls `char::is_whitespace`. The contract only names the answer: it is
/// [`is_white`] of the character, the same for equal characters.
#[verifier::external_body]
pub(crate) fn char_is_whitespace(c: char) -> (b: bool)
    ensures
        b == is_white(c),
{
    c.is_whitespace()
}

/// Calls `String::push`, which appends one character to the string.
#[verifier::external_body]
pub(crate) fn string_push(s: &mut String, c: char)
    ensures
        final(s)@ == old(s)@.push(c),
{
    s.push(c)
}

/// The characters of a string slice, as a buffer.
pub fn to_chars(s: &str) -> (v: Vec<char>)
    ensures
        v@ == s@,
{
    let mut v: Vec<char> = Vec::new();
    for c in it: s.chars()
        invariant
            v@ == it.seq().take(it.index() as int),
            it.seq() == s@,
    {
        v.push(c);
    }
    v
}

/// The string made of the characters of a buffer.
pub fn to_string(v: &Vec<char>) -> (s: String)
    ensures
        s@ == v@,
{
    let mut s = String::new();
    let mut i: usize = 0;
    while i < v.len()
        invariant
            i <= v.len(),
            s@ == v@.take(i as int),
        decreases v.len() - i,
    {
        string_push(&mut s, v[i]);
        i += 1;
    }
    s
}

/// Appends the characters of `other` to `buf`.
pub fn push_chars(buf: &mut Vec<char>, other: &Vec<char>)
    ensures
        final(buf)@ == old(buf)@ + other@,
{
    let mut i: usize = 0;
    while i < other.len()
        invariant
            i <= other.len(),
            buf@ == old(buf)@ + other@.take(i as int),
        decreases other.len() - i,
    {
        buf.push(other[i]);
        i += 1;
    }
}

/// Appends the characters of a string slice to `buf`.
pub fn push_str(buf: &mut Vec<char>, s: &str)
    ensures
        final(buf)@ == old(buf)@ + s@,
{
    let chars = to_chars(s);
    push_chars(buf, &chars);
}

/// `n` copies of `c`.
pub open spec fn repeated(c: char, n: nat) -> Seq<char> {
    Seq::new(n, |i: int| c)
}

/// Appends `n` copies of `c` to `buf`.
pub fn push_repeated(buf: &mut Vec<char>, c: char, n: usize)
    ensures
        final(buf)@ == old(buf)@ + repeated(c, n as nat),
{
    let mut i: usize = 0;
    while i < n
        invariant
            i <= n,
            buf@ == old(buf)@ + repeated(c, i as nat),
        decreases n - i,
    {
        buf.push(c);
        i += 1;
    }
}

/// Whether two buffers hold the same characters.
pub fn chars_eq(a: &Vec<char>, b: &Vec<char>) -> (r: bool)
    ensures
        r == (a@ == b@),
{
    if a.len() != b.len() {
        return false;
    }
    let mut i: usize = 0;
    while i < a.len()
        invariant
            i <= a.len(),
            a.len() == b.len(),
            a@.take(i as int) == b@.take(i as int),
        decreases a.len() - i,
    {
        if a[i] != b[i] {
            return false;
        }
        assert(a@.take(i + 1) == a@.take(i as int).push(a@[i as int]));
        assert(b@.take(i + 1) == b@.take(i as int).push(b@[i as int]));
        i += 1;
    }
    assert(a@ == a@.take(a.len() as int));
    assert(b@ == b@.take(b.len() as int));
    true
}

/// Whether a buffer holds exactly the characters of a string slice.
pub fn chars_eq_str(a: &Vec<char>, b: &str) -> (r: bool)
    ensures
        r == (a@ == b@),
{
    let chars = to_chars(b);
    chars_eq(a, &chars)
}

/// Whether two string slices hold the same characters.
pub fn str_eq(a: &str, b: &str) -> (r: bool)
    ensures
        r == (a@ == b@),
{
    let chars = to_chars(a);
    chars_eq_str(&chars, b)
}

/// The index of the first character at or after `i` that is not white space,
/// or the length of `s` if there is none.
pub open spec fn skip_white(s: Seq<char>, i: int) -> int
    decreases s.len() - i,
{
    if 0 <= i < s.len() && is_white(s[i]) {
        skip_white(s, i + 1)
    } else {
        i
    }
}

/// The end of `s` once trailing white space is left out, never before `start`:
/// the least `j` such that everything from `j` to `end` is white space.
pub open spec fn skip_white_back(s: Seq<char>, start: int, end: int) -> int
    decreases end - start,
{
    if 0 <= start < end <= s.len() && is_white(s[end - 1]) {
        skip_white_back(s, start, end - 1)
    } else {
        end
    }
}

/// Where the trimmed text starts in `s`.
pub open spec fn trim_start_index(s: Seq<char>) -> int {
    skip_white(s, 0)
}

/// Where the trimmed text ends in `s`.
pub open spec fn trim_end_index(s: Seq<char>) -> int {
    skip_white_back(s, trim_start_index(s), s.len() as int)
}

/// `s` without its leading and trailing white space.
pub open spec fn trimmed(s: Seq<char>) -> Seq<char> {
    s.subrange(trim_start_index(s), trim_end_index(s))
}

/// Every character of `s` is white space.
pub open spec fn all_white(s: Seq<char>) -> bool {
    forall|i: int| 0 <= i < s.len() ==> is_white(#[trigger] s[i])
}

/// What [`skip_white`] skips is white space, and it stops at the first character
/// that is none.
pub proof fn lemma_skip_white_bounds(s: Seq<char>, i: int)
    requires
        0 <= i <= s.len(),
    ensures
        i <= skip_white(s, i) <= s.len(),
        forall|k: int| i <= k < skip_white(s, i) ==> is_white(#[trigger] s[k]),
        skip_white(s, i) < s.len() ==> !is_white(s[skip_white(s, i)]),
    decreases s.len() - i,
{
    if i < s.len() && is_white(s[i]) {
        lemma_skip_white_bounds(s, i + 1);
    }
}

/// What [`skip_white_back`] leaves out is white space, and it stops after the
/// last character that is none.
pub proof fn lemma_skip_white_back_bounds(s: Seq<char>, start: int, end: int)
    requires
        0 <= start <= end <= s.len(),
    ensures
        start <= skip_white_back(s, start, end) <= end,
        forall|k: int| skip_white_back(s, start, end) <= k < end ==> is_white(#[trigger] s[k]),
        skip_white_back(s, start, end) > start ==> !is_white(
            s[skip_white_back(s, start, end) - 1],
        ),
    decreases end - start,
{
    if start < end && is_white(s[end - 1]) {
        lemma_skip_white_back_bounds(s, start, end - 1);
    }
}

/// The trimmed text lies inside `s`, and it neither starts nor ends with
/// white space.
pub proof fn lemma_trimmed(s: Seq<char>)
    ensures
        0 <= trim_start_index(s) <= trim_end_index(s) <= s.len(),
        trimmed(s).len() == trim_end_index(s) - trim_start_index(s),
        trimmed(s).len() > 0 ==> !is_white(trimmed(s).first()) && !is_white(trimmed(s).last()),
        all_white(s) <==> trimmed(s).len() == 0,
{
    lemma_skip_white_bounds(s, 0);
    lemma_skip_white_back_bounds(s, trim_start_index(s), s.len() as int);
    let a = trim_start_index(s);
    let b = trim_end_index(s);
    if trimmed(s).len() == 0 {
        assert forall|i: int| 0 <= i < s.len() implies is_white(#[trigger] s[i]) by {
            if i < a {
            } else {
                assert(b <= i);
            }
        }
    } else {
        assert(trimmed(s).first() == s[a]);
        assert(trimmed(s).last() == s[b - 1]);
        assert(!is_white(s[a]));
    }
}

/// A copy of `v` without its leading and trailing white space.
pub fn trim(v: &Vec<char>) -> (r: Vec<char>)
    ensures
        r@ == trimmed(v@),
{
    let mut start: usize = 0;
    while start < v.len() && char_is_whitespace(v[start])
        invariant
            start <= v.len(),
            skip_white(v@, start as int) == skip_white(v@, 0),
        decreases v.len() - start,
    {
        start += 1;
    }
    let mut end: usize = v.len();
    while start < end && char_is_whitespace(v[end - 1])
        invariant
            start <= end <= v.len(),
            skip_white_back(v@, start as int, end as int) == skip_white_back(
                v@,
                start as int,
                v@.len() as int,
            ),
        decreases end,
    {
        end -= 1;
    }
    let mut r: Vec<char> = Vec::new();
    let mut i: usize = start;
    while i < end
        invariant
            start <= i <= end <= v.len(),
            r@ == v@.subrange(start as int, i as int),
        decreases end - i,
    {
        r.push(v[i]);
        i += 1;
    }
    r
}

/// What is left of `s` from index `i` on when runs of white space are
/// collapsed. `last_space` and `last_newline` say whether the character written
/// last was a space, or a kept line break. A line break is kept only where
/// `keep_breaks` holds and the character written before it was no line break;
/// any other white space becomes one space unless a space was written last.
pub open spec fn collapse_from(
    s: Seq<char>,
    i: int,
    last_space: bool,
    last_newline: bool,
    keep_breaks: bool,
) -> Seq<char>
    decreases s.len() - i,
{
    if !(0 <= i < s.len()) {
        Seq::empty()
    } else if s[i] == '\n' {
        if keep_breaks && !last_newline {
            seq!['\n'] + collapse_from(s, i + 1, false, true, keep_breaks)
        } else if !last_space {
            seq![' '] + collapse_from(s, i + 1, true, last_newline, keep_breaks)
        } else {
            collapse_from(s, i + 1, last_space, last_newline, keep_breaks)
        }
    } else if is_white(s[i]) {
        if !last_space {
            seq![' '] + collapse_from(s, i + 1, true, false, keep_breaks)
        } else {
            collapse_from(s, i + 1, true, false, keep_breaks)
        }
    } else {
        seq![s[i]] + collapse_from(s, i + 1, false, false, keep_breaks)
    }
}

/// `s` with each run of white space collapsed to one space (and line breaks
/// kept as [`collapse_from`] says, where `keep_breaks` holds).
pub open spec fn collapsed(s: Seq<char>, keep_breaks: bool) -> Seq<char> {
    collapse_from(s, 0, false, false, keep_breaks)
}

/// A copy of `v` with its runs of white space collapsed.
pub fn collapse(v: &Vec<char>, keep_breaks: bool) -> (r: Vec<char>)
    ensures
        r@ == collapsed(v@, keep_breaks),
{
    let mut r: Vec<char> = Vec::new();
    let mut last_space = false;
    let mut last_newline = false;
    let mut i: usize = 0;
    while i < v.len()
        invariant
            i <= v.len(),
            r@ + collapse_from(v@, i as int, last_space, last_newline, keep_breaks) == collapsed(
                v@,
                keep_breaks,
            ),
        decreases v.len() - i,
    {
        let c = v[i];
        let ghost before = r@;
        let ghost rest = collapse_from(v@, i as int, last_space, last_newline, keep_breaks);
        if c == '\n' {
            if keep_breaks && !last_newline {
                r.push('\n');
                last_newline = true;
                last_space = false;
            } else if !last_space {
                r.push(' ');
                last_space = true;
            }
        } else if char_is_whitespace(c) {
            if !last_space {
                r.push(' ');
                last_space = true;
            }
            last_newline = false;
        } else {
            r.push(c);
            last_space = false;
            last_newline = false;
        }
        i += 1;
        assert(r@ + collapse_from(v@, i as int, last_space, last_newline, keep_breaks) == before
            + rest);
    }
    assert(r@ + Seq::<char>::empty() == r@);
    r
}

/// Whether what is written next after `content` starts a line.
pub open spec fn starts_line(content: Seq<char>) -> bool {
    content.len() == 0 || content.last() == '\n'
}

/// `content` once `s[i..]` is written after it inside quotes whose markers
/// are `prefix`: the markers go before every character that starts a line,
/// unless the character is a line break; an empty line gets no markers.
pub open spec fn quoted_from(content: Seq<char>, prefix: Seq<char>, s: Seq<char>, i: int) -> Seq<
    char,
>
    decreases s.len() - i,
{
    if !(0 <= i < s.len()) {
        content
    } else if s[i] != '\n' && starts_line(content) {
        quoted_from(content + prefix + seq![s[i]], prefix, s, i + 1)
    } else {
        quoted_from(content + seq![s[i]], prefix, s, i + 1)
    }
}

/// `content` once `s` is written after it inside quotes whose markers are
/// `prefix`.
pub open spec fn quoted(content: Seq<char>, prefix: Seq<char>, s: Seq<char>) -> Seq<char> {
    quoted_from(content, prefix, s, 0)
}

/// Writes `s` after `content`, with the markers `prefix` before every
/// character that starts a line and is no line break.
pub fn push_quoted(content: &mut Vec<char>, prefix: &Vec<char>, s: &Vec<char>)
    ensures
        final(content)@ == quoted(old(content)@, prefix@, s@),
{
    let mut i: usize = 0;
    while i < s.len()
        invariant
            i <= s.len(),
            quoted_from(content@, prefix@, s@, i as int) == quoted(old(content)@, prefix@, s@),
        decreases s.len() - i,
    {
        let n: usize = content.len();
        let ghost before = content@;
        if s[i] != '\n' && (n == 0 || content[n - 1] == '\n') {
            push_chars(content, prefix);
            content.push(s[i]);
            assert(content@ == before + prefix@ + seq![s@[i as int]]);
        } else {
            content.push(s[i]);
            assert(content@ == before + seq![s@[i as int]]);
        }
        i += 1;
    }
}

/// Outside any quote, writing appends.
pub proof fn lemma_quoted_plain(content: Seq<char>, s: Seq<char>, i: int)
    requires
        0 <= i <= s.len(),
    ensures
        quoted_from(content, Seq::empty(), s, i) == content + s.subrange(i, s.len() as int),
    decreases s.len() - i,
{
    if i < s.len() {
        let next = content + seq![s[i]];
        assert(content + Seq::<char>::empty() + seq![s[i]] == next);
        lemma_quoted_plain(next, s, i + 1);
        assert(next + s.subrange(i + 1, s.len() as int) == content + s.subrange(
            i,
            s.len() as int,
        ));
    } else {
        assert(content + s.subrange(i, s.len() as int) == content);
    }
}

/// Whether `s` holds no line break.
pub open spec fn is_one_line(s: Seq<char>) -> bool {
    forall|j: int| 0 <= j < s.len() ==> #[trigger] s[j] != '\n'
}

/// Whether a line starts at index `k` of `text` that is not empty.
pub open spec fn line_starts_at(text: Seq<char>, k: int) -> bool {
    0 <= k < text.len() && (k == 0 || text[k - 1] == '\n') && text[k] != '\n'
}

/// Whether `prefix` stands in `text` from index `k` on.
pub open spec fn stands_at(text: Seq<char>, k: int, prefix: Seq<char>) -> bool {
    0 <= k && k + prefix.len() <= text.len() && text.subrange(k, k + prefix.len()) == prefix
}

/// What is written inside quotes keeps what was there before, and every line
/// that starts in what is written, and is not empty, starts with the markers
/// of the quotes.
pub proof fn lemma_quoted_lines(content: Seq<char>, prefix: Seq<char>, s: Seq<char>, i: int)
    requires
        0 <= i <= s.len(),
        is_one_line(prefix),
    ensures
        content.is_prefix_of(quoted_from(content, prefix, s, i)),
        forall|k: int|
            content.len() <= k && #[trigger] line_starts_at(quoted_from(content, prefix, s, i), k)
                ==> stands_at(quoted_from(content, prefix, s, i), k, prefix),
    decreases s.len() - i,
{
    let out = quoted_from(content, prefix, s, i);
    if i < s.len() {
        let marked = s[i] != '\n' && starts_line(content);
        let next = if marked {
            content + prefix + seq![s[i]]
        } else {
            content + seq![s[i]]
        };
        lemma_quoted_lines(next, prefix, s, i + 1);
        assert(content.is_prefix_of(next));
        assert forall|k: int| content.len() <= k && #[trigger] line_starts_at(out, k) implies stands_at(
            out,
            k,
            prefix,
        ) by {
            if k < next.len() {
                assert(out[k] == next[k]);
                if k > 0 {
                    assert(out[k - 1] == next[k - 1]);
                }
                if marked {
                    if k == content.len() {
                        assert(out.subrange(k, k + prefix.len()) =~= prefix) by {
                            assert forall|j: int| 0 <= j < prefix.len() implies out[k + j]
                                == prefix[j] by {
                                assert(out[k + j] == next[k + j]);
                            }
                        }
                    } else {
                        assert(next[k - 1] == prefix[k - 1 - content.len()]);
                    }
                } else {
                    if content.len() > 0 {
                        assert(next[k - 1] == content.last());
                    }
                }
            }
        }
    }
}

/// Whether `s` ends with a line break.
pub open spec fn ends_with_newline(s: Seq<char>) -> bool {
    s.len() > 0 && s.last() == '\n'
}

/// Whether `s` ends with two line breaks.
pub open spec fn ends_with_blank_line(s: Seq<char>) -> bool {
    s.len() >= 2 && s[s.len() - 1] == '\n' && s[s.len() - 2] == '\n'
}

/// `s` without the line breaks at its end.
pub open spec fn without_trailing_newlines(s: Seq<char>) -> Seq<char>
    decreases s.len(),
{
    if ends_with_newline(s) {
        without_trailing_newlines(s.drop_last())
    } else {
        s
    }
}

/// Whether `prefix` stands at the start of `s`.
pub open spec fn has_prefix(s: Seq<char>, prefix: Seq<char>) -> bool {
    prefix.len() <= s.len() && s.subrange(0, prefix.len() as int) == prefix
}

/// Whether the characters of `prefix` stand at the start of `v`.
pub fn starts_with(v: &Vec<char>, prefix: &Vec<char>) -> (r: bool)
    ensures
        r == has_prefix(v@, prefix@),
{
    if prefix.len() > v.len() {
        return false;
    }
    let mut i: usize = 0;
    while i < prefix.len()
        invariant
            i <= prefix.len() <= v.len(),
            v@.subrange(0, i as int) == prefix@.take(i as int),
        decreases prefix.len() - i,
    {
        if v[i] != prefix[i] {
            assert(v@.subrange(0, prefix.len() as int)[i as int] != prefix@[i as int]);
            return false;
        }
        assert(v@.subrange(0, i + 1) == v@.subrange(0, i as int).push(v@[i as int]));
        assert(prefix@.take(i + 1) == prefix@.take(i as int).push(prefix@[i as int]));
        i += 1;
    }
    assert(prefix@.take(prefix.len() as int) == prefix@);
    true
}

/// The number of bytes that the UTF-8 encoding of `c` takes.
pub open spec fn char_width(c: char) -> nat {
    if (c as u32) < 0x80 {
        1
    } else if (c as u32) < 0x800 {
        2
    } else if (c as u32) < 0x10000 {
        3
    } else {
        4
    }
}

/// The number of bytes that the UTF-8 encoding of `s` takes.
pub open spec fn text_width(s: Seq<char>) -> nat
    decreases s.len(),
{
    if s.len() == 0 {
        0
    } else {
        text_width(s.drop_last()) + char_width(s.last())
    }
}

/// The deep view of a buffer of characters is its view.
pub proof fn lemma_chars_deep_view(v: Vec<char>)
    ensures
        v.deep_view() == v@,
{
    assert(v.deep_view() =~= v@);
}

/// Pushing a buffer onto a list of buffers pushes its text onto the list's
/// deep view.
pub proof fn lemma_push_deep_view(before: Vec<Vec<char>>, after: Vec<Vec<char>>, item: Vec<char>)
    requires
        after@ == before@.push(item),
    ensures
        after.deep_view() == before.deep_view().push(item@),
{
    lemma_chars_deep_view(item);
    assert(after.deep_view() =~= before.deep_view().push(item@));
}

/// Takes the line breaks at the end of `buf` away.
pub fn strip_trailing_newlines(buf: &mut Vec<char>)
    ensures
        final(buf)@ == without_trailing_newlines(old(buf)@),
{
    while buf.len() > 0 && buf[buf.len() - 1] == '\n'
        invariant
            without_trailing_newlines(buf@) == without_trailing_newlines(old(buf)@),
        decreases buf.len(),
    {
        let ghost before = buf@;
        buf.pop();
        assert(buf@ == before.drop_last());
    }
}

/// The decimal digit for `d`, which is below ten.
pub open spec fn digit(d: nat) -> char {
    if d == 0 {
        '0'
    } else if d == 1 {
        '1'
    } else if d == 2 {
        '2'
    } else if d == 3 {
        '3'
    } else if d == 4 {
        '4'
    } else if d == 5 {
        '5'
    } else if d == 6 {
        '6'
    } else if d == 7 {
        '7'
    } else if d == 8 {
        '8'
    } else {
        '9'
    }
}

/// `n` in decimal notation, without leading zeros.
pub open spec fn decimal(n: nat) -> Seq<char>
    decreases n,
{
    if n < 10 {
        seq![digit(n)]
    } else {
        decimal(n / 10).push(digit(n % 10))
    }
}

/// The decimal digit for `d`.
fn digit_of(d: u64) -> (c: char)
    requires
        d < 10,
    ensures
        c == digit(d as nat),
{
    if d == 0 {
        '0'
    } else if d == 1 {
        '1'
    } else if d == 2 {
        '2'
    } else if d == 3 {
        '3'
    } else if d == 4 {
        '4'
    } else if d == 5 {
        '5'
    } else if d == 6 {
        '6'
    } else if d == 7 {
        '7'
    } else if d == 8 {
        '8'
    } else {
        '9'
    }
}

/// `n` in decimal notation.
pub fn to_decimal(n: u64) -> (v: Vec<char>)
    ensures
        v@ == decimal(n as nat),
    decreases n,
{
    if n < 10 {
        let mut v: Vec<char> = Vec::new();
        v.push(digit_of(n));
        v
    } else {
        let mut v = to_decimal(n / 10);
        v.push(digit_of(n % 10));
        v
    }
}

/// `s[i..]` with every line break left out that follows two or more line
/// breaks; `run` is the number of line breaks just before `i`, counted up to two.
pub open spec fn limit_breaks_from(s: Seq<char>, i: int, run: nat) -> Seq<char>
    decreases s.len() - i,
{
    if !(0 <= i < s.len()) {
        Seq::empty()
    } else if s[i] == '\n' {
        if run < 2 {
            seq!['\n'] + limit_breaks_from(s, i + 1, run + 1)
        } else {
            limit_breaks_from(s, i + 1, run)
        }
    } else {
        seq![s[i]] + limit_breaks_from(s, i + 1, 0)
    }
}

/// `s` with every run of more than two line breaks cut down to two.
pub open spec fn limit_breaks(s: Seq<char>) -> Seq<char> {
    limit_breaks_from(s, 0, 0)
}

/// The number of line breaks at the start of `s`.
pub open spec fn leading_breaks(s: Seq<char>) -> nat
    decreases s.len(),
{
    if s.len() > 0 && s[0] == '\n' {
        1 + leading_breaks(s.drop_first())
    } else {
        0
    }
}

/// Whether `s` holds three line breaks in a row somewhere.
pub open spec fn has_long_break(s: Seq<char>) -> bool {
    exists|i: int|
        0 <= i && i + 2 < s.len() && #[trigger] s[i] == '\n' && s[i + 1] == '\n' && s[i + 2]
            == '\n'
}

/// A text that starts with `k + 1` line breaks has that many at its start.
proof fn lemma_leading_breaks(s: Seq<char>, k: int)
    requires
        0 <= k < s.len(),
        forall|j: int| 0 <= j <= k ==> s[j] == '\n',
    ensures
        leading_breaks(s) >= k + 1,
    decreases k,
{
    if k > 0 {
        let rest = s.drop_first();
        assert forall|j: int| 0 <= j <= k - 1 implies rest[j] == '\n' by {
            assert(rest[j] == s[j + 1]);
        }
        lemma_leading_breaks(rest, k - 1);
    } else {
        assert(leading_breaks(s.drop_first()) >= 0);
    }
}

/// What [`limit_breaks_from`] gives starts with no more line breaks than the
/// run allows, and holds no three line breaks in a row.
proof fn lemma_limit_breaks_from(s: Seq<char>, i: int, run: nat)
    requires
        0 <= i <= s.len(),
        run <= 2,
    ensures
        leading_breaks(limit_breaks_from(s, i, run)) + run <= 2,
        !has_long_break(limit_breaks_from(s, i, run)),
    decreases s.len() - i,
{
    let r = limit_breaks_from(s, i, run);
    if i < s.len() {
        if s[i] == '\n' {
            if run < 2 {
                let rest = limit_breaks_from(s, i + 1, run + 1);
                lemma_limit_breaks_from(s, i + 1, run + 1);
                assert(r.drop_first() == rest);
                assert(r[0] == '\n');
                if has_long_break(r) {
                    let k = choose|k: int|
                        0 <= k && k + 2 < r.len() && #[trigger] r[k] == '\n' && r[k + 1] == '\n'
                            && r[k + 2] == '\n';
                    if k == 0 {
                        lemma_leading_breaks(r, 2);
                    } else {
                        assert(rest[k - 1] == r[k] && rest[k] == r[k + 1] && rest[k + 1] == r[k
                            + 2]);
                        assert(has_long_break(rest));
                    }
                }
            } else {
                lemma_limit_breaks_from(s, i + 1, run);
            }
        } else {
            let rest = limit_breaks_from(s, i + 1, 0);
            lemma_limit_breaks_from(s, i + 1, 0);
            assert(r.drop_first() == rest);
            assert(r[0] == s[i]);
            if has_long_break(r) {
                let k = choose|k: int|
                    0 <= k && k + 2 < r.len() && #[trigger] r[k] == '\n' && r[k + 1] == '\n' && r[k
                        + 2] == '\n';
                assert(k > 0);
                assert(rest[k - 1] == r[k] && rest[k] == r[k + 1] && rest[k + 1] == r[k + 2]);
                assert(has_long_break(rest));
            }
        }
    }
}

/// What [`limit_breaks`] gives holds no three line breaks in a row.
pub proof fn lemma_limit_breaks(s: Seq<char>)
    ensures
        !has_long_break(limit_breaks(s)),
{
    lemma_limit_breaks_from(s, 0, 0);
}

/// A part of a text without three line breaks in a row has none either.
pub proof fn lemma_part_has_no_long_break(s: Seq<char>, a: int, b: int)
    requires
        0 <= a <= b <= s.len(),
        !has_long_break(s),
    ensures
        !has_long_break(s.subrange(a, b)),
{
    let part = s.subrange(a, b);
    if has_long_break(part) {
        let k = choose|k: int|
            0 <= k && k + 2 < part.len() && #[trigger] part[k] == '\n' && part[k + 1] == '\n'
                && part[k + 2] == '\n';
        assert(s[a + k] == part[k] && s[a + k + 1] == part[k + 1] && s[a + k + 2] == part[k + 2]);
        assert(has_long_break(s));
    }
}

/// A copy of `v` with every run of more than two line breaks cut down to two.
pub fn limit_line_breaks(v: &Vec<char>) -> (r: Vec<char>)
    ensures
        r@ == limit_breaks(v@),
{
    let mut r: Vec<char> = Vec::new();
    let mut run: u8 = 0;
    let mut i: usize = 0;
    while i < v.len()
        invariant
            i <= v.len(),
            run <= 2,
            r@ + limit_breaks_from(v@, i as int, run as nat) == limit_breaks(v@),
        decreases v.len() - i,
    {
        let ghost before = r@;
        let ghost rest = limit_breaks_from(v@, i as int, run as nat);
        if v[i] == '\n' {
            if run < 2 {
                r.push('\n');
                run += 1;
            }
        } else {
            r.push(v[i]);
            run = 0;
        }
        i += 1;
        assert(r@ + limit_breaks_from(v@, i as int, run as nat) == before + rest);
    }
    assert(r@ + Seq::<char>::empty() == r@);
    r
}

/// The language that the class list `class` names: what follows `language-`
/// in the first of its words that starts so. The words are what white space
/// separates; `start` is where the word being read starts, `i` how far it has
/// been read.
pub open spec fn language_from(class: Seq<char>, start: int, i: int) -> Option<Seq<char>>
    decreases class.len() - i,
{
    if !(0 <= start <= i <= class.len()) {
        None
    } else if i == class.len() || is_white(class[i]) {
        let word = class.subrange(start, i);
        if has_prefix(word, "language-"@) {
            Some(word.skip("language-"@.len() as int))
        } else if i == class.len() {
            None
        } else {
            language_from(class, i + 1, i + 1)
        }
    } else {
        language_from(class, start, i + 1)
    }
}

/// The language that the class list `class` names, if it names one.
pub open spec fn language_of(class: Seq<char>) -> Option<Seq<char>> {
    language_from(class, 0, 0)
}

/// The language that the class list `class` names, if it names one.
pub fn find_language(class: &Vec<char>) -> (language: Option<Vec<char>>)
    ensures
        language.deep_view() == language_of(class@),
{
    let prefix = to_chars("language-");
    let mut word: Vec<char> = Vec::new();
    let mut start: usize = 0;
    let mut i: usize = 0;
    loop
        invariant
            start <= i <= class.len(),
            prefix@ == "language-"@,
            word@ == class@.subrange(start as int, i as int),
            language_from(class@, start as int, i as int) == language_of(class@),
        decreases class.len() - i,
    {
        if i == class.len() || char_is_whitespace(class[i]) {
            if starts_with(&word, &prefix) {
                let mut language: Vec<char> = Vec::new();
                let mut k: usize = prefix.len();
                while k < word.len()
                    invariant
                        prefix.len() <= k <= word.len(),
                        language@ == word@.subrange(prefix.len() as int, k as int),
                    decreases word.len() - k,
                {
                    language.push(word[k]);
                    k += 1;
                }
                proof {
                    lemma_chars_deep_view(language);
                }
                return Some(language);
            } else if i == class.len() {
                return None;
            }
            word = Vec::new();
            start = i + 1;
            i = i + 1;
            assert(word@ == class@.subrange(start as int, i as int));
        } else {
            word.push(class[i]);
            i = i + 1;
            assert(word@ == class@.subrange(start as int, i as int));
        }
    }
}

} // verus!
