//! Text as sequences of characters: prefixes, trimming and the size of a text
//! in UTF-8.

use vstd::prelude::*;
use vstd::utf8::*;

verus! {

/// `String::push` appends one character.
pub assume_specification[ String::push ](s: &mut String, c: char)
    ensures
        final(s)@ == old(s)@.push(c),
;

/// `String::push_str` appends a text.
pub assume_specification[ String::push_str ](s: &mut String, other: &str)
    ensures
        final(s)@ == old(s)@ + other@,
;

/// `==` on texts holds when they consist of the same characters.
pub assume_specification[ <str as PartialEq>::eq ](a: &str, b: &str) -> (r: bool)
    ensures
        r == (a@ == b@),
;

/// What `str::to_lowercase` makes of a text that is not all ASCII.
pub uninterp spec fn unicode_lowercase(s: Seq<char>) -> Seq<char>;

/// `str::to_lowercase`: the lower-case form by Unicode's rules. On a text of
/// ASCII characters alone that is the letters `A` to `Z` turned into `a` to
/// `z` and every other character kept.
pub assume_specification[ str::to_lowercase ](s: &str) -> (r: String)
    ensures
        is_ascii_chars(s@) ==> r@ == s@.map_values(|c: char| ascii_lower(c)),
        !is_ascii_chars(s@) ==> r@ == unicode_lowercase(s@),
;

// ---------------------------------------------------------------------------
// Characters
// ---------------------------------------------------------------------------

/// The characters with Unicode's White_Space property.
pub open spec fn is_white_space(c: char) -> bool {
    ||| '\u{9}' <= c <= '\u{d}'
    ||| c == ' '
    ||| c == '\u{85}'
    ||| c == '\u{a0}'
    ||| c == '\u{1680}'
    ||| '\u{2000}' <= c <= '\u{200a}'
    ||| c == '\u{2028}'
    ||| c == '\u{2029}'
    ||| c == '\u{202f}'
    ||| c == '\u{205f}'
    ||| c == '\u{3000}'
}

/// Tells whether `c` is white space.
pub fn white_space(c: char) -> (r: bool)
    ensures
        r == is_white_space(c),
{
    ('\u{9}' <= c && c <= '\u{d}') || c == ' ' || c == '\u{85}' || c == '\u{a0}' || c == '\u{1680}'
        || ('\u{2000}' <= c && c <= '\u{200a}') || c == '\u{2028}' || c == '\u{2029}'
        || c == '\u{202f}' || c == '\u{205f}' || c == '\u{3000}'
}

/// `A` to `Z` become `a` to `z`; every other character stays.
pub open spec fn ascii_lower(c: char) -> char {
    if 'A' <= c <= 'Z' {
        (c as u32 + 32) as char
    } else {
        c
    }
}

/// `s` in lower case.
pub open spec fn lowercase(s: Seq<char>) -> Seq<char> {
    if is_ascii_chars(s) {
        s.map_values(|c: char| ascii_lower(c))
    } else {
        unicode_lowercase(s)
    }
}

/// The ASCII letters and digits.
pub open spec fn is_ascii_alphanumeric(c: char) -> bool {
    'a' <= c <= 'z' || 'A' <= c <= 'Z' || '0' <= c <= '9'
}

/// The ASCII hexadecimal digits.
pub open spec fn is_hex_digit(c: char) -> bool {
    '0' <= c <= '9' || 'a' <= c <= 'f' || 'A' <= c <= 'F'
}

/// Tells whether `c` is a hexadecimal digit.
pub fn hex_digit(c: char) -> (r: bool)
    ensures
        r == is_hex_digit(c),
{
    ('0' <= c && c <= '9') || ('a' <= c && c <= 'f') || ('A' <= c && c <= 'F')
}

// ---------------------------------------------------------------------------
// Characters of a text
// ---------------------------------------------------------------------------

/// The characters of `s`.
pub fn chars_of(s: &str) -> (r: Vec<char>)
    ensures
        r@ == s@,
{
    let mut out: Vec<char> = Vec::new();
    for c in it: s.chars()
        invariant
            it.seq() == s@,
            out@ == s@.take(it.index()),
    {
        proof {
            assert(s@.take(it.index() + 1) == s@.take(it.index()).push(s@[it.index()]));
        }
        out.push(c);
    }
    assert(s@.take(s@.len() as int) == s@);
    out
}

/// The text of the characters from `from` up to `to`.
pub fn text_of(chars: &Vec<char>, from: usize, to: usize) -> (r: String)
    requires
        from <= to <= chars@.len(),
    ensures
        r@ == chars@.subrange(from as int, to as int),
{
    let mut out = String::new();
    let mut i: usize = from;
    while i < to
        invariant
            from <= i <= to <= chars@.len(),
            out@ == chars@.subrange(from as int, i as int),
        decreases to - i,
    {
        assert(chars@.subrange(from as int, i + 1) == chars@.subrange(from as int, i as int).push(
            chars@[i as int],
        ));
        out.push(chars[i]);
        i += 1;
    }
    out
}

/// Tells whether two texts are the same.
pub fn same(a: &str, b: &str) -> (r: bool)
    ensures
        r == (a@ == b@),
{
    *a == *b
}

// ---------------------------------------------------------------------------
// Prefixes and trimming
// ---------------------------------------------------------------------------

/// `s` begins with `prefix`.
pub open spec fn has_prefix(s: Seq<char>, prefix: Seq<char>) -> bool {
    prefix.len() <= s.len() && s.take(prefix.len() as int) == prefix
}

/// Tells whether `s` begins with `prefix`.
pub fn starts_with(s: &str, prefix: &str) -> (r: bool)
    ensures
        r == has_prefix(s@, prefix@),
{
    let a = chars_of(s);
    let b = chars_of(prefix);
    assert(a@.skip(0) =~= a@);
    chars_start_with(&a, 0, &b)
}

/// Tells whether `b` stands in `a` from position `at` on.
pub fn chars_start_with(a: &Vec<char>, at: usize, b: &Vec<char>) -> (r: bool)
    requires
        at <= a@.len(),
    ensures
        r == has_prefix(a@.skip(at as int), b@),
{
    if b.len() > a.len() - at {
        return false;
    }
    let mut i: usize = 0;
    while i < b.len()
        invariant
            i <= b@.len(),
            at + b.len() <= a.len(),
            forall|k: int| 0 <= k < i ==> a@[at + k] == b@[k],
        decreases b.len() - i,
    {
        if a[at + i] != b[i] {
            assert(a@.skip(at as int).take(b@.len() as int)[i as int] != b@[i as int]);
            return false;
        }
        i += 1;
    }
    assert(a@.skip(at as int).take(b@.len() as int) =~= b@);
    true
}

/// `s` ends in `suffix`.
pub open spec fn has_suffix(s: Seq<char>, suffix: Seq<char>) -> bool {
    suffix.len() <= s.len() && s.skip(s.len() - suffix.len()) == suffix
}

/// Tells whether `s` ends in `suffix`.
pub fn ends_with(s: &str, suffix: &str) -> (r: bool)
    ensures
        r == has_suffix(s@, suffix@),
{
    let a = chars_of(s);
    let b = chars_of(suffix);
    if b.len() > a.len() {
        return false;
    }
    let at: usize = a.len() - b.len();
    assert(a@.skip(at as int).take(b@.len() as int) =~= a@.skip(at as int));
    chars_start_with(&a, at, &b)
}

/// `s` without the white space at its start.
pub open spec fn trim_start(s: Seq<char>) -> Seq<char>
    decreases s.len(),
{
    if s.len() > 0 && is_white_space(s[0]) {
        trim_start(s.skip(1))
    } else {
        s
    }
}

/// `s` without the white space at its end.
pub open spec fn trim_end(s: Seq<char>) -> Seq<char>
    decreases s.len(),
{
    if s.len() > 0 && is_white_space(s.last()) {
        trim_end(s.drop_last())
    } else {
        s
    }
}

/// `s` without the white space around it.
pub open spec fn trimmed(s: Seq<char>) -> Seq<char> {
    trim_end(trim_start(s))
}

/// `s` without the white space around it.
pub fn trim(s: &str) -> (r: String)
    ensures
        r@ == trimmed(s@),
{
    let chars = chars_of(s);
    let mut from: usize = 0;
    assert(chars@.skip(0) =~= chars@);
    while from < chars.len() && white_space(chars[from])
        invariant
            from <= chars@.len(),
            trim_start(chars@) == trim_start(chars@.skip(from as int)),
        decreases chars.len() - from,
    {
        assert(chars@.skip(from as int).skip(1) =~= chars@.skip(from + 1));
        from += 1;
    }
    let mut to: usize = chars.len();
    assert(chars@.subrange(from as int, to as int) =~= chars@.skip(from as int));
    assert(trim_start(chars@) == chars@.skip(from as int));
    while from < to && white_space(chars[to - 1])
        invariant
            from <= to <= chars@.len(),
            trim_end(chars@.skip(from as int)) == trim_end(
                chars@.subrange(from as int, to as int),
            ),
        decreases to,
    {
        assert(chars@.subrange(from as int, to as int).drop_last() =~= chars@.subrange(
            from as int,
            to - 1,
        ));
        to -= 1;
    }
    text_of(&chars, from, to)
}

/// `s` without the run of `c` at its start.
pub open spec fn drop_leading(s: Seq<char>, c: char) -> Seq<char>
    decreases s.len(),
{
    if s.len() > 0 && s[0] == c {
        drop_leading(s.skip(1), c)
    } else {
        s
    }
}

/// `s` without the run of `c` at its start.
pub fn trim_start_matches(s: &str, c: char) -> (r: String)
    ensures
        r@ == drop_leading(s@, c),
{
    let chars = chars_of(s);
    let mut from: usize = 0;
    assert(chars@.skip(0) =~= chars@);
    while from < chars.len() && chars[from] == c
        invariant
            from <= chars@.len(),
            drop_leading(chars@, c) == drop_leading(chars@.skip(from as int), c),
        decreases chars.len() - from,
    {
        assert(chars@.skip(from as int).skip(1) =~= chars@.skip(from + 1));
        from += 1;
    }
    assert(chars@.subrange(from as int, chars@.len() as int) =~= chars@.skip(from as int));
    text_of(&chars, from, chars.len())
}

/// `s` without the run of `c` at its end.
pub open spec fn drop_trailing(s: Seq<char>, c: char) -> Seq<char>
    decreases s.len(),
{
    if s.len() > 0 && s.last() == c {
        drop_trailing(s.drop_last(), c)
    } else {
        s
    }
}

/// `s` without the run of `c` at its end.
pub fn trim_end_matches(s: &str, c: char) -> (r: String)
    ensures
        r@ == drop_trailing(s@, c),
{
    let chars = chars_of(s);
    let mut to: usize = chars.len();
    assert(chars@.take(to as int) =~= chars@);
    while to > 0 && chars[to - 1] == c
        invariant
            to <= chars@.len(),
            drop_trailing(chars@, c) == drop_trailing(chars@.take(to as int), c),
        decreases to,
    {
        assert(chars@.take(to as int).drop_last() =~= chars@.take(to - 1));
        to -= 1;
    }
    assert(chars@.subrange(0, to as int) =~= chars@.take(to as int));
    text_of(&chars, 0, to)
}

/// White space in front is dropped, up to the first other character.
proof fn trim_start_run(blank: Seq<char>, s: Seq<char>)
    requires
        forall|i: int| 0 <= i < blank.len() ==> is_white_space(#[trigger] blank[i]),
        s.len() > 0 ==> !is_white_space(s[0]),
    ensures
        trim_start(blank + s) == s,
    decreases blank.len(),
{
    if blank.len() == 0 {
        assert(blank + s =~= s);
    } else {
        assert((blank + s)[0] == blank[0]);
        assert((blank + s).skip(1) =~= blank.skip(1) + s);
        trim_start_run(blank.skip(1), s);
    }
}

/// White space at the end is dropped, up to the last other character.
proof fn trim_end_run(s: Seq<char>, blank: Seq<char>)
    requires
        forall|i: int| 0 <= i < blank.len() ==> is_white_space(#[trigger] blank[i]),
        s.len() > 0 ==> !is_white_space(s.last()),
    ensures
        trim_end(s + blank) == s,
    decreases blank.len(),
{
    if blank.len() == 0 {
        assert(s + blank =~= s);
    } else {
        assert((s + blank).last() == blank[blank.len() - 1]);
        assert((s + blank).drop_last() =~= s + blank.drop_last());
        trim_end_run(s, blank.drop_last());
    }
}

/// What stands between white space is what trimming leaves.
pub proof fn trimmed_between(before: Seq<char>, core: Seq<char>, after: Seq<char>)
    requires
        forall|i: int| 0 <= i < before.len() ==> is_white_space(#[trigger] before[i]),
        forall|i: int| 0 <= i < after.len() ==> is_white_space(#[trigger] after[i]),
        core.len() > 0 ==> !is_white_space(core[0]) && !is_white_space(core.last()),
    ensures
        trimmed(before + core + after) == core,
{
    if core.len() == 0 {
        let blank = before + after;
        assert(before + core + after =~= blank + core);
        assert forall|i: int| 0 <= i < blank.len() implies is_white_space(#[trigger] blank[i]) by {
            if i < before.len() {
                assert(blank[i] == before[i]);
            } else {
                assert(blank[i] == after[i - before.len()]);
            }
        }
        trim_start_run(blank, core);
        assert(core + core =~= core);
        trim_end_run(core, core);
    } else {
        assert(before + core + after =~= before + (core + after));
        trim_start_run(before, core + after);
        trim_end_run(core, after);
    }
}

/// A run of `c` in front is dropped.
pub proof fn drop_leading_run(run: Seq<char>, s: Seq<char>, c: char)
    requires
        forall|i: int| 0 <= i < run.len() ==> #[trigger] run[i] == c,
        s.len() > 0 ==> s[0] != c,
    ensures
        drop_leading(run + s, c) == s,
    decreases run.len(),
{
    if run.len() == 0 {
        assert(run + s =~= s);
    } else {
        assert((run + s)[0] == run[0]);
        assert((run + s).skip(1) =~= run.skip(1) + s);
        drop_leading_run(run.skip(1), s, c);
    }
}

// ---------------------------------------------------------------------------
// Size in UTF-8
// ---------------------------------------------------------------------------

/// How many bytes UTF-8 spends on `c`.
pub open spec fn char_width(c: char) -> nat {
    if c <= '\u{7f}' {
        1
    } else if c <= '\u{7ff}' {
        2
    } else if c <= '\u{ffff}' {
        3
    } else {
        4
    }
}

/// How many bytes UTF-8 spends on `s`.
pub open spec fn utf8_len(s: Seq<char>) -> nat
    decreases s.len(),
{
    if s.len() == 0 {
        0
    } else {
        utf8_len(s.drop_last()) + char_width(s.last())
    }
}

/// The size of a text is the sum of the sizes of its two parts.
pub proof fn utf8_len_concat(a: Seq<char>, b: Seq<char>)
    ensures
        utf8_len(a + b) == utf8_len(a) + utf8_len(b),
    decreases b.len(),
{
    if b.len() == 0 {
        assert(a + b =~= a);
    } else {
        utf8_len_concat(a, b.drop_last());
        assert((a + b).drop_last() =~= a + b.drop_last());
    }
}

/// On ASCII text the two lengths agree.
pub proof fn utf8_len_ascii(s: Seq<char>)
    requires
        is_ascii_chars(s),
    ensures
        utf8_len(s) == s.len(),
    decreases s.len(),
{
    if s.len() > 0 {
        assert(s.last() == s[s.len() - 1]);
        assert forall|i: int| 0 <= i < s.drop_last().len() implies '\0'
            <= #[trigger] s.drop_last()[i] <= '\u{7f}' by {
            assert(s.drop_last()[i] == s[i]);
        }
        utf8_len_ascii(s.drop_last());
    }
}

/// `utf8_len` counts the bytes of the encoded text.
pub proof fn utf8_len_is_encoded_len(s: Seq<char>)
    ensures
        utf8_len(s) == encode_utf8(s).len(),
    decreases s.len(),
{
    if s.len() > 0 {
        let first = seq![s[0]];
        utf8_len_is_encoded_len(s.drop_first());
        utf8_len_concat(first, s.drop_first());
        assert(first + s.drop_first() =~= s);
        assert(first.drop_last() =~= Seq::<char>::empty());
        assert(utf8_len(first) == char_width(s[0])) by {
            reveal_with_fuel(utf8_len, 2);
        }
        char_is_scalar(s[0]);
        char_u32_cast(s[0], s[0] as u32);
        assert(s.first() == s[0]);
    }
}

/// How many bytes UTF-8 spends on `c`.
pub fn width_of(c: char) -> (r: usize)
    ensures
        r == char_width(c),
{
    if c <= '\u{7f}' {
        1
    } else if c <= '\u{7ff}' {
        2
    } else if c <= '\u{ffff}' {
        3
    } else {
        4
    }
}

/// The size of `s` in bytes.
pub fn byte_len(s: &str) -> (r: usize)
    ensures
        r == utf8_len(s@),
{
    proof {
        utf8_len_is_encoded_len(s@);
    }
    s.as_bytes().len()
}

/// The longest prefix of `s` that takes at most `max` bytes.
pub open spec fn truncated(s: Seq<char>, max: nat) -> Seq<char>
    decreases s.len(),
{
    if s.len() == 0 || utf8_len(s) <= max {
        s
    } else {
        truncated(s.drop_last(), max)
    }
}

/// A truncated text is a prefix, fits, and misses a next character that would
/// not fit.
pub proof fn truncated_is_longest_prefix(s: Seq<char>, max: nat)
    ensures
        truncated(s, max).len() <= s.len(),
        truncated(s, max) == s.take(truncated(s, max).len() as int),
        utf8_len(truncated(s, max)) <= max,
        forall|k: int|
            truncated(s, max).len() < k <= s.len() ==> utf8_len(#[trigger] s.take(k)) > max,
    decreases s.len(),
{
    assert(s.take(s.len() as int) =~= s);
    if s.len() == 0 || utf8_len(s) <= max {
    } else {
        truncated_is_longest_prefix(s.drop_last(), max);
        let t = truncated(s, max);
        assert(s.drop_last().take(t.len() as int) =~= s.take(t.len() as int));
        assert forall|k: int| t.len() < k <= s.len() implies utf8_len(#[trigger] s.take(k))
            > max by {
            if k < s.len() {
                assert(s.drop_last().take(k) =~= s.take(k));
            }
        }
    }
}

/// A prefix that fits with the next one not fitting is the truncated text.
proof fn truncated_from_prefix(s: Seq<char>, max: nat, k: int)
    requires
        0 <= k <= s.len(),
        utf8_len(s.take(k)) <= max,
        k < s.len() ==> utf8_len(s.take(k + 1)) > max,
    ensures
        truncated(s, max) == s.take(k),
    decreases s.len(),
{
    if k == s.len() {
        assert(s.take(k) =~= s);
    } else {
        utf8_len_concat(s.take(k + 1), s.skip(k + 1));
        assert(s.take(k + 1) + s.skip(k + 1) =~= s);
        assert(s.drop_last().take(k) =~= s.take(k));
        if k < s.len() - 1 {
            assert(s.drop_last().take(k + 1) =~= s.take(k + 1));
        }
        truncated_from_prefix(s.drop_last(), max, k);
    }
}

/// The longest prefix of `s` that takes at most `max_bytes` bytes.
pub fn truncate(s: &str, max_bytes: usize) -> (r: String)
    ensures
        r@ == truncated(s@, max_bytes as nat),
{
    let chars = chars_of(s);
    let mut k: usize = 0;
    let mut size: usize = 0;
    while k < chars.len() && width_of(chars[k]) <= max_bytes - size
        invariant
            k <= chars@.len(),
            size <= max_bytes,
            size == utf8_len(chars@.take(k as int)),
        decreases chars.len() - k,
    {
        assert(chars@.take(k + 1).drop_last() =~= chars@.take(k as int));
        size += width_of(chars[k]);
        k += 1;
    }
    proof {
        if k < chars@.len() {
            assert(chars@.take(k + 1).drop_last() =~= chars@.take(k as int));
        }
        truncated_from_prefix(chars@, max_bytes as nat, k as int);
    }
    assert(chars@.subrange(0, k as int) =~= chars@.take(k as int));
    text_of(&chars, 0, k)
}

} // verus!
