//! Texts and numbers: what it means to stand in a text, to be a line, a word
//! or a number of it.

use vstd::prelude::*;
use vstd::utf8::is_ascii_chars;

use crate::decimal::{decimal, decimal_round_trip, parsed_unsigned};
use crate::split::{find_char, find_char_stops, has_part, lines_of, word_len, words_of};
use crate::text::{has_prefix, has_suffix, is_white_space, lowercase, trim_start};

verus! {

// ---------------------------------------------------------------------------
// Parts
// ---------------------------------------------------------------------------

/// A text stands in another exactly where the other is that text with something
/// before and behind it.
pub proof fn part_stands_between(
    s: Seq<char>,
    before: Seq<char>,
    part: Seq<char>,
    behind: Seq<char>,
)
    ensures
        has_part(before + part + behind, part),
        has_part(s, part) ==> exists|a: Seq<char>, b: Seq<char>| s == #[trigger] (a + part + b),
{
    let whole = before + part + behind;
    assert(whole.skip(before.len() as int).take(part.len() as int) =~= part);
    assert(has_prefix(whole.skip(before.len() as int), part));
    if has_part(s, part) {
        let i = choose|i: int| 0 <= i <= s.len() && #[trigger] has_prefix(s.skip(i), part);
        let a = s.take(i);
        let b = s.skip(i + part.len());
        assert(s.skip(i).take(part.len() as int) =~= part);
        assert(s =~= a + part + b);
    }
}

/// A text begins and ends with what was put before and behind it.
pub proof fn ends_of_a_text(s: Seq<char>, part: Seq<char>)
    ensures
        has_prefix(part + s, part),
        has_suffix(s + part, part),
        has_prefix(s, part) ==> s == part + s.skip(part.len() as int),
        has_suffix(s, part) ==> s == s.take(s.len() - part.len()) + part,
{
    assert((part + s).take(part.len() as int) =~= part);
    assert((s + part).skip(s.len() as int) =~= part);
    if has_prefix(s, part) {
        assert(s =~= part + s.skip(part.len() as int));
    }
    if has_suffix(s, part) {
        assert(s =~= s.take(s.len() - part.len()) + part);
    }
}

/// Blanks, tabs and line ends are white space; letters, digits and signs of
/// ASCII are not.
pub proof fn ascii_white_space(c: char)
    requires
        c <= '\u{7f}',
    ensures
        is_white_space(c) <==> c == ' ' || c == '\t' || c == '\n' || c == '\r' || c == '\u{b}' || c
            == '\u{c}',
{
}

/// In lower case, the capital letters of an ASCII text are replaced by the
/// small ones, and everything else stays.
pub proof fn lower_case_of_ascii(s: Seq<char>, i: int)
    requires
        is_ascii_chars(s),
        0 <= i < s.len(),
    ensures
        lowercase(s).len() == s.len(),
        'A' <= s[i] <= 'Z' ==> lowercase(s)[i] as int == s[i] as int + ('a' as int - 'A' as int),
        !('A' <= s[i] <= 'Z') ==> lowercase(s)[i] == s[i],
{
}

// ---------------------------------------------------------------------------
// Lines and words
// ---------------------------------------------------------------------------

proof fn first_is_found(s: Seq<char>, c: char, k: int)
    requires
        0 <= k <= s.len(),
        forall|j: int| 0 <= j < k ==> s[j] != c,
        k < s.len() ==> s[k] == c,
    ensures
        find_char(s, c) == k,
{
    find_char_stops(s, c);
    let f = find_char(s, c) as int;
    if f < k {
        assert(s[f] == c);
    }
}

/// A line ends at its line feed, with or without a carriage return before it,
/// and the rest of the lines follow. The last line needs no line feed, and an
/// empty text has no line.
pub proof fn lines_end_at_line_feeds(line: Seq<char>, rest: Seq<char>)
    requires
        forall|i: int| 0 <= i < line.len() ==> line[i] != '\n',
        line.len() > 0 ==> line.last() != '\r',
    ensures
        lines_of(line + seq!['\n'] + rest) == seq![line] + lines_of(rest),
        lines_of(line + seq!['\r', '\n'] + rest) == seq![line] + lines_of(rest),
        line.len() > 0 ==> lines_of(line) == seq![line],
        lines_of(Seq::empty()).len() == 0,
{
    let n = line.len() as int;
    let a = line + seq!['\n'] + rest;
    first_is_found(a, '\n', n);
    assert(a.take(n) =~= line);
    assert(a.skip(n + 1) =~= rest);
    let b = line + seq!['\r', '\n'] + rest;
    assert forall|j: int| 0 <= j < n + 1 implies b[j] != '\n' by {
        if j < n {
            assert(b[j] == line[j]);
        }
    }
    first_is_found(b, '\n', n + 1);
    assert(b.take(n + 1).last() == '\r');
    assert(b.take(n + 1).drop_last() =~= line);
    assert(b.skip(n + 2) =~= rest);
    if n > 0 {
        first_is_found(line, '\n', n);
    }
}

proof fn word_ends(word: Seq<char>, rest: Seq<char>)
    requires
        forall|i: int| 0 <= i < word.len() ==> !is_white_space(#[trigger] word[i]),
        rest.len() > 0 ==> is_white_space(rest[0]),
    ensures
        word_len(word + rest) == word.len(),
    decreases word.len(),
{
    if word.len() == 0 {
        assert(word + rest =~= rest);
    } else {
        assert((word + rest)[0] == word[0]);
        assert((word + rest).skip(1) =~= word.skip(1) + rest);
        word_ends(word.skip(1), rest);
    }
}

proof fn blanks_are_skipped(blank: Seq<char>, s: Seq<char>)
    requires
        forall|i: int| 0 <= i < blank.len() ==> is_white_space(#[trigger] blank[i]),
        s.len() > 0 ==> !is_white_space(s[0]),
    ensures
        trim_start(blank + s) == s,
    decreases blank.len(),
{
    if blank.len() == 0 {
        assert(blank + s =~= s);
    } else {
        assert((blank + s)[0] == blank[0]);
        assert((blank + s).skip(1) =~= blank.skip(1) + s);
        blanks_are_skipped(blank.skip(1), s);
    }
}

/// The first word is what stands between the white space around it, and the
/// words of the rest follow. White space alone holds no word.
pub proof fn words_stand_between_white_space(blank: Seq<char>, word: Seq<char>, rest: Seq<char>)
    requires
        forall|i: int| 0 <= i < blank.len() ==> is_white_space(#[trigger] blank[i]),
        forall|i: int| 0 <= i < word.len() ==> !is_white_space(#[trigger] word[i]),
        word.len() > 0,
        rest.len() > 0 ==> is_white_space(rest[0]),
    ensures
        words_of(blank + word + rest) == seq![word] + words_of(rest),
        words_of(blank).len() == 0,
{
    let t = word + rest;
    assert(t[0] == word[0]);
    assert(blank + word + rest =~= blank + t);
    blanks_are_skipped(blank, t);
    word_ends(word, rest);
    assert(t.take(word.len() as int) =~= word);
    assert(t.skip(word.len() as int) =~= rest);
    blanks_are_skipped(blank, Seq::empty());
    assert(blank + Seq::<char>::empty() =~= blank);
}

// ---------------------------------------------------------------------------
// Numbers
// ---------------------------------------------------------------------------

/// Numbers are written in base ten: a number below ten is its digit, and ten
/// times a number and a digit more is that number with the digit behind it.
pub proof fn numbers_are_decimal(n: nat, d: nat)
    requires
        d < 10,
    ensures
        decimal(d).len() == 1,
        decimal(d)[0] as int == '0' as int + d,
        n > 0 ==> decimal(10 * n + d) == decimal(n) + decimal(d),
{
    if n > 0 {
        let m = 10 * n + d;
        assert(m / 10 == n && m % 10 == d);
        assert(decimal(m) =~= decimal(n) + decimal(d));
    }
}

/// A number that is written is read again, with a plus sign before it or not,
/// unless it is too large. What is no run of digits is no number.
pub proof fn numbers_are_read(n: nat, max: nat, s: Seq<char>)
    ensures
        n <= max ==> parsed_unsigned(decimal(n), max) == Some(n),
        n <= max ==> parsed_unsigned(seq!['+'] + decimal(n), max) == Some(n),
        n > max ==> parsed_unsigned(decimal(n), max) is None,
        parsed_unsigned(Seq::empty(), max) is None,
        (exists|i: int| 0 < i < s.len() && !('0' <= #[trigger] s[i] <= '9')) ==> parsed_unsigned(
            s,
            max,
        ) is None,
{
    decimal_round_trip(n);
    let plain = decimal(n);
    assert('0' <= plain[0] <= '9');
    let signed = seq!['+'] + plain;
    assert(signed.skip(1) =~= plain);
    if exists|i: int| 0 < i < s.len() && !('0' <= #[trigger] s[i] <= '9') {
        let i = choose|i: int| 0 < i < s.len() && !('0' <= #[trigger] s[i] <= '9');
        assert(s.skip(1)[i - 1] == s[i]);
    }
}

} // verus!
