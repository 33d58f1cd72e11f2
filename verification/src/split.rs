//! Finding a text in another one, and splitting a text into lines and words.

use vstd::prelude::*;

use crate::text::{chars_of, chars_start_with, has_prefix, is_white_space, text_of, trim_start, white_space};

verus! {

/// `needle` stands somewhere in `s`.
pub open spec fn has_part(s: Seq<char>, needle: Seq<char>) -> bool {
    exists|i: int| 0 <= i <= s.len() && #[trigger] has_prefix(s.skip(i), needle)
}

/// Tells whether `needle` stands somewhere in `s`.
pub fn contains(s: &str, needle: &str) -> (r: bool)
    ensures
        r == has_part(s@, needle@),
{
    let a = chars_of(s);
    let b = chars_of(needle);
    let mut i: usize = 0;
    loop
        invariant
            i <= a@.len(),
            forall|k: int| 0 <= k < i ==> !#[trigger] has_prefix(a@.skip(k), b@),
            a@ == s@,
            b@ == needle@,
        decreases a.len() - i,
    {
        if chars_start_with(&a, i, &b) {
            return true;
        }
        if i == a.len() {
            return false;
        }
        i += 1;
    }
}

/// The position of the first `c` in `s`, or the length of `s` where there is
/// none.
pub open spec fn find_char(s: Seq<char>, c: char) -> nat
    decreases s.len(),
{
    if s.len() == 0 || s[0] == c {
        0
    } else {
        1 + find_char(s.skip(1), c)
    }
}

/// Where `find_char` ends: no `c` stands before, and one stands there unless
/// that is the end.
pub proof fn find_char_stops(s: Seq<char>, c: char)
    ensures
        find_char(s, c) <= s.len(),
        forall|k: int| 0 <= k < find_char(s, c) ==> s[k] != c,
        find_char(s, c) < s.len() ==> s[find_char(s, c) as int] == c,
    decreases s.len(),
{
    if s.len() > 0 && s[0] != c {
        find_char_stops(s.skip(1), c);
        assert forall|k: int| 0 <= k < find_char(s, c) implies s[k] != c by {
            if k > 0 {
                assert(s.skip(1)[k - 1] == s[k]);
            }
        }
    }
}

proof fn find_char_from(s: Seq<char>, c: char, k: int)
    requires
        0 <= k <= s.len(),
        forall|j: int| 0 <= j < k ==> s[j] != c,
        k < s.len() ==> s[k] == c,
    ensures
        find_char(s, c) == k,
{
    find_char_stops(s, c);
    let f = find_char(s, c) as int;
    if f < k {
        assert(s[f] == c);
    }
}

/// The position of the first `c` in `chars` from `from` on, or its length.
pub fn position(chars: &Vec<char>, from: usize, c: char) -> (r: usize)
    requires
        from <= chars@.len(),
    ensures
        r == from + find_char(chars@.skip(from as int), c),
        from <= r <= chars@.len(),
{
    let mut i: usize = from;
    while i < chars.len() && chars[i] != c
        invariant
            from <= i <= chars@.len(),
            forall|j: int| from <= j < i ==> chars@[j] != c,
        decreases chars.len() - i,
    {
        i += 1;
    }
    proof {
        find_char_from(chars@.skip(from as int), c, i - from);
    }
    i
}

/// `line` without a carriage return at its end.
pub open spec fn without_carriage_return(line: Seq<char>) -> Seq<char> {
    if line.len() > 0 && line.last() == '\r' {
        line.drop_last()
    } else {
        line
    }
}

/// The lines of `s`. A line ends in a newline, with a carriage return before
/// it or not; the newline of the last line is optional.
pub open spec fn lines_of(s: Seq<char>) -> Seq<Seq<char>>
    decreases s.len(),
{
    let end = find_char(s, '\n');
    if s.len() == 0 {
        Seq::empty()
    } else if end >= s.len() {
        seq![s]
    } else {
        seq![without_carriage_return(s.take(end as int))] + lines_of(s.skip(end as int + 1))
    }
}

/// The characters that the texts of a list hold.
pub open spec fn texts(list: Seq<String>) -> Seq<Seq<char>> {
    list.map_values(|s: String| s@)
}

/// The lines of `s`.
pub fn lines(s: &str) -> (r: Vec<String>)
    ensures
        texts(r@) == lines_of(s@),
{
    let chars = chars_of(s);
    let mut out: Vec<String> = Vec::new();
    let mut from: usize = 0;
    assert(chars@.skip(0) =~= chars@);
    while from < chars.len()
        invariant
            from <= chars@.len(),
            lines_of(chars@) =~= texts(out@) + lines_of(chars@.skip(from as int)),
        decreases chars.len() - from,
    {
        let end = position(&chars, from, '\n');
        let ghost rest = chars@.skip(from as int);
        if end == chars.len() {
            let line = text_of(&chars, from, end);
            assert(line@ =~= rest);
            assert(chars@.skip(end as int) =~= Seq::<char>::empty());
            assert(texts(out@.push(line)) =~= texts(out@).push(line@));
            out.push(line);
            from = end;
        } else {
            assert(rest.take(end - from) =~= chars@.subrange(from as int, end as int));
            let stop: usize = if end > from && chars[end - 1] == '\r' {
                end - 1
            } else {
                end
            };
            let line = text_of(&chars, from, stop);
            assert(line@ =~= without_carriage_return(rest.take(end - from)));
            assert(rest.skip(end - from + 1) =~= chars@.skip(end + 1));
            assert(texts(out@.push(line)) =~= texts(out@).push(line@));
            out.push(line);
            from = end + 1;
        }
    }
    assert(chars@.skip(from as int) =~= Seq::<char>::empty());
    out
}

/// How many characters without white space `s` starts with.
pub open spec fn word_len(s: Seq<char>) -> nat
    decreases s.len(),
{
    if s.len() == 0 || is_white_space(s[0]) {
        0
    } else {
        1 + word_len(s.skip(1))
    }
}

/// The words of `s`: the longest runs without white space.
pub open spec fn words_of(s: Seq<char>) -> Seq<Seq<char>>
    decreases s.len(),
    via words_of_shrinks
{
    let t = trim_start(s);
    if t.len() == 0 {
        Seq::empty()
    } else {
        seq![t.take(word_len(t) as int)] + words_of(t.skip(word_len(t) as int))
    }
}

#[via_fn]
proof fn words_of_shrinks(s: Seq<char>) {
    trim_start_shrinks(s);
    let t = trim_start(s);
    if t.len() > 0 {
        word_len_bounds(t);
    }
}

proof fn trim_start_shrinks(s: Seq<char>)
    ensures
        trim_start(s).len() <= s.len(),
        trim_start(s).len() > 0 ==> !is_white_space(trim_start(s)[0]),
    decreases s.len(),
{
    if s.len() > 0 && is_white_space(s[0]) {
        trim_start_shrinks(s.skip(1));
    }
}

proof fn word_len_bounds(s: Seq<char>)
    ensures
        word_len(s) <= s.len(),
    decreases s.len(),
{
    if s.len() > 0 && !is_white_space(s[0]) {
        word_len_bounds(s.skip(1));
    }
}

/// The words of `s`.
pub fn words(s: &str) -> (r: Vec<String>)
    ensures
        texts(r@) == words_of(s@),
{
    let chars = chars_of(s);
    let mut out: Vec<String> = Vec::new();
    let mut from: usize = 0;
    assert(chars@.skip(0) =~= chars@);
    loop
        invariant
            from <= chars@.len(),
            words_of(chars@) =~= texts(out@) + words_of(chars@.skip(from as int)),
            chars@ == s@,
        decreases chars.len() - from,
    {
        let ghost rest = chars@.skip(from as int);
        let mut start: usize = from;
        while start < chars.len() && white_space(chars[start])
            invariant
                from <= start <= chars@.len(),
                trim_start(rest) == trim_start(chars@.skip(start as int)),
            decreases chars.len() - start,
        {
            assert(chars@.skip(start as int).skip(1) =~= chars@.skip(start + 1));
            start += 1;
        }
        let ghost t = chars@.skip(start as int);
        assert(trim_start(rest) == t);
        if start == chars.len() {
            assert(texts(out@) + Seq::<Seq<char>>::empty() =~= texts(out@));
            return out;
        }
        let mut end: usize = start;
        while end < chars.len() && !white_space(chars[end])
            invariant
                start <= end <= chars@.len(),
                word_len(t) == end - start + word_len(chars@.skip(end as int)),
                t == chars@.skip(start as int),
            decreases chars.len() - end,
        {
            assert(chars@.skip(end as int).skip(1) =~= chars@.skip(end + 1));
            end += 1;
        }
        let word = text_of(&chars, start, end);
        assert(word@ =~= t.take(word_len(t) as int));
        assert(t.skip(word_len(t) as int) =~= chars@.skip(end as int));
        assert(texts(out@.push(word)) =~= texts(out@).push(word@));
        out.push(word);
        assert(end > start);
        from = end;
    }
}

} // verus!
