//! Repair of tool arguments that are JSON but for single-quoted strings.
//!
//! Some providers send `function.arguments` with single-quoted strings:
//!
//! ```text
//! {'path': '/tmp/file', 'contents': 'He said "hi"'}
//! ```
//!
//! [`fix_json`] turns such strings into double-quoted ones and keeps all the
//! rest. It repairs nothing else: no trailing commas, comments or bare keys.

use vstd::prelude::*;

use crate::json::{parse, parsed_json, Json, Tree};
use crate::text::{chars_of, hex_digit, is_hex_digit};

verus! {

/// What becomes of `s`, which starts outside any string.
pub open spec fn fixed(s: Seq<char>) -> Seq<char>
    decreases s.len(),
{
    if s.len() == 0 {
        s
    } else if s[0] == '"' {
        seq!['"'] + fixed_in_double(s.skip(1))
    } else if s[0] == '\'' {
        seq!['"'] + fixed_in_single(s.skip(1))
    } else {
        seq![s[0]] + fixed(s.skip(1))
    }
}

/// What becomes of `s`, which starts inside a double-quoted string: the string
/// is kept as it is.
pub open spec fn fixed_in_double(s: Seq<char>) -> Seq<char>
    decreases s.len(),
{
    if s.len() == 0 {
        s
    } else if s[0] == '"' {
        seq!['"'] + fixed(s.skip(1))
    } else if s[0] == '\\' {
        seq!['\\'] + fixed_after_double_backslash(s.skip(1))
    } else {
        seq![s[0]] + fixed_in_double(s.skip(1))
    }
}

/// What becomes of `s`, which starts behind a backslash in a double-quoted
/// string.
pub open spec fn fixed_after_double_backslash(s: Seq<char>) -> Seq<char>
    decreases s.len(),
{
    if s.len() == 0 {
        s
    } else {
        seq![s[0]] + fixed_in_double(s.skip(1))
    }
}

/// What becomes of `s`, which starts inside a single-quoted string: the string
/// is closed by a double quote, also where the text ends before it does, and a
/// double quote in it gets a backslash.
pub open spec fn fixed_in_single(s: Seq<char>) -> Seq<char>
    decreases s.len(),
{
    if s.len() == 0 {
        seq!['"']
    } else if s[0] == '\\' {
        fixed_after_single_backslash(s.skip(1))
    } else if s[0] == '\'' {
        seq!['"'] + fixed(s.skip(1))
    } else if s[0] == '"' {
        seq!['\\', '"'] + fixed_in_single(s.skip(1))
    } else {
        seq![s[0]] + fixed_in_single(s.skip(1))
    }
}

/// What becomes of `s`, which starts behind a backslash in a single-quoted
/// string: an escaped single quote loses its backslash, `\u` is kept with the
/// hexadecimal digits behind it (four at most), and any other escape is kept.
pub open spec fn fixed_after_single_backslash(s: Seq<char>) -> Seq<char>
    decreases s.len(),
{
    if s.len() == 0 {
        seq!['"']
    } else if s[0] == '\'' {
        seq!['\''] + fixed_in_single(s.skip(1))
    } else if s[0] == 'u' {
        let n = hex_run(s.skip(1), 4);
        proof {
            hex_run_bounds(s.skip(1), 4);
        }
        seq!['\\', 'u'] + s.subrange(1, n as int + 1) + fixed_in_single(s.skip(n as int + 1))
    } else {
        seq!['\\', s[0]] + fixed_in_single(s.skip(1))
    }
}

/// How many hexadecimal digits `s` starts with, `max` at most.
pub open spec fn hex_run(s: Seq<char>, max: nat) -> nat
    decreases max,
{
    if max == 0 || s.len() == 0 || !is_hex_digit(s[0]) {
        0
    } else {
        1 + hex_run(s.skip(1), (max - 1) as nat)
    }
}

/// A run is no longer than the text.
pub proof fn hex_run_bounds(s: Seq<char>, max: nat)
    ensures
        hex_run(s, max) <= s.len(),
        hex_run(s, max) <= max,
        forall|i: int| 0 <= i < hex_run(s, max) ==> is_hex_digit(#[trigger] s[i]),
    decreases max,
{
    if max > 0 && s.len() > 0 && is_hex_digit(s[0]) {
        hex_run_bounds(s.skip(1), (max - 1) as nat);
        assert forall|i: int| 0 <= i < hex_run(s, max) implies is_hex_digit(#[trigger] s[i]) by {
            if i > 0 {
                assert(s.skip(1)[i - 1] == s[i]);
            }
        }
    }
}

/// What becomes of `s` in the middle of the scan.
spec fn fixed_from(in_double: bool, in_single: bool, escaped: bool, s: Seq<char>) -> Seq<char> {
    if in_double {
        if escaped {
            fixed_after_double_backslash(s)
        } else {
            fixed_in_double(s)
        }
    } else if in_single {
        if escaped {
            fixed_after_single_backslash(s)
        } else {
            fixed_in_single(s)
        }
    } else {
        fixed(s)
    }
}

/// Turns single-quoted strings into double-quoted ones.
pub fn fix_json(input: &str) -> (r: String)
    ensures
        r@ == fixed(input@),
{
    let mut out = String::new();
    let mut in_double = false;
    let mut in_single = false;
    let mut escaped = false;
    let chars = chars_of(input);
    let n = chars.len();
    let mut i: usize = 0;
    assert(chars@.skip(0) =~= chars@);
    assert(out@ + fixed(chars@) =~= fixed(chars@));
    while i < n
        invariant
            n == chars@.len(),
            i <= n,
            !(in_double && in_single),
            escaped ==> in_double || in_single,
            fixed(chars@) == out@ + fixed_from(in_double, in_single, escaped, chars@.skip(i as int)),
        decreases n - i,
    {
        let c = chars[i];
        let ghost before = out@;
        let ghost rest = chars@.skip(i as int);
        let ghost tail = chars@.skip(i + 1);
        assert(rest.skip(1) =~= tail);
        if in_double {
            out.push(c);
            if escaped {
                escaped = false;
            } else if c == '\\' {
                escaped = true;
            } else if c == '"' {
                in_double = false;
            }
            assert(out@ =~= before + seq![c]);
            i += 1;
        } else if in_single {
            if escaped {
                escaped = false;
                if c == '\'' {
                    out.push('\'');
                    assert(out@ =~= before + seq![c]);
                    i += 1;
                } else if c == 'u' {
                    out.push('\\');
                    out.push('u');
                    let ghost k = hex_run(tail, 4);
                    let mut consumed: usize = 0;
                    i += 1;
                    assert(out@ =~= before + seq!['\\', 'u'] + rest.subrange(1, 1));
                    while consumed < 4 && i < n && hex_digit(chars[i])
                        invariant
                            n == chars@.len(),
                            i <= n,
                            consumed <= 4,
                            consumed + 1 <= i,
                            rest == chars@.skip(i - consumed - 1),
                            k == consumed + hex_run(chars@.skip(i as int), (4 - consumed) as nat),
                            out@ == before + seq!['\\', 'u'] + rest.subrange(1, consumed + 1),
                        decreases 4 - consumed,
                    {
                        assert(chars@.skip(i as int).skip(1) =~= chars@.skip(i + 1));
                        assert(rest[consumed + 1] == chars@[i as int]);
                        assert(rest.subrange(1, consumed + 2) =~= rest.subrange(1, consumed + 1).push(
                            chars@[i as int],
                        ));
                        out.push(chars[i]);
                        assert(out@ =~= before + seq!['\\', 'u'] + rest.subrange(1, consumed + 2));
                        i += 1;
                        consumed += 1;
                    }
                    assert(k == consumed);
                    assert(rest.skip(k as int + 1) =~= chars@.skip(i as int));
                    assert(out@ + fixed_in_single(chars@.skip(i as int)) =~= before + (seq![
                        '\\',
                        'u',
                    ] + rest.subrange(1, k as int + 1) + fixed_in_single(
                        rest.skip(k as int + 1),
                    )));
                } else {
                    out.push('\\');
                    out.push(c);
                    assert(out@ =~= before + seq!['\\', c]);
                    i += 1;
                }
            } else if c == '\\' {
                escaped = true;
                i += 1;
            } else if c == '\'' {
                out.push('"');
                assert(out@ =~= before + seq!['"']);
                in_single = false;
                i += 1;
            } else if c == '"' {
                out.push('\\');
                out.push('"');
                assert(out@ =~= before + seq!['\\', '"']);
                i += 1;
            } else {
                out.push(c);
                assert(out@ =~= before + seq![c]);
                i += 1;
            }
        } else {
            if c == '"' {
                in_double = true;
                out.push(c);
                assert(out@ =~= before + seq!['"']);
            } else if c == '\'' {
                in_single = true;
                out.push('"');
                assert(out@ =~= before + seq!['"']);
            } else {
                out.push(c);
                assert(out@ =~= before + seq![c]);
            }
            i += 1;
        }
        proof {
            let tail_fixed = fixed_from(in_double, in_single, escaped, chars@.skip(i as int));
            let gained = out@.skip(before.len() as int);
            assert(out@ =~= before + gained);
            assert(out@ + tail_fixed =~= before + (gained + tail_fixed));
            assert(gained =~= seq![] || gained =~= seq![c] || gained =~= seq!['"'] || gained =~= seq![
                '\\',
                c,
            ] || c == 'u');
        }
    }
    assert(chars@.skip(i as int) =~= Seq::<char>::empty());
    if in_single {
        assert(out@.push('"') =~= out@ + seq!['"']);
        out.push('"');
    } else {
        assert(out@ + Seq::<char>::empty() =~= out@);
    }
    out
}

/// The value of almost-JSON: what the text itself stands for, or else what its
/// repaired form does.
pub open spec fn leniently_parsed(s: Seq<char>) -> Option<Tree> {
    match parsed_json(s) {
        Some(tree) => Some(tree),
        None => parsed_json(fixed(s)),
    }
}

/// Reads JSON, strictly first and then with its strings repaired.
pub fn parse_lenient(input: &str) -> (r: Result<Json, serde_json::Error>)
    ensures
        match r {
            Ok(json) => leniently_parsed(input@) == Some(json@),
            Err(_) => leniently_parsed(input@) is None,
        },
{
    match parse(input) {
        Ok(json) => Ok(json),
        Err(_) => parse(fix_json(input).as_str()),
    }
}

// ---------------------------------------------------------------------------
// Laws
// ---------------------------------------------------------------------------

/// A single quote stands in `s` outside every double-quoted string.
pub open spec fn has_stray_quote(s: Seq<char>) -> bool
    decreases s.len(),
{
    if s.len() == 0 {
        false
    } else if s[0] == '"' {
        has_stray_quote_behind_string(s.skip(1))
    } else {
        s[0] == '\'' || has_stray_quote(s.skip(1))
    }
}

/// The same for an `s` that starts inside a double-quoted string.
pub open spec fn has_stray_quote_behind_string(s: Seq<char>) -> bool
    decreases s.len(),
{
    if s.len() == 0 {
        false
    } else if s[0] == '"' {
        has_stray_quote(s.skip(1))
    } else if s[0] == '\\' {
        s.len() > 1 && has_stray_quote_behind_string(s.skip(2))
    } else {
        has_stray_quote_behind_string(s.skip(1))
    }
}

proof fn prepending_keeps_difference(c: char, a: Seq<char>, b: Seq<char>)
    ensures
        (seq![c] + a == seq![c] + b) == (a == b),
{
    assert((seq![c] + a).skip(1) =~= a);
    assert((seq![c] + b).skip(1) =~= b);
}

/// A text is left as it is exactly where no single quote stands outside its
/// double-quoted strings; so JSON text is never changed.
pub proof fn unchanged_without_stray_quotes(s: Seq<char>)
    ensures
        (fixed(s) == s) == !has_stray_quote(s),
    decreases s.len(),
{
    if s.len() > 0 {
        assert(s =~= seq![s[0]] + s.skip(1));
        if s[0] == '"' {
            string_unchanged_without_stray_quotes(s.skip(1));
            prepending_keeps_difference('"', fixed_in_double(s.skip(1)), s.skip(1));
        } else if s[0] == '\'' {
            assert(fixed(s)[0] == '"');
        } else {
            unchanged_without_stray_quotes(s.skip(1));
            prepending_keeps_difference(s[0], fixed(s.skip(1)), s.skip(1));
        }
    }
}

proof fn string_unchanged_without_stray_quotes(s: Seq<char>)
    ensures
        (fixed_in_double(s) == s) == !has_stray_quote_behind_string(s),
    decreases s.len(),
{
    if s.len() > 0 {
        let t = s.skip(1);
        assert(s =~= seq![s[0]] + t);
        if s[0] == '"' {
            unchanged_without_stray_quotes(t);
            prepending_keeps_difference('"', fixed(t), t);
        } else if s[0] == '\\' {
            prepending_keeps_difference('\\', fixed_after_double_backslash(t), t);
            if t.len() > 0 {
                assert(t =~= seq![t[0]] + t.skip(1));
                assert(t.skip(1) =~= s.skip(2));
                string_unchanged_without_stray_quotes(s.skip(2));
                prepending_keeps_difference(t[0], fixed_in_double(t.skip(1)), t.skip(1));
            }
        } else {
            string_unchanged_without_stray_quotes(t);
            prepending_keeps_difference(s[0], fixed_in_double(t), t);
        }
    }
}

/// What was repaired once needs no second repair.
pub proof fn repair_is_idempotent(s: Seq<char>)
    ensures
        fixed(fixed(s)) == fixed(s),
    decreases s.len(),
{
    if s.len() > 0 {
        let t = s.skip(1);
        let f = fixed(s);
        if s[0] == '"' {
            assert(f.skip(1) =~= fixed_in_double(t));
            double_repair_is_idempotent(t);
        } else if s[0] == '\'' {
            assert(f.skip(1) =~= fixed_in_single(t));
            converted_string_is_kept(t);
        } else {
            assert(f.skip(1) =~= fixed(t));
            repair_is_idempotent(t);
        }
    }
}

proof fn double_repair_is_idempotent(s: Seq<char>)
    ensures
        fixed_in_double(fixed_in_double(s)) == fixed_in_double(s),
    decreases s.len(),
{
    if s.len() > 0 {
        let t = s.skip(1);
        let f = fixed_in_double(s);
        if s[0] == '"' {
            assert(f.skip(1) =~= fixed(t));
            repair_is_idempotent(t);
        } else if s[0] == '\\' {
            let g = fixed_after_double_backslash(t);
            assert(f.skip(1) =~= g);
            if t.len() > 0 {
                assert(g.skip(1) =~= fixed_in_double(t.skip(1)));
                double_repair_is_idempotent(t.skip(1));
                assert(fixed_after_double_backslash(g) == g);
            }
        } else {
            assert(f.skip(1) =~= fixed_in_double(t));
            double_repair_is_idempotent(t);
        }
    }
}

proof fn converted_string_is_kept(s: Seq<char>)
    ensures
        fixed_in_double(fixed_in_single(s)) == fixed_in_single(s),
    decreases s.len(),
{
    let f = fixed_in_single(s);
    if s.len() == 0 {
        assert(f.skip(1) =~= Seq::<char>::empty());
        assert(fixed(f.skip(1)) =~= Seq::<char>::empty());
        assert(f =~= seq!['"'] + Seq::<char>::empty());
    } else {
        let t = s.skip(1);
        if s[0] == '\\' {
            converted_escape_is_kept(t);
        } else if s[0] == '\'' {
            assert(f.skip(1) =~= fixed(t));
            repair_is_idempotent(t);
        } else if s[0] == '"' {
            converted_string_is_kept(t);
            escape_pair_is_kept('"', fixed_in_single(t));
        } else {
            assert(f.skip(1) =~= fixed_in_single(t));
            converted_string_is_kept(t);
        }
    }
}

proof fn converted_escape_is_kept(s: Seq<char>)
    ensures
        fixed_in_double(fixed_after_single_backslash(s)) == fixed_after_single_backslash(s),
    decreases s.len(),
{
    let f = fixed_after_single_backslash(s);
    if s.len() == 0 {
        assert(f.skip(1) =~= Seq::<char>::empty());
        assert(fixed(f.skip(1)) =~= Seq::<char>::empty());
        assert(f =~= seq!['"'] + Seq::<char>::empty());
    } else {
        let t = s.skip(1);
        if s[0] == '\'' {
            assert(f.skip(1) =~= fixed_in_single(t));
            converted_string_is_kept(t);
        } else if s[0] == 'u' {
            let n = hex_run(t, 4);
            hex_run_bounds(t, 4);
            let digits = s.subrange(1, n as int + 1);
            let rest = fixed_in_single(s.skip(n as int + 1));
            converted_string_is_kept(s.skip(n as int + 1));
            assert forall|i: int| 0 <= i < digits.len() implies is_hex_digit(
                #[trigger] digits[i],
            ) by {
                assert(digits[i] == t[i]);
            }
            hex_digits_are_kept(digits, rest);
            assert(f =~= seq!['\\', 'u'] + (digits + rest));
            escape_pair_is_kept('u', digits + rest);
        } else {
            converted_string_is_kept(t);
            escape_pair_is_kept(s[0], fixed_in_single(t));
        }
    }
}

proof fn escape_pair_is_kept(c: char, rest: Seq<char>)
    ensures
        fixed_in_double(seq!['\\', c] + rest) == seq!['\\', c] + fixed_in_double(rest),
{
    let f = seq!['\\', c] + rest;
    assert(f.skip(1) =~= seq![c] + rest);
    assert(f.skip(1).skip(1) =~= rest);
    assert(fixed_after_double_backslash(f.skip(1)) == seq![c] + fixed_in_double(rest));
    assert(seq!['\\'] + (seq![c] + fixed_in_double(rest)) =~= seq!['\\', c] + fixed_in_double(
        rest,
    ));
}

proof fn hex_digits_are_kept(digits: Seq<char>, rest: Seq<char>)
    requires
        forall|i: int| 0 <= i < digits.len() ==> is_hex_digit(#[trigger] digits[i]),
    ensures
        fixed_in_double(digits + rest) == digits + fixed_in_double(rest),
    decreases digits.len(),
{
    if digits.len() == 0 {
        assert(digits + rest =~= rest);
        assert(digits + fixed_in_double(rest) =~= fixed_in_double(rest));
    } else {
        let d = digits.skip(1);
        assert forall|i: int| 0 <= i < d.len() implies is_hex_digit(#[trigger] d[i]) by {
            assert(d[i] == digits[i + 1]);
        }
        hex_digits_are_kept(d, rest);
        assert(is_hex_digit(digits[0]));
        assert((digits + rest).skip(1) =~= d + rest);
        assert(seq![digits[0]] + (d + fixed_in_double(rest)) =~= digits + fixed_in_double(rest));
    }
}

/// Where a scan of a text stands.
pub enum Scan {
    Outside,
    InDouble,
    AfterDoubleBackslash,
    InSingle,
    AfterSingleBackslash,
}

/// Where the scan stands after one more character.
pub open spec fn scanned_char(scan: Scan, c: char) -> Scan {
    match scan {
        Scan::Outside => if c == '"' {
            Scan::InDouble
        } else if c == '\'' {
            Scan::InSingle
        } else {
            Scan::Outside
        },
        Scan::InDouble => if c == '"' {
            Scan::Outside
        } else if c == '\\' {
            Scan::AfterDoubleBackslash
        } else {
            Scan::InDouble
        },
        Scan::AfterDoubleBackslash => Scan::InDouble,
        Scan::InSingle => if c == '\'' {
            Scan::Outside
        } else if c == '\\' {
            Scan::AfterSingleBackslash
        } else {
            Scan::InSingle
        },
        Scan::AfterSingleBackslash => Scan::InSingle,
    }
}

/// Where the scan stands behind `s`.
pub open spec fn scanned(scan: Scan, s: Seq<char>) -> Scan
    decreases s.len(),
{
    if s.len() == 0 {
        scan
    } else {
        scanned(scanned_char(scan, s[0]), s.skip(1))
    }
}

/// `s` leaves no string open.
pub open spec fn leaves_no_string_open(s: Seq<char>) -> bool {
    scanned(Scan::Outside, s) is Outside
}

/// What becomes of `s`, which starts where the scan stands.
spec fn fixed_at(scan: Scan, s: Seq<char>) -> Seq<char> {
    match scan {
        Scan::Outside => fixed(s),
        Scan::InDouble => fixed_in_double(s),
        Scan::AfterDoubleBackslash => fixed_after_double_backslash(s),
        Scan::InSingle => fixed_in_single(s),
        Scan::AfterSingleBackslash => fixed_after_single_backslash(s),
    }
}

/// Hexadecimal digits leave the scan inside a single-quoted string.
proof fn hex_digits_stay_in_single(s: Seq<char>, max: nat)
    ensures
        hex_run(s, max) <= s.len(),
        scanned(Scan::InSingle, s) == scanned(Scan::InSingle, s.skip(hex_run(s, max) as int)),
    decreases max,
{
    if max == 0 || s.len() == 0 || !is_hex_digit(s[0]) {
        assert(s.skip(0) =~= s);
    } else {
        let t = s.skip(1);
        hex_digits_stay_in_single(t, (max - 1) as nat);
        assert(t.skip(hex_run(t, (max - 1) as nat) as int) =~= s.skip(hex_run(s, max) as int));
    }
}

/// A run of hexadecimal digits that ends before the text does is not changed
/// by what follows.
proof fn hex_run_in_part(a: Seq<char>, b: Seq<char>, max: nat)
    requires
        hex_run(a, max) < a.len(),
    ensures
        hex_run(a + b, max) == hex_run(a, max),
    decreases max,
{
    assert((a + b)[0] == a[0]);
    if max > 0 && is_hex_digit(a[0]) {
        assert((a + b).skip(1) =~= a.skip(1) + b);
        hex_run_in_part(a.skip(1), b, (max - 1) as nat);
    }
}

proof fn parts_are_fixed_apart(scan: Scan, a: Seq<char>, b: Seq<char>)
    requires
        scanned(scan, a) is Outside,
    ensures
        fixed_at(scan, a + b) == fixed_at(scan, a) + fixed(b),
    decreases a.len(),
{
    let all = a + b;
    if a.len() == 0 {
        assert(all =~= b);
        assert(fixed(a) + fixed(b) =~= fixed(b));
    } else {
        let t = a.skip(1);
        assert(all[0] == a[0]);
        assert(all.skip(1) =~= t + b);
        if scan is AfterSingleBackslash && a[0] == 'u' {
            let n = hex_run(t, 4) as int;
            hex_digits_stay_in_single(t, 4);
            if n == t.len() {
                assert(t.skip(n) =~= Seq::<char>::empty());
                assert(scanned(Scan::InSingle, t.skip(n)) is InSingle);
            }
            hex_run_in_part(t, b, 4);
            assert(t.skip(n) =~= a.skip(n + 1));
            parts_are_fixed_apart(Scan::InSingle, a.skip(n + 1), b);
            assert(all.skip(n + 1) =~= a.skip(n + 1) + b);
            assert(all.subrange(1, n + 1) =~= a.subrange(1, n + 1));
            assert(fixed_at(scan, all) =~= fixed_at(scan, a) + fixed(b));
        } else {
            parts_are_fixed_apart(scanned_char(scan, a[0]), t, b);
            assert(fixed_at(scan, all) =~= fixed_at(scan, a) + fixed(b));
        }
    }
}

/// Where a first part leaves no string open, it is repaired by itself, and so
/// is the rest.
pub proof fn parts_are_repaired_apart(a: Seq<char>, b: Seq<char>)
    requires
        leaves_no_string_open(a),
    ensures
        fixed(a + b) == fixed(a) + fixed(b),
{
    parts_are_fixed_apart(Scan::Outside, a, b);
}

} // verus!
