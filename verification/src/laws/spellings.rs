//! Ids, names and arguments of tools, in the spellings of both sides.

use vstd::prelude::*;

use crate::convert::frames::is_message_id;
use crate::convert::responses::names::{
    first_free, fitting_names_are_kept, numbered, separator_end, short_name, short_names,
    short_names_differ, tool_names, unique_name, used_names,
};
use crate::convert::responses::request::{normalized, outgoing_name};
use crate::decimal::decimal;
use crate::json::{json_text, parsed_json, tree_get, tree_str_at, written_json, Tree};
use crate::laws::wire::{text, under};
use crate::text::{has_prefix, is_hex_digit, truncated, truncated_is_longest_prefix, utf8_len};
use crate::types::claude::Tool;
use crate::util::fix_json::{
    fixed, fixed_after_single_backslash, fixed_in_single, hex_run, leniently_parsed,
};
use crate::util::tool_id::{cleaned, id_or, is_generated_id, is_id};

verus! {

// ---------------------------------------------------------------------------
// Ids
// ---------------------------------------------------------------------------

/// An id keeps its length; each letter, digit, underscore and hyphen of ASCII
/// stays at its place, and every other character becomes an underscore. An
/// empty id is replaced by the one at hand.
pub proof fn ids_are_cleaned(s: Seq<char>, fallback: Seq<char>, i: int)
    ensures
        s.len() == 0 ==> id_or(s, fallback) == fallback,
        s.len() > 0 ==> id_or(s, fallback) == cleaned(s),
        cleaned(s).len() == s.len(),
        0 <= i < s.len() ==> cleaned(s)[i] == if ('a' <= s[i] <= 'z') || ('A' <= s[i] <= 'Z') || (
        '0' <= s[i] <= '9') || s[i] == '_' || s[i] == '-' {
            s[i]
        } else {
            '_'
        },
        is_id(s) ==> s.len() > 0,
{
}

/// Generated ids begin as the client's own do.
pub proof fn generated_ids_look_like_the_clients(s: Seq<char>)
    ensures
        is_generated_id(s) ==> has_prefix(s, "toolu_"@) && s.len() == 38,
        is_message_id(s) ==> has_prefix(s, "msg_"@) && s.len() == 28,
{
    reveal_strlit("toolu_");
    reveal_strlit("msg_");
    assert("toolu_"@.len() == 6);
    assert("msg_"@.len() == 4);
}

// ---------------------------------------------------------------------------
// Arguments
// ---------------------------------------------------------------------------

/// A piece of the content of a string.
pub enum Piece {
    /// A character that is no backslash.
    Plain(char),
    /// An escape of one character that is neither a single quote nor `u`.
    Escape(char),
    /// An escape by four hexadecimal digits.
    Code(char, char, char, char),
}

/// The piece is what it says.
pub open spec fn is_piece(p: Piece) -> bool {
    match p {
        Piece::Plain(c) => c != '\\',
        Piece::Escape(c) => c != '\'' && c != 'u',
        Piece::Code(a, b, c, d) => is_hex_digit(a) && is_hex_digit(b) && is_hex_digit(c)
            && is_hex_digit(d),
    }
}

/// A piece as it stands between single quotes.
pub open spec fn in_single_quotes(p: Piece) -> Seq<char> {
    match p {
        Piece::Plain(c) => if c == '\'' {
            seq!['\\', '\'']
        } else {
            seq![c]
        },
        Piece::Escape(c) => seq!['\\', c],
        Piece::Code(a, b, c, d) => seq!['\\', 'u', a, b, c, d],
    }
}

/// A piece as it stands between double quotes.
pub open spec fn in_double_quotes(p: Piece) -> Seq<char> {
    match p {
        Piece::Plain(c) => if c == '"' {
            seq!['\\', '"']
        } else {
            seq![c]
        },
        Piece::Escape(c) => seq!['\\', c],
        Piece::Code(a, b, c, d) => seq!['\\', 'u', a, b, c, d],
    }
}

/// The pieces as they stand between single quotes.
pub open spec fn all_in_single_quotes(pieces: Seq<Piece>) -> Seq<char>
    decreases pieces.len(),
{
    if pieces.len() == 0 {
        Seq::empty()
    } else {
        in_single_quotes(pieces[0]) + all_in_single_quotes(pieces.skip(1))
    }
}

/// The pieces as they stand between double quotes.
pub open spec fn all_in_double_quotes(pieces: Seq<Piece>) -> Seq<char>
    decreases pieces.len(),
{
    if pieces.len() == 0 {
        Seq::empty()
    } else {
        in_double_quotes(pieces[0]) + all_in_double_quotes(pieces.skip(1))
    }
}

proof fn four_digits(a: char, b: char, c: char, d: char, rest: Seq<char>)
    requires
        is_hex_digit(a) && is_hex_digit(b) && is_hex_digit(c) && is_hex_digit(d),
    ensures
        hex_run(seq![a, b, c, d] + rest, 4) == 4,
{
    reveal_with_fuel(hex_run, 5);
    let s = seq![a, b, c, d] + rest;
    assert(s.skip(1)[0] == b);
    assert(s.skip(1).skip(1)[0] == c);
    assert(s.skip(1).skip(1).skip(1)[0] == d);
}

proof fn content_is_kept(pieces: Seq<Piece>, rest: Seq<char>)
    requires
        forall|i: int| 0 <= i < pieces.len() ==> is_piece(#[trigger] pieces[i]),
    ensures
        fixed_in_single(all_in_single_quotes(pieces) + seq!['\''] + rest) == all_in_double_quotes(
            pieces,
        ) + seq!['"'] + fixed(rest),
    decreases pieces.len(),
{
    reveal_with_fuel(fixed_in_single, 2);
    reveal_with_fuel(fixed_after_single_backslash, 2);
    let quoted = all_in_single_quotes(pieces) + seq!['\''] + rest;
    if pieces.len() == 0 {
        assert(quoted =~= seq!['\''] + rest);
        assert(quoted.skip(1) =~= rest);
        assert(all_in_double_quotes(pieces) + seq!['"'] + fixed(rest) =~= seq!['"'] + fixed(rest));
    } else {
        let later = pieces.skip(1);
        assert forall|i: int| 0 <= i < later.len() implies is_piece(#[trigger] later[i]) by {
            assert(later[i] == pieces[i + 1]);
        }
        content_is_kept(later, rest);
        assert(is_piece(pieces[0]));
        let first = in_single_quotes(pieces[0]);
        let tail = all_in_single_quotes(later) + seq!['\''] + rest;
        assert(quoted =~= first + tail);
        assert(quoted[0] == first[0]);
        let out = all_in_double_quotes(later) + seq!['"'] + fixed(rest);
        assert(all_in_double_quotes(pieces) + seq!['"'] + fixed(rest) =~= in_double_quotes(
            pieces[0],
        ) + out);
        match pieces[0] {
            Piece::Plain(c) => {
                if c == '\'' {
                    let behind = quoted.skip(1);
                    assert(behind[0] == '\'');
                    assert(behind.skip(1) =~= tail);
                } else {
                    assert(quoted.skip(1) =~= tail);
                }
            },
            Piece::Escape(c) => {
                let behind = quoted.skip(1);
                assert(behind[0] == c);
                assert(behind.skip(1) =~= tail);
            },
            Piece::Code(a, b, c, d) => {
                let behind = quoted.skip(1);
                assert(behind[0] == 'u');
                assert(behind.skip(1) =~= seq![a, b, c, d] + tail);
                four_digits(a, b, c, d, tail);
                assert(behind.subrange(1, 5) =~= seq![a, b, c, d]);
                assert(behind.skip(5) =~= tail);
                assert(seq!['\\', 'u'] + seq![a, b, c, d] + out =~= in_double_quotes(pieces[0])
                    + out);
            },
        }
    }
}

/// A string between single quotes becomes a string between double quotes with
/// the same content, whatever stands behind it: a double quote in it gets a
/// backslash, a single quote loses its own, and every other escape stays.
pub proof fn strings_keep_their_content(pieces: Seq<Piece>, rest: Seq<char>)
    requires
        forall|i: int| 0 <= i < pieces.len() ==> is_piece(#[trigger] pieces[i]),
    ensures
        fixed(seq!['\''] + all_in_single_quotes(pieces) + seq!['\''] + rest) == seq!['"']
            + all_in_double_quotes(pieces) + seq!['"'] + fixed(rest),
{
    let s = seq!['\''] + all_in_single_quotes(pieces) + seq!['\''] + rest;
    content_is_kept(pieces, rest);
    assert(s.skip(1) =~= all_in_single_quotes(pieces) + seq!['\''] + rest);
    assert(fixed(s) =~= seq!['"'] + all_in_double_quotes(pieces) + seq!['"'] + fixed(rest));
}

/// What stands outside strings is kept character by character.
pub proof fn other_characters_are_kept(c: char, rest: Seq<char>)
    requires
        c != '\'',
        c != '"',
    ensures
        fixed(seq![c] + rest) == seq![c] + fixed(rest),
        fixed(Seq::empty()).len() == 0,
{
    assert((seq![c] + rest).skip(1) =~= rest);
}

/// Arguments that are JSON are read as they are; others are read as what their
/// repaired form stands for, if that is JSON.
pub proof fn json_is_read_as_it_is(s: Seq<char>)
    ensures
        parsed_json(s) matches Some(value) ==> leniently_parsed(s) == Some(value),
        parsed_json(s) is None ==> leniently_parsed(s) == parsed_json(fixed(s)),
{
}

// ---------------------------------------------------------------------------
// Names
// ---------------------------------------------------------------------------

/// A name that fits goes out as it is. Of any other that does not begin with
/// `mcp__`, the longest beginning that fits goes out.
pub proof fn long_names_keep_their_beginning(name: Seq<char>, k: int)
    ensures
        utf8_len(name) <= 64 ==> short_name(name) == name,
        utf8_len(name) > 64 && !has_prefix(name, "mcp__"@) ==> {
            &&& short_name(name) == name.take(short_name(name).len() as int)
            &&& utf8_len(short_name(name)) <= 64
            &&& short_name(name).len() < k <= name.len() ==> utf8_len(name.take(k)) > 64
        },
{
    truncated_is_longest_prefix(name, 64);
}

proof fn separator_is_found(name: Seq<char>, tool: Seq<char>, k: nat)
    requires
        name.len() >= tool.len() + 2,
        name.skip(name.len() - tool.len()) == tool,
        name[name.len() - tool.len() - 1] == '_',
        name[name.len() - tool.len() - 2] == '_',
        forall|i: int| 0 <= i < tool.len() - 1 ==> !(tool[i] == '_' && #[trigger] tool[i + 1]
            == '_'),
        tool.len() > 0 ==> tool[0] != '_',
        name.len() - tool.len() <= k <= name.len(),
    ensures
        separator_end(name, k) == name.len() - tool.len(),
    decreases k,
{
    let at = name.len() - tool.len();
    if k > at {
        assert(name[k - 1] == tool[k - 1 - at]);
        if k - 1 > at {
            assert(name[k - 2] == tool[k - 2 - at]);
            assert(tool[k - 2 - at + 1] == tool[k - 1 - at]);
        }
        separator_is_found(name, tool, (k - 1) as nat);
    }
}

/// Of the name of a server's tool that does not fit, the server's part is
/// dropped: `mcp__` and the tool's own name go out, if they fit.
pub proof fn server_tools_keep_their_own_name(server: Seq<char>, tool: Seq<char>)
    requires
        forall|i: int| 0 <= i < tool.len() - 1 ==> !(tool[i] == '_' && #[trigger] tool[i + 1]
            == '_'),
        tool.len() > 0 ==> tool[0] != '_',
        utf8_len("mcp__"@ + server + "__"@ + tool) > 64,
        utf8_len("mcp__"@ + tool) <= 64,
    ensures
        short_name("mcp__"@ + server + "__"@ + tool) == "mcp__"@ + tool,
{
    reveal_strlit("mcp__");
    reveal_strlit("__");
    let name = "mcp__"@ + server + "__"@ + tool;
    assert(name.take(5) =~= "mcp__"@);
    assert(name.skip(name.len() - tool.len()) =~= tool);
    separator_is_found(name, tool, name.len());
}

/// A name that is free is taken as it is. One that is used gets an underscore
/// and the lowest number that makes it free, behind as much of it as fits.
pub proof fn used_names_are_numbered(base: Seq<char>, used: Seq<Seq<char>>)
    ensures
        !used.contains(base) ==> unique_name(base, used) == base,
        used.contains(base) ==> exists|k: nat|
            {
                &&& k >= 1
                &&& unique_name(base, used) == #[trigger] numbered(base, k)
                &&& forall|j: nat| 1 <= j < k ==> used.contains(#[trigger] numbered(base, j))
            },
{
    if used.contains(base) {
        number_is_lowest(base, used, 1);
    }
}

proof fn number_is_lowest(base: Seq<char>, used: Seq<Seq<char>>, i: nat)
    ensures
        exists|k: nat|
            {
                &&& k >= i
                &&& first_free(base, used, i) == #[trigger] numbered(base, k)
                &&& forall|j: nat| i <= j < k ==> used.contains(#[trigger] numbered(base, j))
            },
    decreases used.len() + 1 - i,
{
    if i > used.len() || !used.contains(numbered(base, i)) {
        assert(first_free(base, used, i) == numbered(base, i));
    } else {
        number_is_lowest(base, used, i + 1);
        let k = choose|k: nat|
            {
                &&& k >= i + 1
                &&& first_free(base, used, i + 1) == #[trigger] numbered(base, k)
                &&& forall|j: nat| i + 1 <= j < k ==> used.contains(#[trigger] numbered(base, j))
            };
        assert(first_free(base, used, i) == numbered(base, k));
        assert forall|j: nat| i <= j < k implies used.contains(#[trigger] numbered(base, j)) by {}
    }
}

/// A numbered name is as much of the name as fits, an underscore and the number.
pub proof fn numbers_stand_behind_names(base: Seq<char>, i: nat)
    requires
        decimal(i).len() < 64,
    ensures
        ({
            let room = (63 - decimal(i).len()) as nat;
            let kept = truncated(base, room);
            &&& numbered(base, i) == kept + "_"@ + decimal(i)
            &&& kept == base.take(kept.len() as int)
            &&& utf8_len(base) <= room ==> kept == base
        }),
{
    reveal_strlit("_");
    let suffix = "_"@ + decimal(i);
    let room = (63 - decimal(i).len()) as nat;
    truncated_is_longest_prefix(base, room);
    assert(truncated(base, room) + suffix =~= truncated(base, room) + "_"@ + decimal(i));
}

/// Declared tools of different names go out under different names; where all
/// names fit and differ, each goes out as it is; and the name of a tool that is
/// not declared goes out in its short form.
pub proof fn tools_go_out_apart(tools: Seq<Tool>, a: Seq<char>, b: Seq<char>)
    ensures
        ({
            let names = tool_names(tools);
            let shorts = short_names(names);
            &&& names.contains(a) && names.contains(b) && a != b ==> outgoing_name(shorts, a)
                != outgoing_name(shorts, b)
            &&& names.contains(a) && names.no_duplicates() && (forall|k: int|
                0 <= k < names.len() ==> utf8_len(#[trigger] names[k]) <= 64) ==> outgoing_name(
                shorts,
                a,
            ) == a
            &&& outgoing_name(Map::empty(), a) == short_name(a)
        }),
{
    let names = tool_names(tools);
    if names.contains(a) && names.contains(b) && a != b {
        short_names_differ(names, a, b);
    }
    if names.contains(a) && names.no_duplicates() && (forall|k: int|
        0 <= k < names.len() ==> utf8_len(#[trigger] names[k]) <= 64) {
        fitting_names_are_kept(names, a);
    }
}

/// The tools of a request are known by their own names, in their order.
pub proof fn tools_are_named(tools: Seq<Tool>, i: int)
    requires
        0 <= i < tools.len(),
    ensures
        tool_names(tools).len() == tools.len(),
        tool_names(tools)[i] == tools[i].name@,
{
}

// ---------------------------------------------------------------------------
// JSON
// ---------------------------------------------------------------------------

/// A value goes out as the text that is written for it, and as the text at hand
/// only where none can be written.
pub proof fn values_are_written(value: Tree, fallback: Seq<char>, written: Seq<char>)
    ensures
        written_json(value) == Some(written) ==> json_text(value, fallback) == written,
        written_json(value) is None ==> json_text(value, fallback) == fallback,
{
}

/// What stands under a name in an object is what was put there.
pub proof fn members_are_found(m: Map<Seq<char>, Tree>, key: Seq<char>, value: Tree, s: Seq<char>)
    ensures
        tree_get(Tree::Object(m.insert(key, value)), key) == Some(value),
        !m.contains_key(key) ==> tree_get(Tree::Object(m), key) is None,
        !(value is Object) ==> tree_get(value, key) is None,
        tree_str_at(Tree::Object(m.insert(key, Tree::Text(s))), key) == Some(s),
        !(value is Text) ==> tree_str_at(Tree::Object(m.insert(key, value)), key) is None,
{
}

/// A schema without a type gets the type `object`, and an object without
/// properties gets empty ones. Nothing else is added, and what is no object
/// becomes the schema of an object without properties.
pub proof fn schemas_are_completed(m: Map<Seq<char>, Tree>, key: Seq<char>, other: Tree)
    ensures
        !m.contains_key("type"@) ==> under(normalized(Tree::Object(m)), "type"@) == text(
            "object"@,
        ),
        !m.contains_key("properties"@) && (!m.contains_key("type"@) || m["type"@] == text(
            "object"@,
        )) ==> under(normalized(Tree::Object(m)), "properties"@) == Tree::Object(Map::empty()),
        key != "type"@ && key != "properties"@ && !m.contains_key(key) ==> under(
            normalized(Tree::Object(m)),
            key,
        ) == Tree::Null,
        !(other is Object) ==> under(normalized(other), "type"@) == text("object"@) && under(
            normalized(other),
            "properties"@,
        ) == Tree::Object(Map::empty()),
{
    reveal_strlit("type");
    reveal_strlit("properties");
    reveal_strlit("$schema");
    reveal_strlit("cache_control");
    reveal_strlit("defer_loading");
    assert("type"@.len() == 4 && "properties"@.len() == 10 && "$schema"@.len() == 7);
    assert("cache_control"@.len() == 13 && "defer_loading"@.len() == 13);
}

proof fn open_content_is_kept(pieces: Seq<Piece>)
    requires
        forall|i: int| 0 <= i < pieces.len() ==> is_piece(#[trigger] pieces[i]),
    ensures
        fixed_in_single(all_in_single_quotes(pieces)) == all_in_double_quotes(pieces) + seq!['"'],
    decreases pieces.len(),
{
    reveal_with_fuel(fixed_in_single, 2);
    reveal_with_fuel(fixed_after_single_backslash, 2);
    let quoted = all_in_single_quotes(pieces);
    if pieces.len() == 0 {
        assert(all_in_double_quotes(pieces) + seq!['"'] =~= seq!['"']);
    } else {
        let later = pieces.skip(1);
        assert forall|i: int| 0 <= i < later.len() implies is_piece(#[trigger] later[i]) by {
            assert(later[i] == pieces[i + 1]);
        }
        open_content_is_kept(later);
        assert(is_piece(pieces[0]));
        let first = in_single_quotes(pieces[0]);
        let tail = all_in_single_quotes(later);
        assert(quoted[0] == first[0]);
        let out = all_in_double_quotes(later) + seq!['"'];
        assert(all_in_double_quotes(pieces) + seq!['"'] =~= in_double_quotes(pieces[0]) + out);
        match pieces[0] {
            Piece::Plain(c) => {
                if c == '\'' {
                    assert(quoted.skip(1)[0] == '\'');
                    assert(quoted.skip(1).skip(1) =~= tail);
                } else {
                    assert(quoted.skip(1) =~= tail);
                }
            },
            Piece::Escape(c) => {
                assert(quoted.skip(1)[0] == c);
                assert(quoted.skip(1).skip(1) =~= tail);
            },
            Piece::Code(a, b, c, d) => {
                let behind = quoted.skip(1);
                assert(behind[0] == 'u');
                assert(behind.skip(1) =~= seq![a, b, c, d] + tail);
                four_digits(a, b, c, d, tail);
                assert(behind.subrange(1, 5) =~= seq![a, b, c, d]);
                assert(behind.skip(5) =~= tail);
                assert(seq!['\\', 'u'] + seq![a, b, c, d] + out =~= in_double_quotes(pieces[0])
                    + out);
            },
        }
    }
}

/// A string between single quotes that is left open is closed, with the same
/// content.
pub proof fn open_strings_are_closed(pieces: Seq<Piece>)
    requires
        forall|i: int| 0 <= i < pieces.len() ==> is_piece(#[trigger] pieces[i]),
    ensures
        fixed(seq!['\''] + all_in_single_quotes(pieces)) == seq!['"'] + all_in_double_quotes(pieces)
            + seq!['"'],
{
    let s = seq!['\''] + all_in_single_quotes(pieces);
    open_content_is_kept(pieces);
    assert(s.skip(1) =~= all_in_single_quotes(pieces));
    assert(fixed(s) =~= seq!['"'] + all_in_double_quotes(pieces) + seq!['"']);
}

proof fn short_forms_are_used(names: Seq<Seq<char>>)
    requires
        forall|i: int, j: int|
            0 <= i < j < names.len() ==> short_name(#[trigger] names[i]) != short_name(
                #[trigger] names[j],
            ),
    ensures
        used_names(names).len() == names.len(),
        forall|k: int|
            0 <= k < names.len() ==> #[trigger] used_names(names)[k] == short_name(names[k]),
    decreases names.len(),
{
    if names.len() > 0 {
        let rest = names.drop_last();
        assert forall|i: int, j: int| 0 <= i < j < rest.len() implies short_name(
            #[trigger] rest[i],
        ) != short_name(#[trigger] rest[j]) by {
            assert(rest[i] == names[i] && rest[j] == names[j]);
        }
        short_forms_are_used(rest);
        let used = used_names(rest);
        let last = short_name(names.last());
        if used.contains(last) {
            let k = choose|k: int| 0 <= k < used.len() && used[k] == last;
            assert(used[k] == short_name(rest[k]));
            assert(rest[k] == names[k]);
            assert(names[names.len() - 1] == names.last());
        }
        assert forall|k: int| 0 <= k < names.len() implies #[trigger] used_names(names)[k]
            == short_name(names[k]) by {
            if k < rest.len() {
                assert(used_names(names)[k] == used[k]);
            }
        }
    }
}

/// Where the short forms of all names differ, each name goes out in its short
/// form.
pub proof fn short_forms_go_out(names: Seq<Seq<char>>, k: int)
    requires
        forall|i: int, j: int|
            0 <= i < j < names.len() ==> short_name(#[trigger] names[i]) != short_name(
                #[trigger] names[j],
            ),
        0 <= k < names.len(),
    ensures
        short_names(names).contains_key(names[k]),
        short_names(names)[names[k]] == short_name(names[k]),
    decreases names.len(),
{
    short_forms_are_used(names);
    let rest = names.drop_last();
    assert(used_names(names).last() == short_name(names.last())) by {
        assert(used_names(names)[names.len() - 1] == short_name(names[names.len() - 1]));
    }
    if k < rest.len() {
        assert forall|i: int, j: int| 0 <= i < j < rest.len() implies short_name(
            #[trigger] rest[i],
        ) != short_name(#[trigger] rest[j]) by {
            assert(rest[i] == names[i] && rest[j] == names[j]);
        }
        short_forms_go_out(rest, k);
        assert(rest[k] == names[k]);
        assert(names[k] != names[names.len() - 1]);
    }
}

} // verus!
