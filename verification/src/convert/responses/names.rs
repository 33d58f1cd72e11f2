//! Tool names on the way to the Responses API and back.
//!
//! The Responses API takes tool names of at most 64 bytes. Longer names go out
//! shortened, and the shortened forms are recorded so that the full names can
//! be restored when they come back.

use vstd::prelude::*;
use vstd::utf8::is_ascii_chars;

use crate::decimal::{decimal, decimal_injective, decimal_len_u64, decimal_round_trip,
    decimal_text, is_digit};
use crate::split::texts;
use crate::text::{
    byte_len, chars_of, has_prefix, same, starts_with, text_of, truncate, truncated,
    truncated_is_longest_prefix, utf8_len, utf8_len_ascii, utf8_len_concat,
};
use crate::types::claude::Tool;
use crate::util::tool_name::{
    build_map, canonical, canonical_name, declared_names, empty_name_has_empty_form, restored,
    ToolNameMap,
};

verus! {

/// The number of bytes that a tool name may have.
pub const TOOL_NAME_LIMIT: usize = 64;

// ---------------------------------------------------------------------------
// One name
// ---------------------------------------------------------------------------

/// Where the last double underscore within the first `k` characters ends; 0
/// if there is none.
pub open spec fn separator_end(s: Seq<char>, k: nat) -> nat
    decreases k,
{
    if k < 2 {
        0
    } else if s[k - 2] == '_' && s[k - 1] == '_' {
        k
    } else {
        separator_end(s, (k - 1) as nat)
    }
}

/// The form in which a name goes out: the name itself if it fits, and else
/// its beginning. Of a name that begins with `mcp__`, what stands between that
/// and the last double underscore is dropped first.
pub open spec fn short_name(name: Seq<char>) -> Seq<char> {
    if utf8_len(name) <= TOOL_NAME_LIMIT {
        name
    } else if has_prefix(name, "mcp__"@) {
        truncated(
            "mcp__"@ + name.skip(separator_end(name, name.len()) as int),
            TOOL_NAME_LIMIT as nat,
        )
    } else {
        truncated(name, TOOL_NAME_LIMIT as nat)
    }
}

/// The longest beginning of `s` of at most `max_bytes` bytes.
pub fn truncate_bytes_safe(s: &str, max_bytes: usize) -> (r: String)
    ensures
        r@ == truncated(s@, max_bytes as nat),
        utf8_len(r@) <= max_bytes,
{
    proof {
        truncated_is_longest_prefix(s@, max_bytes as nat);
    }
    truncate(s, max_bytes)
}

/// Shortens a name to at most [`TOOL_NAME_LIMIT`] bytes.
pub fn shorten_name_if_needed(name: &str) -> (r: String)
    ensures
        r@ == short_name(name@),
        utf8_len(r@) <= TOOL_NAME_LIMIT,
{
    if byte_len(name) <= TOOL_NAME_LIMIT {
        return name.to_string();
    }
    if starts_with(name, "mcp__") {
        let chars = chars_of(name);
        let mut end: usize = chars.len();
        while end >= 2 && !(chars[end - 2] == '_' && chars[end - 1] == '_')
            invariant
                chars@ == name@,
                end <= chars@.len(),
                separator_end(name@, name@.len()) == separator_end(name@, end as nat),
            decreases end,
        {
            end -= 1;
        }
        let from: usize = if end < 2 {
            0
        } else {
            end
        };
        let mut candidate = "mcp__".to_string();
        candidate.push_str(text_of(&chars, from, chars.len()).as_str());
        assert(chars@.subrange(from as int, chars@.len() as int) =~= name@.skip(from as int));
        return truncate_bytes_safe(candidate.as_str(), TOOL_NAME_LIMIT);
    }
    truncate_bytes_safe(name, TOOL_NAME_LIMIT)
}

/// A shortened name fits.
pub proof fn short_name_fits(name: Seq<char>)
    ensures
        utf8_len(short_name(name)) <= TOOL_NAME_LIMIT,
{
    truncated_is_longest_prefix(name, TOOL_NAME_LIMIT as nat);
    truncated_is_longest_prefix(
        "mcp__"@ + name.skip(separator_end(name, name.len()) as int),
        TOOL_NAME_LIMIT as nat,
    );
}

// ---------------------------------------------------------------------------
// Names apart from each other
// ---------------------------------------------------------------------------

/// `base` with the number `i` behind it, cut so that it fits.
pub open spec fn numbered(base: Seq<char>, i: nat) -> Seq<char> {
    let suffix = "_"@ + decimal(i);
    let room = if suffix.len() <= TOOL_NAME_LIMIT {
        (TOOL_NAME_LIMIT - suffix.len()) as nat
    } else {
        0
    };
    truncated(base, room) + suffix
}

/// The first of the numbered forms from `i` on that is not used yet. One of as
/// many forms as there are used names, and one more, is free.
pub open spec fn first_free(base: Seq<char>, used: Seq<Seq<char>>, i: nat) -> Seq<char>
    decreases used.len() + 1 - i,
{
    if i > used.len() || !used.contains(numbered(base, i)) {
        numbered(base, i)
    } else {
        first_free(base, used, i + 1)
    }
}

/// `base` if it is not used yet, and else the first of its numbered forms that
/// is not.
pub open spec fn unique_name(base: Seq<char>, used: Seq<Seq<char>>) -> Seq<char> {
    if !used.contains(base) {
        base
    } else {
        first_free(base, used, 1)
    }
}

fn is_used(name: &str, used: &Vec<String>) -> (r: bool)
    ensures
        r == texts(used@).contains(name@),
{
    let mut i: usize = 0;
    while i < used.len()
        invariant
            i <= used@.len(),
            forall|k: int| 0 <= k < i ==> (#[trigger] texts(used@)[k]) != name@,
        decreases used.len() - i,
    {
        if same(used[i].as_str(), name) {
            assert(texts(used@)[i as int] == name@);
            return true;
        }
        i += 1;
    }
    false
}

/// `base` if it is not used yet, and else `base` with `_1`, `_2` and so on
/// behind it, until it is not.
pub fn make_unique_name(base: &str, used: &Vec<String>) -> (r: String)
    requires
        used@.len() < usize::MAX,
    ensures
        r@ == unique_name(base@, texts(used@)),
        !texts(used@).contains(r@),
{
    if !is_used(base, used) {
        return base.to_string();
    }
    let mut i: u64 = 1;
    let ghost names = texts(used@);
    loop
        invariant
            names == texts(used@),
            names.len() < usize::MAX,
            names.contains(base@),
            1 <= i <= names.len() + 1,
            all_used(base@, names, i as nat),
            first_free(base@, names, 1) == first_free(base@, names, i as nat),
        decreases names.len() + 1 - i,
    {
        let mut suffix = "_".to_string();
        suffix.push_str(decimal_text(i).as_str());
        proof {
            numbered_suffix(i as nat);
        }
        let mut candidate = truncate_bytes_safe(base, TOOL_NAME_LIMIT - byte_len(suffix.as_str()));
        candidate.push_str(suffix.as_str());
        if !is_used(candidate.as_str(), used) {
            return candidate;
        }
        proof {
            used_forms_are_few(base@, names, i as nat + 1);
        }
        i += 1;
    }
}

proof fn numbered_suffix(i: nat)
    requires
        i <= u64::MAX,
    ensures
        ({
            let suffix = "_"@ + decimal(i);
            2 <= suffix.len() <= 21 && utf8_len(suffix) == suffix.len() && suffix[0] == '_'
        }),
{
    reveal_strlit("_");
    let suffix = "_"@ + decimal(i);
    decimal_len_u64(i);
    decimal_round_trip(i);
    assert(is_ascii_chars(suffix)) by {
        assert forall|k: int| 0 <= k < suffix.len() implies 0 <= (#[trigger] suffix[k]) as u32
            <= 127 by {
            if k > 0 {
                assert(suffix[k] == decimal(i)[k - 1]);
                assert(is_digit(decimal(i)[k - 1]));
            }
        }
    }
    utf8_len_ascii(suffix);
}

/// All numbered forms of `base` below `i` are used.
pub open spec fn all_used(base: Seq<char>, used: Seq<Seq<char>>, i: nat) -> bool {
    forall|j: nat| 1 <= j < i ==> used.contains(#[trigger] numbered(base, j))
}

proof fn numbered_injective(base: Seq<char>, i: nat, j: nat)
    requires
        decimal(i).len() <= decimal(j).len(),
        numbered(base, i) == numbered(base, j),
    ensures
        i == j,
{
    reveal_strlit("_");
    let a = numbered(base, i);
    let d = decimal(i);
    let e = decimal(j);
    decimal_round_trip(j);
    if d.len() < e.len() {
        assert(a[a.len() - d.len() - 1] == '_');
        assert(a[a.len() - d.len() - 1] == e[e.len() - d.len() - 1]);
        assert(is_digit(e[e.len() - d.len() - 1]));
    } else {
        assert(d =~= e) by {
            assert forall|k: int| 0 <= k < d.len() implies d[k] == e[k] by {
                assert(a[a.len() - d.len() + k] == d[k]);
                assert(a[a.len() - e.len() + k] == e[k]);
            }
        }
        decimal_injective(i, j);
    }
}

/// No more forms can be used than there are used names.
proof fn used_forms_are_few(base: Seq<char>, used: Seq<Seq<char>>, i: nat)
    requires
        i >= 1,
        all_used(base, used, i),
    ensures
        i <= used.len() + 1,
{
    let forms = Seq::new((i - 1) as nat, |k: int| numbered(base, (k + 1) as nat));
    assert(forms.no_duplicates()) by {
        assert forall|x: int, y: int|
            0 <= x < forms.len() && 0 <= y < forms.len() && x != y implies forms[x] != forms[y] by {
            if forms[x] == forms[y] {
                let a = (x + 1) as nat;
                let b = (y + 1) as nat;
                if decimal(a).len() <= decimal(b).len() {
                    numbered_injective(base, a, b);
                } else {
                    numbered_injective(base, b, a);
                }
            }
        }
    }
    forms.unique_seq_to_set();
    used.lemma_cardinality_of_set();
    assert(forms.to_set().subset_of(used.to_set())) by {
        assert forall|n: Seq<char>| forms.to_set().contains(n) implies used.to_set().contains(
            n,
        ) by {
            let x = choose|x: int| 0 <= x < forms.len() && forms[x] == n;
            assert(used.contains(numbered(base, (x + 1) as nat)));
        }
    }
    vstd::set_lib::lemma_len_subset(forms.to_set(), used.to_set());
}

proof fn first_free_is_free(base: Seq<char>, used: Seq<Seq<char>>, i: nat)
    requires
        1 <= i <= used.len() + 1,
        all_used(base, used, i),
    ensures
        !used.contains(first_free(base, used, i)),
    decreases used.len() + 1 - i,
{
    if used.contains(numbered(base, i)) {
        used_forms_are_few(base, used, i + 1);
        first_free_is_free(base, used, i + 1);
    }
}

/// A name that is made unique is not used yet, however many are.
pub proof fn unique_name_is_unused(base: Seq<char>, used: Seq<Seq<char>>)
    ensures
        !used.contains(unique_name(base, used)),
{
    if used.contains(base) {
        first_free_is_free(base, used, 1);
    }
}

// ---------------------------------------------------------------------------
// All names of a request
// ---------------------------------------------------------------------------

/// The short names in the order in which they are given out.
pub open spec fn used_names(names: Seq<Seq<char>>) -> Seq<Seq<char>>
    decreases names.len(),
{
    if names.len() == 0 {
        Seq::empty()
    } else {
        let used = used_names(names.drop_last());
        used.push(unique_name(short_name(names.last()), used))
    }
}

/// The short name of each name; of a name that occurs more than once, the
/// last one.
pub open spec fn short_names(names: Seq<Seq<char>>) -> Map<Seq<char>, Seq<char>>
    decreases names.len(),
{
    if names.len() == 0 {
        Map::empty()
    } else {
        short_names(names.drop_last()).insert(names.last(), used_names(names).last())
    }
}

/// Gives each name a short name of its own.
pub fn build_short_name_map(names: &Vec<String>) -> (r: ToolNameMap)
    ensures
        r@ == short_names(texts(names@)),
{
    let mut used: Vec<String> = Vec::new();
    let mut map = ToolNameMap::new();
    let mut i: usize = 0;
    assert(texts(names@).take(0) =~= Seq::<Seq<char>>::empty());
    assert(texts(used@) =~= Seq::<Seq<char>>::empty());
    while i < names.len()
        invariant
            i <= names@.len(),
            used@.len() == i,
            texts(used@) == used_names(texts(names@).take(i as int)),
            map@ == short_names(texts(names@).take(i as int)),
        decreases names.len() - i,
    {
        let ghost given = texts(names@).take(i + 1);
        assert(given.drop_last() =~= texts(names@).take(i as int));
        assert(given.last() == names@[i as int]@);
        let base = shorten_name_if_needed(names[i].as_str());
        let unique = make_unique_name(base.as_str(), &used);
        map.insert(names[i].as_str(), unique.as_str());
        let ghost before = texts(used@);
        used.push(unique);
        assert(texts(used@) =~= before.push(unique@));
        i += 1;
    }
    assert(texts(names@).take(i as int) =~= texts(names@));
    map
}

/// The names of `tools`.
pub open spec fn tool_names(tools: Seq<Tool>) -> Seq<Seq<char>> {
    tools.map_values(|tool: Tool| tool.name@)
}

/// The names of `tools`.
pub fn names_of(tools: &Vec<Tool>) -> (r: Vec<String>)
    ensures
        texts(r@) == tool_names(tools@),
{
    let mut out: Vec<String> = Vec::new();
    let mut i: usize = 0;
    while i < tools.len()
        invariant
            i <= tools@.len(),
            texts(out@) == tool_names(tools@).take(i as int),
        decreases tools.len() - i,
    {
        let ghost before = texts(out@);
        out.push(tools[i].name.clone());
        assert(texts(out@) =~= before.push(tools@[i as int].name@));
        assert(tool_names(tools@).take(i + 1) =~= tool_names(tools@).take(i as int).push(
            tools@[i as int].name@,
        ));
        i += 1;
    }
    assert(tool_names(tools@).take(i as int) =~= tool_names(tools@));
    out
}

/// `known` and, by its canonical form, each short name among `shorts` that
/// differs from the name of its tool. What is known already stays.
pub open spec fn with_aliases(
    known: Map<Seq<char>, Seq<char>>,
    shorts: Map<Seq<char>, Seq<char>>,
    tools: Seq<Tool>,
) -> Map<Seq<char>, Seq<char>>
    decreases tools.len(),
{
    if tools.len() == 0 {
        known
    } else {
        let earlier = with_aliases(known, shorts, tools.drop_last());
        let name = tools.last().name@;
        let key = canonical_name(shorts[name]);
        if shorts[name] != name && key.len() > 0 && !earlier.contains_key(key) {
            earlier.insert(key, name)
        } else {
            earlier
        }
    }
}

/// The names by which the tools of a request are known when they come back.
pub open spec fn response_names(tools: Seq<Tool>) -> Map<Seq<char>, Seq<char>> {
    with_aliases(declared_names(tools), short_names(tool_names(tools)), tools)
}

/// The names by which `tools`, if there are any, are known.
pub open spec fn response_names_of(tools: Option<&Vec<Tool>>) -> Map<Seq<char>, Seq<char>> {
    match tools {
        Some(tools) => response_names(tools@),
        None => Map::empty(),
    }
}

/// Records the declared names and their shortened forms.
pub fn build_tool_name_map(tools: Option<&Vec<Tool>>) -> (r: ToolNameMap)
    ensures
        r@ == response_names_of(tools),
{
    let mut map = build_map(tools);
    let tools = match tools {
        Some(tools) => tools,
        None => return map,
    };
    let names = names_of(tools);
    let shorts = build_short_name_map(&names);
    let mut i: usize = 0;
    assert(tools@.take(0) =~= Seq::<Tool>::empty());
    while i < tools.len()
        invariant
            i <= tools@.len(),
            shorts@ == short_names(tool_names(tools@)),
            map@ == with_aliases(declared_names(tools@), shorts@, tools@.take(i as int)),
        decreases tools.len() - i,
    {
        assert(tools@.take(i + 1).drop_last() =~= tools@.take(i as int));
        let name = tools[i].name.as_str();
        proof {
            assert(tool_names(tools@)[i as int] == name@);
            every_name_has_a_short_name(tool_names(tools@), i as int);
        }
        match shorts.get(name) {
            Some(short) => {
                if !same(short.as_str(), name) {
                    let key = canonical(short.as_str());
                    proof {
                        reveal_strlit("");
                        if key@.len() == 0 {
                            assert(key@ =~= ""@);
                        }
                    }
                    if !same(key.as_str(), "") {
                        map.insert_if_absent(key.as_str(), name);
                    }
                }
            },
            None => {},
        }
        i += 1;
    }
    assert(tools@.take(i as int) =~= tools@);
    map
}

/// Each name has a short name.
proof fn every_name_has_a_short_name(names: Seq<Seq<char>>, i: int)
    requires
        0 <= i < names.len(),
    ensures
        short_names(names).contains_key(names[i]),
    decreases names.len(),
{
    if i < names.len() - 1 {
        assert(names.drop_last()[i] == names[i]);
        every_name_has_a_short_name(names.drop_last(), i);
    }
}

// ---------------------------------------------------------------------------
// Laws
// ---------------------------------------------------------------------------

proof fn numbered_fits(base: Seq<char>, i: nat)
    requires
        i <= u64::MAX,
    ensures
        utf8_len(numbered(base, i)) <= TOOL_NAME_LIMIT,
{
    let suffix = "_"@ + decimal(i);
    numbered_suffix(i);
    let room = (TOOL_NAME_LIMIT - suffix.len()) as nat;
    truncated_is_longest_prefix(base, room);
    utf8_len_concat(truncated(base, room), suffix);
}

proof fn first_free_fits(base: Seq<char>, used: Seq<Seq<char>>, i: nat)
    requires
        i <= used.len() + 1 <= u64::MAX,
    ensures
        utf8_len(first_free(base, used, i)) <= TOOL_NAME_LIMIT,
    decreases used.len() + 1 - i,
{
    numbered_fits(base, i);
    if i <= used.len() {
        first_free_fits(base, used, i + 1);
    }
}

proof fn used_names_len(names: Seq<Seq<char>>)
    ensures
        used_names(names).len() == names.len(),
    decreases names.len(),
{
    if names.len() > 0 {
        used_names_len(names.drop_last());
    }
}

proof fn used_names_fit(names: Seq<Seq<char>>)
    requires
        names.len() <= u64::MAX,
    ensures
        used_names(names).len() == names.len(),
        forall|k: int|
            0 <= k < names.len() ==> utf8_len(#[trigger] used_names(names)[k]) <= TOOL_NAME_LIMIT,
    decreases names.len(),
{
    if names.len() > 0 {
        let used = used_names(names.drop_last());
        used_names_fit(names.drop_last());
        short_name_fits(names.last());
        first_free_fits(short_name(names.last()), used, 1);
    }
}

/// What a name is mapped to was given out for one of its occurrences.
proof fn short_name_was_given_out(names: Seq<Seq<char>>, name: Seq<char>) -> (k: int)
    requires
        short_names(names).contains_key(name),
    ensures
        used_names(names).len() == names.len(),
        0 <= k < names.len(),
        names[k] == name,
        used_names(names)[k] == short_names(names)[name],
    decreases names.len(),
{
    used_names_len(names);
    if name == names.last() {
        names.len() - 1
    } else {
        let k = short_name_was_given_out(names.drop_last(), name);
        assert(names.drop_last()[k] == names[k]);
        k
    }
}

/// Every short name fits into the limit.
pub proof fn short_names_fit(names: Seq<Seq<char>>, name: Seq<char>)
    requires
        names.len() <= u64::MAX,
        short_names(names).contains_key(name),
    ensures
        utf8_len(short_names(names)[name]) <= TOOL_NAME_LIMIT,
{
    let k = short_name_was_given_out(names, name);
    used_names_fit(names);
}

proof fn used_names_differ(names: Seq<Seq<char>>)
    ensures
        used_names(names).no_duplicates(),
    decreases names.len(),
{
    if names.len() > 0 {
        used_names_differ(names.drop_last());
        unique_name_is_unused(short_name(names.last()), used_names(names.drop_last()));
    }
}

/// Different names have different short names.
pub proof fn short_names_differ(names: Seq<Seq<char>>, a: Seq<char>, b: Seq<char>)
    requires
        names.contains(a),
        names.contains(b),
        a != b,
    ensures
        short_names(names).contains_key(a),
        short_names(names).contains_key(b),
        short_names(names)[a] != short_names(names)[b],
{
    every_name_has_a_short_name(names, names.index_of(a));
    every_name_has_a_short_name(names, names.index_of(b));
    used_names_differ(names);
    let i = short_name_was_given_out(names, a);
    let j = short_name_was_given_out(names, b);
}

/// Names that fit and are all different go out unchanged.
pub proof fn fitting_names_are_kept(names: Seq<Seq<char>>, name: Seq<char>)
    requires
        names.no_duplicates(),
        forall|k: int| 0 <= k < names.len() ==> utf8_len(#[trigger] names[k]) <= TOOL_NAME_LIMIT,
        names.contains(name),
    ensures
        short_names(names).contains_key(name),
        short_names(names)[name] == name,
{
    every_name_has_a_short_name(names, names.index_of(name));
    let k = short_name_was_given_out(names, name);
    fitting_names_are_used(names);
}

proof fn fitting_names_are_used(names: Seq<Seq<char>>)
    requires
        names.no_duplicates(),
        forall|k: int| 0 <= k < names.len() ==> utf8_len(#[trigger] names[k]) <= TOOL_NAME_LIMIT,
    ensures
        used_names(names) == names,
    decreases names.len(),
{
    if names.len() > 0 {
        let rest = names.drop_last();
        assert forall|k: int| 0 <= k < rest.len() implies utf8_len(#[trigger] rest[k])
            <= TOOL_NAME_LIMIT by {
            assert(rest[k] == names[k]);
        }
        fitting_names_are_used(rest);
        assert(!rest.contains(names.last()));
        assert(utf8_len(names[names.len() - 1]) <= TOOL_NAME_LIMIT);
        assert(used_names(names) =~= names);
    }
}

/// Aliases leave what is known as it is.
proof fn with_aliases_keeps(
    known: Map<Seq<char>, Seq<char>>,
    shorts: Map<Seq<char>, Seq<char>>,
    tools: Seq<Tool>,
    key: Seq<char>,
)
    requires
        known.contains_key(key),
    ensures
        with_aliases(known, shorts, tools).contains_key(key),
        with_aliases(known, shorts, tools)[key] == known[key],
    decreases tools.len(),
{
    if tools.len() > 0 {
        with_aliases_keeps(known, shorts, tools.drop_last(), key);
    }
}

/// The form of a shortened name leads back to its tool, where no other tool
/// has it.
proof fn with_aliases_at(
    known: Map<Seq<char>, Seq<char>>,
    shorts: Map<Seq<char>, Seq<char>>,
    tools: Seq<Tool>,
    i: int,
)
    requires
        0 <= i < tools.len(),
        ({
            let name = tools[i].name@;
            let key = canonical_name(shorts[name]);
            &&& shorts[name] != name
            &&& key.len() > 0
            &&& known.contains_key(key) ==> known[key] == name
            &&& forall|j: int|
                0 <= j < i && shorts[(#[trigger] tools[j]).name@] != tools[j].name@
                    && canonical_name(shorts[tools[j].name@]) == key ==> tools[j].name@ == name
        }),
    ensures
        ({
            let name = tools[i].name@;
            let key = canonical_name(shorts[name]);
            let map = with_aliases(known, shorts, tools);
            map.contains_key(key) && map[key] == name
        }),
    decreases tools.len(),
{
    let rest = tools.drop_last();
    let name = tools[i].name@;
    let key = canonical_name(shorts[name]);
    if i < tools.len() - 1 {
        assert(rest[i] == tools[i]);
        assert forall|j: int|
            0 <= j < i && shorts[(#[trigger] rest[j]).name@] != rest[j].name@ && canonical_name(
                shorts[rest[j].name@],
            ) == key implies rest[j].name@ == name by {
            assert(rest[j] == tools[j]);
        }
        with_aliases_at(known, shorts, rest, i);
    } else {
        assert forall|j: int|
            0 <= j < rest.len() && shorts[(#[trigger] rest[j]).name@] != rest[j].name@
                && canonical_name(shorts[rest[j].name@]) == key implies rest[j].name@ == name by {
            assert(rest[j] == tools[j]);
        }
        with_aliases_under(known, shorts, rest, key, name);
    }
}

/// Where a key stands for `name` in all that is known and among all aliases,
/// nothing else can stand under it.
proof fn with_aliases_under(
    known: Map<Seq<char>, Seq<char>>,
    shorts: Map<Seq<char>, Seq<char>>,
    tools: Seq<Tool>,
    key: Seq<char>,
    name: Seq<char>,
)
    requires
        known.contains_key(key) ==> known[key] == name,
        forall|j: int|
            0 <= j < tools.len() && shorts[(#[trigger] tools[j]).name@] != tools[j].name@
                && canonical_name(shorts[tools[j].name@]) == key ==> tools[j].name@ == name,
    ensures
        ({
            let map = with_aliases(known, shorts, tools);
            map.contains_key(key) ==> map[key] == name
        }),
    decreases tools.len(),
{
    if tools.len() > 0 {
        let rest = tools.drop_last();
        assert forall|j: int|
            0 <= j < rest.len() && shorts[(#[trigger] rest[j]).name@] != rest[j].name@
                && canonical_name(shorts[rest[j].name@]) == key implies rest[j].name@ == name by {
            assert(rest[j] == tools[j]);
        }
        with_aliases_under(known, shorts, rest, key, name);
        assert(tools.last() == tools[tools.len() - 1]);
    }
}

/// A shortened name that comes back from the upstream leads to the name that
/// was declared, unless its canonical form is empty, or another declared name
/// or an earlier short name has the same.
pub proof fn shortened_name_is_restored(tools: Seq<Tool>, i: int)
    requires
        0 <= i < tools.len(),
        ({
            let shorts = short_names(tool_names(tools));
            let name = tools[i].name@;
            let key = canonical_name(shorts[name]);
            &&& shorts[name] != name
            &&& key.len() > 0
            &&& forall|j: int|
                0 <= j < tools.len() && canonical_name((#[trigger] tools[j]).name@) == key
                    ==> tools[j].name@ == name
            &&& forall|j: int|
                0 <= j < i && shorts[(#[trigger] tools[j]).name@] != tools[j].name@
                    && canonical_name(shorts[tools[j].name@]) == key ==> tools[j].name@ == name
        }),
    ensures
        restored(response_names(tools), short_names(tool_names(tools))[tools[i].name@])
            == tools[i].name@,
{
    let shorts = short_names(tool_names(tools));
    let name = tools[i].name@;
    declared_names_under(tools, canonical_name(shorts[name]), name);
    with_aliases_at(declared_names(tools), shorts, tools, i);
    empty_name_has_empty_form(shorts[name]);
}

/// Where a form belongs to `name` alone, nothing else is declared under it.
proof fn declared_names_under(tools: Seq<Tool>, key: Seq<char>, name: Seq<char>)
    requires
        forall|j: int|
            0 <= j < tools.len() && canonical_name((#[trigger] tools[j]).name@) == key
                ==> tools[j].name@ == name,
    ensures
        declared_names(tools).contains_key(key) ==> declared_names(tools)[key] == name,
    decreases tools.len(),
{
    if tools.len() > 0 {
        let rest = tools.drop_last();
        assert forall|j: int|
            0 <= j < rest.len() && canonical_name((#[trigger] rest[j]).name@)
                == key implies rest[j].name@ == name by {
            assert(rest[j] == tools[j]);
        }
        declared_names_under(rest, key, name);
        assert(tools.last() == tools[tools.len() - 1]);
    }
}

/// The short names take nothing away from the declared ones: a name that would
/// be restored from the declared names alone is restored to the same.
pub proof fn declared_names_come_first(tools: Seq<Tool>, got: Seq<char>)
    requires
        declared_names(tools).contains_key(canonical_name(got)),
    ensures
        restored(response_names(tools), got) == restored(declared_names(tools), got),
{
    with_aliases_keeps(
        declared_names(tools),
        short_names(tool_names(tools)),
        tools,
        canonical_name(got),
    );
}

} // verus!
