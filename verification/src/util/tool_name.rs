//! Tool names in their declared spelling.
//!
//! The client's tool registry is case-sensitive, and some upstreams hand a
//! tool name back in another case or with underscores in front. So the
//! declared names are recorded by a canonical form when the request goes out,
//! and looked up by it when a name comes back.

use vstd::prelude::*;
use vstd::utf8::is_ascii_chars;

use crate::text::{
    ascii_lower, drop_leading, drop_leading_run, is_white_space, lowercase, same, trim, trim_end,
    trim_start, trim_start_matches, trimmed, trimmed_between,
};
use crate::types::claude::Tool;

verus! {

/// A map from texts to texts.
#[derive(Debug)]
pub struct ToolNameMap {
    entries: Vec<(String, String)>,
}

/// The map that `entries` make up.
pub open spec fn entries_map(entries: Seq<(String, String)>) -> Map<Seq<char>, Seq<char>>
    decreases entries.len(),
{
    if entries.len() == 0 {
        Map::empty()
    } else {
        entries_map(entries.drop_last()).insert(entries.last().0@, entries.last().1@)
    }
}

/// No key occurs twice.
pub open spec fn keys_differ(entries: Seq<(String, String)>) -> bool {
    forall|i: int, j: int|
        0 <= i < j < entries.len() ==> (#[trigger] entries[i]).0@ != (#[trigger] entries[j]).0@
}

proof fn entries_map_at(entries: Seq<(String, String)>, i: int)
    requires
        keys_differ(entries),
        0 <= i < entries.len(),
    ensures
        entries_map(entries).contains_key(entries[i].0@),
        entries_map(entries)[entries[i].0@] == entries[i].1@,
    decreases entries.len(),
{
    if i < entries.len() - 1 {
        assert(entries.drop_last()[i] == entries[i]);
        entries_map_at(entries.drop_last(), i);
        assert(entries[i].0@ != entries[entries.len() - 1].0@);
    }
}

proof fn entries_map_without(entries: Seq<(String, String)>, key: Seq<char>)
    requires
        forall|i: int| 0 <= i < entries.len() ==> (#[trigger] entries[i]).0@ != key,
    ensures
        !entries_map(entries).contains_key(key),
    decreases entries.len(),
{
    if entries.len() > 0 {
        entries_map_without(entries.drop_last(), key);
    }
}

proof fn entries_map_len(entries: Seq<(String, String)>)
    requires
        keys_differ(entries),
    ensures
        entries_map(entries).dom().finite(),
        entries_map(entries).len() == entries.len(),
    decreases entries.len(),
{
    if entries.len() > 0 {
        let rest = entries.drop_last();
        entries_map_len(rest);
        assert forall|i: int| 0 <= i < rest.len() implies (#[trigger] rest[i]).0@
            != entries.last().0@ by {
            assert(rest[i] == entries[i]);
            assert(entries[i].0@ != entries[entries.len() - 1].0@);
        }
        entries_map_without(rest, entries.last().0@);
        assert(entries_map(entries).dom() =~= entries_map(rest).dom().insert(entries.last().0@));
    } else {
        assert(entries_map(entries).dom() =~= Set::empty());
    }
}

/// Replacing the value of one entry changes the map under its key only.
proof fn entries_map_update(entries: Seq<(String, String)>, i: int, entry: (String, String))
    requires
        keys_differ(entries),
        0 <= i < entries.len(),
        entry.0@ == entries[i].0@,
    ensures
        keys_differ(entries.update(i, entry)),
        entries_map(entries.update(i, entry)) == entries_map(entries).insert(entry.0@, entry.1@),
    decreases entries.len(),
{
    let updated = entries.update(i, entry);
    let rest = entries.drop_last();
    if i == entries.len() - 1 {
        assert(updated.drop_last() =~= rest);
        assert(entries_map(updated) =~= entries_map(entries).insert(entry.0@, entry.1@));
    } else {
        assert(rest[i] == entries[i]);
        entries_map_update(rest, i, entry);
        assert(updated.drop_last() =~= rest.update(i, entry));
        assert(entries[i].0@ != entries[entries.len() - 1].0@);
        assert(entries_map(updated) =~= entries_map(entries).insert(entry.0@, entry.1@));
    }
}

impl View for ToolNameMap {
    type V = Map<Seq<char>, Seq<char>>;

    closed spec fn view(&self) -> Map<Seq<char>, Seq<char>> {
        entries_map(self.entries@)
    }
}

impl ToolNameMap {
    #[verifier::type_invariant]
    spec fn well_formed(self) -> bool {
        keys_differ(self.entries@)
    }

    /// The empty map.
    pub fn new() -> (r: ToolNameMap)
        ensures
            r@ == Map::<Seq<char>, Seq<char>>::empty(),
    {
        ToolNameMap { entries: Vec::new() }
    }

    /// The number of keys.
    pub fn len(&self) -> (r: usize)
        ensures
            self@.dom().finite(),
            r == self@.len(),
    {
        proof {
            use_type_invariant(self);
            entries_map_len(self.entries@);
        }
        self.entries.len()
    }

    /// Tells whether there is no key.
    pub fn is_empty(&self) -> (r: bool)
        ensures
            r == (self@ == Map::<Seq<char>, Seq<char>>::empty()),
    {
        proof {
            use_type_invariant(self);
            if self.entries@.len() > 0 {
                entries_map_at(self.entries@, 0);
            }
        }
        self.entries.len() == 0
    }

    /// Where `key` stands among the entries.
    fn position(&self, key: &str) -> (r: Option<usize>)
        ensures
            match r {
                Some(i) => i < self.entries@.len() && self.entries@[i as int].0@ == key@
                    && self@.contains_key(key@) && self@[key@] == self.entries@[i as int].1@,
                None => !self@.contains_key(key@) && forall|i: int|
                    0 <= i < self.entries@.len() ==> (#[trigger] self.entries@[i]).0@ != key@,
            },
    {
        let mut i: usize = 0;
        while i < self.entries.len()
            invariant
                i <= self.entries@.len(),
                forall|k: int| 0 <= k < i ==> (#[trigger] self.entries@[k]).0@ != key@,
            decreases self.entries.len() - i,
        {
            if same(self.entries[i].0.as_str(), key) {
                proof {
                    use_type_invariant(self);
                    entries_map_at(self.entries@, i as int);
                }
                return Some(i);
            }
            i += 1;
        }
        proof {
            entries_map_without(self.entries@, key@);
        }
        None
    }

    /// The value of `key`.
    pub fn get(&self, key: &str) -> (r: Option<&String>)
        ensures
            match r {
                Some(value) => self@.contains_key(key@) && self@[key@] == value@,
                None => !self@.contains_key(key@),
            },
    {
        match self.position(key) {
            Some(i) => Some(&self.entries[i].1),
            None => None,
        }
    }

    /// Gives `key` the value `value`, whatever it had before.
    pub fn insert(&mut self, key: &str, value: &str)
        ensures
            final(self)@ == old(self)@.insert(key@, value@),
    {
        let place = self.position(key);
        let mut entries: Vec<(String, String)> = Vec::new();
        let ghost before = self.entries@;
        proof {
            use_type_invariant(&*self);
        }
        std::mem::swap(&mut self.entries, &mut entries);
        match place {
            Some(i) => {
                entries.set(i, (key.to_string(), value.to_string()));
                proof {
                    entries_map_update(before, i as int, entries@[i as int]);
                }
            },
            None => {
                entries.push((key.to_string(), value.to_string()));
                assert(entries@.drop_last() =~= before);
            },
        }
        self.entries = entries;
    }

    /// Gives `key` the value `value` unless it has one.
    pub fn insert_if_absent(&mut self, key: &str, value: &str)
        ensures
            final(self)@ == (if old(self)@.contains_key(key@) {
                old(self)@
            } else {
                old(self)@.insert(key@, value@)
            }),
    {
        if self.position(key).is_none() {
            self.insert(key, value);
        }
    }
}

/// The canonical form of a name: without the white space around it, without
/// underscores in front, in lower case.
pub open spec fn canonical_name(name: Seq<char>) -> Seq<char> {
    lowercase(drop_leading(trimmed(name), '_'))
}

/// The canonical form of a name. Names that differ only in case, in leading
/// underscores or in the white space around them have the same.
pub fn canonical(name: &str) -> (r: String)
    ensures
        r@ == canonical_name(name@),
{
    let bare = trim(name);
    let bare = trim_start_matches(bare.as_str(), '_');
    bare.as_str().to_lowercase()
}

/// The declared names by their canonical forms. The first of the names with
/// one form counts, and a name whose form is empty is left out.
pub open spec fn declared_names(tools: Seq<Tool>) -> Map<Seq<char>, Seq<char>>
    decreases tools.len(),
{
    if tools.len() == 0 {
        Map::empty()
    } else {
        let earlier = declared_names(tools.drop_last());
        let key = canonical_name(tools.last().name@);
        if key.len() == 0 || earlier.contains_key(key) {
            earlier
        } else {
            earlier.insert(key, tools.last().name@)
        }
    }
}

/// The declared names of `tools`, if there are any.
pub open spec fn declared_names_of(tools: Option<&Vec<Tool>>) -> Map<Seq<char>, Seq<char>> {
    match tools {
        Some(tools) => declared_names(tools@),
        None => Map::empty(),
    }
}

/// Records the names of the declared tools by their canonical forms.
pub fn build_map(tools: Option<&Vec<Tool>>) -> (r: ToolNameMap)
    ensures
        r@ == declared_names_of(tools),
{
    let mut map = ToolNameMap::new();
    let tools = match tools {
        Some(tools) => tools,
        None => return map,
    };
    let mut i: usize = 0;
    assert(tools@.take(0) =~= Seq::<Tool>::empty());
    while i < tools.len()
        invariant
            i <= tools@.len(),
            map@ == declared_names(tools@.take(i as int)),
        decreases tools.len() - i,
    {
        assert(tools@.take(i + 1).drop_last() =~= tools@.take(i as int));
        let key = canonical(tools[i].name.as_str());
        if !same(key.as_str(), "") {
            map.insert_if_absent(key.as_str(), tools[i].name.as_str());
        }
        proof {
            reveal_strlit("");
            assert((key@ == ""@) == (key@.len() == 0)) by {
                if key@.len() == 0 {
                    assert(key@ =~= ""@);
                }
            }
        }
        i += 1;
    }
    assert(tools@.take(i as int) =~= tools@);
    map
}

/// The name that `got` stands for.
pub open spec fn restored(names: Map<Seq<char>, Seq<char>>, got: Seq<char>) -> Seq<char> {
    let key = canonical_name(got);
    if got.len() > 0 && names.contains_key(key) {
        names[key]
    } else {
        got
    }
}

/// The declared spelling of the name `got`; `got` itself where no tool has a
/// name like it.
pub fn restore(map: &ToolNameMap, got: &str) -> (r: String)
    ensures
        r@ == restored(map@, got@),
{
    proof {
        reveal_strlit("");
        if got@.len() == 0 {
            assert(got@ =~= ""@);
        }
    }
    if same(got, "") || map.is_empty() {
        return got.to_string();
    }
    match map.get(canonical(got).as_str()) {
        Some(name) => name.clone(),
        None => got.to_string(),
    }
}

/// All white space.
pub open spec fn is_blank(s: Seq<char>) -> bool {
    forall|i: int| 0 <= i < s.len() ==> is_white_space(#[trigger] s[i])
}

/// A name without white space at its ends and without underscores in front.
pub open spec fn is_bare(name: Seq<char>) -> bool {
    name.len() > 0 ==> !is_white_space(name[0]) && name[0] != '_' && !is_white_space(name.last())
}

/// Leading underscores and white space around the name do not count: the
/// canonical form is the bare name in lower case.
pub proof fn spelling_does_not_count(
    before: Seq<char>,
    underscores: Seq<char>,
    name: Seq<char>,
    after: Seq<char>,
)
    requires
        is_blank(before),
        is_blank(after),
        forall|i: int| 0 <= i < underscores.len() ==> #[trigger] underscores[i] == '_',
        is_bare(name),
    ensures
        canonical_name(before + underscores + name + after) == lowercase(name),
{
    let core = underscores + name;
    if core.len() > 0 {
        assert(core[0] == if underscores.len() > 0 {
            underscores[0]
        } else {
            name[0]
        });
        assert(core.last() == if name.len() > 0 {
            name.last()
        } else {
            underscores[underscores.len() - 1]
        });
    }
    trimmed_between(before, core, after);
    assert(before + underscores + name + after =~= before + core + after);
    drop_leading_run(underscores, name, '_');
}

/// The two texts differ at most in the case of ASCII letters.
pub open spec fn differ_in_case(a: Seq<char>, b: Seq<char>) -> bool {
    &&& is_ascii_chars(a)
    &&& is_ascii_chars(b)
    &&& a.len() == b.len()
    &&& forall|i: int|
        0 <= i < a.len() ==> ascii_lower(#[trigger] a[i]) == ascii_lower(#[trigger] b[i])
}

proof fn part_differs_in_case(a: Seq<char>, b: Seq<char>, from: int, to: int)
    requires
        differ_in_case(a, b),
        0 <= from <= to <= a.len(),
    ensures
        differ_in_case(a.subrange(from, to), b.subrange(from, to)),
{
    let c = a.subrange(from, to);
    let d = b.subrange(from, to);
    assert forall|i: int| 0 <= i < c.len() implies ascii_lower(#[trigger] c[i]) == ascii_lower(
        #[trigger] d[i],
    ) && '\0' <= c[i] <= '\u{7f}' && '\0' <= d[i] <= '\u{7f}' by {
        assert(c[i] == a[from + i]);
        assert(d[i] == b[from + i]);
    }
}

proof fn trimmed_starts_differ_in_case(a: Seq<char>, b: Seq<char>)
    requires
        differ_in_case(a, b),
    ensures
        differ_in_case(trim_start(a), trim_start(b)),
    decreases a.len(),
{
    if a.len() > 0 {
        assert(ascii_lower(a[0]) == ascii_lower(b[0]));
        part_differs_in_case(a, b, 1, a.len() as int);
        assert(a.skip(1) =~= a.subrange(1, a.len() as int));
        assert(b.skip(1) =~= b.subrange(1, b.len() as int));
        trimmed_starts_differ_in_case(a.skip(1), b.skip(1));
    }
}

proof fn trimmed_ends_differ_in_case(a: Seq<char>, b: Seq<char>)
    requires
        differ_in_case(a, b),
    ensures
        differ_in_case(trim_end(a), trim_end(b)),
    decreases a.len(),
{
    if a.len() > 0 {
        assert(ascii_lower(a[a.len() - 1]) == ascii_lower(b[b.len() - 1]));
        part_differs_in_case(a, b, 0, a.len() - 1);
        assert(a.drop_last() =~= a.subrange(0, a.len() - 1));
        assert(b.drop_last() =~= b.subrange(0, b.len() - 1));
        trimmed_ends_differ_in_case(a.drop_last(), b.drop_last());
    }
}

proof fn bare_names_differ_in_case(a: Seq<char>, b: Seq<char>)
    requires
        differ_in_case(a, b),
    ensures
        differ_in_case(drop_leading(a, '_'), drop_leading(b, '_')),
    decreases a.len(),
{
    if a.len() > 0 {
        assert(ascii_lower(a[0]) == ascii_lower(b[0]));
        part_differs_in_case(a, b, 1, a.len() as int);
        assert(a.skip(1) =~= a.subrange(1, a.len() as int));
        assert(b.skip(1) =~= b.subrange(1, b.len() as int));
        bare_names_differ_in_case(a.skip(1), b.skip(1));
    }
}

/// The case of ASCII letters does not count.
pub proof fn case_does_not_count(a: Seq<char>, b: Seq<char>)
    requires
        differ_in_case(a, b),
    ensures
        canonical_name(a) == canonical_name(b),
{
    trimmed_starts_differ_in_case(a, b);
    trimmed_ends_differ_in_case(trim_start(a), trim_start(b));
    bare_names_differ_in_case(trimmed(a), trimmed(b));
    assert(canonical_name(a) =~= canonical_name(b));
}

/// What is recorded under a key is the first declared name with that form.
proof fn declared_names_at(tools: Seq<Tool>, i: int)
    requires
        0 <= i < tools.len(),
        canonical_name(tools[i].name@).len() > 0,
        forall|j: int|
            0 <= j < i ==> canonical_name((#[trigger] tools[j]).name@) != canonical_name(
                tools[i].name@,
            ),
    ensures
        declared_names(tools).contains_key(canonical_name(tools[i].name@)),
        declared_names(tools)[canonical_name(tools[i].name@)] == tools[i].name@,
    decreases tools.len(),
{
    let rest = tools.drop_last();
    if i < tools.len() - 1 {
        assert(rest[i] == tools[i]);
        declared_names_at(rest, i);
    } else {
        declared_names_without(rest, canonical_name(tools[i].name@));
    }
}

/// A form that no declared name has is not recorded.
proof fn declared_names_without(tools: Seq<Tool>, key: Seq<char>)
    requires
        forall|j: int| 0 <= j < tools.len() ==> canonical_name((#[trigger] tools[j]).name@) != key,
    ensures
        !declared_names(tools).contains_key(key),
    decreases tools.len(),
{
    if tools.len() > 0 {
        declared_names_without(tools.drop_last(), key);
    }
}

/// The canonical form of the empty name is empty.
pub proof fn empty_name_has_empty_form(name: Seq<char>)
    ensures
        name.len() == 0 ==> canonical_name(name).len() == 0,
{
}

/// Whatever an upstream makes of a declared name, as long as the canonical
/// form stays the same, the declared name comes back. Of several declared
/// names with one form it is the first.
pub proof fn declared_name_is_restored(tools: Seq<Tool>, i: int, got: Seq<char>)
    requires
        0 <= i < tools.len(),
        forall|j: int|
            0 <= j < i ==> canonical_name((#[trigger] tools[j]).name@) != canonical_name(
                tools[i].name@,
            ),
        canonical_name(got).len() > 0,
        canonical_name(got) == canonical_name(tools[i].name@),
    ensures
        restored(declared_names(tools), got) == tools[i].name@,
{
    declared_names_at(tools, i);
    empty_name_has_empty_form(got);
}

/// A name like no declared one passes through unchanged.
pub proof fn unknown_name_passes_through(tools: Seq<Tool>, got: Seq<char>)
    requires
        forall|j: int|
            0 <= j < tools.len() ==> canonical_name((#[trigger] tools[j]).name@)
                != canonical_name(got),
    ensures
        restored(declared_names(tools), got) == got,
{
    declared_names_without(tools, canonical_name(got));
}

} // verus!
