//! Launch arguments and environment variables, as the user writes them and as a
//! sorted table of variables.
use vstd::prelude::*;
use crate::text::{
    self, Strip, char_is_ascii_alphabetic, char_is_ascii_alphanumeric, chars_of, nonempty_exec,
    owned, push_chars, push_string, slice_chars, split_exec, string_of, strip_exec, trim_exec,
};

verus! {

/// Lexicographic order of character sequences by code point; for strings this is
/// the order of `String`'s `Ord`, which compares UTF-8 bytes.
pub open spec fn key_less(a: Seq<char>, b: Seq<char>) -> bool
    decreases a.len(),
{
    if a.len() == 0 {
        b.len() > 0
    } else if b.len() == 0 {
        false
    } else if a[0] != b[0] {
        a[0] < b[0]
    } else {
        key_less(a.drop_first(), b.drop_first())
    }
}

/// Keys in strictly increasing order, so that no key occurs twice.
pub open spec fn sorted_keys(e: Seq<(Seq<char>, Seq<char>)>) -> bool {
    forall|i: int, j: int| 0 <= i < j < e.len() ==> key_less(#[trigger] e[i].0, #[trigger] e[j].0)
}

/// The table with `k` set to `v`: an existing entry for `k` takes the new value,
/// otherwise the entry goes before the first larger key.
pub open spec fn with_entry(e: Seq<(Seq<char>, Seq<char>)>, k: Seq<char>, v: Seq<char>) -> Seq<
    (Seq<char>, Seq<char>),
>
    decreases e.len(),
{
    if e.len() == 0 {
        seq![(k, v)]
    } else if e[0].0 == k {
        e.update(0, (k, v))
    } else if key_less(k, e[0].0) {
        seq![(k, v)] + e
    } else {
        seq![e[0]] + with_entry(e.drop_first(), k, v)
    }
}

/// The table as a map from keys to values.
pub open spec fn as_map(e: Seq<(Seq<char>, Seq<char>)>) -> Map<Seq<char>, Seq<char>>
    decreases e.len(),
{
    if e.len() == 0 {
        Map::empty()
    } else {
        as_map(e.drop_first()).insert(e[0].0, e[0].1)
    }
}

pub open spec fn pair_views(e: Seq<(String, String)>) -> Seq<(Seq<char>, Seq<char>)> {
    e.map_values(|p: (String, String)| (p.0@, p.1@))
}

/// No name sorts before itself.
pub proof fn lemma_key_less_irreflexive(a: Seq<char>)
    ensures
        !key_less(a, a),
    decreases a.len(),
{
    if a.len() > 0 {
        lemma_key_less_irreflexive(a.drop_first());
    }
}

/// Of two names, at most one sorts before the other, and a name that sorts before
/// another differs from it.
pub proof fn lemma_key_less_asymmetric(a: Seq<char>, b: Seq<char>)
    requires
        key_less(a, b),
    ensures
        !key_less(b, a),
        a != b,
    decreases a.len(),
{
    lemma_key_less_irreflexive(a);
    if a.len() > 0 && b.len() > 0 && a[0] == b[0] {
        lemma_key_less_asymmetric(a.drop_first(), b.drop_first());
    }
}

/// Of two different names, one sorts before the other.
pub proof fn lemma_key_less_total(a: Seq<char>, b: Seq<char>)
    requires
        a != b,
    ensures
        key_less(a, b) || key_less(b, a),
    decreases a.len(),
{
    if a.len() > 0 && b.len() > 0 && a[0] == b[0] {
        if a.drop_first() == b.drop_first() {
            assert(a =~= seq![a[0]] + a.drop_first());
            assert(b =~= seq![b[0]] + b.drop_first());
        }
        lemma_key_less_total(a.drop_first(), b.drop_first());
    } else if a.len() == 0 && b.len() == 0 {
        assert(a =~= b);
    }
}

/// The order of names is transitive.
pub proof fn lemma_key_less_transitive(a: Seq<char>, b: Seq<char>, c: Seq<char>)
    requires
        key_less(a, b),
        key_less(b, c),
    ensures
        key_less(a, c),
    decreases a.len(),
{
    if a.len() > 0 && b.len() > 0 && c.len() > 0 && a[0] == b[0] && b[0] == c[0] {
        lemma_key_less_transitive(a.drop_first(), b.drop_first(), c.drop_first());
    }
}

/// Every key of the updated table lies above `lo` when `k` and every key of the
/// table do.
pub proof fn lemma_with_entry_above(
    e: Seq<(Seq<char>, Seq<char>)>,
    k: Seq<char>,
    v: Seq<char>,
    lo: Seq<char>,
)
    requires
        forall|j: int| 0 <= j < e.len() ==> key_less(lo, #[trigger] e[j].0),
        key_less(lo, k),
    ensures
        forall|j: int|
            0 <= j < with_entry(e, k, v).len() ==> key_less(lo, #[trigger] with_entry(e, k, v)[j].0),
    decreases e.len(),
{
    if e.len() > 0 && e[0].0 != k && !key_less(k, e[0].0) {
        let rest = e.drop_first();
        assert forall|j: int| 0 <= j < rest.len() implies key_less(lo, #[trigger] rest[j].0) by {
            assert(rest[j] == e[j + 1]);
        }
        lemma_with_entry_above(rest, k, v, lo);
        let w = with_entry(e, k, v);
        assert forall|j: int| 0 <= j < w.len() implies key_less(lo, #[trigger] w[j].0) by {
            if j > 0 {
                assert(w[j] == with_entry(rest, k, v)[j - 1]);
            }
        }
    } else if e.len() > 0 && e[0].0 != k {
        let w = with_entry(e, k, v);
        assert forall|j: int| 0 <= j < w.len() implies key_less(lo, #[trigger] w[j].0) by {
            if j > 0 {
                assert(w[j] == e[j - 1]);
            }
        }
    }
}

/// Setting a key keeps a sorted table sorted.
pub proof fn lemma_with_entry_sorted(e: Seq<(Seq<char>, Seq<char>)>, k: Seq<char>, v: Seq<char>)
    requires
        sorted_keys(e),
    ensures
        sorted_keys(with_entry(e, k, v)),
    decreases e.len(),
{
    let w = with_entry(e, k, v);
    if e.len() == 0 {
    } else if e[0].0 == k {
        assert forall|i: int, j: int| 0 <= i < j < w.len() implies key_less(
            #[trigger] w[i].0,
            #[trigger] w[j].0,
        ) by {
            assert(key_less(e[i].0, e[j].0));
        }
    } else if key_less(k, e[0].0) {
        assert forall|i: int, j: int| 0 <= i < j < w.len() implies key_less(
            #[trigger] w[i].0,
            #[trigger] w[j].0,
        ) by {
            if i == 0 {
                if j > 1 {
                    assert(key_less(e[0].0, e[j - 1].0));
                    lemma_key_less_transitive(k, e[0].0, e[j - 1].0);
                }
            } else {
                assert(key_less(e[i - 1].0, e[j - 1].0));
            }
        }
    } else {
        lemma_key_less_total(k, e[0].0);
        let rest = e.drop_first();
        assert forall|i: int, j: int| 0 <= i < j < rest.len() implies key_less(
            #[trigger] rest[i].0,
            #[trigger] rest[j].0,
        ) by {
            assert(key_less(e[i + 1].0, e[j + 1].0));
        }
        lemma_with_entry_sorted(rest, k, v);
        assert forall|j: int| 0 <= j < rest.len() implies key_less(e[0].0, #[trigger] rest[j].0) by {
            assert(key_less(e[0].0, e[j + 1].0));
        }
        lemma_with_entry_above(rest, k, v, e[0].0);
        let wr = with_entry(rest, k, v);
        assert forall|i: int, j: int| 0 <= i < j < w.len() implies key_less(
            #[trigger] w[i].0,
            #[trigger] w[j].0,
        ) by {
            if i == 0 {
                assert(w[j] == wr[j - 1]);
            } else {
                assert(w[i] == wr[i - 1]);
                assert(w[j] == wr[j - 1]);
            }
        }
    }
}

/// Setting a key in the table sets it in the map the table stands for.
pub proof fn lemma_with_entry_map(e: Seq<(Seq<char>, Seq<char>)>, k: Seq<char>, v: Seq<char>)
    ensures
        as_map(with_entry(e, k, v)) == as_map(e).insert(k, v),
    decreases e.len(),
{
    let w = with_entry(e, k, v);
    if e.len() == 0 {
        assert(w.drop_first() =~= Seq::<(Seq<char>, Seq<char>)>::empty());
        assert(w[0] == (k, v));
        assert(as_map(w.drop_first()) == Map::<Seq<char>, Seq<char>>::empty());
        assert(as_map(w) == as_map(w.drop_first()).insert(k, v));
        assert(as_map(w) =~= as_map(e).insert(k, v));
    } else if e[0].0 == k {
        assert(w.drop_first() =~= e.drop_first());
        assert(as_map(w) =~= as_map(e).insert(k, v));
    } else if key_less(k, e[0].0) {
        assert(w.drop_first() =~= e);
    } else {
        let rest = e.drop_first();
        lemma_with_entry_map(rest, k, v);
        let wr = with_entry(rest, k, v);
        assert(w[0] == e[0]);
        assert(w.drop_first() =~= wr);
        assert(as_map(w) == as_map(wr).insert(e[0].0, e[0].1));
        assert(as_map(e) == as_map(rest).insert(e[0].0, e[0].1));
        assert(as_map(w) =~= as_map(e).insert(k, v));
    }
}

/// Environment variables, kept in increasing order of their names, each name once.
pub struct EnvVars {
    entries: Vec<(String, String)>,
}

impl View for EnvVars {
    type V = Seq<(Seq<char>, Seq<char>)>;

    closed spec fn view(&self) -> Seq<(Seq<char>, Seq<char>)> {
        pair_views(self.entries@)
    }
}

/// The lexicographic order of two character sequences.
pub fn key_less_exec(a: &Vec<char>, b: &Vec<char>) -> (r: bool)
    ensures
        r == key_less(a@, b@),
{
    let mut i: usize = 0;
    assert(a@.skip(0) =~= a@);
    assert(b@.skip(0) =~= b@);
    while i < a.len() && i < b.len() && a[i] == b[i]
        invariant
            i <= a.len(),
            i <= b.len(),
            key_less(a@, b@) == key_less(a@.skip(i as int), b@.skip(i as int)),
        decreases a.len() - i,
    {
        assert(a@.skip(i as int).drop_first() =~= a@.skip(i + 1));
        assert(b@.skip(i as int).drop_first() =~= b@.skip(i + 1));
        i += 1;
    }
    if i == a.len() {
        i < b.len()
    } else if i == b.len() {
        false
    } else {
        a[i] < b[i]
    }
}

impl EnvVars {
    #[verifier::type_invariant]
    spec fn well_ordered(self) -> bool {
        sorted_keys(pair_views(self.entries@))
    }

    /// No variables.
    pub fn new() -> (r: EnvVars)
        ensures
            r@ == Seq::<(Seq<char>, Seq<char>)>::empty(),
            sorted_keys(r@),
    {
        let r = EnvVars { entries: Vec::new() };
        assert(r@ =~= Seq::<(Seq<char>, Seq<char>)>::empty());
        r
    }

    /// Sets a variable, replacing an earlier value of the same name.
    pub fn insert(&mut self, key: String, value: String)
        ensures
            final(self)@ == with_entry(old(self)@, key@, value@),
            sorted_keys(final(self)@),
    {
        proof {
            use_type_invariant(&*self);
        }
        let ghost e = self@;
        let mut entries: Vec<(String, String)> = Vec::new();
        assert(pair_views(entries@) =~= Seq::<(Seq<char>, Seq<char>)>::empty());
        std::mem::swap(&mut entries, &mut self.entries);
        assert(pair_views(entries@) == e);
        let k = chars_of(key.as_str());
        let mut i: usize = 0;
        assert(e.take(0) + e.skip(0) =~= e);
        assert(e.take(0) + with_entry(e.skip(0), key@, value@) =~= with_entry(e, key@, value@));
        loop
            invariant
                i <= entries.len(),
                k@ == key@,
                pair_views(entries@) == e,
                with_entry(e, key@, value@) == e.take(i as int) + with_entry(
                    e.skip(i as int),
                    key@,
                    value@,
                ),
            ensures
                i <= entries.len(),
                pair_views(entries@) == e,
                with_entry(e, key@, value@) == e.take(i as int) + with_entry(
                    e.skip(i as int),
                    key@,
                    value@,
                ),
                i == entries.len() || e[i as int].0 == key@ || key_less(key@, e[i as int].0),
            decreases entries.len() - i,
        {
            if i == entries.len() {
                break;
            }
            let name = chars_of(entries[i].0.as_str());
            let ghost rest = e.skip(i as int);
            assert(rest[0] == e[i as int]);
            if text::chars_eq(&name, &k) || key_less_exec(&k, &name) {
                break;
            }
            assert(rest.drop_first() =~= e.skip(i + 1));
            assert(e.take(i as int) + (seq![rest[0]] + with_entry(rest.drop_first(), key@, value@))
                =~= e.take(i + 1) + with_entry(e.skip(i + 1), key@, value@));
            i += 1;
        }
        let ghost rest = e.skip(i as int);
        if i == entries.len() {
            assert(rest =~= Seq::<(Seq<char>, Seq<char>)>::empty());
            entries.push((key, value));
            assert(pair_views(entries@) =~= e.take(i as int) + seq![(key@, value@)]);
        } else {
            let name = chars_of(entries[i].0.as_str());
            assert(rest[0] == e[i as int]);
            if text::chars_eq(&name, &k) {
                entries.set(i, (key, value));
                assert(pair_views(entries@) =~= e.take(i as int) + rest.update(0, (key@, value@)));
            } else {
                entries.insert(i, (key, value));
                assert(pair_views(entries@) =~= e.take(i as int) + (seq![(key@, value@)] + rest));
            }
        }
        proof {
            lemma_with_entry_sorted(e, key@, value@);
        }
        self.entries = entries;
    }

    /// The number of variables.
    pub fn len(&self) -> (r: usize)
        ensures
            r == self@.len(),
    {
        self.entries.len()
    }

    /// The name and value of the `i`-th variable in order of names.
    pub fn entry(&self, i: usize) -> (r: (&String, &String))
        requires
            i < self@.len(),
        ensures
            (r.0@, r.1@) == self@[i as int],
    {
        let e = &self.entries[i];
        (&e.0, &e.1)
    }
}

/// An environment variable name: a letter or `_`, then letters, digits or `_`.
pub open spec fn valid_env_key(key: Seq<char>) -> bool {
    key.len() > 0 && (key[0] == '_' || text::is_ascii_alphabetic(key[0])) && forall|i: int|
        1 <= i < key.len() ==> (#[trigger] key[i] == '_' || text::is_ascii_alphanumeric(key[i]))
}

/// The index of the first `c` in `s`.
pub open spec fn find_char(s: Seq<char>, c: char) -> Option<int>
    decreases s.len(),
{
    if s.len() == 0 {
        None
    } else if s[0] == c {
        Some(0)
    } else {
        match find_char(s.drop_first(), c) {
            Some(i) => Some(i + 1),
            None => None,
        }
    }
}

/// The environment entries that a text holds: the pieces between newlines and
/// `;`, trimmed, the empty ones dropped.
pub open spec fn env_items(input: Seq<char>) -> Seq<Seq<char>> {
    text::nonempty_parts(
        text::trim_each(text::split_on(input, seq!['\n', ';'])),
    )
}

/// One `KEY=VALUE` entry: the key is what precedes the first `=`, trimmed; the
/// value is what follows, trimmed and stripped of surrounding `"`.
pub open spec fn env_entry(item: Seq<char>) -> Result<(Seq<char>, Seq<char>), Seq<char>> {
    match find_char(item, '=') {
        None => Err("Environment entry must be KEY=VALUE: "@ + item),
        Some(i) => {
            let key = text::trim(item.take(i));
            if !valid_env_key(key) {
                Err("Invalid environment key: "@ + key)
            } else {
                Ok((key, text::strip(text::trim(item.skip(i + 1)), Strip::Only('"'))))
            }
        },
    }
}

/// The entries set one after another into a sorted table; the first bad entry
/// stops it with its error.
pub open spec fn env_entries(items: Seq<Seq<char>>) -> Result<Seq<(Seq<char>, Seq<char>)>, Seq<char>>
    decreases items.len(),
{
    if items.len() == 0 {
        Ok(Seq::empty())
    } else {
        match env_entries(items.drop_last()) {
            Err(e) => Err(e),
            Ok(es) => match env_entry(items.last()) {
                Err(e) => Err(e),
                Ok(p) => Ok(with_entry(es, p.0, p.1)),
            },
        }
    }
}

pub open spec fn parsed_environment(input: Seq<char>) -> Result<Seq<(Seq<char>, Seq<char>)>, Seq<char>> {
    env_entries(env_items(input))
}

/// The map that the entries assign, each key holding the value of its last entry.
pub open spec fn assigned(items: Seq<Seq<char>>) -> Map<Seq<char>, Seq<char>>
    decreases items.len(),
{
    if items.len() == 0 {
        Map::empty()
    } else {
        match env_entry(items.last()) {
            Ok(p) => assigned(items.drop_last()).insert(p.0, p.1),
            Err(_) => assigned(items.drop_last()),
        }
    }
}

/// The argument lines of a text: its lines, trimmed, without blank lines and
/// without lines that start with `#`.
pub open spec fn argument_lines(lines: Seq<Seq<char>>) -> Seq<Seq<char>>
    decreases lines.len(),
{
    if lines.len() == 0 {
        Seq::empty()
    } else {
        let prev = argument_lines(lines.drop_last());
        let t = text::trim(lines.last());
        if t.len() > 0 && t[0] != '#' {
            prev.push(t)
        } else {
            prev
        }
    }
}

pub open spec fn parsed_arguments(input: Seq<char>) -> Seq<Seq<char>> {
    argument_lines(text::split_on(input, seq!['\n']))
}

/// Whether a name can be an environment variable.
pub fn is_valid_env_key(key: &str) -> (r: bool)
    ensures
        r == valid_env_key(key@),
{
    let k = chars_of(key);
    if k.len() == 0 {
        return false;
    }
    if !(k[0] == '_' || char_is_ascii_alphabetic(k[0])) {
        return false;
    }
    let mut i: usize = 1;
    while i < k.len()
        invariant
            1 <= i <= k.len(),
            k@ == key@,
            forall|j: int| 1 <= j < i ==> (#[trigger] k@[j] == '_' || text::is_ascii_alphanumeric(k@[j])),
        decreases k.len() - i,
    {
        if !(k[i] == '_' || char_is_ascii_alphanumeric(k[i])) {
            return false;
        }
        i += 1;
    }
    true
}

/// The index of the first `c` in `s`.
fn find_char_exec(s: &Vec<char>, c: char) -> (r: Option<usize>)
    ensures
        match r {
            Some(i) => i < s.len() && find_char(s@, c) == Some(i as int),
            None => find_char(s@, c) is None,
        },
{
    let mut i: usize = 0;
    assert(s@.skip(0) =~= s@);
    while i < s.len()
        invariant
            i <= s.len(),
            find_char(s@, c) == match find_char(s@.skip(i as int), c) {
                Some(j) => Some(j + i),
                None => None,
            },
        decreases s.len() - i,
    {
        assert(s@.skip(i as int)[0] == s@[i as int]);
        if s[i] == c {
            return Some(i);
        }
        assert(s@.skip(i as int).drop_first() =~= s@.skip(i + 1));
        i += 1;
    }
    None
}

fn parse_entry(item: &Vec<char>) -> (r: Result<(String, String), String>)
    ensures
        match r {
            Ok(p) => env_entry(item@) == Ok::<(Seq<char>, Seq<char>), Seq<char>>((p.0@, p.1@)),
            Err(e) => env_entry(item@) == Err::<(Seq<char>, Seq<char>), Seq<char>>(e@),
        },
{
    match find_char_exec(item, '=') {
        None => {
            let mut msg = owned("Environment entry must be KEY=VALUE: ");
            push_chars(&mut msg, item);
            Err(msg)
        },
        Some(i) => {
            let before = slice_chars(item, 0, i);
            assert(before@ =~= item@.take(i as int));
            let key = string_of(&trim_exec(&before));
            if !is_valid_env_key(key.as_str()) {
                let mut msg = owned("Invalid environment key: ");
                msg.append(key.as_str());
                return Err(msg);
            }
            let after = slice_chars(item, i + 1, item.len());
            assert(after@ =~= item@.skip(i + 1));
            let value = strip_exec(&trim_exec(&after), Strip::Only('"'));
            Ok((key, string_of(&value)))
        },
    }
}

/// Parses `KEY=VALUE` entries separated by newlines or `;` into a table of
/// variables sorted by name, a later entry for a name replacing an earlier one.
pub fn parse_environment(input: &str) -> (r: Result<EnvVars, String>)
    ensures
        match r {
            Ok(vars) => parsed_environment(input@) == Ok::<
                Seq<(Seq<char>, Seq<char>)>,
                Seq<char>,
            >(vars@),
            Err(e) => parsed_environment(input@) == Err::<Seq<(Seq<char>, Seq<char>)>, Seq<char>>(
                e@,
            ),
        },
{
    let v = chars_of(input);
    let mut seps: Vec<char> = Vec::new();
    seps.push('\n');
    seps.push(';');
    assert(seps@ =~= seq!['\n', ';']);
    let pieces = split_exec(&v, &seps);
    let mut trimmed: Vec<Vec<char>> = Vec::new();
    let mut i: usize = 0;
    let ghost all = text::split_on(input@, seq!['\n', ';']);
    while i < pieces.len()
        invariant
            i <= pieces.len(),
            text::views(pieces@) == all,
            all.len() == pieces.len(),
            trimmed.len() == i,
            text::views(trimmed@) == text::trim_each(all.take(i as int)),
        decreases pieces.len() - i,
    {
        assert(pieces@[i as int]@ == all[i as int]);
        let t = trim_exec(&pieces[i]);
        assert(t@ == text::trim(all[i as int]));
        let ghost before = trimmed@;
        trimmed.push(t);
        assert(trimmed@ == before.push(t));
        assert(text::views(trimmed@)[i as int] == text::trim(all[i as int]));
        i += 1;
        assert forall|j: int| 0 <= j < i implies #[trigger] text::views(trimmed@)[j] == text::trim(all[j]) by {
            if j < i - 1 {
                assert(text::views(before)[j] == text::trim_each(all.take(i - 1))[j]);
            }
        }
        assert(text::views(trimmed@) =~= text::trim_each(all.take(i as int)));
    }
    assert(all.take(i as int) =~= all);
    let items = nonempty_exec(trimmed);
    let ghost its = text::views(items@);
    assert(its == env_items(input@));
    let mut vars = EnvVars::new();
    let mut k: usize = 0;
    assert(its.take(0) =~= Seq::<Seq<char>>::empty());
    while k < items.len()
        invariant
            k <= items.len(),
            text::views(items@) == its,
            its == env_items(input@),
            env_entries(its.take(k as int)) == Ok::<Seq<(Seq<char>, Seq<char>)>, Seq<char>>(
                vars@,
            ),
        decreases items.len() - k,
    {
        let ghost pre = its.take(k as int);
        assert(its.take(k + 1).drop_last() =~= pre);
        assert(its.take(k + 1).last() == items@[k as int]@);
        match parse_entry(&items[k]) {
            Err(e) => {
                proof {
                    lemma_env_entries_stop(its, k as int, e@);
                }
                return Err(e);
            },
            Ok(p) => {
                vars.insert(p.0, p.1);
            },
        }
        k += 1;
    }
    assert(its.take(k as int) =~= its);
    Ok(vars)
}

/// Once an entry fails, the whole text fails with the first such error.
proof fn lemma_env_entries_stop(items: Seq<Seq<char>>, k: int, err: Seq<char>)
    requires
        0 <= k < items.len(),
        env_entries(items.take(k)) is Ok,
        env_entry(items[k]) == Err::<(Seq<char>, Seq<char>), Seq<char>>(err),
    ensures
        env_entries(items) == Err::<Seq<(Seq<char>, Seq<char>)>, Seq<char>>(err),
    decreases items.len(),
{
    assert(items.take(k + 1).drop_last() =~= items.take(k));
    assert(items.take(k + 1).last() == items[k]);
    if k + 1 == items.len() {
        assert(items.take(k + 1) =~= items);
    } else {
        lemma_env_entries_stop_prefix(items, k + 1);
    }
}

/// A failure of a prefix is the failure of the whole.
proof fn lemma_env_entries_stop_prefix(items: Seq<Seq<char>>, n: int)
    requires
        0 <= n <= items.len(),
        env_entries(items.take(n)) is Err,
    ensures
        env_entries(items) == env_entries(items.take(n)),
    decreases items.len() - n,
{
    if n < items.len() {
        assert(items.take(n + 1).drop_last() =~= items.take(n));
        lemma_env_entries_stop_prefix(items, n + 1);
    } else {
        assert(items.take(n) =~= items);
    }
}

/// The argument lines of a text.
pub fn parse_argument_lines(input: &str) -> (r: Vec<String>)
    ensures
        text::string_views(r@) == parsed_arguments(input@),
        text::string_views(r@) == arguments_of(trimmed_lines(text::split_on(input@, seq!['\n']))),
{
    proof {
        argument_lines_keep_every_argument(text::split_on(input@, seq!['\n']));
    }
    let v = chars_of(input);
    let mut nl: Vec<char> = Vec::new();
    nl.push('\n');
    assert(nl@ =~= seq!['\n']);
    let lines = split_exec(&v, &nl);
    let ghost ls = text::views(lines@);
    let mut out: Vec<String> = Vec::new();
    let mut i: usize = 0;
    assert(ls.take(0) =~= Seq::<Seq<char>>::empty());
    assert(text::string_views(out@) =~= Seq::<Seq<char>>::empty());
    while i < lines.len()
        invariant
            i <= lines.len(),
            text::views(lines@) == ls,
            text::string_views(out@) == argument_lines(ls.take(i as int)),
        decreases lines.len() - i,
    {
        assert(ls.take(i + 1).drop_last() =~= ls.take(i as int));
        assert(ls.take(i + 1).last() == lines@[i as int]@);
        let t = trim_exec(&lines[i]);
        if t.len() > 0 && t[0] != '#' {
            push_string(&mut out, string_of(&t));
        }
        i += 1;
    }
    assert(ls.take(i as int) =~= ls);
    out
}

/// A parsed environment holds each variable once, in increasing order of names,
/// and each variable has the value of the last entry that sets it.
pub proof fn environment_keeps_last_assignment(input: Seq<char>)
    ensures
        parsed_environment(input) matches Ok(es) ==> sorted_keys(es) && as_map(es) == assigned(
            env_items(input),
        ),
{
    lemma_env_entries_assign(env_items(input));
}

proof fn lemma_env_entries_assign(items: Seq<Seq<char>>)
    ensures
        env_entries(items) matches Ok(es) ==> sorted_keys(es) && as_map(es) == assigned(items),
    decreases items.len(),
{
    if items.len() > 0 {
        lemma_env_entries_assign(items.drop_last());
        if let Ok(es0) = env_entries(items.drop_last()) {
            if let Ok(p) = env_entry(items.last()) {
                lemma_with_entry_sorted(es0, p.0, p.1);
                lemma_with_entry_map(es0, p.0, p.1);
            }
        }
    }
}

/// Setting a variable sets it in the table's map and keeps every other variable.
pub proof fn setting_a_variable_updates_only_it(
    e: Seq<(Seq<char>, Seq<char>)>,
    k: Seq<char>,
    v: Seq<char>,
)
    requires
        sorted_keys(e),
    ensures
        sorted_keys(with_entry(e, k, v)),
        as_map(with_entry(e, k, v)) == as_map(e).insert(k, v),
{
    lemma_with_entry_sorted(e, k, v);
    lemma_with_entry_map(e, k, v);
}

proof fn lemma_with_entry_keys_valid(e: Seq<(Seq<char>, Seq<char>)>, k: Seq<char>, v: Seq<char>)
    requires
        forall|i: int| 0 <= i < e.len() ==> valid_env_key(#[trigger] e[i].0),
        valid_env_key(k),
    ensures
        forall|i: int| 0 <= i < with_entry(e, k, v).len() ==> valid_env_key(
            #[trigger] with_entry(e, k, v)[i].0,
        ),
    decreases e.len(),
{
    let w = with_entry(e, k, v);
    if e.len() > 0 && e[0].0 != k && !key_less(k, e[0].0) {
        let rest = e.drop_first();
        assert forall|i: int| 0 <= i < rest.len() implies valid_env_key(#[trigger] rest[i].0) by {
            assert(rest[i] == e[i + 1]);
        }
        lemma_with_entry_keys_valid(rest, k, v);
        assert forall|i: int| 0 <= i < w.len() implies valid_env_key(#[trigger] w[i].0) by {
            if i > 0 {
                assert(w[i] == with_entry(rest, k, v)[i - 1]);
            }
        }
    } else if e.len() > 0 && e[0].0 != k {
        assert forall|i: int| 0 <= i < w.len() implies valid_env_key(#[trigger] w[i].0) by {
            if i > 0 {
                assert(w[i] == e[i - 1]);
            }
        }
    }
}

proof fn lemma_env_entries_keys_valid(items: Seq<Seq<char>>)
    ensures
        env_entries(items) matches Ok(es) ==> forall|i: int|
            0 <= i < es.len() ==> valid_env_key(#[trigger] es[i].0),
    decreases items.len(),
{
    if items.len() > 0 {
        lemma_env_entries_keys_valid(items.drop_last());
        if let Ok(es0) = env_entries(items.drop_last()) {
            if let Ok(p) = env_entry(items.last()) {
                lemma_with_entry_keys_valid(es0, p.0, p.1);
            }
        }
    }
}

/// Every name in a parsed environment is a valid variable name, so it can stand
/// unquoted in an `export`.
pub proof fn parsed_names_are_valid(input: Seq<char>)
    ensures
        parsed_environment(input) matches Ok(es) ==> forall|i: int|
            0 <= i < es.len() ==> valid_env_key(#[trigger] es[i].0),
{
    lemma_env_entries_keys_valid(env_items(input));
}

/// Every parsed argument is trimmed, not blank, and not a `#` comment.
pub proof fn arguments_are_trimmed_and_uncommented(lines: Seq<Seq<char>>)
    ensures
        forall|i: int|
            0 <= i < argument_lines(lines).len() ==> {
                let a = #[trigger] argument_lines(lines)[i];
                &&& a.len() > 0
                &&& a[0] != '#'
                &&& text::trim(a) == a
            },
    decreases lines.len(),
{
    if lines.len() > 0 {
        arguments_are_trimmed_and_uncommented(lines.drop_last());
        let t = text::trim(lines.last());
        lemma_trim_idempotent(lines.last());
        let prev = argument_lines(lines.drop_last());
        if t.len() > 0 && t[0] != '#' {
            assert forall|i: int| 0 <= i < prev.push(t).len() implies {
                let a = #[trigger] prev.push(t)[i];
                &&& a.len() > 0
                &&& a[0] != '#'
                &&& text::trim(a) == a
            } by {
                if i < prev.len() {
                    assert(prev.push(t)[i] == prev[i]);
                }
            }
        }
    }
}

/// Trimming twice is trimming once.
proof fn lemma_trim_idempotent(s: Seq<char>)
    ensures
        text::trim(text::trim(s)) == text::trim(s),
{
    let t = text::trim(s);
    text::lemma_strip_ends(s, Strip::Whitespace);
    if t.len() > 0 {
        assert(text::strip_start(t, Strip::Whitespace) == t);
        assert(text::strip_end(t, Strip::Whitespace) == t);
    } else {
        assert(text::strip_start(t, Strip::Whitespace) == t);
        assert(text::strip_end(t, Strip::Whitespace) == t);
    }
}

/// The lines, each trimmed.
pub open spec fn trimmed_lines(lines: Seq<Seq<char>>) -> Seq<Seq<char>> {
    lines.map_values(|l: Seq<char>| text::trim(l))
}

/// A trimmed line that is an argument: not blank, and not starting with `#`.
pub open spec fn is_argument(t: Seq<char>) -> bool {
    t.len() > 0 && t[0] != '#'
}

/// The trimmed lines that are arguments, in order.
pub open spec fn arguments_of(trimmed: Seq<Seq<char>>) -> Seq<Seq<char>> {
    trimmed.filter(|t: Seq<char>| is_argument(t))
}

/// The argument lines are all the trimmed lines, in their order, but the blank ones
/// and those that start with `#`: a `#` later in a line keeps it.
pub proof fn argument_lines_keep_every_argument(lines: Seq<Seq<char>>)
    ensures
        argument_lines(lines) == arguments_of(trimmed_lines(lines)),
    decreases lines.len(),
{
    reveal(Seq::filter);
    if lines.len() > 0 {
        argument_lines_keep_every_argument(lines.drop_last());
        assert(trimmed_lines(lines).drop_last() =~= trimmed_lines(lines.drop_last()));
        assert(trimmed_lines(lines).last() == text::trim(lines.last()));
    }
}

proof fn lemma_split_without_separators(s: Seq<char>, seps: Seq<char>)
    requires
        forall|i: int| 0 <= i < s.len() ==> !seps.contains(#[trigger] s[i]),
    ensures
        text::split_on(s, seps) == seq![s],
    decreases s.len(),
{
    if s.len() == 0 {
        assert(s =~= Seq::<char>::empty());
    } else {
        let pre = s.drop_last();
        assert forall|i: int| 0 <= i < pre.len() implies !seps.contains(#[trigger] pre[i]) by {
            assert(pre[i] == s[i]);
        }
        lemma_split_without_separators(pre, seps);
        assert(!seps.contains(s[s.len() - 1]));
        let prev = seq![pre];
        assert(pre.push(s.last()) =~= s);
        assert(prev.update(0, pre.push(s.last())) =~= seq![s]);
    }
}

/// Entries are separated only by newlines and `;`: a text that holds neither, and
/// is not blank, is one entry, all of it but the whitespace around it (commas,
/// spaces and `=` included).
pub proof fn one_line_is_one_entry(s: Seq<char>)
    requires
        forall|i: int| 0 <= i < s.len() ==> s[i] != '\n' && s[i] != ';',
        text::trim(s).len() > 0,
    ensures
        env_items(s) == seq![text::trim(s)],
{
    let seps = seq!['\n', ';'];
    assert forall|i: int| 0 <= i < s.len() implies !seps.contains(#[trigger] s[i]) by {
        if seps.contains(s[i]) {
            let k = choose|k: int| 0 <= k < seps.len() && seps[k] == s[i];
            assert(seps[k] == '\n' || seps[k] == ';');
        }
    }
    lemma_split_without_separators(s, seps);
    let parts = text::trim_each(seq![s]);
    assert(parts =~= seq![text::trim(s)]);
    assert(parts.drop_last() =~= Seq::<Seq<char>>::empty());
    assert(text::nonempty_parts(Seq::<Seq<char>>::empty()) == Seq::<Seq<char>>::empty());
    assert(Seq::<Seq<char>>::empty().push(text::trim(s)) =~= seq![text::trim(s)]);
}

} // verus!
