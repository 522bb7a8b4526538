//! File names and identifiers derived from a shortcut's name.
use vstd::prelude::*;
use crate::text::{
    self, Strip, char_is_ascii_alphanumeric, char_to_ascii_lowercase, chars_of, join_exec,
    nonempty_exec, split_exec, string_of, strip_exec, trim_exec,
};

verus! {

/// A character kept in a file name (ASCII letters and digits, `-`, `_`, space),
/// or `-` in place of any other.
pub open spec fn file_name_char(c: char) -> char {
    if text::is_ascii_alphanumeric(c) || c == '-' || c == '_' || c == ' ' {
        c
    } else {
        '-'
    }
}

/// The name with every character mapped by `file_name_char`, trimmed of
/// whitespace and then of `.` at both ends.
pub open spec fn sanitized(value: Seq<char>) -> Seq<char> {
    text::strip(text::trim(value.map_values(|c: char| file_name_char(c))), Strip::Only('.'))
}

/// A character of a slug: an ASCII letter or digit in lowercase, or `-`.
pub open spec fn slug_char(c: char) -> char {
    if text::is_ascii_alphanumeric(c) {
        text::ascii_lower(c)
    } else {
        '-'
    }
}

/// The characters mapped by `slug_char`, split on `-`, the empty parts dropped,
/// and the rest joined with `-`.
pub open spec fn slug(value: Seq<char>) -> Seq<char> {
    text::join(
        text::nonempty_parts(
            text::split_on(value.map_values(|c: char| slug_char(c)), seq!['-']),
        ),
        seq!['-'],
    )
}

/// A file-system-safe form of a shortcut name.
pub fn sanitize_file_name(value: &str) -> (r: String)
    ensures
        r@ == sanitized(value@),
        r@.len() <= value@.len(),
        sanitized(r@) == r@,
{
    proof {
        sanitizing_is_stable(value@);
    }
    let v = chars_of(value);
    let mut mapped: Vec<char> = Vec::new();
    let mut i: usize = 0;
    while i < v.len()
        invariant
            i <= v.len(),
            mapped@ == v@.take(i as int).map_values(|c: char| file_name_char(c)),
        decreases v.len() - i,
    {
        let c = v[i];
        let m = if char_is_ascii_alphanumeric(c) || c == '-' || c == '_' || c == ' ' {
            c
        } else {
            '-'
        };
        mapped.push(m);
        i += 1;
        assert(mapped@ =~= v@.take(i as int).map_values(|c: char| file_name_char(c)));
    }
    assert(v@.take(i as int) =~= v@);
    let trimmed = trim_exec(&mapped);
    let stripped = strip_exec(&trimmed, Strip::Only('.'));
    string_of(&stripped)
}

/// A lowercase, dash-separated identifier made of the ASCII letters and digits of
/// a name.
pub fn slugify(value: &str) -> (r: String)
    ensures
        r@ == slug(value@),
        dashless(r@) == alnum_lowered(value@),
        slug(r@) == r@,
{
    proof {
        slugs_keep_letters_and_digits(value@);
        slugs_are_stable(value@);
    }
    let v = chars_of(value);
    let mut mapped: Vec<char> = Vec::new();
    let mut i: usize = 0;
    while i < v.len()
        invariant
            i <= v.len(),
            mapped@ == v@.take(i as int).map_values(|c: char| slug_char(c)),
        decreases v.len() - i,
    {
        let c = v[i];
        let m = if char_is_ascii_alphanumeric(c) {
            char_to_ascii_lowercase(c)
        } else {
            '-'
        };
        mapped.push(m);
        i += 1;
        assert(mapped@ =~= v@.take(i as int).map_values(|c: char| slug_char(c)));
    }
    assert(v@.take(i as int) =~= v@);
    let mut dash: Vec<char> = Vec::new();
    dash.push('-');
    assert(dash@ =~= seq!['-']);
    let parts = split_exec(&mapped, &dash);
    let kept = nonempty_exec(parts);
    let joined = join_exec(&kept, &dash);
    string_of(&joined)
}

/// A character that may stand in a sanitized file name.
pub open spec fn file_safe(c: char) -> bool {
    text::is_ascii_alphanumeric(c) || c == '-' || c == '_' || c == ' '
}

/// A sanitized name holds only ASCII letters, digits, `-`, `_` and spaces (so no
/// `/` and no `.`), and neither starts nor ends with a space.
pub proof fn sanitized_names_are_safe(value: Seq<char>)
    ensures
        forall|i: int| 0 <= i < sanitized(value).len() ==> file_safe(#[trigger] sanitized(value)[i]),
        sanitized(value).len() > 0 ==> sanitized(value)[0] != ' ' && sanitized(value).last() != ' ',
{
    let mapped = value.map_values(|c: char| file_name_char(c));
    assert forall|i: int| 0 <= i < mapped.len() implies file_safe(#[trigger] mapped[i]) by {}
    let safe = |c: char| file_safe(c);
    text::lemma_strip_keeps(mapped, Strip::Whitespace, safe);
    let t = text::trim(mapped);
    text::lemma_strip_ends(mapped, Strip::Whitespace);
    assert forall|i: int| 0 <= i < t.len() implies c_is_not_dot(#[trigger] t[i]) by {
        assert(safe(t[i]));
    }
    lemma_strip_nothing(t, '.');
    assert(sanitized(value) == t);
    assert forall|i: int| 0 <= i < t.len() implies file_safe(#[trigger] t[i]) by {
        assert(safe(t[i]));
    }
}

spec fn c_is_not_dot(c: char) -> bool {
    c != '.'
}

/// Stripping a character that does not occur changes nothing.
proof fn lemma_strip_nothing(s: Seq<char>, q: char)
    requires
        forall|i: int| 0 <= i < s.len() ==> c_is_not_dot(#[trigger] s[i]),
        q == '.',
    ensures
        text::strip(s, Strip::Only(q)) == s,
{
    if s.len() > 0 {
        assert(c_is_not_dot(s[0]));
        assert(c_is_not_dot(s.last()));
    }
}

proof fn lemma_strip_shorter(s: Seq<char>, mode: Strip)
    ensures
        text::strip(s, mode).len() <= s.len(),
{
    text::lemma_strip_start_suffix(s, mode);
    text::lemma_strip_end_prefix(text::strip_start(s, mode), mode);
}

/// A sanitized name is no longer than the name, and sanitizing it again changes
/// nothing.
pub proof fn sanitizing_is_stable(value: Seq<char>)
    ensures
        sanitized(value).len() <= value.len(),
        sanitized(sanitized(value)) == sanitized(value),
{
    let mapped = value.map_values(|c: char| file_name_char(c));
    lemma_strip_shorter(mapped, Strip::Whitespace);
    lemma_strip_shorter(text::trim(mapped), Strip::Only('.'));
    let w = sanitized(value);
    sanitized_names_are_safe(value);
    let m = w.map_values(|c: char| file_name_char(c));
    assert(m =~= w) by {
        assert forall|i: int| 0 <= i < w.len() implies #[trigger] m[i] == w[i] by {
            assert(file_safe(w[i]));
        }
    }
    if w.len() > 0 {
        assert(file_safe(w[0]));
        assert(file_safe(w[w.len() - 1]));
        assert(!text::is_whitespace(w[0]));
        assert(!text::is_whitespace(w.last()));
    }
    assert(text::strip_start(w, Strip::Whitespace) == w);
    assert(text::strip_end(w, Strip::Whitespace) == w);
    assert forall|i: int| 0 <= i < w.len() implies c_is_not_dot(#[trigger] w[i]) by {
        assert(file_safe(w[i]));
    }
    lemma_strip_nothing(w, '.');
}

/// A character that may stand in a slug.
pub open spec fn slug_safe(c: char) -> bool {
    text::is_ascii_lower(c) || text::is_ascii_digit(c) || c == '-'
}

proof fn lemma_join_keeps(parts: Seq<Seq<char>>, sep: Seq<char>)
    requires
        forall|i: int, j: int|
            0 <= i < parts.len() && 0 <= j < parts[i].len() ==> slug_safe(#[trigger] parts[i][j]),
        forall|j: int| 0 <= j < sep.len() ==> slug_safe(#[trigger] sep[j]),
    ensures
        forall|j: int| 0 <= j < text::join(parts, sep).len() ==> slug_safe(#[trigger] text::join(parts, sep)[j]),
    decreases parts.len(),
{
    if parts.len() == 1 {
        assert forall|j: int| 0 <= j < parts[0].len() implies slug_safe(#[trigger] parts[0][j]) by {}
    } else if parts.len() > 1 {
        lemma_join_keeps(parts.drop_last(), sep);
        let prev = text::join(parts.drop_last(), sep);
        let last = parts.last();
        assert forall|j: int| 0 <= j < (prev + sep + last).len() implies slug_safe(
            #[trigger] (prev + sep + last)[j],
        ) by {
            if j >= prev.len() + sep.len() {
                assert(last[j - prev.len() - sep.len()] == parts[parts.len() - 1][j - prev.len()
                    - sep.len()]);
            }
        }
    }
}

proof fn lemma_nonempty_parts_keeps(parts: Seq<Seq<char>>)
    requires
        forall|i: int, j: int|
            0 <= i < parts.len() && 0 <= j < parts[i].len() ==> slug_safe(#[trigger] parts[i][j]),
    ensures
        forall|i: int, j: int|
            0 <= i < text::nonempty_parts(parts).len() && 0 <= j < text::nonempty_parts(parts)[i].len()
                ==> slug_safe(#[trigger] text::nonempty_parts(parts)[i][j]),
    decreases parts.len(),
{
    if parts.len() > 0 {
        let prev = parts.drop_last();
        assert forall|i: int, j: int|
            0 <= i < prev.len() && 0 <= j < prev[i].len() implies slug_safe(#[trigger] prev[i][j]) by {
            assert(prev[i] == parts[i]);
        }
        lemma_nonempty_parts_keeps(prev);
        let np = text::nonempty_parts(parts);
        assert forall|i: int, j: int|
            0 <= i < np.len() && 0 <= j < np[i].len() implies slug_safe(#[trigger] np[i][j]) by {
            if parts.last().len() > 0 && i == np.len() - 1 {
                assert(np[i] == parts[parts.len() - 1]);
            } else {
                assert(np[i] == text::nonempty_parts(prev)[i]);
            }
        }
    }
}

proof fn lemma_split_keeps(s: Seq<char>, seps: Seq<char>)
    requires
        forall|j: int| 0 <= j < s.len() ==> slug_safe(#[trigger] s[j]),
    ensures
        forall|i: int, j: int|
            0 <= i < text::split_on(s, seps).len() && 0 <= j < text::split_on(s, seps)[i].len()
                ==> slug_safe(#[trigger] text::split_on(s, seps)[i][j]),
    decreases s.len(),
{
    if s.len() > 0 {
        let pre = s.drop_last();
        assert forall|j: int| 0 <= j < pre.len() implies slug_safe(#[trigger] pre[j]) by {
            assert(pre[j] == s[j]);
        }
        lemma_split_keeps(pre, seps);
        text::lemma_split_on_nonempty(pre, seps);
        let prev = text::split_on(pre, seps);
        let sp = text::split_on(s, seps);
        assert(slug_safe(s[s.len() - 1]));
        assert forall|i: int, j: int|
            0 <= i < sp.len() && 0 <= j < sp[i].len() implies slug_safe(#[trigger] sp[i][j]) by {
            if !seps.contains(s.last()) && i == prev.len() - 1 {
                if j < prev[i].len() {
                    assert(sp[i][j] == prev[i][j]);
                }
            } else if i < prev.len() {
                assert(sp[i] == prev[i]);
            }
        }
    }
}

/// A slug holds only lowercase ASCII letters, digits and `-`.
pub proof fn slugs_are_lowercase_ascii(value: Seq<char>)
    ensures
        forall|i: int| 0 <= i < slug(value).len() ==> slug_safe(#[trigger] slug(value)[i]),
{
    let mapped = value.map_values(|c: char| slug_char(c));
    assert forall|j: int| 0 <= j < mapped.len() implies slug_safe(#[trigger] mapped[j]) by {
        let c = value[j];
        if text::is_ascii_alphanumeric(c) {
            if text::is_ascii_upper(c) {
                assert(text::ascii_lower(c) == (((c as u8) + 32) as char));
            }
        }
    }
    lemma_split_keeps(mapped, seq!['-']);
    lemma_nonempty_parts_keeps(text::split_on(mapped, seq!['-']));
    assert forall|j: int| 0 <= j < seq!['-'].len() implies slug_safe(#[trigger] seq!['-'][j]) by {}
    lemma_join_keeps(text::nonempty_parts(text::split_on(mapped, seq!['-'])), seq!['-']);
}

/// A text with no `-` at either end and no two `-` in a row.
pub open spec fn dashes_separate(x: Seq<char>) -> bool {
    &&& x.len() > 0 ==> x[0] != '-' && x.last() != '-'
    &&& forall|i: int| 0 <= i < x.len() - 1 ==> !(#[trigger] x[i] == '-' && x[i + 1] == '-')
}

proof fn lemma_split_parts_dash_free(s: Seq<char>)
    ensures
        forall|i: int, j: int|
            0 <= i < text::split_on(s, seq!['-']).len() && 0 <= j < text::split_on(s, seq!['-'])[i].len()
                ==> #[trigger] text::split_on(s, seq!['-'])[i][j] != '-',
    decreases s.len(),
{
    if s.len() > 0 {
        let pre = s.drop_last();
        lemma_split_parts_dash_free(pre);
        text::lemma_split_on_nonempty(pre, seq!['-']);
        let prev = text::split_on(pre, seq!['-']);
        let sp = text::split_on(s, seq!['-']);
        if !seq!['-'].contains(s.last()) {
            assert(s.last() != '-') by {
                if s.last() == '-' {
                    assert(seq!['-'][0] == s.last());
                }
            }
        }
        assert forall|i: int, j: int|
            0 <= i < sp.len() && 0 <= j < sp[i].len() implies #[trigger] sp[i][j] != '-' by {
            if !seq!['-'].contains(s.last()) && i == prev.len() - 1 {
                if j < prev[i].len() {
                    assert(sp[i][j] == prev[i][j]);
                }
            } else if i < prev.len() {
                assert(sp[i] == prev[i]);
            }
        }
    }
}

proof fn lemma_nonempty_parts_dash_free(parts: Seq<Seq<char>>)
    requires
        forall|i: int, j: int| 0 <= i < parts.len() && 0 <= j < parts[i].len() ==> #[trigger] parts[i][j] != '-',
    ensures
        forall|i: int| 0 <= i < text::nonempty_parts(parts).len() ==> (#[trigger] text::nonempty_parts(parts)[i]).len() > 0,
        forall|i: int, j: int|
            0 <= i < text::nonempty_parts(parts).len() && 0 <= j < text::nonempty_parts(parts)[i].len()
                ==> #[trigger] text::nonempty_parts(parts)[i][j] != '-',
    decreases parts.len(),
{
    if parts.len() > 0 {
        let prev = parts.drop_last();
        assert forall|i: int, j: int| 0 <= i < prev.len() && 0 <= j < prev[i].len() implies #[trigger] prev[i][j] != '-' by {
            assert(prev[i] == parts[i]);
        }
        lemma_nonempty_parts_dash_free(prev);
        let np = text::nonempty_parts(parts);
        let npp = text::nonempty_parts(prev);
        if parts.last().len() > 0 {
            assert forall|i: int| 0 <= i < np.len() implies (#[trigger] np[i]).len() > 0 by {
                if i < npp.len() {
                    assert(np[i] == npp[i]);
                }
            }
            assert forall|i: int, j: int| 0 <= i < np.len() && 0 <= j < np[i].len() implies #[trigger] np[i][j] != '-' by {
                if i < npp.len() {
                    assert(np[i] == npp[i]);
                } else {
                    assert(np[i] == parts[parts.len() - 1]);
                }
            }
        }
    }
}

proof fn lemma_join_dashes(parts: Seq<Seq<char>>)
    requires
        forall|i: int| 0 <= i < parts.len() ==> (#[trigger] parts[i]).len() > 0,
        forall|i: int, j: int| 0 <= i < parts.len() && 0 <= j < parts[i].len() ==> #[trigger] parts[i][j] != '-',
    ensures
        dashes_separate(text::join(parts, seq!['-'])),
    decreases parts.len(),
{
    if parts.len() == 1 {
        let p = parts[0];
        assert(p[0] == parts[0][0]);
        assert(p.last() == parts[0][p.len() - 1]);
        assert forall|i: int| 0 <= i < p.len() - 1 implies !(#[trigger] p[i] == '-' && p[i + 1] == '-') by {
            assert(p[i] == parts[0][i]);
        }
    } else if parts.len() > 1 {
        let prev = parts.drop_last();
        assert forall|i: int| 0 <= i < prev.len() implies (#[trigger] prev[i]).len() > 0 by {
            assert(prev[i] == parts[i]);
        }
        assert forall|i: int, j: int| 0 <= i < prev.len() && 0 <= j < prev[i].len() implies #[trigger] prev[i][j] != '-' by {
            assert(prev[i] == parts[i]);
        }
        lemma_join_dashes(prev);
        lemma_join_nonempty(prev);
        let a = text::join(prev, seq!['-']);
        let b = parts.last();
        assert(b.len() > 0);
        let x = a + seq!['-'] + b;
        assert(x[0] == a[0]);
        assert(x.last() == b[b.len() - 1]);
        assert(b[b.len() - 1] == parts[parts.len() - 1][b.len() - 1]);
        assert forall|i: int| 0 <= i < x.len() - 1 implies !(#[trigger] x[i] == '-' && x[i + 1] == '-') by {
            if i < a.len() - 1 {
                assert(x[i] == a[i]);
                assert(x[i + 1] == a[i + 1]);
            } else if i == a.len() - 1 {
                assert(x[i] == a.last());
            } else if i == a.len() {
                assert(x[i + 1] == b[0]);
                assert(b[0] == parts[parts.len() - 1][0]);
            } else {
                assert(x[i] == b[i - a.len() - 1]);
                assert(b[i - a.len() - 1] == parts[parts.len() - 1][i - a.len() - 1]);
            }
        }
    }
}

proof fn lemma_join_nonempty(parts: Seq<Seq<char>>)
    requires
        parts.len() > 0,
        forall|i: int| 0 <= i < parts.len() ==> (#[trigger] parts[i]).len() > 0,
    ensures
        text::join(parts, seq!['-']).len() > 0,
    decreases parts.len(),
{
    if parts.len() == 1 {
        assert(parts[0].len() > 0);
    } else {
        assert(parts[parts.len() - 1].len() > 0);
    }
}

/// In a slug, dashes only separate runs of letters and digits: none at either end
/// and never two in a row.
pub proof fn slug_dashes_only_separate(value: Seq<char>)
    ensures
        dashes_separate(slug(value)),
{
    let mapped = value.map_values(|c: char| slug_char(c));
    lemma_split_parts_dash_free(mapped);
    lemma_nonempty_parts_dash_free(text::split_on(mapped, seq!['-']));
    lemma_join_dashes(text::nonempty_parts(text::split_on(mapped, seq!['-'])));
}

/// The text with its `-` taken out.
pub open spec fn dashless(s: Seq<char>) -> Seq<char>
    decreases s.len(),
{
    if s.len() == 0 {
        Seq::empty()
    } else if s.last() == '-' {
        dashless(s.drop_last())
    } else {
        dashless(s.drop_last()).push(s.last())
    }
}

/// The ASCII letters and digits of a text, in order, in lowercase.
pub open spec fn alnum_lowered(s: Seq<char>) -> Seq<char>
    decreases s.len(),
{
    if s.len() == 0 {
        Seq::empty()
    } else if text::is_ascii_alphanumeric(s.last()) {
        alnum_lowered(s.drop_last()).push(text::ascii_lower(s.last()))
    } else {
        alnum_lowered(s.drop_last())
    }
}

/// The parts one after another.
pub open spec fn concat(parts: Seq<Seq<char>>) -> Seq<char>
    decreases parts.len(),
{
    if parts.len() == 0 {
        Seq::empty()
    } else {
        concat(parts.drop_last()) + parts.last()
    }
}

proof fn lemma_lower_alnum(c: char)
    requires
        text::is_ascii_alphanumeric(c),
    ensures
        text::ascii_lower(c) != '-',
        slug_safe(text::ascii_lower(c)),
{
    if text::is_ascii_upper(c) {
        assert(text::ascii_lower(c) == (((c as u8) + 32) as char));
    }
}

proof fn lemma_dashless_mapped(v: Seq<char>)
    ensures
        dashless(v.map_values(|c: char| slug_char(c))) == alnum_lowered(v),
    decreases v.len(),
{
    if v.len() > 0 {
        let m = v.map_values(|c: char| slug_char(c));
        assert(m.drop_last() =~= v.drop_last().map_values(|c: char| slug_char(c)));
        lemma_dashless_mapped(v.drop_last());
        if text::is_ascii_alphanumeric(v.last()) {
            lemma_lower_alnum(v.last());
        }
    }
}

proof fn lemma_dashless_concat(a: Seq<char>, b: Seq<char>)
    ensures
        dashless(a + b) == dashless(a) + dashless(b),
    decreases b.len(),
{
    if b.len() == 0 {
        assert(a + b =~= a);
    } else {
        assert((a + b).drop_last() =~= a + b.drop_last());
        lemma_dashless_concat(a, b.drop_last());
    }
}

proof fn lemma_dashless_free(s: Seq<char>)
    requires
        forall|j: int| 0 <= j < s.len() ==> #[trigger] s[j] != '-',
    ensures
        dashless(s) == s,
    decreases s.len(),
{
    if s.len() > 0 {
        assert(s.last() == s[s.len() - 1]);
        assert forall|j: int| 0 <= j < s.drop_last().len() implies #[trigger] s.drop_last()[j] != '-' by {
            assert(s.drop_last()[j] == s[j]);
        }
        lemma_dashless_free(s.drop_last());
        assert(s.drop_last().push(s.last()) =~= s);
    }
}

proof fn lemma_concat_split(s: Seq<char>)
    ensures
        concat(text::split_on(s, seq!['-'])) == dashless(s),
    decreases s.len(),
{
    if s.len() == 0 {
        let parts = seq![Seq::<char>::empty()];
        assert(parts.drop_last() =~= Seq::<Seq<char>>::empty());
        assert(concat(Seq::<Seq<char>>::empty()) == Seq::<char>::empty());
        assert(concat(parts) == concat(parts.drop_last()) + parts.last());
        assert(concat(parts) =~= Seq::<char>::empty());
    } else {
        let pre = s.drop_last();
        lemma_concat_split(pre);
        text::lemma_split_on_nonempty(pre, seq!['-']);
        let prev = text::split_on(pre, seq!['-']);
        if seq!['-'].contains(s.last()) {
            assert(s.last() == '-') by {
                let k = choose|k: int| 0 <= k < 1 && seq!['-'][k] == s.last();
            }
            assert(prev.push(Seq::empty()).drop_last() =~= prev);
            assert(concat(prev) + Seq::<char>::empty() =~= concat(prev));
        } else {
            assert(s.last() != '-') by {
                if s.last() == '-' {
                    assert(seq!['-'][0] == s.last());
                }
            }
            let up = prev.update(prev.len() - 1, prev.last().push(s.last()));
            assert(up.drop_last() =~= prev.drop_last());
            assert(concat(up) =~= concat(prev).push(s.last()));
        }
    }
}

proof fn lemma_concat_nonempty(parts: Seq<Seq<char>>)
    ensures
        concat(text::nonempty_parts(parts)) == concat(parts),
    decreases parts.len(),
{
    if parts.len() > 0 {
        lemma_concat_nonempty(parts.drop_last());
        if parts.last().len() > 0 {
            let q = text::nonempty_parts(parts.drop_last());
            assert(q.push(parts.last()).drop_last() =~= q);
        } else {
            assert(concat(parts.drop_last()) + parts.last() =~= concat(parts.drop_last()));
        }
    }
}

proof fn lemma_dashless_join(parts: Seq<Seq<char>>)
    requires
        forall|i: int, j: int| 0 <= i < parts.len() && 0 <= j < parts[i].len() ==> #[trigger] parts[i][j] != '-',
    ensures
        dashless(text::join(parts, seq!['-'])) == concat(parts),
    decreases parts.len(),
{
    if parts.len() > 0 {
        let prev = parts.drop_last();
        assert forall|i: int, j: int| 0 <= i < prev.len() && 0 <= j < prev[i].len() implies #[trigger] prev[i][j] != '-' by {
            assert(prev[i] == parts[i]);
        }
        lemma_dashless_join(prev);
        let last = parts.last();
        assert forall|j: int| 0 <= j < last.len() implies #[trigger] last[j] != '-' by {
            assert(last[j] == parts[parts.len() - 1][j]);
        }
        lemma_dashless_free(last);
        if parts.len() == 1 {
            assert(Seq::<char>::empty() + parts[0] =~= parts[0]);
        } else {
            let a = text::join(prev, seq!['-']);
            lemma_dashless_concat(a + seq!['-'], last);
            lemma_dashless_concat(a, seq!['-']);
            let d = seq!['-'];
            assert(d.last() == '-');
            assert(d.drop_last() =~= Seq::<char>::empty());
            assert(dashless(Seq::<char>::empty()) == Seq::<char>::empty());
            assert(dashless(d) == dashless(d.drop_last()));
            assert(dashless(d) == Seq::<char>::empty());
            assert(dashless(a) + Seq::<char>::empty() =~= dashless(a));
        }
    }
}

/// A slug keeps the ASCII letters and digits of the name, in order and in
/// lowercase: taking its dashes out gives exactly them.
pub proof fn slugs_keep_letters_and_digits(value: Seq<char>)
    ensures
        dashless(slug(value)) == alnum_lowered(value),
{
    let mapped = value.map_values(|c: char| slug_char(c));
    let parts = text::split_on(mapped, seq!['-']);
    lemma_split_parts_dash_free(mapped);
    lemma_nonempty_parts_dash_free(parts);
    lemma_dashless_join(text::nonempty_parts(parts));
    lemma_concat_nonempty(parts);
    lemma_concat_split(mapped);
    lemma_dashless_mapped(value);
}

proof fn lemma_join_split(s: Seq<char>)
    ensures
        text::join(text::split_on(s, seq!['-']), seq!['-']) == s,
    decreases s.len(),
{
    if s.len() > 0 {
        let pre = s.drop_last();
        lemma_join_split(pre);
        text::lemma_split_on_nonempty(pre, seq!['-']);
        let prev = text::split_on(pre, seq!['-']);
        if seq!['-'].contains(s.last()) {
            assert(s.last() == '-') by {
                let k = choose|k: int| 0 <= k < 1 && seq!['-'][k] == s.last();
            }
            let sp = prev.push(Seq::empty());
            assert(sp.drop_last() =~= prev);
            assert(pre + seq!['-'] + Seq::<char>::empty() =~= s);
        } else {
            let up = prev.update(prev.len() - 1, prev.last().push(s.last()));
            if prev.len() == 1 {
                assert(up[0] =~= pre.push(s.last()));
                assert(pre.push(s.last()) =~= s);
            } else {
                assert(up.drop_last() =~= prev.drop_last());
                let a = text::join(prev.drop_last(), seq!['-']);
                assert(a + seq!['-'] + prev.last().push(s.last()) =~= (a + seq!['-'] + prev.last()).push(
                    s.last(),
                ));
                assert(pre.push(s.last()) =~= s);
            }
        }
    }
}

/// Where dashes only separate, every part between them holds something.
proof fn lemma_split_parts_filled(s: Seq<char>)
    requires
        s.len() > 0,
        s[0] != '-',
        forall|i: int| 0 <= i < s.len() - 1 ==> !(#[trigger] s[i] == '-' && s[i + 1] == '-'),
    ensures
        forall|i: int| 0 <= i < text::split_on(s, seq!['-']).len() - 1 ==> (#[trigger] text::split_on(s, seq!['-'])[i]).len() > 0,
        (text::split_on(s, seq!['-']).last().len() == 0) == (s.last() == '-'),
    decreases s.len(),
{
    let pre = s.drop_last();
    let sp = text::split_on(s, seq!['-']);
    text::lemma_split_on_nonempty(pre, seq!['-']);
    let prev = text::split_on(pre, seq!['-']);
    let is_dash = seq!['-'].contains(s.last());
    assert(is_dash == (s.last() == '-')) by {
        if s.last() == '-' {
            assert(seq!['-'][0] == s.last());
        }
        if is_dash {
            let k = choose|k: int| 0 <= k < 1 && seq!['-'][k] == s.last();
        }
    }
    if s.len() == 1 {
        assert(prev =~= seq![Seq::<char>::empty()]);
        assert(s.last() == s[0]);
    } else {
        assert forall|i: int| 0 <= i < pre.len() - 1 implies !(#[trigger] pre[i] == '-' && pre[i + 1] == '-') by {
            assert(pre[i] == s[i]);
            assert(pre[i + 1] == s[i + 1]);
        }
        assert(pre[0] == s[0]);
        lemma_split_parts_filled(pre);
        if is_dash {
            assert(pre.last() != '-') by {
                assert(s[s.len() - 2] == pre.last());
                assert(!(s[s.len() - 2] == '-' && s[s.len() - 1] == '-'));
            }
            assert forall|i: int| 0 <= i < sp.len() - 1 implies (#[trigger] sp[i]).len() > 0 by {
                assert(sp[i] == prev[i]);
            }
        } else {
            assert forall|i: int| 0 <= i < sp.len() - 1 implies (#[trigger] sp[i]).len() > 0 by {
                assert(sp[i] == prev[i]);
            }
        }
    }
}

proof fn lemma_nonempty_parts_all(parts: Seq<Seq<char>>)
    requires
        forall|i: int| 0 <= i < parts.len() ==> (#[trigger] parts[i]).len() > 0,
    ensures
        text::nonempty_parts(parts) == parts,
    decreases parts.len(),
{
    if parts.len() > 0 {
        let prev = parts.drop_last();
        assert forall|i: int| 0 <= i < prev.len() implies (#[trigger] prev[i]).len() > 0 by {
            assert(prev[i] == parts[i]);
        }
        lemma_nonempty_parts_all(prev);
        assert(parts[parts.len() - 1].len() > 0);
        assert(prev.push(parts.last()) =~= parts);
    }
}

/// Slugging a slug changes nothing.
pub proof fn slugs_are_stable(value: Seq<char>)
    ensures
        slug(slug(value)) == slug(value),
{
    let w = slug(value);
    slugs_are_lowercase_ascii(value);
    slug_dashes_only_separate(value);
    let m = w.map_values(|c: char| slug_char(c));
    assert(m =~= w) by {
        assert forall|i: int| 0 <= i < w.len() implies #[trigger] m[i] == w[i] by {
            assert(slug_safe(w[i]));
        }
    }
    if w.len() == 0 {
        assert(text::split_on(w, seq!['-']) =~= seq![Seq::<char>::empty()]);
        let parts = seq![Seq::<char>::empty()];
        assert(parts.last().len() == 0);
        assert(parts.drop_last() =~= Seq::<Seq<char>>::empty());
        assert(text::nonempty_parts(Seq::<Seq<char>>::empty()) == Seq::<Seq<char>>::empty());
        assert(text::nonempty_parts(parts) == text::nonempty_parts(parts.drop_last()));
        assert(text::nonempty_parts(parts) =~= Seq::<Seq<char>>::empty());
    } else {
        lemma_split_parts_filled(w);
        let sp = text::split_on(w, seq!['-']);
        assert forall|i: int| 0 <= i < sp.len() implies (#[trigger] sp[i]).len() > 0 by {
            if i == sp.len() - 1 {
                assert(sp[i] == sp.last());
            }
        }
        lemma_nonempty_parts_all(sp);
        lemma_join_split(w);
    }
}

} // verus!
