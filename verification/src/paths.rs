//! Unix paths as character sequences: joining, file names and extensions, and
//! the default locations under the home folder.
use vstd::prelude::*;
use crate::naming::{self, sanitize_file_name};
use crate::text::{self, chars_of, owned, slice_chars, split_exec, string_of};

verus! {

/// `Path::join` on Unix: an absolute `rel` replaces `base`; otherwise `rel` is
/// appended, with a `/` between unless `base` is empty or already ends in `/`.
pub open spec fn joined(base: Seq<char>, rel: Seq<char>) -> Seq<char> {
    if rel.len() > 0 && rel[0] == '/' {
        rel
    } else if base.len() > 0 && base.last() != '/' {
        base + seq!['/'] + rel
    } else {
        base + rel
    }
}

/// The last component of a path that is neither empty nor `.`.
pub open spec fn last_named(parts: Seq<Seq<char>>) -> Option<Seq<char>>
    decreases parts.len(),
{
    if parts.len() == 0 {
        None
    } else if parts.last().len() == 0 || parts.last() == seq!['.'] {
        last_named(parts.drop_last())
    } else {
        Some(parts.last())
    }
}

/// `Path::file_name`: the final component, unless the path ends in `..` or has no
/// normal component.
pub open spec fn file_name(path: Seq<char>) -> Option<Seq<char>> {
    match last_named(text::split_on(path, seq!['/'])) {
        Some(name) => if name == seq!['.', '.'] {
            None
        } else {
            Some(name)
        },
        None => None,
    }
}

/// The index of the last `.` in a name.
pub open spec fn last_dot(name: Seq<char>) -> Option<int>
    decreases name.len(),
{
    if name.len() == 0 {
        None
    } else if name.last() == '.' {
        Some(name.len() - 1)
    } else {
        last_dot(name.drop_last())
    }
}

/// `Path::file_stem`: the file name up to its last `.`, or the whole file name
/// when it has no `.` other than a leading one.
pub open spec fn file_stem(path: Seq<char>) -> Option<Seq<char>> {
    match file_name(path) {
        Some(name) => match last_dot(name) {
            Some(i) => if i == 0 {
                Some(name)
            } else {
                Some(name.take(i))
            },
            None => Some(name),
        },
        None => None,
    }
}

/// `Path::extension`: what follows the last `.` of the file name, when that `.`
/// is not its first character.
pub open spec fn extension(path: Seq<char>) -> Option<Seq<char>> {
    match file_name(path) {
        Some(name) => match last_dot(name) {
            Some(i) => if i == 0 {
                None
            } else {
                Some(name.skip(i + 1))
            },
            None => None,
        },
        None => None,
    }
}

/// `str::eq_ignore_ascii_case`.
pub open spec fn eq_ignore_ascii_case(a: Seq<char>, b: Seq<char>) -> bool {
    a.len() == b.len() && forall|i: int|
        0 <= i < a.len() ==> text::ascii_lower(#[trigger] a[i]) == text::ascii_lower(b[i])
}

/// The home folder: the value of `HOME` when it is set, else `/tmp`.
pub open spec fn home_or_tmp(home: Option<Seq<char>>) -> Seq<char> {
    match home {
        Some(h) => h,
        None => "/tmp"@,
    }
}

/// `~` alone names the home folder and a leading `~/` is resolved under it;
/// anything else stays as it is.
pub open spec fn expanded_home(value: Seq<char>, home: Seq<char>) -> Seq<char> {
    if value == "~"@ {
        home
    } else if text::starts_with(value, "~/"@) {
        joined(home, value.skip(2))
    } else {
        value
    }
}

pub open spec fn shortcuts_dir(home: Seq<char>) -> Seq<char> {
    joined(home, "Applications/CloneOnce Shortcuts"@)
}

pub open spec fn profile_dir(home: Seq<char>, shortcut_name: Seq<char>) -> Seq<char> {
    joined(joined(home, "CloneOnce/Profiles"@), naming::sanitized(shortcut_name))
}

/// Joins a path onto a base path.
pub fn path_join(base: &str, rel: &str) -> (r: String)
    ensures
        r@ == joined(base@, rel@),
{
    let b = chars_of(base);
    let r = chars_of(rel);
    if r.len() > 0 && r[0] == '/' {
        return owned(rel);
    }
    let mut out = owned(base);
    if b.len() > 0 && b[b.len() - 1] != '/' {
        out.push('/');
    }
    out.append(rel);
    out
}

/// The file name of a path.
pub fn path_file_name(path: &str) -> (r: Option<Vec<char>>)
    ensures
        match r {
            Some(v) => file_name(path@) == Some(v@),
            None => file_name(path@) is None,
        },
{
    let p = chars_of(path);
    let mut slash: Vec<char> = Vec::new();
    slash.push('/');
    assert(slash@ =~= seq!['/']);
    let parts = split_exec(&p, &slash);
    let mut i = parts.len();
    assert(text::views(parts@).take(i as int) =~= text::views(parts@));
    while i > 0 && (parts[i - 1].len() == 0 || (parts[i - 1].len() == 1 && parts[i - 1][0] == '.'))
        invariant
            i <= parts.len(),
            last_named(text::views(parts@)) == last_named(text::views(parts@).take(i as int)),
        decreases i,
    {
        let ghost t = text::views(parts@).take(i as int);
        assert(t.drop_last() =~= text::views(parts@).take(i - 1));
        proof {
            if parts[i - 1]@.len() == 1 {
                assert(parts[i - 1]@ =~= seq!['.']);
            }
        }
        i -= 1;
    }
    if i == 0 {
        assert(text::views(parts@).take(0) =~= Seq::<Seq<char>>::empty());
        return None;
    }
    let name = &parts[i - 1];
    let ghost t = text::views(parts@).take(i as int);
    assert(t.last() == name@);
    assert(name@ != seq!['.']);
    if name.len() == 2 && name[0] == '.' && name[1] == '.' {
        assert(name@ =~= seq!['.', '.']);
        return None;
    }
    assert(name@ != seq!['.', '.']);
    Some(slice_chars(name, 0, name.len()))
}

/// The index of the last `.` in a name.
fn find_last_dot(name: &Vec<char>) -> (r: Option<usize>)
    ensures
        match r {
            Some(i) => i < name.len() && last_dot(name@) == Some(i as int),
            None => last_dot(name@) is None,
        },
{
    let mut i = name.len();
    assert(name@.take(i as int) =~= name@);
    while i > 0
        invariant
            i <= name.len(),
            last_dot(name@) == last_dot(name@.take(i as int)),
        decreases i,
    {
        if name[i - 1] == '.' {
            return Some(i - 1);
        }
        assert(name@.take(i as int).drop_last() =~= name@.take(i - 1));
        i -= 1;
    }
    None
}

/// `Path::file_stem`.
pub fn path_file_stem(path: &str) -> (r: Option<String>)
    ensures
        match r {
            Some(s) => file_stem(path@) == Some(s@),
            None => file_stem(path@) is None,
        },
{
    match path_file_name(path) {
        Some(name) => match find_last_dot(&name) {
            Some(i) => if i == 0 {
                Some(string_of(&name))
            } else {
                let stem = slice_chars(&name, 0, i);
                assert(stem@ =~= name@.take(i as int));
                Some(string_of(&stem))
            },
            None => Some(string_of(&name)),
        },
        None => None,
    }
}

/// `Path::extension`.
pub fn path_extension(path: &str) -> (r: Option<Vec<char>>)
    ensures
        match r {
            Some(v) => extension(path@) == Some(v@),
            None => extension(path@) is None,
        },
{
    match path_file_name(path) {
        Some(name) => match find_last_dot(&name) {
            Some(i) => if i == 0 {
                None
            } else {
                let ext = slice_chars(&name, i + 1, name.len());
                assert(ext@ =~= name@.skip(i + 1));
                Some(ext)
            },
            None => None,
        },
        None => None,
    }
}

/// `str::eq_ignore_ascii_case`.
pub fn chars_eq_ignore_ascii_case(a: &Vec<char>, b: &Vec<char>) -> (r: bool)
    ensures
        r == eq_ignore_ascii_case(a@, b@),
{
    if a.len() != b.len() {
        return false;
    }
    let mut i: usize = 0;
    while i < a.len()
        invariant
            a.len() == b.len(),
            i <= a.len(),
            forall|k: int| 0 <= k < i ==> text::ascii_lower(#[trigger] a@[k]) == text::ascii_lower(b@[k]),
        decreases a.len() - i,
    {
        if text::char_to_ascii_lowercase(a[i]) != text::char_to_ascii_lowercase(b[i]) {
            return false;
        }
        i += 1;
    }
    true
}

/// The home folder from the value of `HOME`, or `/tmp` when it is not set.
pub fn home_dir_from(home: Option<String>) -> (r: String)
    ensures
        r@ == home_or_tmp(match home { Some(h) => Some(h@), None => None }),
{
    match home {
        Some(h) => h,
        None => owned("/tmp"),
    }
}

/// Resolves `~` and a leading `~/` against the home folder.
pub fn expand_home(value: &str, home: &str) -> (r: String)
    ensures
        r@ == expanded_home(value@, home@),
{
    if crate::text::str_eq(value, "~") {
        return owned(home);
    }
    let v = chars_of(value);
    let prefix = chars_of("~/");
    if crate::text::starts_with_exec(&v, &prefix) {
        proof {
            reveal_strlit("~/");
        }
        let tail = slice_chars(&v, 2, v.len());
        assert(tail@ =~= value@.skip(2));
        let t = string_of(&tail);
        return path_join(home, t.as_str());
    }
    owned(value)
}

/// The folder where generated shortcuts go by default.
pub fn default_shortcuts_dir(home: &str) -> (r: String)
    ensures
        r@ == shortcuts_dir(home@),
{
    path_join(home, "Applications/CloneOnce Shortcuts")
}

/// The default profile folder of a shortcut.
pub fn default_profile_dir(home: &str, shortcut_name: &str) -> (r: String)
    ensures
        r@ == profile_dir(home@, shortcut_name@),
{
    let profiles = path_join(home, "CloneOnce/Profiles");
    let name = sanitize_file_name(shortcut_name);
    path_join(profiles.as_str(), name.as_str())
}

proof fn lemma_last_dot_is_dot(name: Seq<char>)
    ensures
        last_dot(name) matches Some(i) ==> 0 <= i < name.len() && name[i] == '.',
    decreases name.len(),
{
    if name.len() > 0 && name.last() != '.' {
        lemma_last_dot_is_dot(name.drop_last());
    }
}

/// Where a path has an extension, its file name is the stem, a `.`, and the
/// extension.
pub proof fn stem_and_extension_rebuild_the_file_name(path: Seq<char>)
    ensures
        extension(path) matches Some(ext) ==> file_name(path) == Some(
            file_stem(path)->0 + seq!['.'] + ext,
        ),
{
    if let Some(name) = file_name(path) {
        lemma_last_dot_is_dot(name);
        if let Some(i) = last_dot(name) {
            if i != 0 {
                assert(name.take(i) + seq!['.'] + name.skip(i + 1) =~= name);
            }
        }
    }
}

/// Joining a relative path puts it after the base, with a `/` between them when
/// the base needs one.
pub proof fn joining_appends_relative_paths(base: Seq<char>, rel: Seq<char>)
    requires
        rel.len() == 0 || rel[0] != '/',
    ensures
        joined(base, rel) == base + rel || joined(base, rel) == base + seq!['/'] + rel,
        base.len() > 0 && base.last() != '/' ==> joined(base, rel) == base + seq!['/'] + rel,
{
}

proof fn lemma_last_dot_is_last(name: Seq<char>)
    ensures
        last_dot(name) matches Some(i) ==> 0 <= i < name.len() && name[i] == '.' && forall|k: int|
            i < k < name.len() ==> #[trigger] name[k] != '.',
        last_dot(name) is None ==> forall|k: int| 0 <= k < name.len() ==> #[trigger] name[k] != '.',
    decreases name.len(),
{
    if name.len() > 0 && name.last() != '.' {
        let pre = name.drop_last();
        lemma_last_dot_is_last(pre);
        match last_dot(name) {
            Some(i) => {
                assert forall|k: int| i < k < name.len() implies #[trigger] name[k] != '.' by {
                    if k < name.len() - 1 {
                        assert(name[k] == pre[k]);
                    }
                }
                assert(name[i] == pre[i]);
            },
            None => {
                assert forall|k: int| 0 <= k < name.len() implies #[trigger] name[k] != '.' by {
                    if k < name.len() - 1 {
                        assert(name[k] == pre[k]);
                    }
                }
            },
        }
    }
}

/// The extension is what follows the last `.` of the file name: it holds no `.`,
/// and the file name is something, a `.` and the extension.
pub proof fn extension_follows_the_last_dot(path: Seq<char>)
    ensures
        extension(path) matches Some(e) ==> {
            &&& forall|k: int| 0 <= k < e.len() ==> #[trigger] e[k] != '.'
            &&& file_name(path) matches Some(n) && n.len() >= e.len() + 2 && n.skip(
                n.len() - e.len() - 1,
            ) == seq!['.'] + e
        },
{
    if let Some(n) = file_name(path) {
        lemma_last_dot_is_last(n);
        if let Some(i) = last_dot(n) {
            if i != 0 {
                let e = n.skip(i + 1);
                assert forall|k: int| 0 <= k < e.len() implies #[trigger] e[k] != '.' by {
                    assert(e[k] == n[i + 1 + k]);
                }
                assert(n.skip(n.len() - e.len() - 1) =~= seq!['.'] + e);
            }
        }
    }
}

/// A file name longer than `.app` that ends in `.app` has the extension `app`.
pub proof fn names_ending_in_app_have_extension_app(path: Seq<char>)
    ensures
        file_name(path) matches Some(n) && n.len() > 4 && n.skip(n.len() - 4) == seq![
            '.',
            'a',
            'p',
            'p',
        ] ==> extension(path) == Some(seq!['a', 'p', 'p']),
{
    if let Some(n) = file_name(path) {
        if n.len() > 4 && n.skip(n.len() - 4) == seq!['.', 'a', 'p', 'p'] {
            let m = n.len();
            assert(n[m - 4] == n.skip(m - 4)[0]);
            assert(n[m - 3] == n.skip(m - 4)[1]);
            assert(n[m - 2] == n.skip(m - 4)[2]);
            assert(n[m - 1] == n.skip(m - 4)[3]);
            let a = n.drop_last();
            let b = a.drop_last();
            let c = b.drop_last();
            assert(n.last() == n[m - 1]);
            assert(a.last() == n[m - 2]);
            assert(b.last() == n[m - 3]);
            assert(c.last() == n[m - 4]);
            assert(c.len() == m - 3);
            assert(last_dot(c) == Some(m - 4));
            assert(last_dot(b) == last_dot(c));
            assert(last_dot(a) == last_dot(b));
            assert(last_dot(n) == last_dot(a));
            assert(n.skip(m - 3) =~= seq!['a', 'p', 'p']);
        }
    }
}

} // verus!
