//! Quoting for the zsh launcher and escaping for the property list.
use vstd::prelude::*;
use crate::text::{self, chars_of, owned, push_chars, replace_exec};

verus! {

/// A value quoted for a POSIX shell: the empty value is `''`; any other value is
/// wrapped in single quotes, each embedded `'` written as `'\''`.
pub open spec fn shell_quoted(v: Seq<char>) -> Seq<char> {
    if v.len() == 0 {
        "''"@
    } else {
        "'"@ + text::replace_all(v, "'"@, "'\\''"@) + "'"@
    }
}

/// Quotes a value for a POSIX shell.
pub fn shell_quote(value: &str) -> (r: String)
    ensures
        r@ == shell_quoted(value@),
{
    let v = chars_of(value);
    if v.len() == 0 {
        return owned("''");
    }
    let pat = chars_of("'");
    let rep = chars_of("'\\''");
    proof {
        reveal_strlit("'");
    }
    let body = replace_exec(&v, &pat, &rep);
    let mut out = owned("'");
    push_chars(&mut out, &body);
    out.append("'");
    out
}

/// The XML entity for a character that may not stand bare in XML text, or the
/// character itself.
pub open spec fn xml_char(c: char) -> Seq<char> {
    if c == '&' {
        "&amp;"@
    } else if c == '<' {
        "&lt;"@
    } else if c == '>' {
        "&gt;"@
    } else if c == '"' {
        "&quot;"@
    } else if c == '\'' {
        "&apos;"@
    } else {
        seq![c]
    }
}

/// Each character of `s` written as `xml_char` gives it.
pub open spec fn xml_escaped(s: Seq<char>) -> Seq<char>
    decreases s.len(),
{
    if s.len() == 0 {
        Seq::empty()
    } else {
        xml_escaped(s.drop_last()) + xml_char(s.last())
    }
}

/// Text with the entities that `xml_char` writes turned back into their
/// characters, read from the front; any other character stays as it is.
pub open spec fn xml_unescaped(t: Seq<char>) -> Seq<char>
    decreases t.len(),
{
    if t.len() == 0 {
        Seq::empty()
    } else if t.len() >= 5 && t.take(5) == seq!['&', 'a', 'm', 'p', ';'] {
        seq!['&'] + xml_unescaped(t.skip(5))
    } else if t.len() >= 4 && t.take(4) == seq!['&', 'l', 't', ';'] {
        seq!['<'] + xml_unescaped(t.skip(4))
    } else if t.len() >= 4 && t.take(4) == seq!['&', 'g', 't', ';'] {
        seq!['>'] + xml_unescaped(t.skip(4))
    } else if t.len() >= 6 && t.take(6) == seq!['&', 'q', 'u', 'o', 't', ';'] {
        seq!['"'] + xml_unescaped(t.skip(6))
    } else if t.len() >= 6 && t.take(6) == seq!['&', 'a', 'p', 'o', 's', ';'] {
        seq!['\''] + xml_unescaped(t.skip(6))
    } else {
        seq![t[0]] + xml_unescaped(t.drop_first())
    }
}

proof fn lemma_escaped_front(s: Seq<char>)
    requires
        s.len() > 0,
    ensures
        xml_escaped(s) == xml_char(s[0]) + xml_escaped(s.drop_first()),
    decreases s.len(),
{
    if s.len() == 1 {
        assert(s.drop_last() =~= Seq::<char>::empty());
        assert(s.drop_first() =~= Seq::<char>::empty());
        assert(xml_escaped(Seq::<char>::empty()) == Seq::<char>::empty());
        assert(xml_char(s[0]) + Seq::<char>::empty() =~= Seq::<char>::empty() + xml_char(s[0]));
    } else {
        let pre = s.drop_last();
        lemma_escaped_front(pre);
        assert(s.drop_first().drop_last() =~= pre.drop_first());
        assert(s.drop_first().last() == s.last());
        assert(pre[0] == s[0]);
        assert(xml_char(s[0]) + xml_escaped(pre.drop_first()) + xml_char(s.last()) =~= xml_char(s[0])
            + (xml_escaped(pre.drop_first()) + xml_char(s.last())));
    }
}

proof fn lemma_unescape_char(c: char, rest: Seq<char>)
    ensures
        xml_unescaped(xml_char(c) + rest) == seq![c] + xml_unescaped(rest),
{
    reveal_strlit("&amp;");
    reveal_strlit("&lt;");
    reveal_strlit("&gt;");
    reveal_strlit("&quot;");
    reveal_strlit("&apos;");
    let e = xml_char(c);
    let t = e + rest;
    assert(t.skip(e.len() as int) =~= rest);
    assert(t.take(e.len() as int) =~= e);
    if c == '&' {
        assert(e =~= seq!['&', 'a', 'm', 'p', ';']);
    } else if c == '<' {
        assert(e =~= seq!['&', 'l', 't', ';']);
        if t.len() >= 5 {
            assert(t.take(5)[1] == t[1]);
        }
    } else if c == '>' {
        assert(e =~= seq!['&', 'g', 't', ';']);
        assert(t.take(4)[1] == t[1]);
        if t.len() >= 5 {
            assert(t.take(5)[1] == t[1]);
        }
    } else if c == '"' {
        assert(e =~= seq!['&', 'q', 'u', 'o', 't', ';']);
        assert(t.take(4)[1] == t[1]);
        assert(t.take(5)[1] == t[1]);
    } else if c == '\'' {
        assert(e =~= seq!['&', 'a', 'p', 'o', 's', ';']);
        assert(t.take(4)[1] == t[1]);
        assert(t.take(5)[2] == t[2]);
        assert(t.take(6)[1] == t[1]);
    } else {
        assert(e =~= seq![c]);
        assert(t[0] == c);
        assert(t.drop_first() =~= rest);
        if t.len() >= 4 {
            assert(t.take(4)[0] == t[0]);
        }
        if t.len() >= 5 {
            assert(t.take(5)[0] == t[0]);
        }
        if t.len() >= 6 {
            assert(t.take(6)[0] == t[0]);
        }
    }
}

/// Turning the entities back into their characters gives the escaped text back.
pub proof fn escaped_xml_reads_back(s: Seq<char>)
    ensures
        xml_unescaped(xml_escaped(s)) == s,
    decreases s.len(),
{
    if s.len() == 0 {
        assert(xml_unescaped(Seq::<char>::empty()) == Seq::<char>::empty());
    } else {
        lemma_escaped_front(s);
        escaped_xml_reads_back(s.drop_first());
        lemma_unescape_char(s[0], xml_escaped(s.drop_first()));
        assert(seq![s[0]] + s.drop_first() =~= s);
    }
}

/// The entity for a character that `xml_char` escapes.
pub open spec fn xml_entity(c: char) -> Seq<char> {
    if c == '&' {
        seq!['&', 'a', 'm', 'p', ';']
    } else if c == '<' {
        seq!['&', 'l', 't', ';']
    } else if c == '>' {
        seq!['&', 'g', 't', ';']
    } else if c == '"' {
        seq!['&', 'q', 'u', 'o', 't', ';']
    } else {
        seq!['&', 'a', 'p', 'o', 's', ';']
    }
}

/// The character that the `k`-th replacement turns back: `<`, `>`, `"`, `'`, and
/// last `&`.
pub open spec fn replaced_char(k: int) -> char {
    if k == 0 {
        '<'
    } else if k == 1 {
        '>'
    } else if k == 2 {
        '"'
    } else if k == 3 {
        '\''
    } else {
        '&'
    }
}

/// Escaped text with its entities replaced, one kind after another, by their
/// characters: `&lt;`, `&gt;`, `&quot;`, `&apos;` and last `&amp;`, each by
/// `str::replace`.
pub open spec fn xml_replaced_back(t: Seq<char>) -> Seq<char> {
    text::replace_all(
        text::replace_all(
            text::replace_all(
                text::replace_all(
                    text::replace_all(t, "&lt;"@, "<"@),
                    "&gt;"@,
                    ">"@,
                ),
                "&quot;"@,
                "\""@,
            ),
            "&apos;"@,
            "'"@,
        ),
        "&amp;"@,
        "&"@,
    )
}

spec fn decoded(c: char, k: int) -> bool {
    (k >= 1 && c == '<') || (k >= 2 && c == '>') || (k >= 3 && c == '"') || (k >= 4 && c
        == '\'') || (k >= 5 && c == '&')
}

spec fn unit(c: char, k: int) -> Seq<char> {
    if decoded(c, k) {
        seq![c]
    } else {
        xml_char(c)
    }
}

/// Escaped text after the first `k` replacements.
spec fn stage(s: Seq<char>, k: int) -> Seq<char>
    decreases s.len(),
{
    if s.len() == 0 {
        Seq::empty()
    } else {
        unit(s[0], k) + stage(s.drop_first(), k)
    }
}

proof fn lemma_xml_char_entity(c: char)
    ensures
        xml_char(c) == (if xml_special(c) || c == '&' {
            xml_entity(c)
        } else {
            seq![c]
        }),
{
    reveal_strlit("&amp;");
    reveal_strlit("&lt;");
    reveal_strlit("&gt;");
    reveal_strlit("&quot;");
    reveal_strlit("&apos;");
    if c == '&' {
        assert(xml_char(c) =~= xml_entity(c));
    } else if c == '<' {
        assert(xml_char(c) =~= xml_entity(c));
    } else if c == '>' {
        assert(xml_char(c) =~= xml_entity(c));
    } else if c == '"' {
        assert(xml_char(c) =~= xml_entity(c));
    } else if c == '\'' {
        assert(xml_char(c) =~= xml_entity(c));
    }
}

/// Replacing leaves a stretch without `&` as it is, when the pattern starts with `&`.
proof fn lemma_replace_skips(x: Seq<char>, r: Seq<char>, pat: Seq<char>, rep: Seq<char>)
    requires
        pat.len() > 0,
        pat[0] == '&',
        forall|i: int| 0 <= i < x.len() ==> #[trigger] x[i] != '&',
    ensures
        text::replace_all(x + r, pat, rep) == x + text::replace_all(r, pat, rep),
    decreases x.len(),
{
    if x.len() == 0 {
        assert(x + r =~= r);
    } else {
        let t = x + r;
        assert(t[0] == x[0]);
        assert(!text::starts_with(t, pat)) by {
            if text::starts_with(t, pat) {
                assert(t.subrange(0, pat.len() as int)[0] == t[0]);
            }
        }
        assert(t.drop_first() =~= x.drop_first() + r);
        assert forall|i: int| 0 <= i < x.drop_first().len() implies #[trigger] x.drop_first()[i]
            != '&' by {
            assert(x.drop_first()[i] == x[i + 1]);
        }
        lemma_replace_skips(x.drop_first(), r, pat, rep);
        assert(seq![x[0]] + (x.drop_first() + text::replace_all(r, pat, rep)) =~= x
            + text::replace_all(r, pat, rep));
    }
}

proof fn lemma_unit_step(c: char, k: int, r: Seq<char>)
    requires
        0 <= k < 5,
    ensures
        text::replace_all(unit(c, k) + r, xml_entity(replaced_char(k)), seq![replaced_char(k)])
            == unit(c, k + 1) + text::replace_all(
            r,
            xml_entity(replaced_char(k)),
            seq![replaced_char(k)],
        ),
{
    lemma_xml_char_entity(c);
    let pat = xml_entity(replaced_char(k));
    let rep = seq![replaced_char(k)];
    let u = unit(c, k);
    let t = u + r;
    assert(pat[0] == '&');
    if c == replaced_char(k) {
        assert(u == pat);
        assert(t.subrange(0, pat.len() as int) =~= pat);
        assert(t.skip(pat.len() as int) =~= r);
        assert(unit(c, k + 1) == rep);
    } else if u.len() == 1 {
        assert(u == seq![c]);
        assert(c != '&');
        assert(unit(c, k + 1) == u);
        assert(t[0] == c);
        assert(!text::starts_with(t, pat)) by {
            if text::starts_with(t, pat) {
                assert(t.subrange(0, pat.len() as int)[0] == t[0]);
            }
        }
        assert(t.drop_first() =~= r);
    } else {
        assert(unit(c, k + 1) == u);
        assert(u == xml_entity(c));
        assert(!text::starts_with(t, pat)) by {
            if text::starts_with(t, pat) {
                let w = t.subrange(0, pat.len() as int);
                assert(w[1] == u[1]);
                assert(w[2] == u[2]);
            }
        }
        let x = u.drop_first();
        assert forall|i: int| 0 <= i < x.len() implies #[trigger] x[i] != '&' by {
            assert(x[i] == u[i + 1]);
        }
        assert(t.drop_first() =~= x + r);
        lemma_replace_skips(x, r, pat, rep);
        assert(seq![u[0]] + (x + text::replace_all(r, pat, rep)) =~= u + text::replace_all(
            r,
            pat,
            rep,
        ));
    }
}

proof fn lemma_stage_step(s: Seq<char>, k: int)
    requires
        0 <= k < 5,
    ensures
        text::replace_all(stage(s, k), xml_entity(replaced_char(k)), seq![replaced_char(k)])
            == stage(s, k + 1),
    decreases s.len(),
{
    if s.len() > 0 {
        lemma_stage_step(s.drop_first(), k);
        lemma_unit_step(s[0], k, stage(s.drop_first(), k));
    }
}

proof fn lemma_stage_ends(s: Seq<char>)
    ensures
        stage(s, 0) == xml_escaped(s),
        stage(s, 5) == s,
    decreases s.len(),
{
    if s.len() == 0 {
        assert(xml_escaped(s) == Seq::<char>::empty());
    } else {
        lemma_stage_ends(s.drop_first());
        lemma_escaped_front(s);
        lemma_xml_char_entity(s[0]);
        assert(seq![s[0]] + s.drop_first() =~= s);
    }
}

/// Replacing the entities back, `&lt;`, `&gt;`, `&quot;`, `&apos;` and last
/// `&amp;`, each with `str::replace`, gives the escaped text back.
pub proof fn escaped_xml_replaces_back(s: Seq<char>)
    ensures
        xml_replaced_back(xml_escaped(s)) == s,
{
    reveal_strlit("&amp;");
    reveal_strlit("&lt;");
    reveal_strlit("&gt;");
    reveal_strlit("&quot;");
    reveal_strlit("&apos;");
    reveal_strlit("<");
    reveal_strlit(">");
    reveal_strlit("\"");
    reveal_strlit("'");
    reveal_strlit("&");
    assert("&lt;"@ =~= xml_entity(replaced_char(0)));
    assert("&gt;"@ =~= xml_entity(replaced_char(1)));
    assert("&quot;"@ =~= xml_entity(replaced_char(2)));
    assert("&apos;"@ =~= xml_entity(replaced_char(3)));
    assert("&amp;"@ =~= xml_entity(replaced_char(4)));
    assert("<"@ =~= seq![replaced_char(0)]);
    assert(">"@ =~= seq![replaced_char(1)]);
    assert("\""@ =~= seq![replaced_char(2)]);
    assert("'"@ =~= seq![replaced_char(3)]);
    assert("&"@ =~= seq![replaced_char(4)]);
    lemma_stage_ends(s);
    lemma_stage_step(s, 0);
    lemma_stage_step(s, 1);
    lemma_stage_step(s, 2);
    lemma_stage_step(s, 3);
    lemma_stage_step(s, 4);
}

/// Escapes `&`, `<`, `>`, `"` and `'` as XML entities.
pub fn xml_escape(value: &str) -> (r: String)
    ensures
        r@ == xml_escaped(value@),
        xml_unescaped(r@) == value@,
        xml_replaced_back(r@) == value@,
{
    proof {
        escaped_xml_reads_back(value@);
        escaped_xml_replaces_back(value@);
    }
    let v = chars_of(value);
    let mut out = String::new();
    let mut i: usize = 0;
    assert(v@.take(0) =~= Seq::<char>::empty());
    while i < v.len()
        invariant
            i <= v.len(),
            v@ == value@,
            out@ == xml_escaped(v@.take(i as int)),
        decreases v.len() - i,
    {
        let c = v[i];
        assert(v@.take(i + 1).drop_last() =~= v@.take(i as int));
        let ghost before = out@;
        if c == '&' {
            out.append("&amp;");
        } else if c == '<' {
            out.append("&lt;");
        } else if c == '>' {
            out.append("&gt;");
        } else if c == '"' {
            out.append("&quot;");
        } else if c == '\'' {
            out.append("&apos;");
        } else {
            out.push(c);
            assert(out@ =~= before + seq![c]);
        }
        i += 1;
    }
    assert(v@.take(i as int) =~= v@);
    out
}

/// A character that may not stand bare in XML text or an attribute.
pub open spec fn xml_special(c: char) -> bool {
    c == '<' || c == '>' || c == '"' || c == '\''
}

proof fn lemma_xml_char_plain(c: char)
    ensures
        forall|i: int| 0 <= i < xml_char(c).len() ==> !xml_special(#[trigger] xml_char(c)[i]),
{
    reveal_strlit("&amp;");
    reveal_strlit("&lt;");
    reveal_strlit("&gt;");
    reveal_strlit("&quot;");
    reveal_strlit("&apos;");
}

/// Escaped text holds no `<`, `>`, `"` or `'`, so it can stand anywhere in an XML
/// document.
pub proof fn escaped_xml_is_plain(s: Seq<char>)
    ensures
        forall|i: int| 0 <= i < xml_escaped(s).len() ==> !xml_special(#[trigger] xml_escaped(s)[i]),
    decreases s.len(),
{
    if s.len() > 0 {
        escaped_xml_is_plain(s.drop_last());
        lemma_xml_char_plain(s.last());
        let a = xml_escaped(s.drop_last());
        let b = xml_char(s.last());
        assert forall|i: int| 0 <= i < (a + b).len() implies !xml_special(#[trigger] (a + b)[i]) by {
            if i >= a.len() {
                assert((a + b)[i] == b[i - a.len()]);
            } else {
                assert((a + b)[i] == a[i]);
            }
        }
    }
}

/// How a POSIX shell reads a word made of single-quoted runs and `\`-escaped
/// characters: inside quotes every character but `'` stands for itself; outside,
/// `'` opens quotes and `\` takes the next character literally. Anything else
/// outside quotes, or an unclosed quote, is not such a word.
pub open spec fn shell_read(s: Seq<char>, quoted: bool) -> Option<Seq<char>>
    decreases s.len(),
{
    if s.len() == 0 {
        if quoted {
            None
        } else {
            Some(Seq::empty())
        }
    } else if quoted {
        if s[0] == '\'' {
            shell_read(s.drop_first(), false)
        } else {
            match shell_read(s.drop_first(), true) {
                Some(r) => Some(seq![s[0]] + r),
                None => None,
            }
        }
    } else if s[0] == '\'' {
        shell_read(s.drop_first(), true)
    } else if s[0] == '\\' && s.len() >= 2 {
        match shell_read(s.skip(2), false) {
            Some(r) => Some(seq![s[1]] + r),
            None => None,
        }
    } else {
        None
    }
}

proof fn lemma_read_quoted_body(v: Seq<char>, rest: Seq<char>)
    ensures
        shell_read(text::replace_all(v, "'"@, "'\\''"@) + seq!['\''] + rest, true) == match shell_read(
            rest,
            false,
        ) {
            Some(r) => Some(v + r),
            None => None::<Seq<char>>,
        },
    decreases v.len(),
{
    reveal_strlit("'");
    reveal_strlit("'\\''");
    let body = text::replace_all(v, "'"@, "'\\''"@);
    let s = body + seq!['\''] + rest;
    if v.len() == 0 {
        assert(s =~= seq!['\''] + rest);
        assert(s.drop_first() =~= rest);
        assert(shell_read(s, true) == shell_read(rest, false));
        match shell_read(rest, false) {
            Some(r) => {
                assert(v + r =~= r);
            },
            None => {},
        }
    } else {
        let tail = v.drop_first();
        lemma_read_quoted_body(tail, rest);
        let x = text::replace_all(tail, "'"@, "'\\''"@) + seq!['\''] + rest;
        if v[0] == '\'' {
            assert(text::starts_with(v, "'"@)) by {
                assert(v.subrange(0, 1) =~= "'"@);
            }
            assert(v.skip(1) =~= tail);
            assert(s =~= "'\\''"@ + x);
            let s1 = s.drop_first();
            assert(s1 =~= seq!['\\', '\'', '\''] + x);
            let s2 = s1.skip(2);
            assert(s2 =~= seq!['\''] + x);
            assert(s2.drop_first() =~= x);
            assert(shell_read(s, true) == shell_read(s1, false));
            assert(shell_read(s2, false) == shell_read(x, true));
            assert(shell_read(s1, false) == match shell_read(s2, false) {
                Some(r) => Some(seq![s1[1]] + r),
                None => None::<Seq<char>>,
            });
            match shell_read(rest, false) {
                Some(r) => {
                    assert(seq!['\''] + (tail + r) =~= v + r);
                },
                None => {},
            }
        } else {
            assert(!text::starts_with(v, "'"@)) by {
                if text::starts_with(v, "'"@) {
                    assert(v.subrange(0, 1)[0] == v[0]);
                }
            }
            assert(s =~= seq![v[0]] + x);
            assert(s.drop_first() =~= x);
            assert(shell_read(s, true) == match shell_read(x, true) {
                Some(r) => Some(seq![v[0]] + r),
                None => None::<Seq<char>>,
            });
            match shell_read(rest, false) {
                Some(r) => {
                    assert(seq![v[0]] + (tail + r) =~= v + r);
                },
                None => {},
            }
        }
    }
}

/// The shell reads a quoted value back as exactly that value.
pub proof fn quoted_values_read_back(v: Seq<char>)
    ensures
        shell_read(shell_quoted(v), false) == Some(v),
{
    reveal_strlit("''");
    reveal_strlit("'");
    if v.len() == 0 {
        let q = shell_quoted(v);
        assert(q.drop_first() =~= seq!['\'']);
        assert(q.drop_first().drop_first() =~= Seq::<char>::empty());
        assert(v =~= Seq::<char>::empty());
    } else {
        let body = text::replace_all(v, "'"@, "'\\''"@);
        lemma_read_quoted_body(v, Seq::empty());
        let q = shell_quoted(v);
        assert(q.drop_first() =~= body + seq!['\''] + Seq::<char>::empty());
        assert(v + Seq::<char>::empty() =~= v);
    }
}

} // verus!
