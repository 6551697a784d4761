//! The environment file: `KEY=VALUE` lines, `#` comments, blank lines
//! ignored. The grammar is this crate's own logic; the surrounding
//! program only reads the file's text.

use vstd::prelude::*;

use crate::strutil::{push_char, str_eq};

verus! {

/// Whitespace that line trimming removes.
pub open spec fn spec_is_ws(c: char) -> bool {
    c == ' ' || c == '\t' || c == '\r'
}

/// Drop leading whitespace.
pub open spec fn spec_trim_ws_leading(s: Seq<char>) -> Seq<char>
    decreases s.len(),
{
    if s.len() > 0 && spec_is_ws(s[0]) {
        spec_trim_ws_leading(s.skip(1))
    } else {
        s
    }
}

/// Drop trailing whitespace.
pub open spec fn spec_trim_ws_trailing(s: Seq<char>) -> Seq<char>
    decreases s.len(),
{
    if s.len() > 0 && spec_is_ws(s.last()) {
        spec_trim_ws_trailing(s.drop_last())
    } else {
        s
    }
}

/// Drop whitespace on both ends.
pub open spec fn spec_trim_ws(s: Seq<char>) -> Seq<char> {
    spec_trim_ws_trailing(spec_trim_ws_leading(s))
}

/// While the head keeps being whitespace, skipping commutes with the trim.
proof fn lemma_trim_ws_leading_skip(s: Seq<char>, k: int)
    requires
        0 <= k <= s.len(),
        forall|i: int| 0 <= i < k ==> spec_is_ws(s[i]),
    ensures
        spec_trim_ws_leading(s) == spec_trim_ws_leading(s.skip(k)),
    decreases k,
{
    if k > 0 {
        assert(spec_is_ws(s[0]));
        assert(s.skip(1).skip(k - 1) =~= s.skip(k));
        lemma_trim_ws_leading_skip(s.skip(1), k - 1);
    } else {
        assert(s.skip(0) =~= s);
    }
}

/// While the tail keeps being whitespace, taking less commutes with the
/// trim.
proof fn lemma_trim_ws_trailing_take(s: Seq<char>, k: int)
    requires
        0 <= k <= s.len(),
        forall|i: int| k <= i < s.len() ==> spec_is_ws(s[i]),
    ensures
        spec_trim_ws_trailing(s) == spec_trim_ws_trailing(s.take(k)),
    decreases s.len() - k,
{
    if k < s.len() {
        assert(spec_is_ws(s.last()));
        assert(s.drop_last() =~= s.take(s.len() - 1));
        lemma_trim_ws_trailing_take(s.take(s.len() - 1), k);
        assert(s.take(s.len() - 1).take(k) =~= s.take(k));
    } else {
        assert(s.take(s.len() as int) =~= s);
    }
}

/// Trim whitespace off both ends of a character vector.
fn trim_ws_chars(cs: &Vec<char>) -> (r: Vec<char>)
    ensures
        r@ == spec_trim_ws(cs@),
{
    let n = cs.len();
    let mut start: usize = 0;
    proof {
        lemma_trim_ws_leading_skip(cs@, 0);
    }
    while start < n && (cs[start] == ' ' || cs[start] == '\t' || cs[start] == '\r')
        invariant
            start <= n,
            n == cs@.len(),
            spec_trim_ws_leading(cs@) == spec_trim_ws_leading(cs@.skip(start as int)),
            forall|i: int| 0 <= i < start ==> spec_is_ws(cs@[i]),
        decreases n - start,
    {
        proof {
            lemma_trim_ws_leading_skip(cs@, start + 1);
        }
        start = start + 1;
    }
    let mut end: usize = n;
    while end > start && (cs[end - 1] == ' ' || cs[end - 1] == '\t' || cs[end - 1] == '\r')
        invariant
            start <= end <= n,
            n == cs@.len(),
            forall|i: int| end <= i < n ==> spec_is_ws(cs@[i]),
        decreases end,
    {
        end = end - 1;
    }
    proof {
        if start < n {
            assert(!spec_is_ws(cs@.skip(start as int)[0]));
        }
        assert(spec_trim_ws_leading(cs@) == cs@.skip(start as int));
        lemma_trim_ws_trailing_take(cs@.skip(start as int), end - start);
        if start < end {
            assert(cs@.skip(start as int).take(end - start).last() == cs@[end - 1]);
            assert(!spec_is_ws(cs@.skip(start as int).take(end - start).last()));
        }
        assert(spec_trim_ws(cs@) == cs@.skip(start as int).take(end - start));
    }
    let mut r: Vec<char> = Vec::new();
    let mut i = start;
    while i < end
        invariant
            start <= i <= end <= n,
            n == cs@.len(),
            r@ == cs@.skip(start as int).take(i - start),
        decreases end - i,
    {
        r.push(cs[i]);
        proof {
            assert(cs@.skip(start as int).take(i + 1 - start) =~= cs@.skip(start as int).take(
                i - start,
            ).push(cs@[i as int]));
        }
        i = i + 1;
    }
    r
}

/// Index of the first `=` in a line, or -1 when there is none.
pub open spec fn spec_first_eq(s: Seq<char>) -> int
    decreases s.len(),
{
    if s.len() == 0 {
        -1
    } else if s[0] == '=' {
        0
    } else {
        let r = spec_first_eq(s.skip(1));
        if r < 0 {
            -1
        } else {
            r + 1
        }
    }
}

/// A prefix without `=` shifts the first `=` past itself.
proof fn lemma_first_eq_skip(s: Seq<char>, k: int)
    requires
        0 <= k <= s.len(),
        forall|i: int| 0 <= i < k ==> s[i] != '=',
    ensures
        spec_first_eq(s) == if spec_first_eq(s.skip(k)) < 0 {
            -1int
        } else {
            spec_first_eq(s.skip(k)) + k
        },
    decreases k,
{
    if k > 0 {
        assert(s[0] != '=');
        assert(s.skip(1).skip(k - 1) =~= s.skip(k));
        lemma_first_eq_skip(s.skip(1), k - 1);
    } else {
        assert(s.skip(0) =~= s);
    }
}

/// What one line of the file means: nothing for blanks and comments and
/// lines without `=`; otherwise the trimmed key and value around the
/// first `=`.
pub open spec fn spec_line_pair(line: Seq<char>) -> Option<(Seq<char>, Seq<char>)> {
    let t = spec_trim_ws(line);
    if t.len() == 0 || t[0] == '#' {
        None
    } else {
        let e = spec_first_eq(t);
        if e < 0 {
            None
        } else {
            Some((spec_trim_ws(t.take(e)), spec_trim_ws(t.skip(e + 1))))
        }
    }
}

/// Parse one line: the trimmed key and value around the first `=`, or
/// nothing for a blank line, a comment, or a line without `=`.
pub fn parse_env_line(line: &str) -> (r: Option<(String, String)>)
    ensures
        (r is Some) == (spec_line_pair(line@) is Some),
        r is Some ==> spec_line_pair(line@) is Some && ((r->0).0)@ == (spec_line_pair(
            line@,
        )->0).0 && ((r->0).1)@ == (spec_line_pair(line@)->0).1,
{
    let cs = crate::names::chars_of(line);
    let t = trim_ws_chars(&cs);
    let n = t.len();
    if n == 0 {
        return None;
    }
    if t[0] == '#' {
        return None;
    }
    let mut e: usize = 0;
    while e < n && t[e] != '='
        invariant
            e <= n,
            n == t@.len(),
            forall|i: int| 0 <= i < e ==> t@[i] != '=',
        decreases n - e,
    {
        e = e + 1;
    }
    if e == n {
        proof {
            lemma_first_eq_skip(t@, n as int);
            assert(t@.skip(n as int).len() == 0);
        }
        return None;
    }
    proof {
        lemma_first_eq_skip(t@, e as int);
        assert(t@.skip(e as int)[0] == '=');
        assert(spec_first_eq(t@) == e);
    }
    let mut key_chars: Vec<char> = Vec::new();
    let mut i: usize = 0;
    while i < e
        invariant
            i <= e <= n,
            n == t@.len(),
            key_chars@ == t@.take(e as int).take(i as int),
        decreases e - i,
    {
        key_chars.push(t[i]);
        proof {
            assert(t@.take(e as int).take(i + 1) =~= t@.take(e as int).take(i as int).push(
                t@[i as int],
            ));
        }
        i = i + 1;
    }
    proof {
        assert(t@.take(e as int).take(e as int) =~= t@.take(e as int));
    }
    let mut val_chars: Vec<char> = Vec::new();
    let mut j: usize = e + 1;
    while j < n
        invariant
            e + 1 <= j <= n,
            n == t@.len(),
            val_chars@ == t@.skip(e + 1).take(j - e - 1),
        decreases n - j,
    {
        val_chars.push(t[j]);
        proof {
            assert(t@.skip(e + 1).take(j - e) =~= t@.skip(e + 1).take(j - e - 1).push(
                t@[j as int],
            ));
        }
        j = j + 1;
    }
    proof {
        assert(t@.skip(e + 1).take(n - e - 1) =~= t@.skip(e + 1));
    }
    let key = trim_ws_chars(&key_chars);
    let val = trim_ws_chars(&val_chars);
    let mut key_s = String::new();
    let mut k: usize = 0;
    while k < key.len()
        invariant
            k <= key@.len(),
            key_s@ == key@.take(k as int),
        decreases key@.len() - k,
    {
        push_char(&mut key_s, key[k]);
        proof {
            assert(key@.take(k + 1) =~= key@.take(k as int).push(key@[k as int]));
        }
        k = k + 1;
    }
    proof {
        assert(key@.take(key@.len() as int) =~= key@);
    }
    let mut val_s = String::new();
    let mut v: usize = 0;
    while v < val.len()
        invariant
            v <= val@.len(),
            val_s@ == val@.take(v as int),
        decreases val@.len() - v,
    {
        push_char(&mut val_s, val[v]);
        proof {
            assert(val@.take(v + 1) =~= val@.take(v as int).push(val@[v as int]));
        }
        v = v + 1;
    }
    proof {
        assert(val@.take(val@.len() as int) =~= val@);
    }
    Some((key_s, val_s))
}

/// The lines of a text, split at every newline; a trailing newline yields
/// a final empty line, which the parser ignores anyway.
pub open spec fn spec_split_lines(s: Seq<char>) -> Seq<Seq<char>>
    decreases s.len(),
{
    if s.len() == 0 {
        seq![Seq::<char>::empty()]
    } else if s.last() == '\n' {
        spec_split_lines(s.drop_last()).push(Seq::empty())
    } else {
        let r = spec_split_lines(s.drop_last());
        r.update(r.len() - 1, r.last().push(s.last()))
    }
}

/// Splitting never yields an empty list of lines.
proof fn lemma_split_lines_nonempty(s: Seq<char>)
    ensures
        spec_split_lines(s).len() >= 1,
    decreases s.len(),
{
    if s.len() > 0 {
        lemma_split_lines_nonempty(s.drop_last());
    }
}

/// The key/value pairs named by a list of lines, in order.
pub open spec fn spec_env_pairs(lines: Seq<Seq<char>>) -> Seq<(Seq<char>, Seq<char>)>
    decreases lines.len(),
{
    if lines.len() == 0 {
        Seq::empty()
    } else {
        let rest = spec_env_pairs(lines.drop_last());
        match spec_line_pair(lines.last()) {
            Some(p) => rest.push(p),
            None => rest,
        }
    }
}

/// The key/value pairs of an environment file's text.
pub open spec fn spec_parse_env(s: Seq<char>) -> Seq<(Seq<char>, Seq<char>)> {
    spec_env_pairs(spec_split_lines(s))
}

/// Parse an environment file: one pair per `KEY=VALUE` line, in file
/// order; blanks, comments and lines without `=` contribute nothing.
pub fn parse_env(text: &str) -> (r: Vec<(String, String)>)
    ensures
        r@.len() == spec_parse_env(text@).len(),
        forall|i: int|
            0 <= i < r@.len() ==> (#[trigger] r@[i]).0@ == spec_parse_env(text@)[i].0 && r@[i].1@
                == spec_parse_env(text@)[i].1,
{
    let cs = crate::names::chars_of(text);
    let n = cs.len();
    let mut r: Vec<(String, String)> = Vec::new();
    let mut line: Vec<char> = Vec::new();
    let mut line_s = String::new();
    let mut i: usize = 0;
    while i < n
        invariant
            i <= n,
            n == cs@.len(),
            cs@ == text@,
            spec_split_lines(cs@.take(i as int)).len() >= 1,
            line@ == spec_split_lines(cs@.take(i as int)).last(),
            line_s@ == line@,
            r@.len() == spec_env_pairs(spec_split_lines(cs@.take(i as int)).drop_last()).len(),
            forall|m: int|
                0 <= m < r@.len() ==> (#[trigger] r@[m]).0@ == spec_env_pairs(
                    spec_split_lines(cs@.take(i as int)).drop_last(),
                )[m].0 && r@[m].1@ == spec_env_pairs(
                    spec_split_lines(cs@.take(i as int)).drop_last(),
                )[m].1,
        decreases n - i,
    {
        let c = cs[i];
        proof {
            lemma_split_lines_nonempty(cs@.take(i as int));
            assert(cs@.take(i + 1).drop_last() =~= cs@.take(i as int));
            assert(cs@.take(i + 1).last() == cs@[i as int]);
        }
        if c == '\n' {
            let ghost lines_before = spec_split_lines(cs@.take(i as int));
            match parse_env_line(line_s.as_str()) {
                Some(p) => {
                    r.push(p);
                },
                None => {},
            }
            proof {
                let lines_after = spec_split_lines(cs@.take(i + 1));
                assert(lines_after == lines_before.push(Seq::empty()));
                assert(lines_after.drop_last() =~= lines_before);
                assert(lines_before.drop_last().push(lines_before.last()) =~= lines_before);
                assert(spec_env_pairs(lines_before) == match spec_line_pair(line@) {
                    Some(p) => spec_env_pairs(lines_before.drop_last()).push(p),
                    None => spec_env_pairs(lines_before.drop_last()),
                });
            }
            line = Vec::new();
            line_s = String::new();
        } else {
            let ghost lines_before = spec_split_lines(cs@.take(i as int));
            line.push(c);
            push_char(&mut line_s, c);
            proof {
                let lines_after = spec_split_lines(cs@.take(i + 1));
                assert(lines_after == lines_before.update(
                    lines_before.len() - 1,
                    lines_before.last().push(cs@[i as int]),
                ));
                assert(lines_after.drop_last() =~= lines_before.drop_last());
                assert(lines_after.last() == lines_before.last().push(cs@[i as int]));
            }
        }
        i = i + 1;
    }
    proof {
        assert(cs@.take(n as int) =~= cs@);
        lemma_split_lines_nonempty(cs@);
    }
    let ghost lines = spec_split_lines(text@);
    match parse_env_line(line_s.as_str()) {
        Some(p) => {
            r.push(p);
        },
        None => {},
    }
    proof {
        assert(lines.drop_last().push(lines.last()) =~= lines);
        assert(spec_env_pairs(lines) == match spec_line_pair(lines.last()) {
            Some(p) => spec_env_pairs(lines.drop_last()).push(p),
            None => spec_env_pairs(lines.drop_last()),
        });
    }
    r
}

/// The value stored under a key: the last write wins, as a map built
/// from the pairs in order would have it.
pub fn env_lookup(pairs: &Vec<(String, String)>, key: &str) -> (r: Option<String>)
    ensures
        (r is Some) == (exists|i: int|
            0 <= i < pairs@.len() && (#[trigger] pairs@[i]).0@ == key@),
        r is Some ==> exists|i: int|
            {
                &&& 0 <= i < pairs@.len()
                &&& (#[trigger] pairs@[i]).0@ == key@
                &&& pairs@[i].1 == r->0
                &&& forall|j: int| i < j < pairs@.len() ==> (#[trigger] pairs@[j]).0@ != key@
            },
{
    let n = pairs.len();
    let mut i: usize = n;
    while i > 0
        invariant
            i <= n,
            n == pairs@.len(),
            forall|j: int| i <= j < n ==> (#[trigger] pairs@[j]).0@ != key@,
        decreases i,
    {
        i = i - 1;
        if str_eq(pairs[i].0.as_str(), key) {
            return Some(pairs[i].1.clone());
        }
    }
    None
}

/// Backend B is enabled exactly when both its token and its chat id are
/// set to non-empty values.
pub fn backend_b_enabled(tg_token: &str, tg_chat_id: &str) -> (r: bool)
    ensures
        r == (tg_token@.len() > 0 && tg_chat_id@.len() > 0),
{
    !tg_token.is_empty() && !tg_chat_id.is_empty()
}

/// Render pairs back into file text: one `KEY=VALUE` line per pair.
pub open spec fn spec_render_env(pairs: Seq<(Seq<char>, Seq<char>)>) -> Seq<char>
    decreases pairs.len(),
{
    if pairs.len() == 0 {
        Seq::empty()
    } else {
        spec_render_env(pairs.drop_last()) + pairs.last().0 + seq!['='] + pairs.last().1 + seq![
            '\n',
        ]
    }
}

/// Render pairs into environment-file text, one line per pair.
pub fn render_env(pairs: &Vec<(String, String)>) -> (r: String)
    ensures
        r@ == spec_render_env(pairs@.map_values(|p: (String, String)| (p.0@, p.1@))),
{
    let n = pairs.len();
    let mut s = String::new();
    let mut i: usize = 0;
    while i < n
        invariant
            i <= n,
            n == pairs@.len(),
            s@ == spec_render_env(
                pairs@.take(i as int).map_values(|p: (String, String)| (p.0@, p.1@)),
            ),
        decreases n - i,
    {
        s.append(pairs[i].0.as_str());
        push_char(&mut s, '=');
        s.append(pairs[i].1.as_str());
        push_char(&mut s, '\n');
        proof {
            let mapped = pairs@.take(i + 1).map_values(|p: (String, String)| (p.0@, p.1@));
            assert(mapped.drop_last() =~= pairs@.take(i as int).map_values(
                |p: (String, String)| (p.0@, p.1@),
            ));
            assert(mapped.last() == (pairs@[i as int].0@, pairs@[i as int].1@));
            assert(s@ =~= spec_render_env(mapped.drop_last()) + mapped.last().0 + seq!['=']
                + mapped.last().1 + seq!['\n']);
        }
        i = i + 1;
    }
    proof {
        assert(pairs@.take(n as int) =~= pairs@);
    }
    s
}

} // verus!
