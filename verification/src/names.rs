//! Name sanitisation: backend-A container and channel names are slugs
//! derived from a filename. The stem (the part before the last dot) is
//! lowercased, every character outside `[a-z0-9-_ ]` is dropped, spaces
//! become dashes, dash runs collapse to one, leading and trailing dashes
//! go, the result is capped at 100 characters, and an empty result falls
//! back to `file`.

use vstd::prelude::*;

use crate::strutil::push_char;

verus! {

/// Lowercase an ASCII letter; every other character is unchanged.
pub open spec fn spec_lower_char(c: char) -> char {
    if 'A' <= c && c <= 'Z' {
        ((((c as u32) + 32) as u8) as char)
    } else {
        c
    }
}

/// Lowercase an ASCII letter; every other character is unchanged.
pub fn lower_char(c: char) -> (r: char)
    ensures
        r == spec_lower_char(c),
{
    if 'A' <= c && c <= 'Z' {
        ((((c as u32) + 32) as u8) as char)
    } else {
        c
    }
}

/// The Unicode case folding of a string: what the standard library's
/// lowercasing returns, a function of the characters alone.
pub uninterp spec fn unicode_lower_of(s: Seq<char>) -> Seq<char>;

/// Relies on str::to_lowercase: the full Unicode lowercase mapping; the
/// result depends on the characters alone, and an empty string stays
/// empty.
#[verifier::external_body]
pub(crate) fn unicode_lowercase(s: &str) -> (r: String)
    ensures
        r@ == unicode_lower_of(s@),
        s@.len() == 0 ==> r@.len() == 0,
{
    s.to_lowercase()
}

/// The characters a sanitized name may keep.
pub open spec fn spec_keep_char(c: char) -> bool {
    ||| 'a' <= c && c <= 'z'
    ||| '0' <= c && c <= '9'
    ||| c == '-'
    ||| c == '_'
    ||| c == ' '
}

/// The stem of a name, considering only dots strictly before index `j`
/// and strictly after index 0: the prefix before the last such dot, or
/// the whole name when there is none.
pub open spec fn spec_stem_from(s: Seq<char>, j: int) -> Seq<char>
    decreases j,
{
    if j <= 1 {
        s
    } else if s[j - 1] == '.' {
        s.take(j - 1)
    } else {
        spec_stem_from(s, j - 1)
    }
}

/// The stem of a name: what stands before the last dot, where a dot at
/// the very start does not count (a leading-dot name is its own stem).
pub open spec fn spec_stem(s: Seq<char>) -> Seq<char> {
    spec_stem_from(s, s.len() as int)
}

/// Lowercase each character and keep only the characters a slug may hold.
pub open spec fn spec_filter_lower(s: Seq<char>) -> Seq<char>
    decreases s.len(),
{
    if s.len() == 0 {
        Seq::empty()
    } else {
        let rest = spec_filter_lower(s.drop_last());
        let c = spec_lower_char(s.last());
        if spec_keep_char(c) {
            rest.push(c)
        } else {
            rest
        }
    }
}

/// Drop every leading occurrence of `c`.
pub open spec fn spec_trim_leading(s: Seq<char>, c: char) -> Seq<char>
    decreases s.len(),
{
    if s.len() > 0 && s[0] == c {
        spec_trim_leading(s.skip(1), c)
    } else {
        s
    }
}

/// Drop every trailing occurrence of `c`.
pub open spec fn spec_trim_trailing(s: Seq<char>, c: char) -> Seq<char>
    decreases s.len(),
{
    if s.len() > 0 && s.last() == c {
        spec_trim_trailing(s.drop_last(), c)
    } else {
        s
    }
}

/// Drop every leading and trailing occurrence of `c`.
pub open spec fn spec_trim_ends(s: Seq<char>, c: char) -> Seq<char> {
    spec_trim_trailing(spec_trim_leading(s, c), c)
}

/// Turn each space into a dash.
pub open spec fn spec_dash_spaces(s: Seq<char>) -> Seq<char> {
    s.map_values(|c: char| if c == ' ' { '-' } else { c })
}

/// Collapse each run of dashes to a single dash: a dash whose predecessor
/// is also a dash is dropped.
pub open spec fn spec_collapse_dashes(s: Seq<char>) -> Seq<char>
    decreases s.len(),
{
    if s.len() == 0 {
        Seq::empty()
    } else if s.last() == '-' && s.len() >= 2 && s[s.len() - 2] == '-' {
        spec_collapse_dashes(s.drop_last())
    } else {
        spec_collapse_dashes(s.drop_last()).push(s.last())
    }
}

/// The fallback name for an empty slug.
pub open spec fn spec_fallback_name() -> Seq<char> {
    seq!['f', 'i', 'l', 'e']
}

/// The sanitized slug of a name: stem, lowercase, filter, trim spaces,
/// dash the spaces, collapse dash runs, trim dashes, cap at 100; an empty
/// result becomes `file`.
///
/// The lowercasing here is the ASCII one: since the filter right after it
/// keeps only `[a-z0-9-_ ]`, the two foldings differ only on the rare
/// letters outside ASCII whose Unicode lowercase falls inside it (such
/// letters are dropped here rather than kept).
pub open spec fn spec_sanitize(s: Seq<char>) -> Seq<char> {
    let slug = spec_trim_ends(
        spec_collapse_dashes(spec_dash_spaces(spec_trim_ends(spec_filter_lower(spec_stem(s)), ' '))),
        '-',
    );
    if slug.len() == 0 {
        spec_fallback_name()
    } else if slug.len() > 100 {
        slug.take(100)
    } else {
        slug
    }
}

/// While the head keeps equalling `c`, skipping it commutes with the trim.
proof fn lemma_trim_leading_skip(s: Seq<char>, c: char, k: int)
    requires
        0 <= k <= s.len(),
        forall|i: int| 0 <= i < k ==> s[i] == c,
    ensures
        spec_trim_leading(s, c) == spec_trim_leading(s.skip(k), c),
    decreases k,
{
    if k > 0 {
        assert(s[0] == c);
        assert(s.skip(1).skip(k - 1) =~= s.skip(k));
        lemma_trim_leading_skip(s.skip(1), c, k - 1);
    } else {
        assert(s.skip(0) =~= s);
    }
}

/// While the tail keeps equalling `c`, taking less commutes with the trim.
proof fn lemma_trim_trailing_take(s: Seq<char>, c: char, k: int)
    requires
        0 <= k <= s.len(),
        forall|i: int| k <= i < s.len() ==> s[i] == c,
    ensures
        spec_trim_trailing(s, c) == spec_trim_trailing(s.take(k), c),
    decreases s.len() - k,
{
    if k < s.len() {
        assert(s.last() == c);
        assert(s.drop_last() =~= s.take(s.len() - 1));
        lemma_trim_trailing_take(s.take(s.len() - 1), c, k);
        assert(s.take(s.len() - 1).take(k) =~= s.take(k));
    } else {
        assert(s.take(s.len() as int) =~= s);
    }
}

/// Read all characters of a string into a vector.
pub(crate) fn chars_of(s: &str) -> (r: Vec<char>)
    ensures
        r@ == s@,
{
    let n = s.unicode_len();
    let mut r: Vec<char> = Vec::new();
    let mut i: usize = 0;
    while i < n
        invariant
            i <= n,
            n == s@.len(),
            r@ == s@.take(i as int),
        decreases n - i,
    {
        let c = s.get_char(i);
        r.push(c);
        proof {
            assert(s@.take(i + 1) =~= s@.take(i as int).push(c));
        }
        i = i + 1;
    }
    proof {
        assert(s@.take(n as int) =~= s@);
    }
    r
}

/// Keep only the slug characters of `cs`, lowercased, between the indices
/// `from` (inclusive) and `to` (exclusive).
fn filter_lower_range(cs: &Vec<char>, to: usize) -> (r: Vec<char>)
    requires
        to <= cs@.len(),
    ensures
        r@ == spec_filter_lower(cs@.take(to as int)),
{
    let mut r: Vec<char> = Vec::new();
    let mut i: usize = 0;
    while i < to
        invariant
            i <= to <= cs@.len(),
            r@ == spec_filter_lower(cs@.take(i as int)),
        decreases to - i,
    {
        let c = lower_char(cs[i]);
        let keep = ('a' <= c && c <= 'z') || ('0' <= c && c <= '9') || c == '-' || c == '_' || c
            == ' ';
        proof {
            assert(cs@.take(i + 1).drop_last() =~= cs@.take(i as int));
            assert(cs@.take(i + 1).last() == cs@[i as int]);
            assert(keep == spec_keep_char(c));
        }
        if keep {
            r.push(c);
        }
        i = i + 1;
    }
    r
}

/// Sanitize a filename into a backend-safe slug.
pub fn sanitize_name(name: &str) -> (r: String)
    ensures
        r@ == spec_sanitize(name@),
{
    let cs = chars_of(name);
    // Stem: cut at the last dot, never at a leading dot.
    let mut cut = cs.len();
    let mut j = cs.len();
    let mut found = false;
    while j > 1
        invariant_except_break
            !found,
        invariant
            j <= cs@.len(),
            spec_stem(cs@) == spec_stem_from(cs@, j as int) || found,
        ensures
            found ==> cut < cs@.len() && spec_stem(cs@) == cs@.take(cut as int),
            !found ==> spec_stem(cs@) == cs@,
        decreases j,
    {
        if cs[j - 1] == '.' {
            found = true;
            cut = j - 1;
            proof {
                assert(spec_stem_from(cs@, j as int) == cs@.take(j - 1));
            }
            break ;
        }
        j = j - 1;
    }
    if !found {
        cut = cs.len();
        proof {
            assert(cs@.take(cs@.len() as int) =~= cs@);
        }
    }
    // Lowercase and filter the stem.
    let filtered = filter_lower_range(&cs, cut);
    proof {
        assert(cs@.take(cut as int) == spec_stem(cs@));
    }
    // Trim spaces.
    let mut start: usize = 0;
    proof {
        lemma_trim_leading_skip(filtered@, ' ', 0);
    }
    let mut end: usize = filtered.len();
    while start < end && filtered[start] == ' '
        invariant
            start <= end <= filtered@.len(),
            spec_trim_leading(filtered@, ' ') == spec_trim_leading(filtered@.skip(start as int), ' '),
            forall|i: int| 0 <= i < start ==> filtered@[i] == ' ',
        decreases end - start,
    {
        proof {
            lemma_trim_leading_skip(filtered@, ' ', start + 1);
        }
        start = start + 1;
    }
    while end > start && filtered[end - 1] == ' '
        invariant
            start <= end <= filtered@.len(),
            forall|i: int| end <= i < filtered@.len() ==> filtered@[i] == ' ',
        decreases end,
    {
        end = end - 1;
    }
    let ghost trimmed = spec_trim_ends(spec_filter_lower(spec_stem(name@)), ' ');
    proof {
        // The leading trim stops at a non-space (or the end); the trailing
        // trim of the remainder stops at `end`.
        lemma_trim_leading_skip(filtered@, ' ', start as int);
        if start < end {
            assert(filtered@.skip(start as int)[0] != ' ');
        }
        assert(spec_trim_leading(filtered@, ' ') == filtered@.skip(start as int));
        lemma_trim_trailing_take(filtered@.skip(start as int), ' ', end - start);
        if start < end {
            assert(filtered@.skip(start as int).take(end - start).last() != ' ');
        }
        assert(spec_trim_trailing(filtered@.skip(start as int), ' ') == filtered@.skip(
            start as int,
        ).take(end - start));
        assert(trimmed == filtered@.skip(start as int).take(end - start));
    }
    // Dash the spaces and collapse dash runs in one pass.
    let mut slug: Vec<char> = Vec::new();
    let mut prev_dash = false;
    let mut i = start;
    while i < end
        invariant
            start <= i <= end <= filtered@.len(),
            trimmed == filtered@.skip(start as int).take(end - start),
            slug@ == spec_collapse_dashes(spec_dash_spaces(trimmed.take(i - start))),
            prev_dash == (i > start && spec_dash_spaces(trimmed)[i - start - 1] == '-'),
        decreases end - i,
    {
        let c0 = filtered[i];
        let c = if c0 == ' ' {
            '-'
        } else {
            c0
        };
        proof {
            let ghost k = i - start;
            assert(trimmed[k] == filtered@[i as int]);
            assert(spec_dash_spaces(trimmed.take(k + 1)) =~= spec_dash_spaces(trimmed).take(k + 1));
            assert(spec_dash_spaces(trimmed.take(k)) =~= spec_dash_spaces(trimmed).take(k));
            assert(spec_dash_spaces(trimmed).take(k + 1).drop_last() =~= spec_dash_spaces(
                trimmed,
            ).take(k));
            assert(spec_dash_spaces(trimmed).take(k + 1).last() == spec_dash_spaces(trimmed)[k]);
            assert(spec_dash_spaces(trimmed)[k] == c);
        }
        if !(c == '-' && prev_dash) {
            slug.push(c);
        }
        prev_dash = c == '-';
        i = i + 1;
    }
    proof {
        assert(trimmed.take(end - start) =~= trimmed);
    }
    // Trim dashes.
    let mut s2: usize = 0;
    proof {
        lemma_trim_leading_skip(slug@, '-', 0);
    }
    let mut e2: usize = slug.len();
    while s2 < e2 && slug[s2] == '-'
        invariant
            s2 <= e2 <= slug@.len(),
            spec_trim_leading(slug@, '-') == spec_trim_leading(slug@.skip(s2 as int), '-'),
            forall|i: int| 0 <= i < s2 ==> slug@[i] == '-',
        decreases e2 - s2,
    {
        proof {
            lemma_trim_leading_skip(slug@, '-', s2 + 1);
        }
        s2 = s2 + 1;
    }
    while e2 > s2 && slug[e2 - 1] == '-'
        invariant
            s2 <= e2 <= slug@.len(),
            forall|i: int| e2 <= i < slug@.len() ==> slug@[i] == '-',
        decreases e2,
    {
        e2 = e2 - 1;
    }
    let ghost final_slug = spec_trim_ends(spec_collapse_dashes(spec_dash_spaces(trimmed)), '-');
    proof {
        lemma_trim_leading_skip(slug@, '-', s2 as int);
        if s2 < e2 {
            assert(slug@.skip(s2 as int)[0] != '-');
        }
        assert(spec_trim_leading(slug@, '-') == slug@.skip(s2 as int));
        lemma_trim_trailing_take(slug@.skip(s2 as int), '-', e2 - s2);
        if s2 < e2 {
            assert(slug@.skip(s2 as int).take(e2 - s2).last() != '-');
        }
        assert(final_slug == slug@.skip(s2 as int).take(e2 - s2));
    }
    // Fallback and cap.
    let mut out = String::new();
    if s2 == e2 {
        push_char(&mut out, 'f');
        push_char(&mut out, 'i');
        push_char(&mut out, 'l');
        push_char(&mut out, 'e');
        proof {
            assert(out@ =~= spec_fallback_name());
            assert(final_slug.len() == 0);
        }
        return out;
    }
    let limit = if e2 - s2 > 100 {
        s2 + 100
    } else {
        e2
    };
    let mut k = s2;
    while k < limit
        invariant
            s2 <= k <= limit <= e2 <= slug@.len(),
            out@ == slug@.skip(s2 as int).take(k - s2),
        decreases limit - k,
    {
        push_char(&mut out, slug[k]);
        proof {
            assert(slug@.skip(s2 as int).take(k - s2 + 1) =~= slug@.skip(s2 as int).take(
                k - s2,
            ).push(slug@[k as int]));
        }
        k = k + 1;
    }
    proof {
        if e2 - s2 > 100 {
            assert(final_slug.take(100) =~= slug@.skip(s2 as int).take(100));
            assert(out@ == final_slug.take(100));
        } else {
            assert(final_slug =~= slug@.skip(s2 as int).take(e2 - s2));
            assert(out@ == final_slug);
        }
        assert(final_slug.len() == e2 - s2);
    }
    out
}

} // verus!
