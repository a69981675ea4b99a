//! Verified text scanning: character search, line splitting, substring
//! search and whitespace trimming, the raw material of the listing parsers.

use vstd::prelude::*;

verus! {

/// The index of the first occurrence of `ch` in `s`, or `s.len()` if there is
/// none.
pub open spec fn spec_find_char(s: Seq<char>, ch: char) -> nat
    decreases s.len(),
{
    if s.len() == 0 {
        0
    } else if s[0] == ch {
        0
    } else {
        1 + spec_find_char(s.drop_first(), ch)
    }
}

/// An index before which `ch` does not occur, and at which it occurs unless
/// it is the length, is exactly `spec_find_char`.
pub proof fn lemma_find_char_unique(s: Seq<char>, ch: char, m: int)
    requires
        0 <= m <= s.len(),
        forall|k: int| 0 <= k < m ==> s[k] != ch,
        m < s.len() ==> s[m] == ch,
    ensures
        spec_find_char(s, ch) == m,
    decreases s.len(),
{
    if s.len() > 0 && m > 0 {
        assert(forall|k: int| 0 <= k < m - 1 ==> s.drop_first()[k] != ch);
        lemma_find_char_unique(s.drop_first(), ch, m - 1);
    }
}

/// The index of the first occurrence of `ch` in `s` at or after `from`, or
/// the length of `s` if there is none after that point.
pub fn find_char_from(s: &str, from: usize, ch: char) -> (r: usize)
    requires
        from <= s@.len(),
    ensures
        from <= r <= s@.len(),
        r - from == spec_find_char(s@.skip(from as int), ch),
        forall|k: int| from <= k < r ==> s@[k] != ch,
        r < s@.len() ==> s@[r as int] == ch,
{
    let len = s.unicode_len();
    let mut i: usize = from;
    while i < len
        invariant
            from <= i <= len,
            len == s@.len(),
            from <= s@.len(),
            forall|k: int| from <= k < i ==> s@[k] != ch,
        decreases len - i,
    {
        if s.get_char(i) == ch {
            proof {
                assert(forall|k: int|
                    0 <= k < i - from ==> s@.skip(from as int)[k] == s@[k + from]);
                lemma_find_char_unique(s@.skip(from as int), ch, i - from);
            }
            return i;
        }
        i = i + 1;
    }
    proof {
        assert(forall|k: int| 0 <= k < len - from ==> s@.skip(from as int)[k] == s@[k + from]);
        lemma_find_char_unique(s@.skip(from as int), ch, len - from);
    }
    len
}

/// A line with the carriage return of a `\r\n` terminator dropped.
pub open spec fn spec_strip_cr(line: Seq<char>) -> Seq<char> {
    if line.len() > 0 && line[line.len() - 1] == '\r' {
        line.drop_last()
    } else {
        line
    }
}

/// The lines of `s`: split at each newline, a carriage return directly before
/// a newline dropped, and no final empty line after a trailing newline.
pub open spec fn spec_lines(s: Seq<char>) -> Seq<Seq<char>>
    decreases s.len(),
{
    if s.len() == 0 {
        seq![]
    } else {
        let nl = spec_find_char(s, '\n');
        if nl >= s.len() {
            seq![s]
        } else {
            seq![spec_strip_cr(s.take(nl as int))] + spec_lines(s.skip(nl + 1 as int))
        }
    }
}

/// Splits `s` into its lines, each an owned string.
pub fn split_lines(s: &str) -> (r: Vec<String>)
    ensures
        r.deep_view() == spec_lines(s@),
{
    let len = s.unicode_len();
    let mut out: Vec<String> = Vec::new();
    let mut pos: usize = 0;
    proof {
        assert(s@.skip(0) =~= s@);
    }
    while pos < len
        invariant
            pos <= len,
            len == s@.len(),
            spec_lines(s@) == out.deep_view() + spec_lines(s@.skip(pos as int)),
        decreases len - pos,
    {
        let ghost rest = s@.skip(pos as int);
        let ghost prev = out.deep_view();
        let nl = find_char_from(s, pos, '\n');
        proof {
            assert(rest.len() > 0);
            assert(spec_find_char(rest, '\n') == nl - pos);
        }
        let end: usize = if nl < len && nl > pos && s.get_char(nl - 1) == '\r' {
            nl - 1
        } else {
            nl
        };
        let line = s.substring_char(pos, end).to_owned();
        out.push(line);
        proof {
            assert(out.deep_view() =~= prev + seq![s@.subrange(pos as int, end as int)]);
            if nl == len {
                assert(rest =~= s@.subrange(pos as int, end as int));
                assert(spec_lines(rest) =~= seq![s@.subrange(pos as int, end as int)]);
            } else {
                assert(rest.take(nl - pos) =~= s@.subrange(pos as int, nl as int));
                assert(spec_strip_cr(rest.take(nl - pos)) =~= s@.subrange(pos as int, end as int));
                assert(rest.skip(nl - pos + 1) =~= s@.skip(nl + 1));
                assert(spec_lines(rest) == seq![s@.subrange(pos as int, end as int)]
                    + spec_lines(s@.skip(nl + 1)));
            }
            assert(prev + spec_lines(rest) =~= out.deep_view() + (if nl == len {
                Seq::<Seq<char>>::empty()
            } else {
                spec_lines(s@.skip(nl + 1))
            }));
        }
        if nl == len {
            pos = len;
            proof {
                assert(s@.skip(len as int) =~= Seq::<char>::empty());
                assert(spec_lines(s@.skip(pos as int)) =~= Seq::<Seq<char>>::empty());
                assert(out.deep_view() + Seq::<Seq<char>>::empty() =~= out.deep_view());
            }
        } else {
            pos = nl + 1;
        }
    }
    proof {
        assert(s@.skip(pos as int) =~= Seq::<char>::empty());
        assert(spec_lines(s@.skip(pos as int)) =~= Seq::<Seq<char>>::empty());
        assert(out.deep_view() + Seq::<Seq<char>>::empty() =~= out.deep_view());
    }
    out
}

/// Whether `needle` stands in `hay` at position `at`.
pub open spec fn spec_match_at(hay: Seq<char>, needle: Seq<char>, at: int) -> bool {
    0 <= at && at + needle.len() <= hay.len() && hay.subrange(at, at + needle.len()) == needle
}

/// Whether `needle` stands somewhere in `hay`.
pub open spec fn spec_has_substring(hay: Seq<char>, needle: Seq<char>) -> bool {
    exists|at: int| spec_match_at(hay, needle, at)
}

/// Whether `needle` stands in `hay` at position `at`.
fn matches_at(hay: &str, needle: &str, at: usize) -> (r: bool)
    requires
        at + needle@.len() <= hay@.len(),
        hay@.len() <= usize::MAX,
    ensures
        r == spec_match_at(hay@, needle@, at as int),
{
    let nlen = needle.unicode_len();
    let mut k: usize = 0;
    while k < nlen
        invariant
            k <= nlen,
            nlen == needle@.len(),
            at + nlen <= hay@.len(),
            hay@.len() <= usize::MAX,
            forall|m: int| 0 <= m < k ==> hay@[at + m] == needle@[m],
        decreases nlen - k,
    {
        if hay.get_char(at + k) != needle.get_char(k) {
            proof {
                if spec_match_at(hay@, needle@, at as int) {
                    let sub = hay@.subrange(at as int, at + needle@.len());
                    assert(sub[k as int] == needle@[k as int]);
                    assert(false);
                }
            }
            return false;
        }
        k = k + 1;
    }
    proof {
        assert(hay@.subrange(at as int, at + needle@.len()) =~= needle@);
    }
    true
}

/// Whether `needle` stands somewhere in `hay`.
pub fn has_substring(hay: &str, needle: &str) -> (r: bool)
    ensures
        r == spec_has_substring(hay@, needle@),
{
    let hlen = hay.unicode_len();
    let nlen = needle.unicode_len();
    if nlen > hlen {
        proof {
            if spec_has_substring(hay@, needle@) {
                let at = choose|at: int| spec_match_at(hay@, needle@, at);
                assert(false);
            }
        }
        return false;
    }
    if nlen == 0 {
        proof {
            assert(hay@.subrange(0, 0) =~= needle@);
            assert(spec_match_at(hay@, needle@, 0));
        }
        return true;
    }
    let mut at: usize = 0;
    while at <= hlen - nlen
        invariant
            1 <= nlen <= hlen,
            hlen == hay@.len(),
            nlen == needle@.len(),
            at <= hlen - nlen + 1,
            forall|j: int| 0 <= j < at ==> !spec_match_at(hay@, needle@, j),
        decreases hlen - nlen + 1 - at,
    {
        if matches_at(hay, needle, at) {
            return true;
        }
        at = at + 1;
    }
    proof {
        if spec_has_substring(hay@, needle@) {
            let w = choose|w: int| spec_match_at(hay@, needle@, w);
            assert(false);
        }
    }
    false
}

/// Whether `s` begins with `prefix`.
pub fn starts_with(s: &str, prefix: &str) -> (r: bool)
    ensures
        r == spec_match_at(s@, prefix@, 0),
{
    if prefix.unicode_len() > s.unicode_len() {
        return false;
    }
    matches_at(s, prefix, 0)
}

/// Whether a character counts as spacing in the listings: a space or a tab.
pub open spec fn spec_is_space(ch: char) -> bool {
    ch == ' ' || ch == '\t'
}

/// Whether the character of `s` at `i` counts as spacing.
pub fn is_space_at(s: &str, i: usize) -> (r: bool)
    requires
        i < s@.len(),
    ensures
        r == spec_is_space(s@[i as int]),
{
    let c = s.get_char(i);
    c == ' ' || c == '\t'
}

/// `s` without its leading spacing.
pub open spec fn spec_trim_start(s: Seq<char>) -> Seq<char>
    decreases s.len(),
{
    if s.len() > 0 && spec_is_space(s[0]) {
        spec_trim_start(s.drop_first())
    } else {
        s
    }
}

/// `s` without its trailing spacing.
pub open spec fn spec_trim_end(s: Seq<char>) -> Seq<char>
    decreases s.len(),
{
    if s.len() > 0 && spec_is_space(s[s.len() - 1]) {
        spec_trim_end(s.drop_last())
    } else {
        s
    }
}

/// `s` without leading and trailing spacing.
pub open spec fn spec_trim(s: Seq<char>) -> Seq<char> {
    spec_trim_end(spec_trim_start(s))
}

/// Dropping a fully-spaced prefix is what `spec_trim_start` does.
proof fn lemma_trim_start_skip(s: Seq<char>, a: int)
    requires
        0 <= a <= s.len(),
        forall|k: int| 0 <= k < a ==> spec_is_space(s[k]),
        a < s.len() ==> !spec_is_space(s[a]),
    ensures
        spec_trim_start(s) == s.skip(a),
    decreases a,
{
    if a == 0 {
        assert(s.skip(0) =~= s);
    } else {
        assert forall|k: int| 0 <= k < a - 1 implies spec_is_space(s.drop_first()[k]) by {
            assert(s.drop_first()[k] == s[k + 1]);
        }
        lemma_trim_start_skip(s.drop_first(), a - 1);
        assert(s.drop_first().skip(a - 1) =~= s.skip(a));
    }
}

/// Keeping everything before a fully-spaced suffix is what `spec_trim_end`
/// does.
proof fn lemma_trim_end_take(s: Seq<char>, b: int)
    requires
        0 <= b <= s.len(),
        forall|k: int| b <= k < s.len() ==> spec_is_space(s[k]),
        b > 0 ==> !spec_is_space(s[b - 1]),
    ensures
        spec_trim_end(s) == s.take(b),
    decreases s.len() - b,
{
    if b == s.len() {
        assert(s.take(b) =~= s);
    } else {
        assert forall|k: int| b <= k < s.len() - 1 implies spec_is_space(s.drop_last()[k]) by {
            assert(s.drop_last()[k] == s[k]);
        }
        lemma_trim_end_take(s.drop_last(), b);
        assert(s.drop_last().take(b) =~= s.take(b));
    }
}

/// `s` with leading and trailing spacing removed.
pub fn trim(s: &str) -> (r: &str)
    ensures
        r@ == spec_trim(s@),
{
    let len = s.unicode_len();
    let mut a: usize = 0;
    while a < len && is_space_at(s, a)
        invariant
            a <= len,
            len == s@.len(),
            forall|k: int| 0 <= k < a ==> spec_is_space(s@[k]),
        decreases len - a,
    {
        a = a + 1;
    }
    let mut b: usize = len;
    while b > a && is_space_at(s, b - 1)
        invariant
            a <= b <= len,
            len == s@.len(),
            forall|k: int| b <= k < len ==> spec_is_space(s@[k]),
        decreases b,
    {
        b = b - 1;
    }
    proof {
        lemma_trim_start_skip(s@, a as int);
        assert forall|k: int| b - a <= k < s@.skip(a as int).len() implies spec_is_space(
            s@.skip(a as int)[k],
        ) by {
            assert(s@.skip(a as int)[k] == s@[k + a]);
        }
        lemma_trim_end_take(s@.skip(a as int), b - a);
        assert(s@.skip(a as int).take(b - a) =~= s@.subrange(a as int, b as int));
    }
    s.substring_char(a, b)
}

/// `s` without any trailing occurrences of `ch`.
pub open spec fn spec_trim_end_char(s: Seq<char>, ch: char) -> Seq<char>
    decreases s.len(),
{
    if s.len() > 0 && s[s.len() - 1] == ch {
        spec_trim_end_char(s.drop_last(), ch)
    } else {
        s
    }
}

/// Keeping everything before a suffix of `ch` repetitions is what
/// `spec_trim_end_char` does.
proof fn lemma_trim_end_char_take(s: Seq<char>, ch: char, b: int)
    requires
        0 <= b <= s.len(),
        forall|k: int| b <= k < s.len() ==> s[k] == ch,
        b > 0 ==> s[b - 1] != ch,
    ensures
        spec_trim_end_char(s, ch) == s.take(b),
    decreases s.len() - b,
{
    if b == s.len() {
        assert(s.take(b) =~= s);
    } else {
        assert forall|k: int| b <= k < s.len() - 1 implies s.drop_last()[k] == ch by {
            assert(s.drop_last()[k] == s[k]);
        }
        lemma_trim_end_char_take(s.drop_last(), ch, b);
        assert(s.drop_last().take(b) =~= s.take(b));
    }
}

/// `s` with every trailing occurrence of `ch` removed.
pub fn trim_end_char(s: &str, ch: char) -> (r: &str)
    ensures
        r@ == spec_trim_end_char(s@, ch),
{
    let len = s.unicode_len();
    let mut b: usize = len;
    while b > 0 && s.get_char(b - 1) == ch
        invariant
            b <= len,
            len == s@.len(),
            forall|k: int| b <= k < len ==> s@[k] == ch,
        decreases b,
    {
        b = b - 1;
    }
    proof {
        lemma_trim_end_char_take(s@, ch, b as int);
        assert(s@.take(b as int) =~= s@.subrange(0, b as int));
    }
    s.substring_char(0, b)
}

} // verus!
