//! Small verified text utilities: character search, prefix tests, substring
//! search and the name-munging rule for component descriptions.

use vstd::prelude::*;

verus! {

/// Relies on std's `String::push`, which appends the given character to the
/// end of the string.  vstd specifies `append` for string slices but not
/// `push` for a single computed character.
pub assume_specification[ String::push ](s: &mut String, ch: char)
    ensures
        final(s)@ == old(s)@.push(ch),
;

/// Whether `s` holds no line break.
pub open spec fn no_newline(s: Seq<char>) -> bool {
    forall|i: int| 0 <= i < s.len() ==> s[i] != '\n'
}

/// Whether `s` holds no double quote.
pub open spec fn no_quote(s: Seq<char>) -> bool {
    forall|i: int| 0 <= i < s.len() ==> s[i] != '"'
}

/// Index of the first occurrence of `c` in `s` at or after `from`, or `-1`.
pub open spec fn find_char_from_spec(s: Seq<char>, c: char, from: int) -> int
    decreases s.len() - from,
{
    if from < 0 || from >= s.len() {
        -1
    } else if s[from] == c {
        from
    } else {
        find_char_from_spec(s, c, from + 1)
    }
}

/// What `find_char_from_spec` returns: the least index of `c` in `s[from..]`,
/// or `-1` when there is none.
pub proof fn lemma_find_char_from_spec(s: Seq<char>, c: char, from: int)
    requires
        0 <= from,
    ensures
        ({
            let k = find_char_from_spec(s, c, from);
            &&& (k == -1 ==> forall|j: int| from <= j < s.len() ==> s[j] != c)
            &&& (k != -1 ==> from <= k < s.len() && s[k] == c && (forall|j: int|
                from <= j < k ==> s[j] != c))
        }),
    decreases s.len() - from,
{
    if from >= s.len() {
    } else if s[from] == c {
    } else {
        lemma_find_char_from_spec(s, c, from + 1);
    }
}

/// An index that holds `c` with no earlier occurrence at or after `from` is
/// what `find_char_from_spec` returns.
pub proof fn lemma_find_char_first(s: Seq<char>, c: char, from: int, k: int)
    requires
        0 <= from <= k < s.len(),
        s[k] == c,
        forall|j: int| from <= j < k ==> s[j] != c,
    ensures
        find_char_from_spec(s, c, from) == k,
    decreases k - from,
{
    if from < k {
        lemma_find_char_first(s, c, from + 1, k);
    }
}

/// Finds the first occurrence of `c` in `s` at or after `from`.
pub fn find_char_from(s: &str, c: char, from: usize) -> (r: Option<usize>)
    ensures
        match r {
            Some(i) => find_char_from_spec(s@, c, from as int) == i && i < s@.len(),
            None => find_char_from_spec(s@, c, from as int) == -1,
        },
{
    let n = s.unicode_len();
    let mut i: usize = from;
    if i >= n {
        proof {
            lemma_find_char_from_spec(s@, c, from as int);
        }
        return None;
    }
    while i < n
        invariant
            from <= i <= n,
            n == s@.len(),
            find_char_from_spec(s@, c, from as int) == find_char_from_spec(s@, c, i as int),
        decreases n - i,
    {
        if s.get_char(i) == c {
            return Some(i);
        }
        i += 1;
    }
    None
}

/// Whether `p` occurs in `s` starting at index `at`.
pub open spec fn prefix_at(s: Seq<char>, at: int, p: Seq<char>) -> bool {
    0 <= at && at + p.len() <= s.len() && s.subrange(at, at + p.len()) == p
}

/// Tests whether `prefix` occurs in `s` at index `at`.
pub fn check_prefix_at(s: &str, at: usize, prefix: &str) -> (b: bool)
    ensures
        b == prefix_at(s@, at as int, prefix@),
{
    let n = s.unicode_len();
    let m = prefix.unicode_len();
    if at > n || m > n - at {
        return false;
    }
    let mut j: usize = 0;
    while j < m
        invariant
            0 <= j <= m,
            n == s@.len(),
            m == prefix@.len(),
            at + m <= n,
            forall|k: int| 0 <= k < j ==> s@[at + k] == prefix@[k],
        decreases m - j,
    {
        if s.get_char(at + j) != prefix.get_char(j) {
            assert(s@.subrange(at as int, at + m) != prefix@) by {
                assert(s@.subrange(at as int, at + m)[j as int] == s@[at + j]);
            }
            return false;
        }
        j += 1;
    }
    assert(s@.subrange(at as int, at + m) =~= prefix@);
    true
}

/// Whether `pat` occurs in `s` starting at index `i`.
pub open spec fn match_at(s: Seq<char>, pat: Seq<char>, i: int) -> bool {
    0 <= i && i + pat.len() <= s.len() && s.subrange(i, i + pat.len()) == pat
}

/// Index of the first occurrence of `pat` in `s` at or after `from`, or `-1`.
pub open spec fn find_match_from_spec(s: Seq<char>, pat: Seq<char>, from: int) -> int
    decreases s.len() - from + 1,
{
    if from < 0 || from + pat.len() > s.len() {
        -1
    } else if match_at(s, pat, from) {
        from
    } else {
        find_match_from_spec(s, pat, from + 1)
    }
}

/// An index where `pat` matches with no earlier match at or after `from` is
/// what `find_match_from_spec` returns.
pub proof fn lemma_find_match_first(s: Seq<char>, pat: Seq<char>, from: int, k: int)
    requires
        0 <= from <= k,
        match_at(s, pat, k),
        forall|j: int| from <= j < k ==> !match_at(s, pat, j),
    ensures
        find_match_from_spec(s, pat, from) == k,
    decreases k - from,
{
    if from < k {
        lemma_find_match_first(s, pat, from + 1, k);
    }
}

/// Finds the first occurrence of `pat` in `s` at or after `from`.
pub fn find_substring_from(s: &str, pat: &str, from: usize) -> (r: Option<usize>)
    ensures
        match r {
            Some(i) => find_match_from_spec(s@, pat@, from as int) == i && match_at(
                s@,
                pat@,
                i as int,
            ),
            None => find_match_from_spec(s@, pat@, from as int) == -1,
        },
{
    let n = s.unicode_len();
    let m = pat.unicode_len();
    if from > n || m > n - from {
        return None;
    }
    if m == 0 {
        assert(s@.subrange(from as int, from as int) =~= pat@);
        return Some(from);
    }
    let mut i: usize = from;
    while i <= n - m
        invariant
            from <= i,
            i + m <= n + 1,
            n == s@.len(),
            m == pat@.len(),
            1 <= m <= n,
            find_match_from_spec(s@, pat@, from as int) == find_match_from_spec(
                s@,
                pat@,
                i as int,
            ),
        decreases n - i,
    {
        if check_prefix_at(s, i, pat) {
            return Some(i);
        }
        i += 1;
    }
    None
}

/// Copies the characters of `s` between `from` and `to` into a fresh string.
pub fn substring_copy(s: &str, from: usize, to: usize) -> (r: String)
    requires
        from <= to <= s@.len(),
    ensures
        r@ == s@.subrange(from as int, to as int),
{
    String::from_str(s.substring_char(from, to))
}

/// `s` with the first occurrence of `pat` replaced by `rep`; `s` unchanged
/// when `pat` does not occur.
pub open spec fn replace_first_spec(s: Seq<char>, pat: Seq<char>, rep: Seq<char>) -> Seq<char> {
    let k = find_match_from_spec(s, pat, 0);
    if k == -1 {
        s
    } else {
        s.subrange(0, k) + rep + s.subrange(k + pat.len(), s.len() as int)
    }
}

/// Replaces the first occurrence of `pat` in `s` with `rep`.
pub fn replace_first(s: &str, pat: &str, rep: &str) -> (r: String)
    ensures
        r@ == replace_first_spec(s@, pat@, rep@),
{
    match find_substring_from(s, pat, 0) {
        Some(k) => {
            let n = s.unicode_len();
            assert(k + pat@.len() <= n);
            let mut r = substring_copy(s, 0, k);
            r.append(rep);
            let back = substring_copy(s, k + pat.unicode_len(), n);
            r.append(back.as_str());
            proof {
                assert(r@ =~= replace_first_spec(s@, pat@, rep@));
            }
            r
        },
        None => String::from_str(s),
    }
}

/// Whether `c` is an ASCII letter or digit.
pub open spec fn is_ascii_alnum(c: char) -> bool {
    ('a' <= c && c <= 'z') || ('A' <= c && c <= 'Z') || ('0' <= c && c <= '9')
}

/// `c` lower-cased, for ASCII letters; any other character is unchanged.
pub open spec fn lower_char(c: char) -> char {
    if 'A' <= c && c <= 'Z' {
        ((c as u32) + 32) as char
    } else {
        c
    }
}

/// The munged form of a description suffix: alphanumerics lower-cased, each
/// run of other characters collapsed to one `_` separator, and leading and
/// trailing runs dropped.  `started` records whether an alphanumeric has been
/// kept already, `pending` whether a separator run is open.
pub open spec fn munge_go(s: Seq<char>, started: bool, pending: bool) -> Seq<char>
    decreases s.len(),
{
    if s.len() == 0 {
        Seq::empty()
    } else if is_ascii_alnum(s[0]) {
        (if started && pending {
            seq!['_']
        } else {
            Seq::empty()
        }) + seq![lower_char(s[0])] + munge_go(s.drop_first(), true, false)
    } else {
        munge_go(s.drop_first(), started, true)
    }
}

/// The munged component name derived from a free-form description.
pub open spec fn munge_spec(s: Seq<char>) -> Seq<char> {
    munge_go(s, false, false)
}

/// Derives a component name from a free-form description: letters and digits
/// are kept lower-cased, every run of other characters becomes a single `_`
/// separator, and leading and trailing separators are dropped.
pub fn munge_component_description(description: &str) -> (r: String)
    ensures
        r@ == munge_spec(description@),
{
    let n = description.unicode_len();
    let mut out = String::new();
    let mut started: bool = false;
    let mut pending: bool = false;
    let mut i: usize = 0;
    proof {
        assert(description@.skip(0) =~= description@);
    }
    while i < n
        invariant
            0 <= i <= n,
            n == description@.len(),
            munge_spec(description@) == out@ + munge_go(
                description@.skip(i as int),
                started,
                pending,
            ),
        decreases n - i,
    {
        let ghost rest: Seq<char> = description@.skip(i as int);
        let ghost started0: bool = started;
        let ghost pending0: bool = pending;
        let ghost out0: Seq<char> = out@;
        proof {
            assert(rest.len() > 0);
            assert(rest[0] == description@[i as int]);
            assert(rest.drop_first() =~= description@.skip(i + 1));
        }
        let c = description.get_char(i);
        let is_alnum = ('a' <= c && c <= 'z') || ('A' <= c && c <= 'Z') || ('0' <= c && c
            <= '9');
        if is_alnum {
            if started && pending {
                out.append("_");
                proof {
                    reveal_strlit("_");
                    assert(out@ =~= out0.push('_'));
                }
            }
            let lc: char = if 'A' <= c && c <= 'Z' {
                ((c as u8) + 32) as char
            } else {
                c
            };
            assert(lc == lower_char(c));
            out.push(lc);
            started = true;
            pending = false;
            proof {
                assert(munge_go(rest, started0, pending0) == (if started0 && pending0 {
                    seq!['_']
                } else {
                    Seq::<char>::empty()
                }) + seq![lower_char(c)] + munge_go(rest.drop_first(), true, false));
                if started0 && pending0 {
                    assert(out@ =~= out0 + seq!['_'] + seq![lower_char(c)]);
                    assert(out0 + (seq!['_'] + seq![lower_char(c)] + munge_go(
                        rest.drop_first(),
                        true,
                        false,
                    )) =~= out@ + munge_go(rest.drop_first(), true, false));
                } else {
                    assert(out@ =~= out0 + seq![lower_char(c)]);
                    assert(out0 + (Seq::<char>::empty() + seq![lower_char(c)] + munge_go(
                        rest.drop_first(),
                        true,
                        false,
                    )) =~= out@ + munge_go(rest.drop_first(), true, false));
                }
            }
        } else {
            pending = true;
        }
        i += 1;
    }
    proof {
        assert(description@.skip(n as int).len() == 0);
        assert(munge_go(description@.skip(n as int), started, pending) =~= Seq::<char>::empty());
        assert(munge_spec(description@) =~= out@);
    }
    out
}

} // verus!
