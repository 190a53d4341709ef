//! Verified text utilities: lexicographic ordering and sorting of strings,
//! substring search, prefix handling, and character-level editing. Wallpaper
//! file paths are plain strings ordered and filtered by these functions.

use vstd::prelude::*;

verus! {

/// Lexicographic "less than or equal" over character sequences, ordering
/// characters by code point; the order file paths are displayed in.
pub open spec fn lex_le(a: Seq<char>, b: Seq<char>) -> bool
    decreases a.len(),
{
    if a.len() == 0 {
        true
    } else if b.len() == 0 {
        false
    } else if (a[0] as u32) == (b[0] as u32) {
        lex_le(a.skip(1), b.skip(1))
    } else {
        (a[0] as u32) < (b[0] as u32)
    }
}

/// Any two character sequences are comparable under `lex_le`.
pub proof fn lemma_lex_le_total(a: Seq<char>, b: Seq<char>)
    ensures
        lex_le(a, b) || lex_le(b, a),
    decreases a.len(),
{
    if a.len() == 0 {
    } else if b.len() == 0 {
    } else if (a[0] as u32) == (b[0] as u32) {
        lemma_lex_le_total(a.skip(1), b.skip(1));
    }
}

/// `lex_le` is transitive.
pub proof fn lemma_lex_le_trans(a: Seq<char>, b: Seq<char>, c: Seq<char>)
    requires
        lex_le(a, b),
        lex_le(b, c),
    ensures
        lex_le(a, c),
    decreases a.len(),
{
    if a.len() == 0 {
    } else {
        if (a[0] as u32) == (b[0] as u32) && (b[0] as u32) == (c[0] as u32) {
            lemma_lex_le_trans(a.skip(1), b.skip(1), c.skip(1));
        }
    }
}

/// Decides `lex_le` on two string slices.
pub fn str_lex_le(a: &str, b: &str) -> (r: bool)
    ensures
        r == lex_le(a@, b@),
{
    let alen = a.unicode_len();
    let blen = b.unicode_len();
    proof {
        assert(a@.skip(0) =~= a@);
        assert(b@.skip(0) =~= b@);
    }
    let mut i: usize = 0;
    loop
        invariant
            i <= alen,
            i <= blen,
            alen == a@.len(),
            blen == b@.len(),
            lex_le(a@, b@) == lex_le(a@.skip(i as int), b@.skip(i as int)),
        decreases alen - i,
    {
        if i == alen {
            return true;
        }
        if i == blen {
            return false;
        }
        let ca = a.get_char(i) as u32;
        let cb = b.get_char(i) as u32;
        if ca != cb {
            return ca < cb;
        }
        proof {
            assert(a@.skip(i as int).skip(1) =~= a@.skip(i + 1));
            assert(b@.skip(i as int).skip(1) =~= b@.skip(i + 1));
        }
        i = i + 1;
    }
}

/// `needle` occurs as a contiguous run of characters inside `haystack`.
pub open spec fn contains_seq(haystack: Seq<char>, needle: Seq<char>) -> bool {
    exists|i: int|
        0 <= i && i + needle.len() <= haystack.len() && #[trigger] haystack.subrange(
            i,
            i + needle.len(),
        ) == needle
}

/// Compares the characters of `n` against those of `h` starting at offset `i`.
fn match_at(h: &str, n: &str, i: usize, hlen: usize, nlen: usize) -> (r: bool)
    requires
        hlen == h@.len(),
        nlen == n@.len(),
        i + n@.len() <= h@.len(),
    ensures
        r == (h@.subrange(i as int, i as int + n@.len() as int) == n@),
{
    let mut j: usize = 0;
    while j < nlen
        invariant
            hlen == h@.len(),
            nlen == n@.len(),
            i + n@.len() <= h@.len(),
            j <= nlen,
            forall|k: int| 0 <= k < j ==> h@[i + k] == n@[k],
        decreases nlen - j,
    {
        if h.get_char(i + j) != n.get_char(j) {
            proof {
                assert(h@.subrange(i as int, i as int + n@.len() as int)[j as int] == h@[i + j]);
            }
            return false;
        }
        j = j + 1;
    }
    proof {
        assert(h@.subrange(i as int, i as int + n@.len() as int) =~= n@);
    }
    true
}

/// Decides whether `needle` occurs as a substring of `haystack`.
pub fn contains_substr(haystack: &str, needle: &str) -> (r: bool)
    ensures
        r == contains_seq(haystack@, needle@),
{
    let hlen = haystack.unicode_len();
    let nlen = needle.unicode_len();
    if nlen == 0 {
        assert(contains_seq(haystack@, needle@)) by {
            assert(haystack@.subrange(0int, 0int + needle@.len()) =~= needle@);
        }
        return true;
    }
    if nlen > hlen {
        proof {
            assert(forall|i: int|
                !(0 <= i && i + needle@.len() <= haystack@.len() && #[trigger] haystack@.subrange(
                    i,
                    i + needle@.len(),
                ) == needle@));
        }
        return false;
    }
    let mut i: usize = 0;
    while i <= hlen - nlen
        invariant
            0 < nlen <= hlen,
            hlen == haystack@.len(),
            nlen == needle@.len(),
            i <= hlen - nlen + 1,
            forall|ii: int|
                0 <= ii < i ==> #[trigger] haystack@.subrange(ii, ii + needle@.len()) != needle@,
        decreases hlen - nlen + 1 - i,
    {
        if match_at(haystack, needle, i, hlen, nlen) {
            assert(contains_seq(haystack@, needle@)) by {
                assert(haystack@.subrange(i as int, i as int + needle@.len()) == needle@);
            }
            return true;
        }
        i = i + 1;
    }
    proof {
        assert forall|ii: int|
            !(0 <= ii && ii + needle@.len() <= haystack@.len() && #[trigger] haystack@.subrange(
                ii,
                ii + needle@.len(),
            ) == needle@) by {
            if 0 <= ii && ii + needle@.len() <= haystack@.len() {
                assert(ii < i);
            }
        }
    }
    false
}

/// The characters of `v`, item by item.
pub open spec fn views_of(v: Seq<String>) -> Seq<Seq<char>> {
    v.map_values(|s: String| s@)
}

/// Every earlier string is `lex_le` every later one.
pub open spec fn sorted_strings(v: Seq<String>) -> bool {
    forall|i: int, j: int| 0 <= i < j < v.len() ==> lex_le(v[i]@, v[j]@)
}

/// Sorts the strings into lexicographic order by insertion, keeping exactly
/// the same multiset of character sequences.
pub fn sort_strings(v: &Vec<String>) -> (r: Vec<String>)
    ensures
        sorted_strings(r@),
        views_of(r@).to_multiset() == views_of(v@).to_multiset(),
{
    let mut out: Vec<String> = Vec::new();
    proof {
        assert(views_of(out@) =~= Seq::<Seq<char>>::empty());
        assert(views_of(v@.subrange(0, 0)) =~= Seq::<Seq<char>>::empty());
    }
    let mut k: usize = 0;
    while k < v.len()
        invariant
            k <= v@.len(),
            sorted_strings(out@),
            views_of(out@).to_multiset() == views_of(v@.subrange(0, k as int)).to_multiset(),
        decreases v@.len() - k,
    {
        let s = v[k].clone();
        let ghost old_out = out@;
        let mut p: usize = 0;
        loop
            invariant
                out@ == old_out,
                sorted_strings(out@),
                p <= out@.len(),
                s == v@[k as int],
                k < v@.len(),
                forall|q: int| 0 <= q < p ==> lex_le(out@[q]@, s@),
            ensures
                out@ == old_out,
                p <= out@.len(),
                forall|q: int| 0 <= q < p ==> lex_le(out@[q]@, s@),
                p < out@.len() ==> lex_le(s@, out@[p as int]@),
            decreases out@.len() - p,
        {
            if p == out.len() {
                break;
            }
            if str_lex_le(&s, &out[p]) {
                break;
            }
            proof {
                lemma_lex_le_total(s@, out@[p as int]@);
            }
            p = p + 1;
        }
        out.insert(p, s);
        proof {
            old_out.insert_ensures(p as int, s);
            assert forall|i: int, j: int| 0 <= i < j < out@.len() implies lex_le(
                out@[i]@,
                out@[j]@,
            ) by {
                if j < p {
                } else if i < p && j == p {
                } else if i < p && j > p {
                } else if i == p {
                    if j > p + 1 {
                        lemma_lex_le_trans(s@, old_out[p as int]@, old_out[j - 1]@);
                    }
                } else {
                }
            }
            vstd::seq_lib::to_multiset_insert(views_of(old_out), p as int, s@);
            assert(views_of(out@) =~= views_of(old_out).insert(p as int, s@));
            vstd::seq_lib::to_multiset_build(views_of(v@.subrange(0, k as int)), s@);
            assert(views_of(v@.subrange(0, k + 1)) =~= views_of(v@.subrange(0, k as int)).push(
                s@,
            ));
        }
        k = k + 1;
    }
    proof {
        assert(v@.subrange(0, v@.len() as int) =~= v@);
    }
    out
}

/// Appends one character to an owned string.
///
/// Relies on std's `String::push`: the pushed character becomes the last
/// character of the string.
#[verifier::external_body]
pub(crate) fn push_char(s: &mut String, c: char)
    ensures
        final(s)@ == old(s)@.push(c),
{
    s.push(c);
}

/// `p` is a prefix of `s`.
pub open spec fn is_prefix(p: Seq<char>, s: Seq<char>) -> bool {
    p.len() <= s.len() && s.subrange(0, p.len() as int) == p
}

/// Decides whether `s` starts with `p`.
pub fn starts_with_str(s: &str, p: &str) -> (r: bool)
    ensures
        r == is_prefix(p@, s@),
{
    let slen = s.unicode_len();
    let plen = p.unicode_len();
    if plen > slen {
        return false;
    }
    match_at(s, p, 0, slen, plen)
}

/// The characters of `s` after a prefix `p`, as an owned string; `None` when
/// `s` does not start with `p`.
pub fn strip_prefix_str(s: &str, p: &str) -> (r: Option<String>)
    ensures
        r matches Some(rest) ==> is_prefix(p@, s@) && rest@ == s@.skip(p@.len() as int),
        r is None ==> !is_prefix(p@, s@),
{
    if !starts_with_str(s, p) {
        return None;
    }
    let slen = s.unicode_len();
    let plen = p.unicode_len();
    let rest = s.substring_char(plen, slen);
    Some(rest.to_owned())
}

/// Decides whether two string slices hold the same characters.
pub fn str_eq(a: &str, b: &str) -> (r: bool)
    ensures
        r == (a@ == b@),
{
    let alen = a.unicode_len();
    let blen = b.unicode_len();
    if alen != blen {
        return false;
    }
    proof {
        assert(a@.subrange(0, b@.len() as int) =~= a@);
    }
    match_at(a, b, 0, alen, blen)
}

/// ASCII whitespace: space, tab, line feed, carriage return.
pub open spec fn is_space(c: char) -> bool {
    c == ' ' || c == '\t' || c == '\n' || c == '\r'
}

/// The first position at or after `i` that holds a non-space character; the
/// length when spaces run to the end.
pub open spec fn first_nonspace(s: Seq<char>, i: int) -> int
    decreases s.len() - i,
{
    if i < 0 || i >= s.len() {
        s.len() as int
    } else if !is_space(s[i]) {
        i
    } else {
        first_nonspace(s, i + 1)
    }
}

/// The end of `s` with trailing spaces dropped, scanning down from `j`.
pub open spec fn trim_end_idx(s: Seq<char>, j: int) -> int
    decreases j,
{
    if j <= 0 {
        0
    } else if !is_space(s[j - 1]) {
        j
    } else {
        trim_end_idx(s, j - 1)
    }
}

/// `s` without leading and trailing ASCII whitespace.
pub open spec fn trimmed(s: Seq<char>) -> Seq<char> {
    let a = first_nonspace(s, 0);
    let b = trim_end_idx(s, s.len() as int);
    if a <= b {
        s.subrange(a, b)
    } else {
        Seq::empty()
    }
}

proof fn lemma_first_nonspace_position(s: Seq<char>, i: int, a: int)
    requires
        0 <= i <= a <= s.len(),
        forall|k: int| i <= k < a ==> is_space(#[trigger] s[k]),
        a < s.len() ==> !is_space(s[a as int]),
    ensures
        first_nonspace(s, i) == if a < s.len() {
            a
        } else {
            s.len() as int
        },
    decreases s.len() - i,
{
    if i >= s.len() {
    } else if !is_space(s[i]) {
        assert(i == a);
    } else {
        lemma_first_nonspace_position(s, i + 1, a);
    }
}

proof fn lemma_trim_end_position(s: Seq<char>, j: int, b: int)
    requires
        0 <= b <= j <= s.len(),
        forall|k: int| b <= k < j ==> is_space(#[trigger] s[k]),
        b > 0 ==> !is_space(s[b - 1]),
    ensures
        trim_end_idx(s, j) == b,
    decreases j,
{
    if j <= 0 {
    } else if !is_space(s[j - 1]) {
        assert(j == b);
    } else {
        lemma_trim_end_position(s, j - 1, b);
    }
}

/// Drops leading and trailing ASCII whitespace.
pub fn trim_spaces(s: &str) -> (r: String)
    ensures
        r@ == trimmed(s@),
{
    let n = s.unicode_len();
    let mut a: usize = 0;
    loop
        invariant
            a <= n,
            n == s@.len(),
            forall|k: int| 0 <= k < a ==> is_space(#[trigger] s@[k]),
        ensures
            a <= n,
            forall|k: int| 0 <= k < a ==> is_space(#[trigger] s@[k]),
            a < n ==> !is_space(s@[a as int]),
        decreases n - a,
    {
        if a == n {
            break;
        }
        let c = s.get_char(a);
        if !(c == ' ' || c == '\t' || c == '\n' || c == '\r') {
            break;
        }
        a = a + 1;
    }
    if a == n {
        proof {
            lemma_first_nonspace_position(s@, 0, n as int);
            lemma_trim_end_position(s@, n as int, 0);
        }
        return String::new();
    }
    let mut b: usize = n;
    loop
        invariant
            a < b <= n || b == n,
            a < n,
            n == s@.len(),
            !is_space(s@[a as int]),
            forall|k: int| b <= k < n ==> is_space(#[trigger] s@[k]),
        ensures
            b <= n,
            forall|k: int| b <= k < n ==> is_space(#[trigger] s@[k]),
            b > 0 ==> !is_space(s@[b - 1]),
            a < b,
        decreases b,
    {
        let c = s.get_char(b - 1);
        if !(c == ' ' || c == '\t' || c == '\n' || c == '\r') {
            break;
        }
        proof {
            assert(b - 1 > a) by {
                if b - 1 <= a {
                    assert(b - 1 == a);
                    assert(!is_space(s@[a as int]));
                }
            }
        }
        b = b - 1;
    }
    proof {
        lemma_first_nonspace_position(s@, 0, a as int);
        lemma_trim_end_position(s@, n as int, b as int);
    }
    s.substring_char(a, b).to_owned()
}

/// `s` with every occurrence of `c` removed.
pub fn remove_char(s: &str, c: char) -> (r: String)
    ensures
        r@ == s@.filter(|x: char| x != c),
{
    let ghost pred = |x: char| x != c;
    let n = s.unicode_len();
    let mut r = String::new();
    proof {
        reveal(Seq::filter);
        assert(s@.take(0) =~= Seq::<char>::empty());
        assert(r@ =~= s@.take(0).filter(pred));
    }
    let mut i: usize = 0;
    while i < n
        invariant
            i <= n,
            n == s@.len(),
            r@ == s@.take(i as int).filter(|x: char| x != c),
        decreases n - i,
    {
        let x = s.get_char(i);
        proof {
            reveal(Seq::filter);
            assert(s@.take(i + 1) =~= s@.take(i as int).push(s@[i as int]));
            assert(s@.take(i + 1).drop_last() =~= s@.take(i as int));
        }
        if x != c {
            push_char(&mut r, x);
        }
        i = i + 1;
    }
    proof {
        assert(s@.take(n as int) =~= s@);
    }
    r
}

} // verus!
