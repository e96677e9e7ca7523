//! Character-sequence utilities shared by the parser and the protocol
//! handlers: whitespace trimming, searching, prefix tests, splitting into
//! lines, and decimal rendering of integers.

use vstd::prelude::*;

verus! {

/// The characters with the Unicode `White_Space` property, the set that
/// `str::trim` removes from both ends of a string.
pub open spec fn is_space_char(c: char) -> bool {
    c == '\u{0009}' || c == '\u{000A}' || c == '\u{000B}' || c == '\u{000C}'
        || c == '\u{000D}' || c == '\u{0020}' || c == '\u{0085}' || c == '\u{00A0}'
        || c == '\u{1680}' || c == '\u{2000}' || c == '\u{2001}' || c == '\u{2002}'
        || c == '\u{2003}' || c == '\u{2004}' || c == '\u{2005}' || c == '\u{2006}'
        || c == '\u{2007}' || c == '\u{2008}' || c == '\u{2009}' || c == '\u{200A}'
        || c == '\u{2028}' || c == '\u{2029}' || c == '\u{202F}' || c == '\u{205F}'
        || c == '\u{3000}'
}

pub fn is_space(c: char) -> (r: bool)
    ensures
        r == is_space_char(c),
{
    c == '\u{0009}' || c == '\u{000A}' || c == '\u{000B}' || c == '\u{000C}'
        || c == '\u{000D}' || c == '\u{0020}' || c == '\u{0085}' || c == '\u{00A0}'
        || c == '\u{1680}' || c == '\u{2000}' || c == '\u{2001}' || c == '\u{2002}'
        || c == '\u{2003}' || c == '\u{2004}' || c == '\u{2005}' || c == '\u{2006}'
        || c == '\u{2007}' || c == '\u{2008}' || c == '\u{2009}' || c == '\u{200A}'
        || c == '\u{2028}' || c == '\u{2029}' || c == '\u{202F}' || c == '\u{205F}'
        || c == '\u{3000}'
}

/// Relies on `str::chars` and `Iterator::collect`: the characters of the
/// string, in order.
#[verifier::external_body]
pub fn str_to_chars(s: &str) -> (r: Vec<char>)
    ensures
        r@ == s@,
{
    s.chars().collect()
}

/// Relies on `FromIterator<char> for String`: collecting characters yields
/// the string of exactly those characters, in order.
#[verifier::external_body]
pub fn chars_to_string(v: &Vec<char>) -> (r: String)
    ensures
        r@ == v@,
{
    v.iter().collect()
}

/// What is left of `s` once every leading white-space character is removed.
pub open spec fn trim_front_spec(s: Seq<char>) -> Seq<char>
    decreases s.len(),
{
    if s.len() > 0 && is_space_char(s[0]) {
        trim_front_spec(s.drop_first())
    } else {
        s
    }
}

/// What is left of `s` once every trailing white-space character is removed.
pub open spec fn trim_back_spec(s: Seq<char>) -> Seq<char>
    decreases s.len(),
{
    if s.len() > 0 && is_space_char(s.last()) {
        trim_back_spec(s.drop_last())
    } else {
        s
    }
}

/// What `str::trim` returns: `s` with white space removed from both ends.
pub open spec fn trim_spec(s: Seq<char>) -> Seq<char> {
    trim_back_spec(trim_front_spec(s))
}

proof fn lemma_trim_front_skip(s: Seq<char>, k: int)
    requires
        0 <= k <= s.len(),
        forall|j: int| 0 <= j < k ==> is_space_char(s[j]),
        k == s.len() || !is_space_char(s[k]),
    ensures
        trim_front_spec(s) == s.skip(k),
    decreases k,
{
    if k == 0 {
        assert(s.skip(0) == s);
    } else {
        assert(is_space_char(s[0]));
        let t = s.drop_first();
        assert(forall|j: int| 0 <= j < k - 1 ==> is_space_char(t[j]));
        lemma_trim_front_skip(t, k - 1);
        assert(t.skip(k - 1) == s.skip(k));
    }
}

proof fn lemma_trim_back_take(s: Seq<char>, k: int)
    requires
        0 <= k <= s.len(),
        forall|j: int| k <= j < s.len() ==> is_space_char(s[j]),
        k == 0 || !is_space_char(s[k - 1]),
    ensures
        trim_back_spec(s) == s.take(k),
    decreases s.len(),
{
    if k == s.len() {
        if s.len() > 0 && is_space_char(s.last()) {
            assert(false);
        }
        assert(s.take(k) == s);
    } else {
        assert(is_space_char(s.last()));
        let t = s.drop_last();
        lemma_trim_back_take(t, k);
        assert(t.take(k) == s.take(k));
    }
}

/// `str::trim`, on a character vector.
pub fn trim_chars(v: &Vec<char>) -> (r: Vec<char>)
    ensures
        r@ == trim_spec(v@),
{
    let n = v.len();
    let mut start: usize = 0;
    while start < n && is_space(v[start])
        invariant
            0 <= start <= n,
            n == v@.len(),
            forall|j: int| 0 <= j < start ==> is_space_char(v@[j]),
        decreases n - start,
    {
        start = start + 1;
    }
    proof {
        lemma_trim_front_skip(v@, start as int);
    }
    let mut end: usize = n;
    while end > start && is_space(v[end - 1])
        invariant
            start <= end <= n,
            n == v@.len(),
            forall|j: int| end <= j < n ==> is_space_char(v@[j]),
        decreases end,
    {
        end = end - 1;
    }
    proof {
        if end == start {
            lemma_trim_back_take(v@.skip(start as int), 0);
        } else {
            lemma_trim_back_take(v@.skip(start as int), end - start);
        }
    }
    let mut r: Vec<char> = Vec::new();
    let mut i: usize = start;
    while i < end
        invariant
            start <= i <= end <= n,
            n == v@.len(),
            r@ == v@.subrange(start as int, i as int),
        decreases end - i,
    {
        r.push(v[i]);
        assert(r@ == v@.subrange(start as int, i + 1));
        i = i + 1;
    }
    proof {
        assert(v@.skip(start as int).take(end - start as int) == v@.subrange(
            start as int,
            end as int,
        ));
    }
    r
}

/// The index of the first occurrence of `c` in `s`, or `-1` when `c` does
/// not occur.
pub open spec fn first_index_of(s: Seq<char>, c: char) -> int
    decreases s.len(),
{
    if s.len() == 0 {
        -1
    } else if s[0] == c {
        0
    } else {
        let r = first_index_of(s.drop_first(), c);
        if r == -1 {
            -1
        } else {
            r + 1
        }
    }
}

/// The index of the last occurrence of `c` in `s`, or `-1` when `c` does
/// not occur.
pub open spec fn last_index_of(s: Seq<char>, c: char) -> int
    decreases s.len(),
{
    if s.len() == 0 {
        -1
    } else {
        let r = last_index_of(s.drop_first(), c);
        if r != -1 {
            r + 1
        } else if s[0] == c {
            0
        } else {
            -1
        }
    }
}

pub proof fn lemma_first_index_of(s: Seq<char>, c: char)
    ensures
        first_index_of(s, c) == -1 ==> forall|j: int| 0 <= j < s.len() ==> s[j] != c,
        first_index_of(s, c) != -1 ==> {
            let r = first_index_of(s, c);
            &&& 0 <= r < s.len()
            &&& s[r] == c
            &&& forall|j: int| 0 <= j < r ==> s[j] != c
        },
    decreases s.len(),
{
    if s.len() > 0 && s[0] != c {
        let t = s.drop_first();
        lemma_first_index_of(t, c);
        assert(forall|j: int| 1 <= j < s.len() ==> s[j] == t[j - 1]);
    }
}

/// Scanning a prefix that misses `c` moves the first hit past the prefix.
proof fn lemma_first_index_of_from(s: Seq<char>, c: char, k: int)
    requires
        0 <= k <= s.len(),
        forall|j: int| 0 <= j < k ==> s[j] != c,
        k == s.len() || s[k] == c,
    ensures
        k == s.len() ==> first_index_of(s, c) == -1,
        k < s.len() ==> first_index_of(s, c) == k,
    decreases k,
{
    if s.len() == 0 {
    } else if k == 0 {
        if s.len() > 0 && s[0] != c {
            lemma_first_index_of(s.drop_first(), c);
        }
    } else {
        let t = s.drop_first();
        assert(forall|j: int| 0 <= j < k - 1 ==> t[j] != c);
        lemma_first_index_of_from(t, c, k - 1);
    }
}

/// The index of the first occurrence of `c` at or after position 0, as an
/// executable search.
pub fn find_char(v: &Vec<char>, c: char) -> (r: Option<usize>)
    ensures
        match r {
            Some(i) => {
                &&& i == first_index_of(v@, c)
                &&& 0 <= i < v@.len()
                &&& v@[i as int] == c
                &&& forall|j: int| 0 <= j < i ==> v@[j] != c
            },
            None => {
                &&& first_index_of(v@, c) == -1
                &&& forall|j: int| 0 <= j < v@.len() ==> v@[j] != c
            },
        },
{
    let n = v.len();
    let mut i: usize = 0;
    while i < n
        invariant
            0 <= i <= n,
            n == v@.len(),
            forall|j: int| 0 <= j < i ==> v@[j] != c,
        decreases n - i,
    {
        if v[i] == c {
            proof {
                lemma_first_index_of_from(v@, c, i as int);
            }
            return Some(i);
        }
        i = i + 1;
    }
    proof {
        lemma_first_index_of_from(v@, c, n as int);
    }
    None
}

proof fn lemma_last_index_of_from(s: Seq<char>, c: char, k: int)
    requires
        0 <= k <= s.len(),
        forall|j: int| k <= j < s.len() ==> s[j] != c,
        k == 0 || s[k - 1] == c,
    ensures
        k == 0 ==> last_index_of(s, c) == -1,
        k > 0 ==> last_index_of(s, c) == k - 1,
    decreases s.len(),
{
    if s.len() == 0 {
    } else {
        let t = s.drop_first();
        if k == 0 {
            lemma_last_index_of_from(t, c, 0);
            assert(s[0] != c);
        } else if k == 1 {
            lemma_last_index_of_from(t, c, 0);
            assert(s[0] == c);
        } else {
            assert(forall|j: int| k - 1 <= j < t.len() ==> t[j] != c);
            assert(t[k - 2] == s[k - 1]);
            lemma_last_index_of_from(t, c, k - 1);
        }
    }
}

/// The index of the last occurrence of `c`, as an executable search.
pub fn rfind_char(v: &Vec<char>, c: char) -> (r: Option<usize>)
    ensures
        match r {
            Some(i) => {
                &&& i == last_index_of(v@, c)
                &&& 0 <= i < v@.len()
                &&& v@[i as int] == c
                &&& forall|j: int| i < j < v@.len() ==> v@[j] != c
            },
            None => {
                &&& last_index_of(v@, c) == -1
                &&& forall|j: int| 0 <= j < v@.len() ==> v@[j] != c
            },
        },
{
    let n = v.len();
    let mut i: usize = n;
    while i > 0
        invariant
            0 <= i <= n,
            n == v@.len(),
            forall|j: int| i <= j < n ==> v@[j] != c,
        decreases i,
    {
        if v[i - 1] == c {
            proof {
                lemma_last_index_of_from(v@, c, i as int);
            }
            return Some(i - 1);
        }
        i = i - 1;
    }
    proof {
        lemma_last_index_of_from(v@, c, 0);
    }
    None
}

/// Whether `p` is a prefix of `s`.
pub fn starts_with_chars(v: &Vec<char>, p: &Vec<char>) -> (r: bool)
    ensures
        r == p@.is_prefix_of(v@),
{
    let np = p.len();
    if np > v.len() {
        return false;
    }
    let mut i: usize = 0;
    while i < np
        invariant
            0 <= i <= np,
            np == p@.len(),
            np <= v@.len(),
            forall|j: int| 0 <= j < i ==> v@[j] == p@[j],
        decreases np - i,
    {
        if v[i] != p[i] {
            assert(!p@.is_prefix_of(v@)) by {
                assert(v@[i as int] != p@[i as int]);
            }
            return false;
        }
        i = i + 1;
    }
    assert(p@.is_prefix_of(v@)) by {
        assert(v@.subrange(0, np as int) =~= p@);
    }
    true
}

/// Whether `p` is a suffix of `s`.
pub fn ends_with_chars(v: &Vec<char>, p: &Vec<char>) -> (r: bool)
    ensures
        r == p@.is_suffix_of(v@),
{
    let np = p.len();
    let nv = v.len();
    if np > nv {
        return false;
    }
    let off = nv - np;
    let mut i: usize = 0;
    while i < np
        invariant
            0 <= i <= np,
            np == p@.len(),
            nv == v@.len(),
            off == nv - np,
            forall|j: int| 0 <= j < i ==> v@[off + j] == p@[j],
        decreases np - i,
    {
        if v[off + i] != p[i] {
            assert(!p@.is_suffix_of(v@)) by {
                assert(v@[off + i] != p@[i as int]);
            }
            return false;
        }
        i = i + 1;
    }
    assert(p@.is_suffix_of(v@)) by {
        assert(v@.subrange(off as int, nv as int) =~= p@);
    }
    true
}

/// Copy of `v[from..to]` as a fresh vector.
pub fn subrange_chars(v: &Vec<char>, from: usize, to: usize) -> (r: Vec<char>)
    requires
        0 <= from <= to <= v@.len(),
    ensures
        r@ == v@.subrange(from as int, to as int),
{
    let mut r: Vec<char> = Vec::new();
    let mut i: usize = from;
    while i < to
        invariant
            from <= i <= to <= v@.len(),
            r@ == v@.subrange(from as int, i as int),
        decreases to - i,
    {
        r.push(v[i]);
        assert(r@ == v@.subrange(from as int, i + 1));
        i = i + 1;
    }
    r
}

/// Append a copy of every character of `src` to `dst`.
pub fn push_all(dst: &mut Vec<char>, src: &Vec<char>)
    ensures
        final(dst)@ == old(dst)@ + src@,
{
    let n = src.len();
    let mut i: usize = 0;
    while i < n
        invariant
            0 <= i <= n,
            n == src@.len(),
            dst@ == old(dst)@ + src@.take(i as int),
        decreases n - i,
    {
        dst.push(src[i]);
        assert(old(dst)@ + src@.take(i as int) + seq![src@[i as int]] == old(dst)@ + src@.take(
            i + 1,
        ));
        i = i + 1;
    }
    assert(src@.take(n as int) == src@);
}

/// Whether two character vectors hold the same characters.
pub fn chars_eq(a: &Vec<char>, b: &Vec<char>) -> (r: bool)
    ensures
        r == (a@ == b@),
{
    let n = a.len();
    if n != b.len() {
        return false;
    }
    let mut i: usize = 0;
    while i < n
        invariant
            0 <= i <= n,
            n == a@.len() == b@.len(),
            forall|j: int| 0 <= j < i ==> a@[j] == b@[j],
        decreases n - i,
    {
        if a[i] != b[i] {
            return false;
        }
        i = i + 1;
    }
    assert(a@ =~= b@);
    true
}

/// `s` with one trailing carriage return removed, the way `str::lines`
/// treats a line that ended in `\r\n`.
pub open spec fn strip_cr(s: Seq<char>) -> Seq<char> {
    if s.len() > 0 && s.last() == '\r' {
        s.drop_last()
    } else {
        s
    }
}

/// What `str::lines` yields: segments split at `\n`, each stripped of one
/// trailing `\r`; a final segment left empty by a trailing `\n` is dropped,
/// and a last segment with no terminator keeps any trailing `\r`.
pub open spec fn split_lines_spec(s: Seq<char>) -> Seq<Seq<char>>
    decreases s.len(),
    via split_lines_spec_decreases
{
    if s.len() == 0 {
        Seq::empty()
    } else {
        let i = first_index_of(s, '\n');
        if i == -1 {
            seq![s]
        } else {
            seq![strip_cr(s.take(i))] + split_lines_spec(s.skip(i + 1))
        }
    }
}

#[via_fn]
proof fn split_lines_spec_decreases(s: Seq<char>) {
    if s.len() > 0 {
        lemma_first_index_of(s, '\n');
    }
}

/// The views of the elements of a vector of character vectors.
pub open spec fn views_of(r: Seq<Vec<char>>) -> Seq<Seq<char>> {
    Seq::new(r.len(), |i: int| r[i]@)
}

proof fn lemma_views_of_push(r: Seq<Vec<char>>, x: Vec<char>)
    ensures
        views_of(r.push(x)) == views_of(r).push(x@),
{
    assert(views_of(r.push(x)) =~= views_of(r).push(x@));
}

/// `str::lines`, on a character vector.
pub fn split_lines_chars(v: &Vec<char>) -> (r: Vec<Vec<char>>)
    ensures
        views_of(r@) == split_lines_spec(v@),
{
    let n = v.len();
    let mut r: Vec<Vec<char>> = Vec::new();
    let mut start: usize = 0;
    proof {
        assert(v@.skip(0) == v@);
        assert(views_of(r@) + split_lines_spec(v@) =~= split_lines_spec(v@));
    }
    while start < n
        invariant
            0 <= start <= n,
            n == v@.len(),
            split_lines_spec(v@) == views_of(r@) + split_lines_spec(v@.skip(start as int)),
        decreases n - start,
    {
        let ghost rest = v@.skip(start as int);
        let mut j: usize = start;
        while j < n && v[j] != '\n'
            invariant
                start <= j <= n,
                n == v@.len(),
                forall|k: int| start <= k < j ==> v@[k] != '\n',
            decreases n - j,
        {
            j = j + 1;
        }
        proof {
            assert(forall|k: int| 0 <= k < j - start ==> rest[k] != '\n');
            if j < n {
                assert(rest[j - start as int] == '\n');
                lemma_first_index_of_from(rest, '\n', j - start as int);
            } else {
                lemma_first_index_of_from(rest, '\n', rest.len() as int);
            }
        }
        if j < n {
            let mut seg = subrange_chars(v, start, j);
            if seg.len() > 0 && seg[seg.len() - 1] == '\r' {
                seg.pop();
            }
            proof {
                assert(v@.subrange(start as int, j as int) == rest.take(j - start as int));
                assert(seg@ == strip_cr(rest.take(j - start as int)));
                lemma_views_of_push(r@, seg);
                assert(split_lines_spec(rest) == seq![strip_cr(rest.take(j - start as int))]
                    + split_lines_spec(rest.skip(j - start + 1)));
                assert(rest.skip(j - start + 1) == v@.skip(j + 1));
                assert(views_of(r@).push(seg@) + split_lines_spec(v@.skip(j + 1)) =~= views_of(r@)
                    + split_lines_spec(rest));
            }
            r.push(seg);
            start = j + 1;
        } else {
            let seg = subrange_chars(v, start, n);
            proof {
                assert(seg@ == rest);
                assert(split_lines_spec(rest) == seq![rest]);
                lemma_views_of_push(r@, seg);
                assert(views_of(r@).push(seg@) =~= views_of(r@) + split_lines_spec(rest));
                assert(split_lines_spec(v@.skip(n as int)) == Seq::<Seq<char>>::empty());
                assert(views_of(r@).push(seg@) + split_lines_spec(v@.skip(n as int)) =~= views_of(
                    r@,
                ).push(seg@));
            }
            r.push(seg);
            start = n;
        }
    }
    proof {
        assert(split_lines_spec(v@.skip(n as int)) == Seq::<Seq<char>>::empty());
        assert(views_of(r@) + Seq::<Seq<char>>::empty() =~= views_of(r@));
    }
    r
}

/// What `str::split(c)` yields: the pieces of `s` between occurrences of
/// `c`, separators removed; a string without `c` is one piece, and empty
/// pieces are kept.
pub open spec fn split_char_spec(s: Seq<char>, c: char) -> Seq<Seq<char>>
    decreases s.len(),
    via split_char_spec_decreases
{
    let i = first_index_of(s, c);
    if i == -1 {
        seq![s]
    } else {
        seq![s.take(i)] + split_char_spec(s.skip(i + 1), c)
    }
}

#[via_fn]
proof fn split_char_spec_decreases(s: Seq<char>, c: char) {
    lemma_first_index_of(s, c);
}

/// `str::split` on a single separator character, on a character vector.
pub fn split_char(v: &Vec<char>, c: char) -> (r: Vec<Vec<char>>)
    ensures
        views_of(r@) == split_char_spec(v@, c),
{
    let n = v.len();
    let mut r: Vec<Vec<char>> = Vec::new();
    let mut cur: Vec<char> = Vec::new();
    let mut start: usize = 0;
    let mut i: usize = 0;
    proof {
        assert(v@.skip(0) == v@);
        assert(views_of(r@) + split_char_spec(v@, c) =~= split_char_spec(v@, c));
    }
    while i < n
        invariant
            0 <= start <= i <= n,
            n == v@.len(),
            cur@ == v@.subrange(start as int, i as int),
            forall|k: int| start <= k < i ==> v@[k] != c,
            split_char_spec(v@, c) == views_of(r@) + split_char_spec(v@.skip(start as int), c),
        decreases n - i,
    {
        let ghost rest = v@.skip(start as int);
        if v[i] == c {
            proof {
                assert(forall|k: int| 0 <= k < i - start ==> rest[k] != c);
                assert(rest[i - start as int] == c);
                lemma_first_index_of_from(rest, c, i - start as int);
                assert(rest.take(i - start as int) == v@.subrange(start as int, i as int));
                assert(rest.skip(i - start + 1) == v@.skip(i + 1));
                lemma_views_of_push(r@, cur);
                assert(views_of(r@).push(cur@) + split_char_spec(v@.skip(i + 1), c) =~= views_of(
                    r@,
                ) + split_char_spec(rest, c));
            }
            r.push(cur);
            cur = Vec::new();
            start = i + 1;
            assert(cur@ == v@.subrange(start as int, start as int));
        } else {
            cur.push(v[i]);
            assert(cur@ == v@.subrange(start as int, i + 1));
        }
        i = i + 1;
    }
    proof {
        let rest = v@.skip(start as int);
        assert(forall|k: int| 0 <= k < rest.len() ==> rest[k] != c);
        lemma_first_index_of_from(rest, c, rest.len() as int);
        assert(split_char_spec(rest, c) == seq![rest]);
        assert(cur@ == rest);
        lemma_views_of_push(r@, cur);
        assert(views_of(r@).push(cur@) =~= views_of(r@) + split_char_spec(rest, c));
    }
    r.push(cur);
    r
}

/// The decimal digit character for `d`.
pub open spec fn dec_digit_char(d: nat) -> char {
    if d == 0 {
        '0'
    } else if d == 1 {
        '1'
    } else if d == 2 {
        '2'
    } else if d == 3 {
        '3'
    } else if d == 4 {
        '4'
    } else if d == 5 {
        '5'
    } else if d == 6 {
        '6'
    } else if d == 7 {
        '7'
    } else if d == 8 {
        '8'
    } else {
        '9'
    }
}

/// The decimal representation of `n`, most significant digit first, with
/// no leading zeros (and `"0"` for zero itself).
pub open spec fn dec_rep(n: nat) -> Seq<char>
    decreases n,
{
    if n < 10 {
        seq![dec_digit_char(n)]
    } else {
        dec_rep(n / 10) + seq![dec_digit_char(n % 10)]
    }
}

fn dec_digit(d: u64) -> (r: char)
    requires
        d < 10,
    ensures
        r == dec_digit_char(d as nat),
{
    if d == 0 {
        '0'
    } else if d == 1 {
        '1'
    } else if d == 2 {
        '2'
    } else if d == 3 {
        '3'
    } else if d == 4 {
        '4'
    } else if d == 5 {
        '5'
    } else if d == 6 {
        '6'
    } else if d == 7 {
        '7'
    } else if d == 8 {
        '8'
    } else {
        '9'
    }
}

/// Render `n` in decimal, as `u64`'s `Display` implementation does.
pub fn u64_to_dec_chars(n: u64) -> (r: Vec<char>)
    ensures
        r@ == dec_rep(n as nat),
{
    if n == 0 {
        let mut r: Vec<char> = Vec::new();
        r.push('0');
        assert(r@ =~= dec_rep(0));
        return r;
    }
    let mut out: Vec<char> = Vec::new();
    let mut cur: u64 = n;
    while cur > 0
        invariant
            cur > 0 ==> dec_rep(n as nat) == dec_rep(cur as nat) + out@,
            cur == 0 ==> dec_rep(n as nat) == out@,
        decreases cur,
    {
        let d = cur % 10;
        let ghost prev = cur as nat;
        let ghost out0 = out@;
        out.insert(0, dec_digit(d));
        cur = cur / 10;
        proof {
            assert(out@ =~= seq![dec_digit_char(prev % 10)] + out0);
            if prev >= 10 {
                assert(dec_rep(prev) == dec_rep(prev / 10) + seq![dec_digit_char(prev % 10)]);
                assert(dec_rep(prev) + out0 =~= dec_rep(prev / 10) + out@);
            } else {
                assert(dec_rep(prev) == seq![dec_digit_char(prev)]);
                assert(dec_rep(prev) + out0 =~= out@);
            }
        }
    }
    out
}

/// The characters of `str::to_lowercase` of a string: a function of the
/// characters alone, left unspecified here.
pub uninterp spec fn lower_of(s: Seq<char>) -> Seq<char>;

/// The characters of `str::to_uppercase` of a string: a function of the
/// characters alone, left unspecified here.
pub uninterp spec fn upper_of(s: Seq<char>) -> Seq<char>;

/// Relies on `str::to_lowercase`: the result is determined by the input
/// characters alone.
#[verifier::external_body]
pub fn lowercase(s: &str) -> (r: String)
    ensures
        r@ == lower_of(s@),
{
    s.to_lowercase()
}

/// Relies on `str::to_uppercase`: the result is determined by the input
/// characters alone.
#[verifier::external_body]
pub fn uppercase(s: &str) -> (r: String)
    ensures
        r@ == upper_of(s@),
{
    s.to_uppercase()
}

} // verus!
