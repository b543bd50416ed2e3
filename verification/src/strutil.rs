//! Verified building blocks for text processing: first/last occurrence of a
//! pattern inside a sequence of characters, prefix/suffix tests, suffix
//! trimming, and their executable counterparts over `&str` / `String`.

use vstd::prelude::*;

verus! {

// ---------------------------------------------------------------------------
// Specification: occurrences of a pattern inside a text
// ---------------------------------------------------------------------------

/// Pattern `p` occurs in text `t` starting at index `i`.
pub open spec fn occurs_at(t: Seq<char>, p: Seq<char>, i: int) -> bool {
    0 <= i && i + p.len() <= t.len() && t.subrange(i, i + p.len() as int) == p
}

/// Index of the first occurrence of `p` in `t` at or after `from`.
pub open spec fn spec_find(t: Seq<char>, p: Seq<char>, from: nat) -> Option<int>
    decreases t.len() - from + 1,
{
    if from + p.len() > t.len() {
        None
    } else if t.subrange(from as int, from + p.len() as int) == p {
        Some(from as int)
    } else {
        spec_find(t, p, from + 1)
    }
}

/// Index of the last occurrence of the character `c` in `t`.
pub open spec fn spec_rfind_char(t: Seq<char>, c: char) -> Option<int>
    decreases t.len(),
{
    if t.len() == 0 {
        None
    } else if t[t.len() - 1] == c {
        Some(t.len() - 1)
    } else {
        spec_rfind_char(t.drop_last(), c)
    }
}

/// `p` is a prefix of `t`.
pub open spec fn is_prefix(p: Seq<char>, t: Seq<char>) -> bool {
    p.len() <= t.len() && t.subrange(0, p.len() as int) == p
}

/// `p` is a suffix of `t`.
pub open spec fn is_suffix(p: Seq<char>, t: Seq<char>) -> bool {
    p.len() <= t.len() && t.subrange(t.len() - p.len(), t.len() as int) == p
}

/// `t` with every copy of the non-empty suffix `p` peeled off its end.
pub open spec fn spec_trim_suffix(t: Seq<char>, p: Seq<char>) -> Seq<char>
    decreases t.len(),
{
    if p.len() > 0 && is_suffix(p, t) {
        spec_trim_suffix(t.subrange(0, t.len() - p.len()), p)
    } else {
        t
    }
}

/// `t` with every trailing copy of the character `c` removed.
pub open spec fn spec_trim_char_end(t: Seq<char>, c: char) -> Seq<char>
    decreases t.len(),
{
    if t.len() > 0 && t[t.len() - 1] == c {
        spec_trim_char_end(t.drop_last(), c)
    } else {
        t
    }
}

// ---------------------------------------------------------------------------
// Characterization lemmas
// ---------------------------------------------------------------------------

/// What `spec_find` returns is the first occurrence, if there is one.
pub proof fn lemma_spec_find(t: Seq<char>, p: Seq<char>, from: nat)
    ensures
        spec_find(t, p, from) matches Some(i) ==> {
            &&& from <= i
            &&& occurs_at(t, p, i)
            &&& forall|q: int| from <= q < i ==> !occurs_at(t, p, q)
        },
        spec_find(t, p, from) is None ==> forall|q: int| from <= q ==> !occurs_at(t, p, q),
    decreases t.len() - from + 1,
{
    if from + p.len() > t.len() {
    } else if t.subrange(from as int, from + p.len() as int) == p {
    } else {
        lemma_spec_find(t, p, from + 1);
        assert(!occurs_at(t, p, from as int));
    }
}

/// An occurrence with nothing before it pins down `spec_find`.
pub proof fn lemma_spec_find_of_occurrence(t: Seq<char>, p: Seq<char>, from: nat, i: int)
    requires
        from <= i,
        occurs_at(t, p, i),
        forall|q: int| from <= q < i ==> !occurs_at(t, p, q),
    ensures
        spec_find(t, p, from) == Some(i),
{
    lemma_spec_find(t, p, from);
    match spec_find(t, p, from) {
        Some(j) => {
            if j < i {
                assert(occurs_at(t, p, j));
                assert(false);
            }
            if i < j {
                assert(!occurs_at(t, p, i));
                assert(false);
            }
        }
        None => {
            assert(!occurs_at(t, p, i));
            assert(false);
        }
    }
}

/// No occurrence anywhere at or after `from` means `spec_find` finds nothing.
pub proof fn lemma_spec_find_none(t: Seq<char>, p: Seq<char>, from: nat)
    requires
        forall|q: int| from <= q ==> !occurs_at(t, p, q),
    ensures
        spec_find(t, p, from) is None,
{
    lemma_spec_find(t, p, from);
    match spec_find(t, p, from) {
        Some(i) => {
            assert(occurs_at(t, p, i));
            assert(false);
        }
        None => {}
    }
}

/// A one-character pattern occurs exactly where that character stands.
pub proof fn lemma_occurs_single(t: Seq<char>, c: char, i: int)
    ensures
        occurs_at(t, seq![c], i) <==> (0 <= i < t.len() && t[i] == c),
{
    if 0 <= i < t.len() && t[i] == c {
        assert(t.subrange(i, i + 1) =~= seq![c]);
    }
    if occurs_at(t, seq![c], i) {
        assert(t.subrange(i, i + 1)[0] == t[i]);
    }
}

/// What `spec_rfind_char` returns is the last position holding `c`.
pub proof fn lemma_spec_rfind_char(t: Seq<char>, c: char)
    ensures
        spec_rfind_char(t, c) matches Some(i) ==> {
            &&& 0 <= i < t.len()
            &&& t[i] == c
            &&& forall|j: int| i < j < t.len() ==> t[j] != c
        },
        spec_rfind_char(t, c) is None ==> forall|j: int| 0 <= j < t.len() ==> t[j] != c,
    decreases t.len(),
{
    if t.len() == 0 {
    } else if t[t.len() - 1] == c {
    } else {
        lemma_spec_rfind_char(t.drop_last(), c);
        assert(forall|j: int| 0 <= j < t.len() - 1 ==> t.drop_last()[j] == t[j]);
    }
}

/// A last position holding `c` pins down `spec_rfind_char`.
pub proof fn lemma_spec_rfind_char_of_position(t: Seq<char>, c: char, i: int)
    requires
        0 <= i < t.len(),
        t[i] == c,
        forall|j: int| i < j < t.len() ==> t[j] != c,
    ensures
        spec_rfind_char(t, c) == Some(i),
{
    lemma_spec_rfind_char(t, c);
    match spec_rfind_char(t, c) {
        Some(j) => {
            if j < i {
                assert(t[i] != c);
                assert(false);
            }
            if i < j {
                assert(t[j] != c);
                assert(false);
            }
        }
        None => {
            assert(t[i] != c);
            assert(false);
        }
    }
}

/// `c` nowhere in `t` pins `spec_rfind_char` to `None`.
pub proof fn lemma_spec_rfind_char_none(t: Seq<char>, c: char)
    requires
        forall|j: int| 0 <= j < t.len() ==> t[j] != c,
    ensures
        spec_rfind_char(t, c) is None,
{
    lemma_spec_rfind_char(t, c);
    match spec_rfind_char(t, c) {
        Some(i) => {
            assert(t[i] != c);
            assert(false);
        }
        None => {}
    }
}

/// An occurrence equates the pattern's characters with the text's.
pub proof fn lemma_occurs_char(t: Seq<char>, p: Seq<char>, q: int, r: int)
    requires
        occurs_at(t, p, q),
        q <= r < q + p.len(),
    ensures
        p[r - q] == t[r],
{
    assert(t.subrange(q, q + p.len() as int)[r - q] == t[r]);
}

/// Two texts that agree up to `k` hold the same occurrences whose window
/// lies below `k`.
pub proof fn lemma_occurs_agree(t1: Seq<char>, t2: Seq<char>, p: Seq<char>, q: int, k: int)
    requires
        0 <= k <= t1.len(),
        k <= t2.len(),
        forall|i: int| 0 <= i < k ==> t1[i] == t2[i],
        q + p.len() <= k,
    ensures
        occurs_at(t1, p, q) <==> occurs_at(t2, p, q),
{
    if occurs_at(t1, p, q) {
        assert forall|j: int| 0 <= j < p.len() implies t2.subrange(q, q + p.len() as int)[j]
            == p[j] by {
            lemma_occurs_char(t1, p, q, q + j);
        }
        assert(t2.subrange(q, q + p.len() as int) =~= p);
    }
    if occurs_at(t2, p, q) {
        assert forall|j: int| 0 <= j < p.len() implies t1.subrange(q, q + p.len() as int)[j]
            == p[j] by {
            lemma_occurs_char(t2, p, q, q + j);
        }
        assert(t1.subrange(q, q + p.len() as int) =~= p);
    }
}

/// An occurrence whose window lies inside an embedded copy of `m` is an
/// occurrence in `m`, and back.
pub proof fn lemma_occurs_in_mid(t: Seq<char>, a_len: int, m: Seq<char>, p: Seq<char>, q: int)
    requires
        0 <= a_len,
        a_len + m.len() <= t.len(),
        forall|i: int| 0 <= i < m.len() ==> t[a_len + i] == m[i],
        a_len <= q,
        q + p.len() <= a_len + m.len(),
    ensures
        occurs_at(t, p, q) <==> occurs_at(m, p, q - a_len),
{
    if occurs_at(t, p, q) {
        assert forall|j: int| 0 <= j < p.len() implies m.subrange(
            q - a_len,
            q - a_len + p.len() as int,
        )[j] == p[j] by {
            lemma_occurs_char(t, p, q, q + j);
        }
        assert(m.subrange(q - a_len, q - a_len + p.len() as int) =~= p);
    }
    if occurs_at(m, p, q - a_len) {
        assert forall|j: int| 0 <= j < p.len() implies t.subrange(q, q + p.len() as int)[j]
            == p[j] by {
            lemma_occurs_char(m, p, q - a_len, q - a_len + j);
        }
        assert(t.subrange(q, q + p.len() as int) =~= p);
    }
}

/// What character trimming leaves is a prefix of the text.
pub proof fn lemma_trim_char_end_prefix(t: Seq<char>, c: char)
    ensures
        spec_trim_char_end(t, c).len() <= t.len(),
        forall|i: int|
            0 <= i < spec_trim_char_end(t, c).len() ==> spec_trim_char_end(t, c)[i] == t[i],
    decreases t.len(),
{
    if t.len() > 0 && t[t.len() - 1] == c {
        lemma_trim_char_end_prefix(t.drop_last(), c);
        assert(spec_trim_char_end(t, c) == spec_trim_char_end(t.drop_last(), c));
        assert(forall|i: int| 0 <= i < t.len() - 1 ==> t.drop_last()[i] == t[i]);
    }
}

/// Trimming a suffix stops at a text that does not end with it.
pub proof fn lemma_trim_suffix_fixed(t: Seq<char>, p: Seq<char>)
    requires
        !is_suffix(p, t),
    ensures
        spec_trim_suffix(t, p) == t,
{
}

/// Peeling one trailing copy of `p` commutes with full trimming.
pub proof fn lemma_trim_suffix_step(t: Seq<char>, p: Seq<char>)
    requires
        p.len() > 0,
        is_suffix(p, t),
    ensures
        spec_trim_suffix(t, p) == spec_trim_suffix(t.subrange(0, t.len() - p.len()), p),
{
}

// ---------------------------------------------------------------------------
// Executable helpers
// ---------------------------------------------------------------------------

/// Does `p` occur in `s` at character position `i`?
pub fn pattern_at(s: &str, p: &str, i: usize) -> (r: bool)
    requires
        i <= s@.len(),
    ensures
        r == occurs_at(s@, p@, i as int),
{
    let n = s.unicode_len();
    let m = p.unicode_len();
    if m > n - i {
        return false;
    }
    let mut j: usize = 0;
    while j < m
        invariant
            i + m <= n,
            n == s@.len(),
            m == p@.len(),
            j <= m,
            forall|k: int| 0 <= k < j ==> s@[i + k] == p@[k],
        decreases m - j,
    {
        if s.get_char(i + j) != p.get_char(j) {
            proof {
                if occurs_at(s@, p@, i as int) {
                    assert(s@.subrange(i as int, i + m as int)[j as int] == s@[i + j]);
                }
            }
            return false;
        }
        j += 1;
    }
    proof {
        assert(s@.subrange(i as int, i + m as int) =~= p@);
    }
    true
}

/// First occurrence of `p` in `s` at or after character position `from`.
pub fn find_sub(s: &str, p: &str, from: usize) -> (r: Option<usize>)
    requires
        from <= s@.len(),
    ensures
        r matches Some(i) ==> from <= i && occurs_at(s@, p@, i as int) && spec_find(
            s@,
            p@,
            from as nat,
        ) == Some(i as int),
        r is None ==> spec_find(s@, p@, from as nat) is None,
{
    let n = s.unicode_len();
    let m = p.unicode_len();
    if m == 0 {
        proof {
            assert(s@.subrange(from as int, from as int) =~= p@);
        }
        return Some(from);
    }
    let mut i = from;
    loop
        invariant
            from <= i <= n,
            n == s@.len(),
            m == p@.len(),
            m > 0,
            spec_find(s@, p@, from as nat) == spec_find(s@, p@, i as nat),
        decreases n - i,
    {
        if m > n - i {
            proof {
                assert(spec_find(s@, p@, i as nat) is None);
            }
            return None;
        }
        if pattern_at(s, p, i) {
            proof {
                assert(spec_find(s@, p@, i as nat) == Some(i as int));
            }
            return Some(i);
        }
        proof {
            assert(spec_find(s@, p@, i as nat) == spec_find(s@, p@, (i + 1) as nat));
        }
        i += 1;
    }
}

/// First position of the character `c` in `s` at or after `from`.
pub fn find_char(s: &str, c: char, from: usize) -> (r: Option<usize>)
    requires
        from <= s@.len(),
    ensures
        r matches Some(i) ==> from <= i < s@.len() && s@[i as int] == c && spec_find(
            s@,
            seq![c],
            from as nat,
        ) == Some(i as int),
        r is None ==> spec_find(s@, seq![c], from as nat) is None,
{
    let n = s.unicode_len();
    let mut i = from;
    loop
        invariant
            from <= i <= n,
            n == s@.len(),
            forall|q: int| from <= q < i ==> s@[q] != c,
        decreases n - i,
    {
        if i == n {
            proof {
                assert forall|q: int| from <= q implies !occurs_at(s@, seq![c], q) by {
                    lemma_occurs_single(s@, c, q);
                }
                lemma_spec_find_none(s@, seq![c], from as nat);
            }
            return None;
        }
        if s.get_char(i) == c {
            proof {
                lemma_occurs_single(s@, c, i as int);
                assert forall|q: int| from <= q < i implies !occurs_at(s@, seq![c], q) by {
                    lemma_occurs_single(s@, c, q);
                }
                lemma_spec_find_of_occurrence(s@, seq![c], from as nat, i as int);
            }
            return Some(i);
        }
        i += 1;
    }
}

/// Last position of the character `c` in `s`.
pub fn rfind_char(s: &str, c: char) -> (r: Option<usize>)
    ensures
        r matches Some(i) ==> i < s@.len() && s@[i as int] == c && spec_rfind_char(s@, c) == Some(
            i as int,
        ),
        r is None ==> spec_rfind_char(s@, c) is None,
{
    let n = s.unicode_len();
    let mut i = n;
    loop
        invariant
            i <= n,
            n == s@.len(),
            forall|j: int| i <= j < n ==> s@[j] != c,
        decreases i,
    {
        if i == 0 {
            proof {
                lemma_spec_rfind_char_none(s@, c);
            }
            return None;
        }
        i -= 1;
        if s.get_char(i) == c {
            proof {
                lemma_spec_rfind_char_of_position(s@, c, i as int);
            }
            return Some(i);
        }
    }
}

/// Does `s` contain the character `c`?
pub fn contains_char(s: &str, c: char) -> (r: bool)
    ensures
        r == s@.contains(c),
{
    let n = s.unicode_len();
    let mut i: usize = 0;
    while i < n
        invariant
            i <= n,
            n == s@.len(),
            forall|j: int| 0 <= j < i ==> s@[j] != c,
        decreases n - i,
    {
        if s.get_char(i) == c {
            return true;
        }
        i += 1;
    }
    false
}

/// Character-for-character equality of two string slices.
pub fn str_eq(a: &str, b: &str) -> (r: bool)
    ensures
        r == (a@ == b@),
{
    let n = a.unicode_len();
    if n != b.unicode_len() {
        return false;
    }
    let mut i: usize = 0;
    while i < n
        invariant
            i <= n,
            n == a@.len(),
            n == b@.len(),
            forall|j: int| 0 <= j < i ==> a@[j] == b@[j],
        decreases n - i,
    {
        if a.get_char(i) != b.get_char(i) {
            return false;
        }
        i += 1;
    }
    proof {
        assert(a@ =~= b@);
    }
    true
}

/// Does `s` start with `p`?
pub fn starts_with_str(s: &str, p: &str) -> (r: bool)
    ensures
        r == is_prefix(p@, s@),
{
    let r = pattern_at(s, p, 0);
    proof {
        if occurs_at(s@, p@, 0) {
            assert(is_prefix(p@, s@));
        }
        if is_prefix(p@, s@) {
            assert(occurs_at(s@, p@, 0));
        }
    }
    r
}

/// Does `s` end with `p`?
pub fn ends_with_str(s: &str, p: &str) -> (r: bool)
    ensures
        r == is_suffix(p@, s@),
{
    let n = s.unicode_len();
    let m = p.unicode_len();
    if m > n {
        return false;
    }
    let r = pattern_at(s, p, n - m);
    proof {
        if occurs_at(s@, p@, n - m) {
            assert(is_suffix(p@, s@));
        }
        if is_suffix(p@, s@) {
            assert(occurs_at(s@, p@, n - m));
        }
    }
    r
}

/// The characters of `s` from `from` (inclusive) to `to` (exclusive).
pub fn substring<'a>(s: &'a str, from: usize, to: usize) -> (r: &'a str)
    requires
        from <= to <= s@.len(),
    ensures
        r@ == s@.subrange(from as int, to as int),
{
    s.substring_char(from, to)
}

/// `s` with every trailing copy of the suffix `p` removed.
pub fn trim_suffix<'a>(s: &'a str, p: &str) -> (r: &'a str)
    ensures
        r@ == spec_trim_suffix(s@, p@),
{
    let m = p.unicode_len();
    if m == 0 {
        return s;
    }
    let mut cur = s;
    loop
        invariant
            m == p@.len(),
            m > 0,
            spec_trim_suffix(s@, p@) == spec_trim_suffix(cur@, p@),
        decreases cur@.len(),
    {
        if !ends_with_str(cur, p) {
            proof {
                lemma_trim_suffix_fixed(cur@, p@);
            }
            return cur;
        }
        let n = cur.unicode_len();
        proof {
            lemma_trim_suffix_step(cur@, p@);
        }
        cur = cur.substring_char(0, n - m);
    }
}

/// `s` with every trailing copy of the character `c` removed.
pub fn trim_char_end<'a>(s: &'a str, c: char) -> (r: &'a str)
    ensures
        r@ == spec_trim_char_end(s@, c),
{
    let mut cur = s;
    loop
        invariant
            spec_trim_char_end(s@, c) == spec_trim_char_end(cur@, c),
        decreases cur@.len(),
    {
        let n = cur.unicode_len();
        if n == 0 {
            return cur;
        }
        if cur.get_char(n - 1) != c {
            return cur;
        }
        proof {
            assert(cur@.drop_last() =~= cur@.subrange(0, cur@.len() - 1));
        }
        cur = cur.substring_char(0, n - 1);
    }
}

} // verus!
