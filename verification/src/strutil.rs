//! Sequence and string helpers shared by the grammar modules: splitting
//! on a separator, locating a character, and comparing strings, each with
//! an exact specification.

use vstd::prelude::*;

verus! {

/// Splits `s` at every occurrence of `sep`.  The separators themselves are
/// dropped; the result always has one more element than `s` has separators,
/// so it is never empty, and splitting the empty sequence yields one empty
/// piece.
pub open spec fn split_on<T>(s: Seq<T>, sep: T) -> Seq<Seq<T>>
    decreases s.len(),
{
    if s.len() == 0 {
        seq![Seq::<T>::empty()]
    } else {
        let r = split_on(s.drop_last(), sep);
        if s.last() == sep {
            r.push(Seq::<T>::empty())
        } else {
            r.update(r.len() - 1, r.last().push(s.last()))
        }
    }
}

pub proof fn lemma_split_on_len<T>(s: Seq<T>, sep: T)
    ensures
        split_on(s, sep).len() >= 1,
    decreases s.len(),
{
    if s.len() != 0 {
        lemma_split_on_len(s.drop_last(), sep);
    }
}

/// The index of the first occurrence of `c` in `s`, or `-1` if `c` does not
/// occur.
pub open spec fn find_char(s: Seq<char>, c: char) -> int
    decreases s.len(),
{
    if s.len() == 0 {
        -1
    } else if s[0] == c {
        0
    } else {
        let r = find_char(s.drop_first(), c);
        if r == -1 {
            -1
        } else {
            r + 1
        }
    }
}

pub proof fn lemma_find_char(s: Seq<char>, c: char)
    ensures
        find_char(s, c) == -1 ==> forall|i: int| 0 <= i < s.len() ==> s[i] != c,
        find_char(s, c) != -1 ==> {
            &&& 0 <= find_char(s, c) < s.len()
            &&& s[find_char(s, c)] == c
            &&& forall|i: int| 0 <= i < find_char(s, c) ==> s[i] != c
        },
    decreases s.len(),
{
    if s.len() != 0 && s[0] != c {
        let t = s.drop_first();
        lemma_find_char(t, c);
        assert(forall|i: int| 1 <= i < s.len() ==> s[i] == t[i - 1]);
    }
}

/// `find_char` is pinned down by its characterisation: any position that
/// holds `c` with no earlier occurrence is the result.
pub proof fn lemma_find_char_is(s: Seq<char>, c: char, i: int)
    requires
        0 <= i < s.len(),
        s[i] == c,
        forall|j: int| 0 <= j < i ==> s[j] != c,
    ensures
        find_char(s, c) == i,
    decreases s.len(),
{
    if i > 0 {
        let t = s.drop_first();
        assert(forall|j: int| 0 <= j < i - 1 ==> t[j] == s[j + 1] && s[j + 1] != c);
        lemma_find_char_is(t, c, i - 1);
    }
}

/// Whether position `i` of `s` starts the two-character trailing delimiter:
/// a space immediately followed by a colon.
pub open spec fn trail_at(s: Seq<char>, i: int) -> bool {
    s[i] == ' ' && s[i + 1] == ':'
}

/// The first index where the trailing delimiter occurs in `s`, or `-1` if
/// there is none.  This is where a trailing parameter begins.
pub open spec fn find_trailing(s: Seq<char>) -> int
    decreases s.len(),
{
    if s.len() < 2 {
        -1
    } else if trail_at(s, 0) {
        0
    } else {
        let r = find_trailing(s.drop_first());
        if r == -1 {
            -1
        } else {
            r + 1
        }
    }
}

pub proof fn lemma_find_trailing(s: Seq<char>)
    ensures
        find_trailing(s) == -1 ==> forall|i: int|
            0 <= i < s.len() - 1 ==> !(#[trigger] trail_at(s, i)),
        find_trailing(s) != -1 ==> {
            &&& 0 <= find_trailing(s) < s.len() - 1
            &&& trail_at(s, find_trailing(s))
            &&& forall|i: int| 0 <= i < find_trailing(s) ==> !(#[trigger] trail_at(s, i))
        },
    decreases s.len(),
{
    if s.len() >= 2 && !trail_at(s, 0) {
        let t = s.drop_first();
        lemma_find_trailing(t);
        assert(forall|i: int|
            1 <= i < s.len() - 1 ==> (#[trigger] trail_at(s, i)) == trail_at(t, i - 1)) by {
            assert(forall|i: int| 1 <= i < s.len() ==> s[i] == #[trigger] t[i - 1]);
        }
    }
}

pub proof fn lemma_find_trailing_is(s: Seq<char>, i: int)
    requires
        0 <= i < s.len() - 1,
        trail_at(s, i),
        forall|j: int| 0 <= j < i ==> !(#[trigger] trail_at(s, j)),
    ensures
        find_trailing(s) == i,
    decreases s.len(),
{
    if i > 0 {
        let t = s.drop_first();
        assert(forall|j: int|
            0 <= j < i - 1 ==> (#[trigger] trail_at(t, j)) == trail_at(s, j + 1)) by {
            assert(forall|j: int| 1 <= j < s.len() ==> s[j] == #[trigger] t[j - 1]);
        }
        assert(trail_at(t, i - 1));
        lemma_find_trailing_is(t, i - 1);
    }
}

/// The index of the first occurrence of `x` in `s`, or `-1` if `x` does not
/// occur.
pub open spec fn first_index<T>(s: Seq<T>, x: T) -> int
    decreases s.len(),
{
    if s.len() == 0 {
        -1
    } else if s[0] == x {
        0
    } else {
        let r = first_index(s.drop_first(), x);
        if r == -1 {
            -1
        } else {
            r + 1
        }
    }
}

pub proof fn lemma_first_index<T>(s: Seq<T>, x: T)
    ensures
        first_index(s, x) == -1 ==> forall|i: int| 0 <= i < s.len() ==> s[i] != x,
        first_index(s, x) != -1 ==> {
            &&& 0 <= first_index(s, x) < s.len()
            &&& s[first_index(s, x)] == x
            &&& forall|i: int| 0 <= i < first_index(s, x) ==> s[i] != x
        },
    decreases s.len(),
{
    if s.len() != 0 && s[0] != x {
        let t = s.drop_first();
        lemma_first_index(t, x);
        assert(forall|i: int| 1 <= i < s.len() ==> s[i] == t[i - 1]);
    }
}

/// `first_index` is pinned down by its characterisation: any position that
/// holds `x` with no earlier occurrence is the result.
pub proof fn lemma_first_index_is<T>(s: Seq<T>, x: T, i: int)
    requires
        0 <= i < s.len(),
        s[i] == x,
        forall|j: int| 0 <= j < i ==> s[j] != x,
    ensures
        first_index(s, x) == i,
    decreases s.len(),
{
    if i > 0 {
        let t = s.drop_first();
        assert(forall|j: int| 0 <= j < i - 1 ==> t[j] == s[j + 1] && s[j + 1] != x);
        lemma_first_index_is(t, x, i - 1);
    }
}

/// An element found before a push is still found after it.
pub proof fn lemma_first_index_push_found<T>(s: Seq<T>, y: T, x: T)
    requires
        first_index(s, x) >= 0,
    ensures
        first_index(s.push(y), x) >= 0,
{
    lemma_first_index(s, x);
    let k = first_index(s, x);
    assert(s.push(y)[k] == x);
    lemma_first_index(s.push(y), x);
}

/// An element found after a push of something else was already there
/// before it.
pub proof fn lemma_first_index_push_new<T>(s: Seq<T>, y: T, x: T)
    requires
        x != y,
        first_index(s.push(y), x) >= 0,
    ensures
        first_index(s, x) >= 0,
{
    lemma_first_index(s.push(y), x);
    let k = first_index(s.push(y), x);
    assert(s.push(y)[k] == x);
    assert(k < s.len());
    assert(s[k] == x);
    lemma_first_index(s, x);
}

/// Splits a string at every occurrence of `sep`, as [`split_on`] describes.
pub fn split_string(s: &str, sep: char) -> (r: Vec<String>)
    ensures
        r.deep_view() == split_on(s@, sep),
{
    let n = s.unicode_len();
    let mut out: Vec<String> = Vec::new();
    let mut start: usize = 0;
    let mut i: usize = 0;
    while i < n
        invariant
            n == s@.len(),
            0 <= start <= i <= n,
            split_on(s@.take(i as int), sep) =~~= out.deep_view().push(
                s@.subrange(start as int, i as int),
            ),
        decreases n - i,
    {
        let c = s.get_char(i);
        proof {
            assert(s@.take(i as int + 1).drop_last() =~= s@.take(i as int));
            assert(s@.take(i as int + 1).last() == s@[i as int]);
            lemma_split_on_len(s@.take(i as int), sep);
        }
        if c == sep {
            let piece = s.substring_char(start, i).to_owned();
            out.push(piece);
            start = i + 1;
            proof {
                assert(s@.subrange(start as int, i as int + 1) =~= Seq::<char>::empty());
            }
        } else {
            proof {
                assert(s@.subrange(start as int, i as int + 1) =~= s@.subrange(
                    start as int,
                    i as int,
                ).push(s@[i as int]));
            }
        }
        i = i + 1;
    }
    let last = s.substring_char(start, n).to_owned();
    out.push(last);
    proof {
        assert(s@.take(n as int) =~= s@);
    }
    out
}

/// Splits a byte sequence at every occurrence of `sep`, as [`split_on`]
/// describes.
pub fn split_bytes(s: &[u8], sep: u8) -> (r: Vec<Vec<u8>>)
    ensures
        r.deep_view() == split_on(s@, sep),
{
    let n = s.len();
    let mut out: Vec<Vec<u8>> = Vec::new();
    let mut start: usize = 0;
    let mut i: usize = 0;
    while i < n
        invariant
            n == s@.len(),
            0 <= start <= i <= n,
            split_on(s@.take(i as int), sep) =~~= out.deep_view().push(
                s@.subrange(start as int, i as int),
            ),
        decreases n - i,
    {
        let c = s[i];
        proof {
            assert(s@.take(i as int + 1).drop_last() =~= s@.take(i as int));
            assert(s@.take(i as int + 1).last() == s@[i as int]);
            lemma_split_on_len(s@.take(i as int), sep);
        }
        if c == sep {
            let piece = vstd::slice::slice_to_vec(vstd::slice::slice_subrange(s, start, i));
            out.push(piece);
            start = i + 1;
            proof {
                assert(s@.subrange(start as int, i as int + 1) =~= Seq::<u8>::empty());
            }
        } else {
            proof {
                assert(s@.subrange(start as int, i as int + 1) =~= s@.subrange(
                    start as int,
                    i as int,
                ).push(s@[i as int]));
            }
        }
        i = i + 1;
    }
    let last = vstd::slice::slice_to_vec(vstd::slice::slice_subrange(s, start, n));
    let ghost pre = out.deep_view();
    out.push(last);
    proof {
        assert(s@.take(n as int) =~= s@);
        assert(out.deep_view() =~~= pre.push(s@.subrange(start as int, n as int)));
        assert(out.deep_view() =~~= split_on(s@, sep));
    }
    out
}

/// Compares two strings character by character.
pub fn str_eq(a: &str, b: &str) -> (r: bool)
    ensures
        r == (a@ == b@),
{
    let n = a.unicode_len();
    if n != b.unicode_len() {
        return false;
    }
    let mut i: usize = 0;
    while i < n
        invariant
            n == a@.len() == b@.len(),
            i <= n,
            forall|j: int| 0 <= j < i ==> a@[j] == b@[j],
        decreases n - i,
    {
        if a.get_char(i) != b.get_char(i) {
            return false;
        }
        i = i + 1;
    }
    proof {
        assert(a@ =~= b@);
    }
    true
}

/// The index of the first occurrence of `c` in `s`, if any.
pub fn scan_char(s: &str, c: char) -> (r: Option<usize>)
    ensures
        match r {
            Some(i) => i == find_char(s@, c) && i < s@.len(),
            None => find_char(s@, c) == -1,
        },
{
    let n = s.unicode_len();
    let mut i: usize = 0;
    while i < n
        invariant
            n == s@.len(),
            i <= n,
            forall|j: int| 0 <= j < i ==> s@[j] != c,
        decreases n - i,
    {
        if s.get_char(i) == c {
            proof {
                lemma_find_char_is(s@, c, i as int);
            }
            return Some(i);
        }
        i = i + 1;
    }
    proof {
        lemma_find_char(s@, c);
        if find_char(s@, c) != -1 {
            assert(s@[find_char(s@, c)] == c);
        }
    }
    None
}

/// The first index where a space immediately followed by a colon occurs in
/// `s`, if any.
pub fn scan_trailing(s: &str) -> (r: Option<usize>)
    ensures
        match r {
            Some(i) => i == find_trailing(s@) && i + 1 < s@.len(),
            None => find_trailing(s@) == -1,
        },
{
    let n = s.unicode_len();
    if n < 2 {
        proof {
            lemma_find_trailing(s@);
        }
        return None;
    }
    let mut i: usize = 0;
    while i < n - 1
        invariant
            n == s@.len(),
            2 <= n,
            i <= n - 1,
            forall|j: int| 0 <= j < i ==> !(#[trigger] trail_at(s@, j)),
        decreases n - i,
    {
        if s.get_char(i) == ' ' && s.get_char(i + 1) == ':' {
            proof {
                lemma_find_trailing_is(s@, i as int);
            }
            return Some(i);
        }
        i = i + 1;
    }
    proof {
        lemma_find_trailing(s@);
        if find_trailing(s@) != -1 {
            assert(trail_at(s@, find_trailing(s@)));
        }
    }
    None
}

} // verus!
