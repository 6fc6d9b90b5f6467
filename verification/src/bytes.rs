//! Byte-sequence scanning primitives shared by the port resolver and the
//! asset router: last/first occurrence of a byte, prefix tests, and slice
//! copies, each proved against a spec-level definition.
use vstd::prelude::*;

verus! {

/// Index of the last occurrence of `b` in `s`, if any.
pub open spec fn rfind(s: Seq<u8>, b: u8) -> Option<int>
    decreases s.len(),
{
    if s.len() == 0 {
        None
    } else if s[s.len() - 1] == b {
        Some(s.len() - 1)
    } else {
        rfind(s.drop_last(), b)
    }
}

/// Index of the first occurrence of `b` in `s` at or after position `from`,
/// if any.
pub open spec fn find_from(s: Seq<u8>, b: u8, from: int) -> Option<int>
    decreases s.len() - from,
{
    if from < 0 || from >= s.len() {
        None
    } else if s[from] == b {
        Some(from)
    } else {
        find_from(s, b, from + 1)
    }
}

pub proof fn lemma_rfind_some(s: Seq<u8>, b: u8, c: int)
    requires
        0 <= c < s.len(),
        s[c] == b,
        forall|j: int| c < j < s.len() ==> s[j] != b,
    ensures
        rfind(s, b) == Some(c),
    decreases s.len(),
{
    if c < s.len() - 1 {
        lemma_rfind_some(s.drop_last(), b, c);
    }
}

pub proof fn lemma_rfind_none(s: Seq<u8>, b: u8)
    requires
        forall|j: int| 0 <= j < s.len() ==> s[j] != b,
    ensures
        rfind(s, b) is None,
    decreases s.len(),
{
    if s.len() > 0 {
        lemma_rfind_none(s.drop_last(), b);
    }
}

/// If every position in `[from, k)` misses `b` and `k` is either the end of
/// `s` or a hit, then `k` is exactly what `find_from` yields.
pub proof fn lemma_find_from(s: Seq<u8>, b: u8, from: int, k: int)
    requires
        0 <= from <= k <= s.len(),
        forall|j: int| from <= j < k ==> s[j] != b,
        k < s.len() ==> s[k] == b,
    ensures
        find_from(s, b, from) == if k == s.len() {
            None::<int>
        } else {
            Some(k)
        },
    decreases k - from,
{
    if from < k {
        lemma_find_from(s, b, from + 1, k);
    }
}

/// A successful `rfind` points at a hit, and at the last one.
pub proof fn lemma_rfind_is_hit(s: Seq<u8>, b: u8, i: int)
    requires
        rfind(s, b) == Some(i),
    ensures
        0 <= i < s.len(),
        s[i] == b,
        forall|j: int| i < j < s.len() ==> s[j] != b,
    decreases s.len(),
{
    if s.len() > 0 && s[s.len() - 1] != b {
        lemma_rfind_is_hit(s.drop_last(), b, i);
        assert forall|j: int| i < j < s.len() implies s[j] != b by {
            if j < s.len() - 1 {
                assert(s.drop_last()[j] == s[j]);
            }
        }
    }
}

/// How `rfind` distributes over concatenation: the right part wins when it
/// holds the byte at all.
pub proof fn lemma_rfind_concat(a: Seq<u8>, x: Seq<u8>, b: u8)
    ensures
        rfind(a + x, b) == match rfind(x, b) {
            Some(i) => Some(a.len() + i),
            None => rfind(a, b),
        },
    decreases x.len(),
{
    if x.len() == 0 {
        assert(a + x =~= a);
    } else {
        assert((a + x).drop_last() =~= a + x.drop_last());
        assert((a + x).last() == x.last());
        lemma_rfind_concat(a, x.drop_last(), b);
    }
}

/// Executable scan for the last occurrence of `b`.
pub fn rfind_byte(s: &[u8], b: u8) -> (r: Option<usize>)
    ensures
        match r {
            Some(c) => c < s@.len() && rfind(s@, b) == Some(c as int),
            None => rfind(s@, b) is None,
        },
{
    let n = s.len();
    let mut i: usize = 0;
    let mut pos: usize = 0;
    let mut found = false;
    while i < n
        invariant
            i <= n,
            n == s@.len(),
            found ==> pos < i && s@[pos as int] == b && (forall|j: int|
                pos < j < i ==> s@[j] != b),
            !found ==> forall|j: int| 0 <= j < i ==> s@[j] != b,
        decreases n - i,
    {
        if s[i] == b {
            pos = i;
            found = true;
        }
        i = i + 1;
    }
    if found {
        proof {
            lemma_rfind_some(s@, b, pos as int);
        }
        Some(pos)
    } else {
        proof {
            lemma_rfind_none(s@, b);
        }
        None
    }
}

/// Executable scan for the first occurrence of `b` at or after `from`.
pub fn find_byte_from(s: &[u8], b: u8, from: usize) -> (r: Option<usize>)
    requires
        from <= s@.len(),
    ensures
        match r {
            Some(c) => from <= c < s@.len() && find_from(s@, b, from as int) == Some(c as int),
            None => find_from(s@, b, from as int) is None,
        },
{
    let n = s.len();
    let mut i: usize = from;
    while i < n
        invariant
            from <= i <= n,
            n == s@.len(),
            forall|j: int| from <= j < i ==> s@[j] != b,
        decreases n - i,
    {
        if s[i] == b {
            proof {
                lemma_find_from(s@, b, from as int, i as int);
            }
            return Some(i);
        }
        i = i + 1;
    }
    proof {
        lemma_find_from(s@, b, from as int, n as int);
    }
    None
}

/// Executable equality of two byte slices.
pub fn bytes_eq(a: &[u8], b: &[u8]) -> (r: bool)
    ensures
        r == (a@ == b@),
{
    let n = a.len();
    if n != b.len() {
        return false;
    }
    let mut i: usize = 0;
    while i < n
        invariant
            i <= n,
            n == a@.len() == b@.len(),
            forall|j: int| 0 <= j < i ==> a@[j] == b@[j],
        decreases n - i,
    {
        if a[i] != b[i] {
            return false;
        }
        i = i + 1;
    }
    proof {
        assert(a@ =~= b@);
    }
    true
}

/// Executable prefix test.
pub fn starts_with(s: &[u8], pre: &[u8]) -> (r: bool)
    ensures
        r == pre@.is_prefix_of(s@),
{
    let n = pre.len();
    if n > s.len() {
        assert(!pre@.is_prefix_of(s@));
        return false;
    }
    let mut i: usize = 0;
    while i < n
        invariant
            i <= n,
            n == pre@.len(),
            n <= s@.len(),
            forall|j: int| 0 <= j < i ==> s@[j] == pre@[j],
        decreases n - i,
    {
        if s[i] != pre[i] {
            assert(s@.subrange(0, n as int)[i as int] != pre@[i as int]);
            return false;
        }
        i = i + 1;
    }
    proof {
        assert(s@.subrange(0, n as int) =~= pre@);
    }
    true
}

/// Copy of `s[from..]` as a fresh vector.
pub fn tail_vec(s: &[u8], from: usize) -> (r: Vec<u8>)
    requires
        from <= s@.len(),
    ensures
        r@ == s@.skip(from as int),
{
    let n = s.len();
    let mut v: Vec<u8> = Vec::new();
    let mut i: usize = from;
    while i < n
        invariant
            from <= i <= n,
            n == s@.len(),
            v@ =~= s@.subrange(from as int, i as int),
        decreases n - i,
    {
        v.push(s[i]);
        i = i + 1;
    }
    proof {
        assert(v@ =~= s@.skip(from as int));
    }
    v
}

/// Append all of `s` onto `v`.
pub fn push_all(v: &mut Vec<u8>, s: &[u8])
    ensures
        final(v)@ == old(v)@ + s@,
{
    let n = s.len();
    let mut i: usize = 0;
    while i < n
        invariant
            i <= n,
            n == s@.len(),
            v@ =~= old(v)@ + s@.subrange(0, i as int),
        decreases n - i,
    {
        v.push(s[i]);
        i = i + 1;
    }
    proof {
        assert(v@ =~= old(v)@ + s@);
    }
}

} // verus!
