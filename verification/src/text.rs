//! Small verified string utilities: character vectors, substring search, equality.

use vstd::prelude::*;

verus! {

/// Whether `needle` occurs as a contiguous run of characters in `hay`
/// (an empty needle occurs in every string).
pub open spec fn seq_contains(hay: Seq<char>, needle: Seq<char>) -> bool {
    exists|i: int|
        0 <= i && i + needle.len() <= hay.len() && #[trigger] hay.subrange(i, i + needle.len())
            == needle
}

/// A text that holds `big` holds every part of `big`.
pub proof fn lemma_contains_part(h: Seq<char>, big: Seq<char>, small: Seq<char>, off: int)
    requires
        seq_contains(h, big),
        0 <= off,
        off + small.len() <= big.len(),
        big.subrange(off, off + small.len()) == small,
    ensures
        seq_contains(h, small),
{
    let i = choose|i: int|
        0 <= i && i + big.len() <= h.len() && #[trigger] h.subrange(i, i + big.len()) == big;
    assert(h.subrange(i + off, i + off + small.len()) =~= big.subrange(off, off + small.len()));
}

/// `String::push`: appends one character at the end of the string.
#[verifier::external_body]
pub(crate) fn push_char(s: &mut String, c: char)
    ensures
        final(s)@ == old(s)@.push(c),
{
    s.push(c);
}

/// The characters of `s`, in order.
pub fn chars_of(s: &str) -> (res: Vec<char>)
    ensures
        res@ == s@,
{
    let n = s.unicode_len();
    let mut res: Vec<char> = Vec::new();
    let mut i: usize = 0;
    while i < n
        invariant
            n == s@.len(),
            i <= n,
            res@ == s@.subrange(0, i as int),
        decreases n - i,
    {
        res.push(s.get_char(i));
        i = i + 1;
        assert(res@ =~= s@.subrange(0, i as int));
    }
    assert(res@ =~= s@);
    res
}

/// A new string holding the characters of `v`.
pub fn string_of(v: &Vec<char>) -> (res: String)
    ensures
        res@ == v@,
{
    let mut res = String::new();
    let mut i: usize = 0;
    while i < v.len()
        invariant
            i <= v.len(),
            res@ == v@.subrange(0, i as int),
        decreases v.len() - i,
    {
        push_char(&mut res, v[i]);
        i = i + 1;
        assert(res@ =~= v@.subrange(0, i as int));
    }
    assert(res@ =~= v@);
    res
}

/// A copy of `s`.
pub fn copy_str(s: &str) -> (res: String)
    ensures
        res@ == s@,
{
    let v = chars_of(s);
    string_of(&v)
}

/// `prefix` followed by `s`.
pub fn concat2(a: &str, b: &str) -> (res: String)
    ensures
        res@ == a@ + b@,
{
    let mut r = copy_str(a);
    r.append(b);
    r
}

/// Whether `needle` occurs in `hay`, as `str::contains` answers for a string pattern.
pub fn str_contains(hay: &str, needle: &str) -> (res: bool)
    ensures
        res == seq_contains(hay@, needle@),
{
    let h = chars_of(hay);
    let p = chars_of(needle);
    let n = h.len();
    let m = p.len();
    if m > n {
        return false;
    }
    let mut i: usize = 0;
    while i <= n - m
        invariant
            h@ == hay@,
            p@ == needle@,
            n == h@.len(),
            m == p@.len(),
            m <= n,
            i <= n - m + 1,
            forall|k: int| 0 <= k < i ==> #[trigger] hay@.subrange(k, k + m) != needle@,
        decreases n - m + 1 - i,
    {
        let mut j: usize = 0;
        let mut same = true;
        while j < m
            invariant
                h@ == hay@,
                p@ == needle@,
                n == h@.len(),
                m == p@.len(),
                i + m <= n,
                j <= m,
                same ==> forall|t: int| 0 <= t < j ==> hay@[i + t] == needle@[t],
                !same ==> exists|t: int| 0 <= t < m && hay@[i + t] != needle@[t],
            decreases m - j,
        {
            if h[i + j] != p[j] {
                same = false;
            }
            j = j + 1;
        }
        if same {
            assert(hay@.subrange(i as int, i + m) =~= needle@);
            return true;
        }
        proof {
            let t = choose|t: int| 0 <= t < m && hay@[i + t] != needle@[t];
            assert(hay@.subrange(i as int, i + m)[t] != needle@[t]);
        }
        i = i + 1;
    }
    false
}

/// Whether the two strings hold the same characters.
pub fn str_eq(a: &str, b: &str) -> (res: bool)
    ensures
        res == (a@ == b@),
{
    let x = chars_of(a);
    let y = chars_of(b);
    if x.len() != y.len() {
        return false;
    }
    let mut i: usize = 0;
    while i < x.len()
        invariant
            x@ == a@,
            y@ == b@,
            x@.len() == y@.len(),
            i <= x@.len(),
            forall|k: int| 0 <= k < i ==> x@[k] == y@[k],
        decreases x.len() - i,
    {
        if x[i] != y[i] {
            assert(a@[i as int] != b@[i as int]);
            return false;
        }
        i = i + 1;
    }
    assert(a@ =~= b@);
    true
}

} // verus!

verus! {

/// Whether `s` begins with `prefix`.
pub open spec fn seq_starts_with(s: Seq<char>, prefix: Seq<char>) -> bool {
    prefix.len() <= s.len() && s.subrange(0, prefix.len() as int) == prefix
}

/// Whether `s` begins with `prefix`, as `str::starts_with` answers for a string pattern.
pub fn str_starts_with(s: &str, prefix: &str) -> (res: bool)
    ensures
        res == seq_starts_with(s@, prefix@),
{
    let a = chars_of(s);
    let b = chars_of(prefix);
    if b.len() > a.len() {
        return false;
    }
    let mut i: usize = 0;
    while i < b.len()
        invariant
            a@ == s@,
            b@ == prefix@,
            b.len() <= a.len(),
            i <= b.len(),
            forall|k: int| 0 <= k < i ==> a@[k] == b@[k],
        decreases b.len() - i,
    {
        if a[i] != b[i] {
            assert(s@.subrange(0, prefix@.len() as int)[i as int] != prefix@[i as int]);
            return false;
        }
        i = i + 1;
    }
    assert(s@.subrange(0, prefix@.len() as int) =~= prefix@);
    true
}

} // verus!
