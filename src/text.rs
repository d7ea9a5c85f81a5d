//! Small facts on character and byte sequences used by the request logic.
use vstd::prelude::*;
use vstd::utf8::{decode_utf8, valid_utf8};

verus! {

/// Position of the first element that satisfies `p`, or -1.
pub open spec fn first_match<T>(s: Seq<T>, p: spec_fn(T) -> bool) -> int
    decreases s.len(),
{
    if s.len() == 0 {
        -1
    } else if p(s[0]) {
        0
    } else {
        let k = first_match(s.drop_first(), p);
        if k < 0 {
            -1
        } else {
            k + 1
        }
    }
}

/// Where no element before `i` satisfies `p`, and `i` is the end or its
/// element does, `i` is the first match (-1 at the end).
pub proof fn lemma_first_match<T>(s: Seq<T>, p: spec_fn(T) -> bool, i: int)
    requires
        0 <= i <= s.len(),
        forall|j: int| 0 <= j < i ==> !p(#[trigger] s[j]),
        i == s.len() || p(s[i]),
    ensures
        first_match(s, p) == (if i == s.len() { -1 } else { i }),
    decreases s.len(),
{
    if s.len() > 0 && i > 0 {
        let t = s.drop_first();
        assert forall|j: int| 0 <= j < i - 1 implies !p(#[trigger] t[j]) by {
            assert(t[j] == s[j + 1]);
        }
        if i < s.len() {
            assert(t[i - 1] == s[i]);
        }
        assert(!p(s[0]));
        lemma_first_match(t, p, i - 1);
    }
}

/// `t` occurs in `s` at position `k`.
pub open spec fn occurs_at<T>(s: Seq<T>, t: Seq<T>, k: int) -> bool {
    0 <= k && k + t.len() <= s.len() && s.subrange(k, k + t.len()) == t
}

/// `t` occurs somewhere in `s`.
pub open spec fn contains<T>(s: Seq<T>, t: Seq<T>) -> bool {
    exists|k: int| occurs_at(s, t, k)
}

/// Whether `t` occurs in `s`.
pub fn contains_chars(s: &Vec<char>, t: &Vec<char>) -> (r: bool)
    ensures
        r == contains(s@, t@),
{
    if t.len() > s.len() {
        proof {
            assert forall|k: int| !occurs_at(s@, t@, k) by {}
        }
        return false;
    }
    let mut k: usize = 0;
    while k <= s.len() - t.len()
        invariant
            t@.len() <= s@.len(),
            k <= s@.len() - t@.len() + 1,
            forall|m: int| 0 <= m < k ==> !occurs_at(s@, t@, m),
        decreases s@.len() - t@.len() + 1 - k,
    {
        let mut j: usize = 0;
        while j < t.len() && s[k + j] == t[j]
            invariant
                k + t@.len() <= s@.len(),
                s@.len() <= usize::MAX,
                j <= t@.len(),
                forall|m: int| 0 <= m < j ==> s@[k + m] == t@[m],
            decreases t@.len() - j,
        {
            j = j + 1;
        }
        if j == t.len() {
            assert(s@.subrange(k as int, k + t@.len()) =~= t@);
            assert(occurs_at(s@, t@, k as int));
            return true;
        }
        assert(s@.subrange(k as int, k + t@.len())[j as int] != t@[j as int]);
        k = k + 1;
    }
    proof {
        assert forall|m: int| !occurs_at(s@, t@, m) by {
            if 0 <= m < k {
            }
        }
    }
    false
}

/// Whether `s` starts with `t`.
pub fn starts_with_chars(s: &Vec<char>, t: &Vec<char>) -> (r: bool)
    ensures
        r == (t@.len() <= s@.len() && s@.subrange(0, t@.len() as int) == t@),
{
    if t.len() > s.len() {
        return false;
    }
    let mut j: usize = 0;
    while j < t.len()
        invariant
            t@.len() <= s@.len(),
            j <= t@.len(),
            forall|m: int| 0 <= m < j ==> s@[m] == t@[m],
        decreases t@.len() - j,
    {
        if s[j] != t[j] {
            assert(s@.subrange(0, t@.len() as int)[j as int] != t@[j as int]);
            return false;
        }
        j = j + 1;
    }
    assert(s@.subrange(0, t@.len() as int) =~= t@);
    true
}

/// Whether two character sequences are equal.
pub fn equal_chars(s: &Vec<char>, t: &Vec<char>) -> (r: bool)
    ensures
        r == (s@ == t@),
{
    if s.len() != t.len() {
        return false;
    }
    assert(s@.subrange(0, t@.len() as int) =~= s@);
    starts_with_chars(s, t)
}

/// The characters of `s` from position `start` on.
pub fn chars_from(s: &Vec<char>, start: usize) -> (r: Vec<char>)
    requires
        start <= s@.len(),
    ensures
        r@ == s@.subrange(start as int, s@.len() as int),
{
    let mut r: Vec<char> = Vec::new();
    let mut i: usize = start;
    while i < s.len()
        invariant
            start <= i <= s@.len(),
            r@ == s@.subrange(start as int, i as int),
        decreases s@.len() - i,
    {
        r.push(s[i]);
        i = i + 1;
        assert(r@ =~= s@.subrange(start as int, i as int));
    }
    r
}

/// Appends the bytes of `b` to `out`.
pub fn append_bytes(out: &mut Vec<u8>, b: &[u8])
    ensures
        final(out)@ == old(out)@ + b@,
{
    let mut i: usize = 0;
    while i < b.len()
        invariant
            i <= b@.len(),
            out@ == old(out)@ + b@.subrange(0, i as int),
        decreases b@.len() - i,
    {
        out.push(b[i]);
        i = i + 1;
        assert(out@ =~= old(out)@ + b@.subrange(0, i as int));
    }
    assert(b@.subrange(0, b@.len() as int) =~= b@);
}

/// Decimal digits of `n`, in ASCII, most significant first.
pub open spec fn decimal(n: nat) -> Seq<u8>
    decreases n,
{
    if n < 10 {
        seq![(48 + n) as u8]
    } else {
        decimal(n / 10).push((48 + n % 10) as u8)
    }
}

/// Appends the decimal digits of `n` to `out`.
pub fn append_decimal(out: &mut Vec<u8>, n: u64)
    ensures
        final(out)@ == old(out)@ + decimal(n as nat),
    decreases n,
{
    if n >= 10 {
        append_decimal(out, n / 10);
    }
    out.push(48 + (n % 10) as u8);
    assert(final(out)@ =~= old(out)@ + decimal(n as nat));
}

/// Relies on `std::str::from_utf8`: it succeeds exactly on valid UTF-8,
/// and then gives the characters the bytes encode.
#[verifier::external_body]
pub(crate) fn utf8_chars(b: &Vec<u8>) -> (r: Option<Vec<char>>)
    ensures
        r is Some <==> valid_utf8(b@),
        r matches Some(t) ==> t@ == decode_utf8(b@),
{
    std::str::from_utf8(b).ok().map(|s| s.chars().collect())
}

/// Lower-case form of a text, as `str::to_lowercase` gives it.
pub uninterp spec fn lower_of(s: Seq<char>) -> Seq<char>;

/// Relies on `str::to_lowercase`: the result depends on the characters alone.
#[verifier::external_body]
pub(crate) fn lowercase(s: &Vec<char>) -> (r: Vec<char>)
    ensures
        r@ == lower_of(s@),
{
    s.iter().collect::<String>().to_lowercase().chars().collect()
}

} // verus!
