//! Byte-sequence helpers shared by the config patcher and the process
//! decision logic: whitespace trimming, prefix tests, copies, and the
//! rendering of byte paths as strings.

use vstd::prelude::*;

verus! {

/// ASCII whitespace, as the config patcher understands it.
pub open spec fn is_ws(b: u8) -> bool {
    b == 32 || (9 <= b && b <= 13)
}

/// `s` with leading and trailing whitespace removed.
pub open spec fn trim_spec(s: Seq<u8>) -> Seq<u8>
    decreases s.len(),
{
    if s.len() == 0 {
        s
    } else if is_ws(s[0]) {
        trim_spec(s.skip(1))
    } else if is_ws(s.last()) {
        trim_spec(s.take(s.len() - 1))
    } else {
        s
    }
}

/// `pre` is a prefix of `s`.
pub open spec fn starts_with_spec(s: Seq<u8>, pre: Seq<u8>) -> bool {
    pre.len() <= s.len() && s.subrange(0, pre.len() as int) == pre
}

pub fn is_ws_byte(b: u8) -> (r: bool)
    ensures
        r == is_ws(b),
{
    b == 32 || (9 <= b && b <= 13)
}

pub fn bytes_eq(a: &Vec<u8>, b: &Vec<u8>) -> (r: bool)
    ensures
        r == (a@ == b@),
{
    if a.len() != b.len() {
        assert(a@ != b@);
        return false;
    }
    let mut i: usize = 0;
    while i < a.len()
        invariant
            i <= a.len(),
            a.len() == b.len(),
            forall|j: int| 0 <= j < i ==> a@[j] == b@[j],
        decreases a.len() - i,
    {
        if a[i] != b[i] {
            return false;
        }
        i += 1;
    }
    assert(a@ =~= b@);
    true
}

pub fn starts_with(s: &Vec<u8>, pre: &Vec<u8>) -> (r: bool)
    ensures
        r == starts_with_spec(s@, pre@),
{
    if pre.len() > s.len() {
        return false;
    }
    let mut i: usize = 0;
    while i < pre.len()
        invariant
            i <= pre.len(),
            pre.len() <= s.len(),
            forall|j: int| 0 <= j < i ==> s@[j] == pre@[j],
        decreases pre.len() - i,
    {
        if s[i] != pre[i] {
            assert(s@.subrange(0, pre@.len() as int)[i as int] != pre@[i as int]);
            return false;
        }
        i += 1;
    }
    assert(s@.subrange(0, pre@.len() as int) =~= pre@);
    true
}

/// A fresh copy of `s`.
pub fn copy_bytes(s: &Vec<u8>) -> (r: Vec<u8>)
    ensures
        r@ == s@,
{
    let r = subvec(s, 0, s.len());
    assert(s@.subrange(0, s@.len() as int) =~= s@);
    r
}

/// A copy of `s[lo..hi]`.
pub fn subvec(s: &Vec<u8>, lo: usize, hi: usize) -> (r: Vec<u8>)
    requires
        lo <= hi <= s@.len(),
    ensures
        r@ == s@.subrange(lo as int, hi as int),
{
    let mut r: Vec<u8> = Vec::new();
    let mut i: usize = lo;
    while i < hi
        invariant
            lo <= i <= hi <= s@.len(),
            r@ =~= s@.subrange(lo as int, i as int),
        decreases hi - i,
    {
        r.push(s[i]);
        assert(r@ =~= s@.subrange(lo as int, i + 1 as int));
        i += 1;
    }
    r
}

/// The characters of `s`, each byte one character, as the paths in error
/// messages read.
pub open spec fn chars_of(s: Seq<u8>) -> Seq<char> {
    s.map_values(|b: u8| b as char)
}

/// Relies on String::push: appends one character to the string.
#[verifier::external_body]
fn push_char(s: &mut String, c: char)
    ensures
        final (s)@ == old(s)@.push(c),
{
    s.push(c);
}

pub fn chars_string(v: &Vec<u8>) -> (s: String)
    ensures
        s@ == chars_of(v@),
{
    let mut s = String::new();
    let mut i: usize = 0;
    proof {
        assert(s@ =~= chars_of(v@.take(0)));
    }
    while i < v.len()
        invariant
            i <= v@.len(),
            s@ == chars_of(v@.take(i as int)),
        decreases v@.len() - i,
    {
        let c = v[i] as char;
        push_char(&mut s, c);
        proof {
            assert(v@.take(i + 1) =~= v@.take(i as int).push(v@[i as int]));
            assert(chars_of(v@.take(i + 1)) =~= chars_of(v@.take(i as int)).push(
                v@[i as int] as char,
            ));
        }
        i += 1;
    }
    proof {
        assert(v@.take(v@.len() as int) =~= v@);
    }
    s
}

pub proof fn lemma_trim_of_trimmed(s: Seq<u8>)
    requires
        s.len() == 0 || (!is_ws(s[0]) && !is_ws(s.last())),
    ensures
        trim_spec(s) == s,
{
}

pub fn trim(s: &Vec<u8>) -> (r: Vec<u8>)
    ensures
        r@ == trim_spec(s@),
{
    proof {
        assert(s@.skip(0) =~= s@);
    }
    let mut lo: usize = 0;
    while lo < s.len() && is_ws_byte(s[lo])
        invariant
            lo <= s@.len(),
            trim_spec(s@) == trim_spec(s@.skip(lo as int)),
        decreases s.len() - lo,
    {
        assert(s@.skip(lo as int).skip(1) =~= s@.skip(lo + 1));
        lo += 1;
    }
    proof {
        assert(s@.skip(lo as int) =~= s@.subrange(lo as int, s@.len() as int));
        if lo == s@.len() {
            assert(trim_spec(s@.subrange(lo as int, lo as int)) == s@.subrange(
                lo as int,
                lo as int,
            ));
        }
    }
    let mut hi: usize = s.len();
    while hi > lo && is_ws_byte(s[hi - 1])
        invariant
            lo <= hi <= s@.len(),
            trim_spec(s@) == trim_spec(s@.subrange(lo as int, hi as int)),
            lo < s@.len() ==> !is_ws(s@[lo as int]),
            lo == hi ==> trim_spec(s@) == s@.subrange(lo as int, hi as int),
        decreases hi,
    {
        let ghost part = s@.subrange(lo as int, hi as int);
        assert(part.take(part.len() - 1) =~= s@.subrange(lo as int, hi - 1));
        hi -= 1;
    }
    proof {
        let part = s@.subrange(lo as int, hi as int);
        if lo < hi {
            assert(!is_ws(part[0]));
            assert(!is_ws(part.last()));
            lemma_trim_of_trimmed(part);
        }
    }
    subvec(s, lo, hi)
}

} // verus!
