//! Small executable helpers over strings and character sequences that the
//! rest of the crate shares.

use vstd::prelude::*;

verus! {

/// The view of an optional target triple, as an optional character
/// sequence.
pub open spec fn opt_view_triple(o: &Option<crate::dist::TargetTriple>) -> Option<Seq<char>> {
    match o {
        Some(t) => Some(t@),
        None => None,
    }
}

/// The view of an optional owned string, as an optional character sequence.
pub open spec fn opt_str_view(o: Option<String>) -> Option<Seq<char>> {
    match o {
        Some(s) => Some(s@),
        None => None,
    }
}

/// Collects the characters of a string slice into a vector.
pub fn chars_of(s: &str) -> (v: Vec<char>)
    ensures
        v@ == s@,
{
    let n = s.unicode_len();
    let mut v: Vec<char> = Vec::new();
    let mut i: usize = 0;
    while i < n
        invariant
            i <= n,
            n == s@.len(),
            v@ == s@.subrange(0, i as int),
        decreases n - i,
    {
        v.push(s.get_char(i));
        i += 1;
        proof {
            assert(v@ =~= s@.subrange(0, i as int));
        }
    }
    proof {
        assert(v@ =~= s@);
    }
    v
}

/// Whether two string slices hold the same characters.
pub fn str_eq_str(a: &str, b: &str) -> (r: bool)
    ensures
        r == (a@ == b@),
{
    let na = a.unicode_len();
    let nb = b.unicode_len();
    if na != nb {
        proof {
            assert(a@ != b@);
        }
        return false;
    }
    let mut i: usize = 0;
    while i < na
        invariant
            i <= na,
            na == a@.len(),
            na == b@.len(),
            forall|j: int| 0 <= j < i ==> a@[j] == b@[j],
        decreases na - i,
    {
        if a.get_char(i) != b.get_char(i) {
            return false;
        }
        i += 1;
    }
    proof {
        assert(a@ =~= b@);
    }
    true
}

/// The UTF-8 encoding of a character sequence.  The encoding is a
/// function of the characters alone; it is named rather than spelled
/// out, and trusted wrappers relate it to what the standard library
/// computes.
pub uninterp spec fn utf8_of(s: Seq<char>) -> Seq<u8>;

/// Relies on str::as_bytes: the UTF-8 bytes of the string, a function
/// of its characters alone.
#[verifier::external_body]
pub fn str_bytes(s: &str) -> (r: Vec<u8>)
    ensures
        r@ == utf8_of(s@),
{
    s.as_bytes().to_vec()
}

/// Relies on String::from_utf8: decodes bytes back into the characters
/// that encode to them, succeeding exactly on valid UTF-8 — that is,
/// exactly when the bytes are some character sequence's encoding.
#[verifier::external_body]
pub fn bytes_to_string(b: &Vec<u8>) -> (r: Option<String>)
    ensures
        match r {
            Some(s) => utf8_of(s@) == b@,
            None => forall|t: Seq<char>| utf8_of(t) != b@,
        },
{
    String::from_utf8(b.clone()).ok()
}

/// Whether an owned string holds the same characters as a string slice.
pub fn string_eq_str(a: &String, b: &str) -> (r: bool)
    ensures
        r == (a@ == b@),
{
    str_eq_str(a.as_str(), b)
}

/// `pre` opens `s`.
pub open spec fn seq_starts_with(s: Seq<char>, pre: Seq<char>) -> bool {
    pre.len() <= s.len() && s.subrange(0, pre.len() as int) == pre
}

/// `suf` closes `s`.
pub open spec fn seq_ends_with(s: Seq<char>, suf: Seq<char>) -> bool {
    suf.len() <= s.len() && s.subrange(s.len() - suf.len(), s.len() as int) == suf
}

/// `sub` stands somewhere inside `s`.
pub open spec fn seq_contains_seq(s: Seq<char>, sub: Seq<char>) -> bool {
    exists|i: int| 0 <= i && i + sub.len() <= s.len()
        && #[trigger] s.subrange(i, i + sub.len()) == sub
}

/// Whether `sub` stands at position `p` of `s`.
fn matches_at(s: &Vec<char>, p: usize, sub: &Vec<char>) -> (r: bool)
    requires
        p + sub@.len() <= s@.len(),
    ensures
        r == (s@.subrange(p as int, p + sub@.len()) == sub@),
{
    let mut i: usize = 0;
    let m = sub.len();
    let n = s.len();
    while i < m
        invariant
            i <= m,
            m == sub@.len(),
            n == s@.len(),
            p + m <= n,
            forall|j: int| 0 <= j < i ==> s@[p + j] == sub@[j],
        decreases m - i,
    {
        if s[p + i] != sub[i] {
            proof {
                assert(s@.subrange(p as int, p + sub@.len())[i as int] == s@[p + i]);
            }
            return false;
        }
        i += 1;
    }
    proof {
        assert(s@.subrange(p as int, p + sub@.len()) =~= sub@);
    }
    true
}

pub fn str_starts_with(s: &str, pre: &str) -> (r: bool)
    ensures
        r == seq_starts_with(s@, pre@),
{
    let sv = chars_of(s);
    let pv = chars_of(pre);
    if pv.len() > sv.len() {
        return false;
    }
    matches_at(&sv, 0, &pv)
}

pub fn str_ends_with(s: &str, suf: &str) -> (r: bool)
    ensures
        r == seq_ends_with(s@, suf@),
{
    let sv = chars_of(s);
    let fv = chars_of(suf);
    if fv.len() > sv.len() {
        return false;
    }
    matches_at(&sv, sv.len() - fv.len(), &fv)
}

pub fn str_contains(s: &str, sub: &str) -> (r: bool)
    ensures
        r == seq_contains_seq(s@, sub@),
{
    let sv = chars_of(s);
    let bv = chars_of(sub);
    let n = sv.len();
    let m = bv.len();
    if m > n {
        proof {
            assert forall|i: int| 0 <= i && i + sub@.len() <= s@.len()
                implies #[trigger] s@.subrange(i, i + sub@.len()) != sub@ by {}
        }
        return false;
    }
    let mut p: usize = 0;
    while p <= n - m
        invariant
            sv@ == s@,
            bv@ == sub@,
            n == s@.len(),
            m == sub@.len(),
            m <= n,
            p <= n - m + 1,
            forall|i: int| 0 <= i < p ==> #[trigger] s@.subrange(i, i + sub@.len()) != sub@,
        decreases n - m - p + 1,
    {
        if matches_at(&sv, p, &bv) {
            proof {
                assert(s@.subrange(p as int, p + sub@.len()) == sub@);
            }
            return true;
        }
        if p == n - m {
            proof {
                assert forall|i: int| 0 <= i && i + sub@.len() <= s@.len()
                    implies #[trigger] s@.subrange(i, i + sub@.len()) != sub@ by {}
            }
            return false;
        }
        p += 1;
    }
    false
}

} // verus!
