//! Character-level text utilities.
//!
//! The editor's model of a text is its sequence of characters. Reading
//! characters out of a `String` is verified against vstd's string
//! specifications; the few places where the standard library offers no
//! specification (building a `String`, Unicode character classes, case
//! folding) are isolated here as trusted wrappers.

use vstd::prelude::*;
use vstd::string::StrSliceExecFns;

verus! {

/// What `char::is_alphanumeric` returns; the result depends on the character
/// alone.
pub uninterp spec fn is_alnum_of(c: char) -> bool;

/// Relies on char::is_alphanumeric (Unicode alphanumeric class).
#[verifier::external_body]
pub(crate) fn char_is_alphanumeric(c: char) -> (r: bool)
    ensures
        r == is_alnum_of(c),
{
    c.is_alphanumeric()
}

/// What `str::to_lowercase` returns; the result depends on the characters
/// alone.
pub uninterp spec fn lower_of(s: Seq<char>) -> Seq<char>;

/// Relies on str::to_lowercase: Unicode lowercase mapping, and an empty
/// string stays empty.
#[verifier::external_body]
pub(crate) fn to_lowercase_string(s: &str) -> (r: String)
    ensures
        r@ == lower_of(s@),
        s@.len() == 0 ==> r@.len() == 0,
{
    s.to_lowercase()
}

/// Relies on `String: FromIterator<char>` (collect): the string made of
/// exactly the characters of `v`, in order.
#[verifier::external_body]
pub(crate) fn string_of_chars(v: &Vec<char>) -> (s: String)
    ensures
        s@ == v@,
{
    v.iter().collect()
}

/// The characters of `s` as a vector, verified against vstd's string
/// specifications.
pub fn chars_of(s: &str) -> (v: Vec<char>)
    ensures
        v@ == s@,
{
    let n = s.unicode_len();
    let mut v: Vec<char> = Vec::new();
    let mut i: usize = 0;
    while i < n
        invariant
            n == s@.len(),
            i <= n,
            v@ =~= s@.take(i as int),
        decreases n - i,
    {
        v.push(s.get_char(i));
        proof {
            assert(v@ =~= s@.take(i + 1));
        }
        i += 1;
    }
    proof {
        assert(v@ =~= s@);
    }
    v
}

/// True when `needle` occurs as a contiguous run inside `hay`.
pub open spec fn spec_contains(hay: Seq<char>, needle: Seq<char>) -> bool {
    exists|k: int|
        0 <= k <= hay.len() - needle.len() && (#[trigger] hay.subrange(k, k + needle.len()))
            == needle
}

/// Substring search over character vectors; the executable counterpart of
/// [`spec_contains`].
pub fn contains_chars(hay: &Vec<char>, needle: &Vec<char>) -> (r: bool)
    ensures
        r == spec_contains(hay@, needle@),
{
    let n = hay.len();
    let m = needle.len();
    if m > n {
        proof {
            assert(!spec_contains(hay@, needle@));
        }
        return false;
    }
    if m == 0 {
        proof {
            assert(hay@.subrange(0, 0 + needle@.len() as int) =~= needle@);
        }
        return true;
    }
    let mut k: usize = 0;
    while k <= n - m
        invariant
            m <= n,
            n == hay@.len(),
            m == needle@.len(),
            0 < m,
            k <= n - m + 1,
            forall|k0: int|
                0 <= k0 < k ==> (#[trigger] hay@.subrange(k0, k0 + needle@.len())) != needle@,
        decreases n - m + 1 - k,
    {
        proof {
            assert(hay@.subrange(k as int, k as int) =~= needle@.take(0));
        }
        let mut j: usize = 0;
        let mut matched = true;
        while j < m
            invariant
                m <= n,
                n == hay@.len(),
                m == needle@.len(),
                k <= n - m,
                j <= m,
                matched <==> hay@.subrange(k as int, k + j) == needle@.take(j as int),
            decreases m - j,
        {
            if hay[k + j] != needle[j] {
                matched = false;
                proof {
                    assert(hay@.subrange(k as int, k + j + 1)[j as int] != needle@.take(j + 1)[
                        j as int
                    ]);
                }
            } else {
                proof {
                    if matched {
                        assert(hay@.subrange(k as int, k + j + 1) =~= needle@.take(j + 1));
                    } else {
                        assert(hay@.subrange(k as int, k + j + 1).take(j as int) =~= hay@.subrange(
                            k as int,
                            k + j,
                        ));
                        assert(needle@.take(j + 1).take(j as int) =~= needle@.take(j as int));
                        assert(hay@.subrange(k as int, k + j + 1) != needle@.take(j + 1));
                    }
                }
            }
            j += 1;
        }
        if matched {
            proof {
                assert(needle@.take(m as int) =~= needle@);
            }
            return true;
        }
        proof {
            assert(needle@.take(m as int) =~= needle@);
        }
        k += 1;
    }
    proof {
        assert(!spec_contains(hay@, needle@));
    }
    false
}

/// Swaps two elements of a vector; written out because vstd gives no
/// specification for the slice `swap` method.
pub fn vec_swap<T>(v: &mut Vec<T>, a: usize, b: usize)
    requires
        a < old(v)@.len(),
        b < old(v)@.len(),
    ensures
        final(v)@ == old(v)@.update(a as int, old(v)@[b as int]).update(
            b as int,
            old(v)@[a as int],
        ),
{
    if a == b {
        proof {
            assert(old(v)@.update(a as int, old(v)@[b as int]).update(b as int, old(v)@[a as int])
                =~= old(v)@);
        }
        return ;
    }
    let (lo, hi) = if a < b {
        (a, b)
    } else {
        (b, a)
    };
    let x_hi = v.remove(hi);
    let x_lo = v.remove(lo);
    v.insert(lo, x_hi);
    v.insert(hi, x_lo);
    proof {
        assert(v@ =~= old(v)@.update(a as int, old(v)@[b as int]).update(
            b as int,
            old(v)@[a as int],
        ));
    }
}

} // verus!
