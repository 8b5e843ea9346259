//! Query-name normalization and suffix matching.
//!
//! A query name is compared against zone origins after ASCII-lowercasing and
//! after one trailing dot, if any, has been removed. A zone origin matches a
//! name when it is the whole name or a suffix that starts at a label boundary
//! (the character just before the suffix is a dot).
use vstd::prelude::*;

verus! {

/// ASCII lowercase of one character; everything outside 'A'..='Z' is kept.
pub open spec fn lower_char_spec(c: char) -> char {
    if 'A' <= c && c <= 'Z' {
        ((c as u32) + 32) as char
    } else {
        c
    }
}

/// ASCII lowercase of a whole character sequence.
pub open spec fn lower_seq(s: Seq<char>) -> Seq<char> {
    s.map_values(|c: char| lower_char_spec(c))
}

/// Remove one trailing dot, if present.
pub open spec fn trim_dot(s: Seq<char>) -> Seq<char> {
    if s.len() > 0 && s.last() == '.' {
        s.drop_last()
    } else {
        s
    }
}

/// The normal form a query name is matched in: lowercased, one trailing dot
/// removed.
pub open spec fn normal_name(s: Seq<char>) -> Seq<char> {
    trim_dot(lower_seq(s))
}

/// Whether `origin` names a zone that `name` belongs to: either the whole
/// name, or a suffix preceded by a dot, so that a partial label such as
/// `notexample.com` never matches the origin `example.com`.
pub open spec fn matches_origin(name: Seq<char>, origin: Seq<char>) -> bool {
    ||| name == origin
    ||| {
        &&& origin.len() < name.len()
        &&& name.subrange(name.len() - origin.len(), name.len() as int) == origin
        &&& name[name.len() - origin.len() - 1] == '.'
    }
}

/// The subdomain part of a matched, non-apex name: what stands before the
/// dot that separates it from the origin.
pub open spec fn sub_remainder(name: Seq<char>, origin: Seq<char>) -> Seq<char> {
    name.subrange(0, name.len() - origin.len() - 1)
}

/// Relies on `String::push`: appends one character.
#[verifier::external_body]
fn push_char(s: &mut String, c: char)
    ensures
        final(s)@ == old(s)@.push(c),
{
    s.push(c);
}

/// ASCII lowercase of one character.
pub fn lower_char(c: char) -> (r: char)
    ensures
        r == lower_char_spec(c),
{
    let u = c as u32;
    if 65 <= u && u <= 90 {
        ((u + 32) as u8) as char
    } else {
        c
    }
}

/// Build the normal form of a query name: lowercased, one trailing dot
/// removed.
pub fn normalize_name(s: &str) -> (r: String)
    ensures
        r@ == normal_name(s@),
{
    let n = s.unicode_len();
    let eff: usize = if n > 0 && s.get_char(n - 1) == '.' {
        n - 1
    } else {
        n
    };
    let mut r = String::new();
    let mut i: usize = 0;
    while i < eff
        invariant
            i <= eff,
            eff <= n,
            n == s@.len(),
            r@ == lower_seq(s@).subrange(0, i as int),
        decreases eff - i,
    {
        let c = lower_char(s.get_char(i));
        push_char(&mut r, c);
        proof {
            assert(r@ =~= lower_seq(s@).subrange(0, i + 1));
        }
        i += 1;
    }
    proof {
        if n > 0 && s@.last() == '.' {
            assert(lower_seq(s@).last() == '.');
            assert(r@ =~= trim_dot(lower_seq(s@)));
        } else {
            if n > 0 {
                assert(lower_seq(s@).last() == lower_char_spec(s@.last()));
            }
            assert(r@ =~= trim_dot(lower_seq(s@)));
        }
    }
    r
}

/// Character-for-character equality of two string slices.
pub fn str_eq(a: &str, b: &str) -> (r: bool)
    ensures
        r == (a@ == b@),
{
    let la = a.unicode_len();
    let lb = b.unicode_len();
    if la != lb {
        return false;
    }
    let mut i: usize = 0;
    while i < la
        invariant
            i <= la,
            la == a@.len(),
            la == b@.len(),
            forall|k: int| 0 <= k < i ==> a@[k] == b@[k],
        decreases la - i,
    {
        if a.get_char(i) != b.get_char(i) {
            return false;
        }
        i += 1;
    }
    proof {
        assert(a@ =~= b@);
    }
    true
}

/// Whether `origin` matches `name` as a zone origin: the whole name, or a
/// dot-preceded suffix of it.
pub fn has_origin_suffix(name: &str, origin: &str) -> (r: bool)
    ensures
        r == matches_origin(name@, origin@),
{
    let ln = name.unicode_len();
    let lo = origin.unicode_len();
    if lo > ln {
        return false;
    }
    let start = ln - lo;
    let mut k: usize = 0;
    while k < lo
        invariant
            k <= lo,
            lo <= ln,
            start == ln - lo,
            ln == name@.len(),
            lo == origin@.len(),
            forall|j: int| 0 <= j < k ==> name@[start + j] == origin@[j],
        decreases lo - k,
    {
        if name.get_char(start + k) != origin.get_char(k) {
            proof {
                assert(name@.subrange(start as int, ln as int)[k as int] != origin@[k as int]);
                assert(!(name@ =~= origin@));
            }
            return false;
        }
        k += 1;
    }
    proof {
        assert(name@.subrange(start as int, ln as int) =~= origin@);
    }
    if lo == ln {
        proof {
            assert(name@ =~= origin@);
        }
        true
    } else {
        name.get_char(start - 1) == '.'
    }
}

} // verus!
