//! Character-level helpers shared by the small grammars of this crate.

use vstd::prelude::*;
use vstd::std_specs::iter::IteratorSpec;

verus! {

/// The characters of `s`, in order.
pub fn chars_of(s: &str) -> (r: Vec<char>)
    ensures
        r@ == s@,
{
    broadcast use vstd::string::group_string_axioms;

    let mut out: Vec<char> = Vec::new();
    let mut it = s.chars();
    let ghost all = s@;
    loop
        invariant
            it.remaining() == all.skip(out@.len() as int),
            out@ == all.take(out@.len() as int),
            out@.len() <= all.len(),
        ensures
            out@ == all,
        decreases all.len() - out@.len(),
    {
        match it.next() {
            Some(c) => {
                out.push(c);
            },
            None => {
                assert(out@ =~= all);
                break;
            },
        }
    }
    out
}

/// `true` when `s` holds the character `c`.
pub fn contains_char(s: &str, c: char) -> (r: bool)
    ensures
        r == s@.contains(c),
{
    let cs = chars_of(s);
    let mut i: usize = 0;
    while i < cs.len()
        invariant
            cs@ == s@,
            i <= cs@.len(),
            forall|j: int| 0 <= j < i ==> cs@[j] != c,
        decreases cs@.len() - i,
    {
        if cs[i] == c {
            return true;
        }
        i = i + 1;
    }
    false
}

/// `true` when `a` and `b` hold the same characters.
pub fn same_text(a: &str, b: &str) -> (r: bool)
    ensures
        r == (a@ == b@),
{
    let x = chars_of(a);
    let y = chars_of(b);
    if x.len() != y.len() {
        return false;
    }
    let mut i: usize = 0;
    while i < x.len()
        invariant
            x@ == a@,
            y@ == b@,
            x@.len() == y@.len(),
            i <= x@.len(),
            forall|j: int| 0 <= j < i ==> x@[j] == y@[j],
        decreases x@.len() - i,
    {
        if x[i] != y[i] {
            return false;
        }
        i = i + 1;
    }
    assert(x@ =~= y@);
    true
}

} // verus!
