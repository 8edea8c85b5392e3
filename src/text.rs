//! Text comparison that does not stop at the first differing character.
use vstd::prelude::*;

verus! {

/// Compares two strings. When the lengths agree every character is examined,
/// whatever the position of the first difference, so that the time taken does
/// not reveal how much of a secret was guessed right.
pub fn same_text(a: &str, b: &str) -> (r: bool)
    ensures
        r == (a@ == b@),
{
    let n = a.unicode_len();
    if n != b.unicode_len() {
        return false;
    }
    let mut same = true;
    let mut i: usize = 0;
    assert(a@.subrange(0, 0) =~= b@.subrange(0, 0));
    while i < n
        invariant
            n == a@.len(),
            n == b@.len(),
            i <= n,
            same == (a@.subrange(0, i as int) == b@.subrange(0, i as int)),
        decreases n - i,
    {
        let ca = a.get_char(i);
        let cb = b.get_char(i);
        let eq_here = ca == cb;
        proof {
            if same && eq_here {
                assert(a@.subrange(0, i + 1) =~= a@.subrange(0, i as int).push(ca));
                assert(b@.subrange(0, i + 1) =~= b@.subrange(0, i as int).push(cb));
            }
            if !eq_here {
                assert(a@.subrange(0, i + 1)[i as int] != b@.subrange(0, i + 1)[i as int]);
            }
            if !same {
                assert(a@.subrange(0, i + 1).subrange(0, i as int) =~= a@.subrange(0, i as int));
                assert(b@.subrange(0, i + 1).subrange(0, i as int) =~= b@.subrange(0, i as int));
            }
        }
        same = same && eq_here;
        i = i + 1;
    }
    assert(a@.subrange(0, n as int) =~= a@);
    assert(b@.subrange(0, n as int) =~= b@);
    same
}

} // verus!
