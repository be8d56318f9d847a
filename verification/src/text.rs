//! Character-level helpers on strings.

use vstd::prelude::*;
use vstd::std_specs::iter::IteratorSpec;

verus! {

broadcast use vstd::string::next_postcondition;

/// Whether `prefix` is a prefix of `s`, compared character by character.
pub fn starts_with(s: &str, prefix: &str) -> (res: bool)
    ensures
        res == prefix@.is_prefix_of(s@),
{
    let mut sc = s.chars();
    let mut pc = prefix.chars();
    let ghost s0 = s@;
    let ghost p0 = prefix@;
    let ghost mut i: int = 0;
    loop
        invariant
            s0 == s@,
            p0 == prefix@,
            0 <= i <= p0.len(),
            i <= s0.len(),
            sc.remaining() == s0.skip(i),
            pc.remaining() == p0.skip(i),
            s0.take(i) == p0.take(i),
            sc.obeys_prophetic_iter_laws(),
            pc.obeys_prophetic_iter_laws(),
        decreases p0.len() - i,
    {
        match pc.next() {
            None => {
                // every character of the prefix matched
                assert(p0.skip(i).len() == 0);
                assert(p0 =~= p0.take(i));
                return true;
            },
            Some(p) => {
                match sc.next() {
                    Some(c) => {
                        if c != p {
                            // the characters at position `i` differ
                            assert(s0.skip(i)[0] == s0[i] && p0.skip(i)[0] == p0[i]);
                            assert(p0.is_prefix_of(s0) ==> s0.subrange(0, p0.len() as int)[i] == s0[i]);
                            return false;
                        }
                        proof {
                            assert(s0.take(i + 1) == s0.take(i).push(c));
                            assert(p0.take(i + 1) == p0.take(i).push(p));
                            i = i + 1;
                        }
                    },
                    None => {
                        // `s` ended before the prefix did
                        assert(s0.skip(i).len() == 0);
                        return false;
                    },
                }
            },
        }
    }
}

} // verus!
