//! Character-level helpers shared by the renderers.
use vstd::prelude::*;
use vstd::string::StringExecFns;
use vstd::std_specs::iter::IteratorSpec;

verus! {

broadcast use vstd::string::axiom_spec_iter, vstd::string::next_postcondition;

/// Relies on `String::push`: the character is appended at the end.
pub assume_specification[ String::push ](s: &mut String, ch: char)
    ensures
        final(s)@ == old(s)@.push(ch),
;

/// The characters of `s`, in order.
pub fn chars_of(s: &str) -> (r: Vec<char>)
    ensures
        r@ == s@,
{
    let mut it = s.chars();
    let mut r: Vec<char> = Vec::new();
    loop
        invariant
            r@ + it.remaining() == s@,
            it.obeys_prophetic_iter_laws(),
            it.decrease() is Some,
        decreases it.decrease()->0,
    {
        match it.next() {
            Some(c) => {
                r.push(c);
                assert(r@ + it.remaining() == s@);
            },
            None => {
                assert(r@ == s@);
                return r;
            },
        }
    }
}

/// Appends `s` to `out`.
pub fn push_str(out: &mut String, s: &str)
    ensures
        final(out)@ == old(out)@ + s@,
{
    out.append(s);
}

/// A string holding exactly `cs`.
pub fn string_of(cs: &Vec<char>) -> (r: String)
    ensures
        r@ == cs@,
{
    let mut r = String::new();
    let mut i: usize = 0;
    while i < cs.len()
        invariant
            i <= cs.len(),
            r@ == cs@.subrange(0, i as int),
        decreases cs.len() - i,
    {
        r.push(cs[i]);
        i = i + 1;
        assert(r@ == cs@.subrange(0, i as int));
    }
    assert(cs@.subrange(0, cs.len() as int) == cs@);
    r
}

} // verus!
