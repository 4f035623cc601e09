//! Executable scanning of label text.
use vstd::prelude::*;
use vstd::std_specs::iter::IteratorSpec;
use vstd::string::StrSliceExecFns;
use vstd::string::StringExecFns;
use crate::grammar::{field_char, run_len, FieldClass};

verus! {

broadcast use vstd::string::axiom_spec_iter, vstd::string::next_postcondition;

/// The characters of `s`, in order.
pub(crate) fn chars_of(s: &str) -> (r: Vec<char>)
    ensures
        r@ == s@,
{
    let mut out: Vec<char> = Vec::new();
    let mut it = s.chars();
    loop
        invariant
            it.obeys_prophetic_iter_laws(),
            it.decrease() is Some,
            out@ + it.remaining() == s@,
        ensures
            out@ == s@,
        decreases it.decrease()->0,
    {
        match it.next() {
            Some(c) => {
                out.push(c);
            },
            None => {
                assert(out@ =~= s@);
                break ;
            },
        }
    }
    out
}

/// Whether `c` is a field character of the given kind.
pub(crate) fn is_field_char(c: char, class: FieldClass) -> (r: bool)
    ensures
        r == field_char(c, class),
{
    let u = c as u32;
    let token = u > 0x20 && !(0x7f <= u && u <= 0xa0) && u != 0x1680 && !(0x2000 <= u && u
        <= 0x200a) && u != 0x2028 && u != 0x2029 && u != 0x202f && u != 0x205f && u != 0x3000;
    token && match class {
        FieldClass::Head => c != '.' && c != '-' && c != ':',
        FieldClass::Release => c != '.',
        FieldClass::Architecture => true,
    }
}

/// End of the run of field characters that starts at `from`.
pub(crate) fn scan_run(chars: &Vec<char>, from: usize, class: FieldClass) -> (r: usize)
    requires
        from <= chars@.len(),
    ensures
        from <= r <= chars@.len(),
        r - from == run_len(chars@.skip(from as int), class),
{
    let mut i: usize = from;
    while i < chars.len() && is_field_char(chars[i], class)
        invariant
            from <= i <= chars@.len(),
            forall|k: int| from <= k < i ==> field_char(#[trigger] chars@[k], class),
        decreases chars@.len() - i,
    {
        i = i + 1;
    }
    proof {
        let t = chars@.skip(from as int);
        assert forall|k: int| 0 <= k < i - from implies field_char(#[trigger] t[k], class) by {
            assert(t[k] == chars@[from + k]);
        }
        if i < chars@.len() {
            assert(t[i - from] == chars@[i as int]);
        }
        crate::grammar::lemma_run_len_is(t, class, i - from);
    }
    i
}

/// The characters of `s` from index `from` up to `to`.
pub(crate) fn text_between(s: &str, from: usize, to: usize) -> (r: String)
    requires
        from <= to <= s@.len(),
    ensures
        r@ == s@.subrange(from as int, to as int),
{
    String::from_str(s.substring_char(from, to))
}

} // verus!
