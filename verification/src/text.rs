use vstd::prelude::*;

verus! {

/// The characters a raw byte sequence stands for: one character per
/// byte, each byte read as its own code point.
pub open spec fn chars_of(s: Seq<u8>) -> Seq<char> {
    s.map(|i: int, b: u8| b as char)
}

/// Relies on `String::push` of std: it appends exactly the given
/// character at the end of the string.
pub assume_specification[ String::push ](s: &mut String, ch: char)
    ensures
        final(s)@ == old(s)@.push(ch),
;

/// Builds the string standing for `bytes[from..to]`, one character per
/// byte.
pub fn chars_string(bytes: &Vec<u8>, from: usize, to: usize) -> (r: String)
    requires
        from <= to <= bytes@.len(),
    ensures
        r@ == chars_of(bytes@.subrange(from as int, to as int)),
{
    let mut r = String::new();
    proof {
        assert(r@ =~= chars_of(bytes@.subrange(from as int, from as int)));
    }
    let mut i: usize = from;
    while i < to
        invariant
            from <= i <= to <= bytes@.len(),
            r@ == chars_of(bytes@.subrange(from as int, i as int)),
        decreases to - i,
    {
        let b = bytes[i];
        r.push(b as char);
        proof {
            assert(chars_of(bytes@.subrange(from as int, i as int)).push(b as char)
                =~= chars_of(bytes@.subrange(from as int, i as int + 1)));
        }
        i += 1;
    }
    r
}

} // verus!
