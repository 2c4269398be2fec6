use vstd::prelude::*;

verus! {

/// The first index at or after `i` that holds a zero byte, or `None` when
/// none is left.
pub open spec fn nul_index(d: Seq<u8>, i: int) -> Option<int>
    recommends
        0 <= i <= d.len(),
    decreases d.len() - i,
        when 0 <= i <= d.len()
{
    if i >= d.len() {
        None
    } else if d[i] == 0 {
        Some(i)
    } else {
        nul_index(d, i + 1)
    }
}

/// Each byte read as the character with the same code point.
pub open spec fn byte_chars(d: Seq<u8>) -> Seq<char> {
    d.map_values(|b: u8| b as char)
}

/// Relies on String::push: appends one character to the string; the byte
/// becomes the character with the same code point.
#[verifier::external_body]
fn push_byte_char(s: &mut String, b: u8)
    ensures
        final(s)@ == old(s)@.push(b as char),
{
    s.push(b as char);
}

/// Finds the zero byte that terminates a name starting at `start`.
pub fn find_nul(data: &Vec<u8>, start: usize) -> (r: Option<usize>)
    requires
        start <= data@.len(),
    ensures
        match r {
            Some(j) => {
                &&& nul_index(data@, start as int) == Some(j as int)
                &&& start <= j < data@.len()
            },
            None => nul_index(data@, start as int) is None,
        },
{
    let len: usize = data.len();
    let mut i: usize = start;
    while i < len
        invariant
            start <= i <= len,
            len == data@.len(),
            nul_index(data@, start as int) == nul_index(data@, i as int),
        decreases len - i,
    {
        if data[i] == 0 {
            return Some(i);
        }
        i = i + 1;
    }
    None
}

/// Builds the string of the bytes at `start .. end`, one character per byte.
pub fn string_of_bytes(data: &Vec<u8>, start: usize, end: usize) -> (r: String)
    requires
        start <= end <= data@.len(),
    ensures
        r@ == byte_chars(data@.subrange(start as int, end as int)),
{
    let mut s = String::new();
    let mut i: usize = start;
    while i < end
        invariant
            start <= i <= end <= data@.len(),
            s@ == byte_chars(data@.subrange(start as int, i as int)),
        decreases end - i,
    {
        let b = data[i];
        push_byte_char(&mut s, b);
        proof {
            assert(s@ =~= byte_chars(data@.subrange(start as int, (i + 1) as int)));
        }
        i = i + 1;
    }
    s
}

} // verus!
