//! Small helpers on text.

use vstd::prelude::*;

verus! {

/// The rolling hash of characters, below 2 to the power of 32.
pub open spec fn rolled(s: Seq<char>) -> int
    decreases s.len(),
{
    if s.len() == 0 {
        0
    } else {
        (rolled(s.drop_last()) * 31 + s.last() as int) % 0x1_0000_0000
    }
}

/// The hash of a text: the rolling hash read as a signed number, without its sign.
pub open spec fn hash_of(s: Seq<char>) -> int {
    let h = rolled(s);
    if h <= 0x7fff_ffff {
        h
    } else if h == 0x8000_0000 {
        0x7fff_ffff
    } else {
        0x1_0000_0000 - h
    }
}

/// A hash of a text that does not depend on the machine.
pub fn simple_hash(s: &String) -> (hash: i32)
    ensures
        hash == hash_of(s@),
        hash >= 0,
{
    let text: &str = s.as_str();
    let n: usize = text.unicode_len();
    let mut h: u64 = 0;
    assert(s@.take(0) =~= Seq::<char>::empty());
    for i in 0..n
        invariant
            n == text@.len(),
            text@ == s@,
            h == rolled(s@.take(i as int)),
            h < 0x1_0000_0000,
    {
        let c: char = text.get_char(i);
        assert(s@.take(i + 1).drop_last() =~= s@.take(i as int));
        h = (h * 31 + c as u64) % 0x1_0000_0000;
    }
    assert(s@.take(n as int) =~= s@);
    if h <= 0x7fff_ffff {
        h as i32
    } else if h == 0x8000_0000 {
        0x7fff_ffff
    } else {
        (0x1_0000_0000 - h) as i32
    }
}

} // verus!
