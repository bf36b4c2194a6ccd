//! Numbers in decimal digits.

use vstd::prelude::*;

verus! {

/// The digits.
pub const DIGITS: &'static str = "0123456789";

/// A number in decimal digits.
pub open spec fn decimal(n: nat) -> Seq<char>
    decreases n,
{
    if n < 10 {
        seq![DIGITS@[n as int]]
    } else {
        decimal(n / 10).push(DIGITS@[n as int % 10])
    }
}

/// Writes a number.
pub fn decimal_of(n: u16) -> (text: String)
    ensures
        text@ == decimal(n as nat),
    decreases n,
{
    proof {
        reveal_strlit("0123456789");
    }
    let last: usize = (n % 10) as usize;
    let digit: &str = DIGITS.substring_ascii(last, last + 1);
    let mut text: String = if n < 10 {
        String::from_str("")
    } else {
        decimal_of(n / 10)
    };
    proof {
        reveal_strlit("");
    }
    text.append(digit);
    assert(text@ =~= decimal(n as nat));
    text
}

/// The digit that a character stands for; what is no digit stands for zero.
pub open spec fn digit(c: char) -> int {
    if '0' as int <= c as int <= '9' as int {
        c as int - '0' as int
    } else {
        0
    }
}

/// The number that digits make.
pub open spec fn magnitude(digits: Seq<char>) -> int
    decreases digits.len(),
{
    if digits.len() == 0 {
        0
    } else {
        magnitude(digits.drop_last()) * 10 + digit(digits.last())
    }
}

/// Where a number's point is, from `start` on; at the end where it has none.
pub open spec fn point_from(text: Seq<char>, start: int) -> int
    decreases text.len() - start,
{
    if start >= text.len() || text[start] == '.' {
        start
    } else {
        point_from(text, start + 1)
    }
}

/// The digits of a number from `start` on, with as many places as asked for behind the
/// point. The point itself is left out.
pub open spec fn kept(text: Seq<char>, start: int, places: nat) -> Seq<char> {
    let point = point_from(text, start);
    text.subrange(start, point) + Seq::new(
        places,
        |k: int|
            if point + 1 + k < text.len() {
                text[point + 1 + k]
            } else {
                '0'
            },
    )
}

pub open spec fn is_negative(text: Seq<char>) -> bool {
    text.len() > 0 && text[0] == '-'
}

/// The number that a text is, in units of its last place: what comes after that place is cut
/// off.
pub open spec fn fixed(text: Seq<char>, places: nat) -> int {
    if is_negative(text) {
        -magnitude(kept(text, 1, places))
    } else {
        magnitude(kept(text, 0, places))
    }
}

/// The `i64` that is nearest to a number.
pub open spec fn saturated(n: int) -> i64 {
    if n > i64::MAX {
        i64::MAX
    } else if n < i64::MIN {
        i64::MIN
    } else {
        n as i64
    }
}

/// What is more than the size of the least `i64` does not count.
const CAP: u64 = 0x8000_0000_0000_0000;

spec fn capped(n: int) -> int {
    if n > CAP {
        CAP as int
    } else {
        n
    }
}

proof fn lemma_point_from(text: Seq<char>, start: int)
    requires
        0 <= start <= text.len(),
    ensures
        start <= point_from(text, start) <= text.len(),
    decreases text.len() - start,
{
    if start < text.len() && text[start] != '.' {
        lemma_point_from(text, start + 1);
    }
}

proof fn lemma_magnitude(digits: Seq<char>)
    ensures
        magnitude(digits) >= 0,
    decreases digits.len(),
{
    if digits.len() > 0 {
        lemma_magnitude(digits.drop_last());
    }
}

/// One more digit behind a number.
fn behind(n: u64, c: char, before: Ghost<Seq<char>>) -> (longer: u64)
    requires
        n == capped(magnitude(before@)),
    ensures
        longer == capped(magnitude(before@.push(c))),
{
    proof {
        lemma_magnitude(before@);
        assert(before@.push(c).drop_last() =~= before@);
    }
    let d: u64 = if '0' as u32 <= c as u32 && c as u32 <= '9' as u32 {
        (c as u32 - '0' as u32) as u64
    } else {
        0
    };
    if n > (CAP - d) / 10 {
        CAP
    } else {
        n * 10 + d
    }
}

/// Reads a number, in units of its last place.
pub fn parse_fixed(text: &String, places: usize) -> (n: i64)
    ensures
        n == saturated(fixed(text@, places as nat)),
{
    let s: &str = text.as_str();
    let len: usize = s.unicode_len();
    let negative: bool = len > 0 && s.get_char(0) == '-';
    let start: usize = if negative {
        1
    } else {
        0
    };
    let ghost digits = kept(text@, start as int, places as nat);
    let mut point: usize = start;
    let mut n: u64 = 0;
    proof {
        lemma_point_from(text@, start as int);
        assert(digits.take(0) =~= Seq::empty());
    }
    while point < len && s.get_char(point) != '.'
        invariant
            s@ == text@,
            len == text@.len(),
            start <= point <= len,
            digits == kept(text@, start as int, places as nat),
            point_from(text@, start as int) == point_from(text@, point as int),
            n == capped(magnitude(digits.take(point - start))),
        decreases len - point,
    {
        proof {
            lemma_point_from(text@, point + 1);
            assert(digits.take(point + 1 - start) =~= digits.take(point - start).push(
                text@[point as int],
            ));
        }
        n = behind(n, s.get_char(point), Ghost(digits.take(point - start)));
        point = point + 1;
    }
    for k in 0..places
        invariant
            s@ == text@,
            len == text@.len(),
            start <= point <= len,
            digits == kept(text@, start as int, places as nat),
            point == point_from(text@, start as int),
            n == capped(magnitude(digits.take(point - start + k))),
    {
        let c: char = if point < len && k < len - point - 1 {
            s.get_char(point + 1 + k)
        } else {
            '0'
        };
        assert(digits.take(point - start + k + 1) =~= digits.take(point - start + k).push(c));
        n = behind(n, c, Ghost(digits.take(point - start + k)));
    }
    assert(digits.take(point - start + places) =~= digits);
    proof {
        lemma_magnitude(digits);
    }
    if negative {
        if n == CAP {
            i64::MIN
        } else {
            -(n as i64)
        }
    } else if n >= CAP {
        i64::MAX
    } else {
        n as i64
    }
}

} // verus!
