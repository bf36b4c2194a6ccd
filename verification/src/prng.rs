//! Deterministic pseudo-random numbers.
//!
//! Every draw is a function of the generator's state alone, so that two machines that
//! start from one seed draw the same numbers.

use vstd::prelude::*;
use vstd::string::*;

verus! {

/// Multiplier of the generator's step.
pub const MULTIPLIER: u64 = 6364136223846793005;

/// Increment of the generator's step.
pub const INCREMENT: u64 = 1442695040888963407;

/// Number of equally likely raw draws.
pub const RAW_RANGE: u64 = 0x1_0000_0000;

/// Letters and digits that an id is made of.
pub const ID_ALPHABET: &'static str = "0123456789ABCDEFGHIJKLMNOPQRSTUVWXYZabcdefghijklmnopqrstuvwxyz";

/// Number of characters in an id.
pub const ID_LENGTH: usize = 8;

/// The state that follows `state`.
#[verifier::opaque]
pub open spec fn next_state(state: u64) -> u64 {
    state.wrapping_mul(MULTIPLIER).wrapping_add(INCREMENT)
}

/// The raw draw, below `RAW_RANGE`, that `state` stands for.
#[verifier::opaque]
pub open spec fn raw_of(state: u64) -> u64 {
    state / RAW_RANGE
}

/// The state that a generator with this seed starts from.
pub open spec fn seed_state(seed: i32) -> u64 {
    next_state(next_state(next_state((seed + 0x8000_0000) as u64)))
}

/// The integer from `lo` up to but not including `hi` that the next draw yields; `lo`
/// where the range is empty.
#[verifier::opaque]
pub open spec fn int_drawn(state: u64, lo: int, hi: int) -> int {
    lo + (raw_of(next_state(state)) * (hi - lo)) / (RAW_RANGE as int)
}

/// Whether the next draw is the one out of `n` that counts as a hit.
pub open spec fn chance_drawn(state: u64, n: int) -> bool {
    int_drawn(state, 0, n) == 0
}

/// The state after `n` draws.
pub open spec fn state_after(state: u64, n: nat) -> u64
    decreases n,
{
    if n == 0 {
        state
    } else {
        next_state(state_after(state, (n - 1) as nat))
    }
}

/// The member of `s` that the next draw picks, and the state after it; an empty
/// sequence costs no draw.
pub open spec fn element_drawn<T>(state: u64, s: Seq<T>) -> (Option<T>, u64) {
    if s.len() == 0 {
        (None, state)
    } else {
        (Some(s[int_drawn(state, 0, s.len() as int)]), next_state(state))
    }
}

/// `s` with the members at `i` and `j` exchanged.
pub open spec fn swapped<T>(s: Seq<T>, i: int, j: int) -> Seq<T> {
    s.update(i, s[j]).update(j, s[i])
}

/// `s` after each position from `top` down to 1 was exchanged with one drawn from those
/// not above it, and the state after these draws.
pub open spec fn shuffled_from<T>(state: u64, s: Seq<T>, top: int) -> (Seq<T>, u64)
    decreases top,
{
    if top <= 0 {
        (s, state)
    } else {
        shuffled_from(
            next_state(state),
            swapped(s, top, int_drawn(state, 0, top + 1)),
            top - 1,
        )
    }
}

/// `s` shuffled, and the state after the draws that this takes.
pub open spec fn shuffled<T>(state: u64, s: Seq<T>) -> (Seq<T>, u64) {
    shuffled_from(state, s, s.len() - 1)
}

/// The characters of the id that `n` draws yield.
pub open spec fn id_drawn(state: u64, n: nat) -> Seq<char>
    decreases n,
{
    if n == 0 {
        Seq::empty()
    } else {
        id_drawn(state, (n - 1) as nat).push(
            ID_ALPHABET@[int_drawn(state_after(state, (n - 1) as nat), 0, 62)],
        )
    }
}

/// A draw stays inside its range.
pub proof fn lemma_int_drawn(state: u64, lo: int, hi: int)
    requires
        lo <= hi,
    ensures
        lo <= int_drawn(state, lo, hi),
        lo < hi ==> int_drawn(state, lo, hi) < hi,
        lo == hi ==> int_drawn(state, lo, hi) == lo,
{
    reveal(raw_of);
    reveal(int_drawn);
    let raw = raw_of(next_state(state)) as int;
    let span = hi - lo;
    let range = RAW_RANGE as int;
    assert(0 <= raw < range);
    assert(0 <= raw * span) by (nonlinear_arith)
        requires
            0 <= raw,
            0 <= span,
    ;
    assert(span > 0 ==> raw * span < range * span) by (nonlinear_arith)
        requires
            raw < range,
            0 <= span,
    ;
    assert((raw * span) / range >= 0) by (nonlinear_arith)
        requires
            raw * span >= 0,
            range > 0,
    ;
    assert(span > 0 ==> (raw * span) / range < span) by (nonlinear_arith)
        requires
            span > 0 ==> raw * span < range * span,
            range > 0,
    ;
    assert(span == 0 ==> (raw * span) / range == 0) by (nonlinear_arith)
        requires
            range > 0,
    ;
}

/// A seeded generator.
#[derive(Clone, Copy, Debug)]
pub struct PseudoRandom {
    pub state: u64,
}

impl PseudoRandom {
    pub fn new(seed: i32) -> (random: Self)
        ensures
            random.state == seed_state(seed),
    {
        let start: u64 = (seed as i64 + 0x8000_0000) as u64;
        let mut random = PseudoRandom { state: start };
        random.next_raw();
        random.next_raw();
        random.next_raw();
        random
    }

    /// The next raw draw.
    pub fn next_raw(&mut self) -> (raw: u64)
        ensures
            final(self).state == next_state(old(self).state),
            raw == raw_of(final(self).state),
            raw < RAW_RANGE,
    {
        reveal(next_state);
        reveal(raw_of);
        self.state = self.state.wrapping_mul(MULTIPLIER).wrapping_add(INCREMENT);
        self.state / RAW_RANGE
    }

    /// An integer from `lo` up to but not including `hi`.
    pub fn next_int(&mut self, lo: i32, hi: i32) -> (n: i32)
        requires
            lo <= hi,
        ensures
            n == int_drawn(old(self).state, lo as int, hi as int),
            final(self).state == next_state(old(self).state),
            lo <= n,
            lo < hi ==> n < hi,
    {
        proof {
            lemma_int_drawn(self.state, lo as int, hi as int);
        }
        reveal(int_drawn);
        let raw: u64 = self.next_raw();
        let span: u64 = (hi as i64 - lo as i64) as u64;
        assert(raw * span <= 0xffff_ffff * 0xffff_ffff) by (nonlinear_arith)
            requires
                raw <= 0xffff_ffff,
                span <= 0xffff_ffff,
        ;
        let step: u64 = raw * span / RAW_RANGE;
        (lo as i64 + step as i64) as i32
    }

    /// True once in `n` draws, on average.
    pub fn chance(&mut self, n: i32) -> (hit: bool)
        requires
            n >= 0,
        ensures
            hit == chance_drawn(old(self).state, n as int),
            final(self).state == next_state(old(self).state),
    {
        self.next_int(0, n) == 0
    }

    /// A position below `n`, or 0 where `n` is 0.
    pub fn next_index(&mut self, n: usize) -> (at: usize)
        ensures
            at == int_drawn(old(self).state, 0, n as int),
            final(self).state == next_state(old(self).state),
            n > 0 ==> at < n,
    {
        proof {
            lemma_int_drawn(self.state, 0, n as int);
        }
        reveal(int_drawn);
        let raw: u64 = self.next_raw();
        assert(raw * n <= 0xffff_ffff * 0xffff_ffff_ffff_ffff) by (nonlinear_arith)
            requires
                raw <= 0xffff_ffff,
                0 <= n <= 0xffff_ffff_ffff_ffff,
        ;
        let wide: u128 = raw as u128 * n as u128;
        (wide / RAW_RANGE as u128) as usize
    }

    /// A member of `s`, each as likely as the others.
    pub fn rand_element<T: Copy>(&mut self, s: &[T]) -> (member: Option<T>)
        ensures
            (member, final(self).state) == element_drawn(old(self).state, s@),
            member is Some ==> s@.contains(member->0),
            member is Some == (s@.len() > 0),
    {
        if s.len() == 0 {
            return None;
        }
        let at: usize = self.next_index(s.len());
        let member: T = s[at];
        assert(s@[at as int] == member);
        Some(member)
    }

    /// The members of `s` in shuffled order.
    pub fn shuffle_array<T: Copy>(&mut self, s: &Vec<T>) -> (mixed: Vec<T>)
        ensures
            (mixed@, final(self).state) == shuffled(old(self).state, s@),
    {
        let mut mixed: Vec<T> = Vec::new();
        let n: usize = s.len();
        for i in 0..n
            invariant
                n == s@.len(),
                mixed@ == s@.take(i as int),
        {
            mixed.push(s[i]);
            assert(s@.take(i + 1) =~= s@.take(i as int).push(s@[i as int]));
        }
        assert(mixed@ =~= s@);
        if n == 0 {
            return mixed;
        }
        let mut top: usize = n - 1;
        while top > 0
            invariant
                top < n,
                n == mixed@.len(),
                shuffled(old(self).state, s@) == shuffled_from(self.state, mixed@, top as int),
            decreases top,
        {
            let j: usize = self.next_index(top + 1);
            let ghost held = mixed@;
            let a: T = mixed[top];
            let b: T = mixed[j];
            mixed.set(top, b);
            mixed.set(j, a);
            assert(mixed@ =~= swapped(held, top as int, j as int));
            top -= 1;
        }
        mixed
    }

    /// A fresh id.
    pub fn next_id(&mut self) -> (id: String)
        ensures
            id@ == id_drawn(old(self).state, ID_LENGTH as nat),
            final(self).state == state_after(old(self).state, ID_LENGTH as nat),
    {
        let mut id: String = String::from_str("");
        let ghost start = self.state;
        proof {
            reveal_strlit("");
            reveal_strlit("0123456789ABCDEFGHIJKLMNOPQRSTUVWXYZabcdefghijklmnopqrstuvwxyz");
            assert(id@ =~= id_drawn(start, 0));
        }
        for i in 0..ID_LENGTH
            invariant
                id@ == id_drawn(start, i as nat),
                self.state == state_after(start, i as nat),
                ID_ALPHABET@.len() == 62,
                vstd::string::is_ascii(ID_ALPHABET),
        {
            let at: i32 = self.next_int(0, 62);
            let letter: &str = ID_ALPHABET.substring_ascii(at as usize, at as usize + 1);
            id.append(letter);
            assert(id@ =~= id_drawn(start, (i + 1) as nat));
        }
        id
    }
}

/// A shuffle keeps every member as often as it was there.
pub proof fn law_shuffling_keeps_the_members<T>(state: u64, s: Seq<T>)
    ensures
        shuffled(state, s).0.to_multiset() == s.to_multiset(),
        shuffled(state, s).0.len() == s.len(),
{
    lemma_shuffled_from(state, s, s.len() - 1);
}

proof fn lemma_shuffled_from<T>(state: u64, s: Seq<T>, top: int)
    requires
        top < s.len(),
    ensures
        shuffled_from(state, s, top).0.to_multiset() == s.to_multiset(),
        shuffled_from(state, s, top).0.len() == s.len(),
    decreases top,
{
    broadcast use vstd::seq_lib::group_to_multiset_ensures;

    if top > 0 {
        let j = int_drawn(state, 0, top + 1);
        lemma_int_drawn(state, 0, top + 1);
        let next = swapped(s, top, j);
        assert(next.to_multiset() =~= s.to_multiset()) by {
            vstd::seq_lib::to_multiset_update(s, top, s[j]);
            vstd::seq_lib::to_multiset_update(s.update(top, s[j]), j, s[top]);
            assert(s.contains(s[top]));
            assert(s.contains(s[j]));
            assert(s.update(top, s[j])[j] == s[j]);
        }
        lemma_shuffled_from(next_state(state), next, top - 1);
    }
}

} // verus!
