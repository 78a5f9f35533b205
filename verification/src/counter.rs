//! The counter itself.

use crate::error::FiboError;
use crate::sequence::{
    lemma_advance_reachable, lemma_reachable_fits, term, SequenceState, MAX_POSITION,
};
use vstd::prelude::*;

verus! {

/// Two consecutive Fibonacci numbers and the position of the current one
/// in the sequence.
///
/// A counter is always in a state that advancing from the fresh state can
/// reach, so its position lies between 1 and [`MAX_POSITION`] and fixes
/// both terms.
#[derive(Clone, Copy, Debug, PartialEq, Eq, Structural)]
pub struct Fibo {
    f1: u64,
    f2: u64,
    n: u64,
}

impl View for Fibo {
    type V = SequenceState;

    closed spec fn view(&self) -> SequenceState {
        SequenceState::of_words(self.f1, self.f2, self.n)
    }
}

impl Default for Fibo {
    /// The fresh counter: terms 0 and 1, standing on position 1.
    fn default() -> (state: Self)
        ensures
            state@ == SequenceState::fresh(),
    {
        Fibo { f1: 0, f2: 1, n: 1 }
    }
}

/// Two counters with the same state are the same counter.
pub proof fn lemma_view_injective(a: Fibo, b: Fibo)
    ensures
        a@ == b@ <==> a == b,
{
}

impl Fibo {
    /// What holds of every counter: its state is reachable and fits in
    /// 64 bits.
    #[verifier::type_invariant]
    pub open spec fn wf(&self) -> bool {
        self@.reachable() && self@.fits()
    }

    /// Rebuilds a counter from its three stored words. Exactly the triples
    /// that some counter can hold are accepted; every other one is
    /// reported as corrupt.
    pub fn from_parts(f1: u64, f2: u64, n: u64) -> (outcome: Result<Fibo, FiboError>)
        ensures
            outcome is Ok <==> SequenceState::of_words(f1, f2, n).reachable(),
            match outcome {
                Ok(state) => state@ == SequenceState::of_words(f1, f2, n),
                Err(error) => error == FiboError::CorruptState,
            },
    {
        if n == 0 || n > MAX_POSITION {
            proof {
                if SequenceState::of_words(f1, f2, n).reachable() {
                    lemma_reachable_fits(SequenceState::of_words(f1, f2, n));
                }
            }
            return Err(FiboError::CorruptState);
        }
        let mut state = Fibo::default();
        while state.n < n
            invariant
                state.n <= n <= MAX_POSITION,
            decreases n - state.n,
        {
            state.next_fibonacci_number();
        }
        proof {
            use_type_invariant(&state);
        }
        if state.f1 == f1 && state.f2 == f2 {
            Ok(state)
        } else {
            Err(FiboError::CorruptState)
        }
    }

    /// The current term, without moving: 0 on the first position, the
    /// later of the two tracked terms everywhere else.
    pub fn current_fibonacci_number(&self) -> (number: u64)
        ensures
            number == self@.current(),
            self@.position == 1 ==> number == 0,
    {
        proof {
            use_type_invariant(self);
        }
        if self.n == 1u64 {
            return self.f1;
        }
        self.f2
    }

    /// Moves one position on and hands out the term of the position left
    /// behind, so that successive calls on a fresh counter yield the
    /// sequence from its first term.
    ///
    /// The counter must stand below [`MAX_POSITION`], where the next term
    /// still fits in 64 bits; [`Fibo::try_next_fibonacci_number`] is the
    /// call that may be made on any counter.
    pub fn next_fibonacci_number(&mut self) -> (number: u64)
        requires
            old(self)@.position < MAX_POSITION,
        ensures
            final(self)@ == old(self)@.advance(),
            number == old(self)@.emitted(),
            number == term(old(self)@.position),
    {
        proof {
            use_type_invariant(&*self);
            lemma_advance_reachable(self@);
            lemma_reachable_fits(self@);
        }
        if self.n == 1 {
            *self = Fibo { f1: self.f1, f2: self.f2, n: 2 };
            return self.f1;
        } else if self.n == 2 {
            *self = Fibo { f1: self.f1, f2: self.f2, n: 3 };
            return self.f2;
        }
        let f3: u64 = self.f1 + self.f2;
        *self = Fibo { f1: self.f2, f2: f3, n: self.n + 1 };
        self.f2
    }

    /// Advances if the next term fits in 64 bits, and otherwise reports
    /// the overflow and leaves the counter untouched.
    pub fn try_next_fibonacci_number(&mut self) -> (outcome: Result<u64, FiboError>)
        ensures
            outcome is Ok <==> old(self)@.advance().fits(),
            outcome is Ok <==> old(self)@.position < MAX_POSITION,
            match outcome {
                Ok(number) => {
                    &&& final(self)@ == old(self)@.advance()
                    &&& number == old(self)@.emitted()
                    &&& number == term(old(self)@.position)
                },
                Err(error) => {
                    &&& final(self)@ == old(self)@
                    &&& error == FiboError::ArithmeticOverflow
                },
            },
    {
        proof {
            use_type_invariant(&*self);
            lemma_reachable_fits(self@);
        }
        if self.n >= MAX_POSITION {
            return Err(FiboError::ArithmeticOverflow);
        }
        Ok(self.next_fibonacci_number())
    }

    /// The one-based position of the current term.
    pub fn get_n(&self) -> (n: u64)
        ensures
            n == self@.position,
            1 <= n <= MAX_POSITION,
    {
        proof {
            use_type_invariant(self);
            lemma_reachable_fits(self@);
        }
        self.n
    }

    /// The earlier of the two tracked terms.
    pub fn get_f1(&self) -> (f1: u64)
        ensures
            f1 == self@.term_a,
    {
        self.f1
    }

    /// The later of the two tracked terms.
    pub fn get_f2(&self) -> (f2: u64)
        ensures
            f2 == self@.term_b,
    {
        self.f2
    }

    /// Puts the counter back into the fresh state.
    pub fn reset_sequence(&mut self)
        ensures
            final(self)@ == SequenceState::fresh(),
            final(self)@ == old(self)@.reset(),
    {
        *self = Fibo { f1: 0, f2: 1, n: 1 };
    }
}

} // verus!
