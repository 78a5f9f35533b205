//! The Fibonacci sequence and the abstract state machine that walks it.
//!
//! Everything here is specification and proof: the sequence [`term`], the
//! state [`SequenceState`] over unbounded naturals with its transitions,
//! and the facts that tie the two together.

use vstd::prelude::*;

verus! {

/// The last position a counter can stand on. Advancing from it would have
/// to produce `term(95)`, the first term that no longer fits in 64 bits.
pub const MAX_POSITION: u64 = 95;

/// The `k`-th term of the Fibonacci sequence, counted from one:
/// `term(1) == 0`, `term(2) == 1`, and every later term is the sum of the
/// two before it. `term(0)` is 0 by convention.
pub open spec fn term(k: nat) -> nat
    decreases k,
{
    if k <= 1 {
        0
    } else if k == 2 {
        1
    } else {
        term((k - 1) as nat) + term((k - 2) as nat)
    }
}

/// Two consecutive terms and the one-based position of the current one,
/// over unbounded naturals.
pub struct SequenceState {
    /// The earlier of the two tracked terms.
    pub term_a: nat,
    /// The later of the two tracked terms.
    pub term_b: nat,
    /// One-based index of the current term.
    pub position: nat,
}

impl SequenceState {
    /// The state every counter starts in and every reset returns to.
    pub open spec fn fresh() -> Self {
        SequenceState { term_a: 0, term_b: 1, position: 1 }
    }

    /// The state whose components are the given 64-bit words.
    pub open spec fn of_words(term_a: u64, term_b: u64, position: u64) -> Self {
        SequenceState {
            term_a: term_a as nat,
            term_b: term_b as nat,
            position: position as nat,
        }
    }

    /// The state a counter is in when it stands on `position`, in closed
    /// form. The two seed positions share the seed terms; from the third
    /// position on the tracked terms are the two terms before `position`.
    pub open spec fn at(position: nat) -> Self {
        if position <= 2 {
            SequenceState { term_a: 0, term_b: 1, position }
        } else {
            SequenceState {
                term_a: term((position - 2) as nat),
                term_b: term((position - 1) as nat),
                position,
            }
        }
    }

    /// Whether this is a state that advancing from [`Self::fresh`] can
    /// produce (see [`lemma_reachable_by_advances`]).
    pub open spec fn reachable(self) -> bool {
        self.position >= 1 && self == Self::at(self.position)
    }

    /// Whether all three components fit in 64 bits.
    pub open spec fn fits(self) -> bool {
        self.term_a <= u64::MAX && self.term_b <= u64::MAX && self.position <= u64::MAX
    }

    /// The current term: the earlier term on the first position, the later
    /// term everywhere else.
    pub open spec fn current(self) -> nat {
        if self.position == 1 {
            self.term_a
        } else {
            self.term_b
        }
    }

    /// The successor state. The two seed positions only move the position
    /// on; every later one also shifts the terms and adds them up.
    pub open spec fn advance(self) -> Self {
        if self.position == 1 || self.position == 2 {
            SequenceState { position: self.position + 1, ..self }
        } else {
            SequenceState {
                term_a: self.term_b,
                term_b: self.term_a + self.term_b,
                position: self.position + 1,
            }
        }
    }

    /// The term that an advance from this state hands out.
    pub open spec fn emitted(self) -> nat {
        if self.position == 1 {
            self.term_a
        } else {
            self.advance().term_b
        }
    }

    /// The state after `k` advances.
    pub open spec fn advance_by(self, k: nat) -> Self
        decreases k,
    {
        if k == 0 {
            self
        } else {
            self.advance_by((k - 1) as nat).advance()
        }
    }

    /// The state after a reset, whatever the state before.
    pub open spec fn reset(self) -> Self {
        Self::fresh()
    }
}

/// The sequence never decreases from one term to a later one.
pub proof fn lemma_term_monotonic(i: nat, j: nat)
    requires
        i <= j,
    ensures
        term(i) <= term(j),
    decreases j,
{
    if i < j {
        lemma_term_monotonic(i, (j - 1) as nat);
    }
}

/// Ten steps of the recurrence at once: the terms ten and eleven places
/// after `k`, written over `term(k)` and `term(k + 1)`.
proof fn lemma_ten_terms_on(k: nat)
    requires
        k >= 1,
    ensures
        term(k + 10) == 34 * term(k) + 55 * term(k + 1),
        term(k + 11) == 55 * term(k) + 89 * term(k + 1),
{
    reveal_with_fuel(term, 12);
}

/// `term(94)` is the last term that fits in 64 bits: the sequence crosses
/// `u64::MAX` between the 94th and the 95th term.
pub proof fn lemma_last_term_that_fits()
    ensures
        term(94) == 12200160415121876738,
        term(95) == 19740274219868223167,
        term((MAX_POSITION - 1) as nat) <= u64::MAX < term(MAX_POSITION as nat),
{
    lemma_ten_terms_on(1);
    lemma_ten_terms_on(11);
    lemma_ten_terms_on(21);
    lemma_ten_terms_on(31);
    lemma_ten_terms_on(41);
    lemma_ten_terms_on(51);
    lemma_ten_terms_on(61);
    lemma_ten_terms_on(71);
    lemma_ten_terms_on(81);
    assert(term(93) == term(92) + term(91));
    assert(term(94) == term(93) + term(92));
    assert(term(95) == term(94) + term(93));
}

/// A term fits in 64 bits exactly when its index is below `MAX_POSITION`.
pub proof fn lemma_term_fits(k: nat)
    ensures
        term(k) <= u64::MAX <==> k < MAX_POSITION,
{
    lemma_last_term_that_fits();
    if k < MAX_POSITION {
        lemma_term_monotonic(k, 94);
    } else {
        lemma_term_monotonic(95, k);
    }
}

/// Advancing keeps a state reachable and moves it to the next position;
/// the term handed out is the one whose index is the position left behind.
/// After an advance from the second position or a later one, the tracked
/// terms are the term before that position and the term at it.
pub proof fn lemma_advance_reachable(s: SequenceState)
    requires
        s.reachable(),
    ensures
        s.advance().reachable(),
        s.advance().position == s.position + 1,
        s.advance() == SequenceState::at(s.position + 1),
        s.emitted() == term(s.position),
        s.position >= 2 ==> s.advance().term_a == term((s.position - 1) as nat),
        s.position >= 2 ==> s.advance().term_b == term(s.position),
{
}

/// On a reachable state the current term is a term of the sequence: the
/// one at the position itself on the two seed positions, the one before it
/// from the third position on.
pub proof fn lemma_current_is_term(s: SequenceState)
    requires
        s.reachable(),
    ensures
        s.position <= 2 ==> s.current() == term(s.position),
        s.position >= 3 ==> s.current() == term((s.position - 1) as nat),
{
}

/// After `k` advances from the fresh state the position is `k + 1`, and
/// the state is the closed form for that position. It is a state that
/// fits in 64 bits exactly while `k` is below `MAX_POSITION`.
pub proof fn lemma_advances_from_fresh(k: nat)
    ensures
        SequenceState::fresh().advance_by(k).position == k + 1,
        SequenceState::fresh().advance_by(k) == SequenceState::at(k + 1),
        SequenceState::fresh().advance_by(k).reachable(),
        SequenceState::fresh().advance_by(k).fits() <==> k < MAX_POSITION,
    decreases k,
{
    if k > 0 {
        lemma_advances_from_fresh((k - 1) as nat);
        lemma_advance_reachable(SequenceState::fresh().advance_by((k - 1) as nat));
    }
    lemma_reachable_fits(SequenceState::fresh().advance_by(k));
}

/// Every reachable state is the fresh state advanced `position - 1` times.
pub proof fn lemma_reachable_by_advances(s: SequenceState)
    requires
        s.reachable(),
    ensures
        s == SequenceState::fresh().advance_by((s.position - 1) as nat),
{
    lemma_advances_from_fresh((s.position - 1) as nat);
}

/// A reachable state fits in 64 bits exactly up to `MAX_POSITION`, so its
/// successor fits exactly when it stands below `MAX_POSITION`.
pub proof fn lemma_reachable_fits(s: SequenceState)
    requires
        s.reachable(),
    ensures
        s.fits() <==> s.position <= MAX_POSITION,
        s.advance().fits() <==> s.position < MAX_POSITION,
{
    lemma_term_fits(s.position);
    lemma_term_fits((s.position - 1) as nat);
    if s.position >= 3 {
        lemma_term_monotonic((s.position - 2) as nat, (s.position - 1) as nat);
    }
    lemma_term_monotonic((s.position - 1) as nat, s.position);
}

/// Resetting twice is resetting once, and a reset always ends in the
/// fresh state.
pub proof fn lemma_reset_idempotent(s: SequenceState)
    ensures
        s.reset() == SequenceState::fresh(),
        s.reset().reset() == s.reset(),
{
}

} // verus!
