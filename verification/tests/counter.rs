use fibo::{Fibo, FiboError, MAX_POSITION};

/// The first `count` Fibonacci numbers, from 0, computed without the counter.
fn sequence(count: usize) -> Vec<u64> {
    let mut terms: Vec<u64> = Vec::new();
    let (mut a, mut b) = (0u64, 1u64);
    for _ in 0..count {
        terms.push(a);
        let next = a.wrapping_add(b);
        a = b;
        b = next;
    }
    terms
}

#[test]
fn n_test() {
    let mut contract = Fibo::default();
    assert_eq!(1, contract.get_n());
    contract.next_fibonacci_number();
    assert_eq!(2, contract.get_n());
    contract.reset_sequence();
    assert_eq!(1, contract.get_n());
}

#[test]
fn fibo_number_tests() {
    let mut contract = Fibo::default();
    assert_eq!(0, contract.current_fibonacci_number());
    assert_eq!(0, contract.next_fibonacci_number());
    assert_eq!(1, contract.next_fibonacci_number());
    assert_eq!(1, contract.next_fibonacci_number());
    assert_eq!(2, contract.next_fibonacci_number());
    assert_eq!(3, contract.next_fibonacci_number());
    assert_eq!(5, contract.next_fibonacci_number());
    assert_eq!(8, contract.next_fibonacci_number());
    assert_eq!(13, contract.next_fibonacci_number());
}

#[test]
fn reset_test() {
    let mut contract = Fibo::default();
    contract.reset_sequence();
    assert_eq!(0, contract.get_f1());
    assert_eq!(1, contract.get_f2());
    assert_eq!(1, contract.get_n());
}

#[test]
fn fresh_counter_stands_on_the_first_term() {
    let counter = Fibo::default();
    assert_eq!(counter.get_n(), 1);
    assert_eq!(counter.current_fibonacci_number(), 0);
    assert_eq!(counter.get_f1(), 0);
    assert_eq!(counter.get_f2(), 1);
}

#[test]
fn fresh_current_is_zero_although_the_later_term_is_one() {
    let counter = Fibo::default();
    assert_eq!(counter.get_f2(), 1);
    assert_eq!(counter.current_fibonacci_number(), 0);
    assert_ne!(counter.current_fibonacci_number(), 1);
}

#[test]
fn nine_advances_give_the_first_nine_terms() {
    let mut counter = Fibo::default();
    let mut seen: Vec<u64> = Vec::new();
    for _ in 0..9 {
        seen.push(counter.next_fibonacci_number());
    }
    assert_eq!(seen, vec![0, 1, 1, 2, 3, 5, 8, 13, 21]);
}

#[test]
fn position_is_one_more_than_the_number_of_advances() {
    let mut counter = Fibo::default();
    for k in 1..MAX_POSITION {
        counter.next_fibonacci_number();
        assert_eq!(counter.get_n(), k + 1);
    }
    assert_eq!(counter.get_n(), MAX_POSITION);
}

#[test]
fn advances_follow_the_sequence_to_its_last_term() {
    let expected = sequence(94);
    let mut counter = Fibo::default();
    for k in 0..94 {
        assert_eq!(counter.next_fibonacci_number(), expected[k]);
    }
    assert_eq!(expected[93], 12200160415121876738);
    assert_eq!(counter.get_f1(), 7540113804746346429);
    assert_eq!(counter.get_f2(), 12200160415121876738);
    assert_eq!(counter.current_fibonacci_number(), 12200160415121876738);
}

#[test]
fn tracked_terms_after_each_of_the_first_advances() {
    let mut counter = Fibo::default();
    let expected: Vec<(u64, u64, u64)> =
        vec![(0, 1, 2), (0, 1, 3), (1, 1, 4), (1, 2, 5), (2, 3, 6), (3, 5, 7)];
    for state in expected {
        counter.next_fibonacci_number();
        assert_eq!((counter.get_f1(), counter.get_f2(), counter.get_n()), state);
    }
}

#[test]
fn current_after_the_first_advance_is_the_later_seed() {
    let mut counter = Fibo::default();
    assert_eq!(counter.next_fibonacci_number(), 0);
    assert_eq!(counter.current_fibonacci_number(), 1);
    assert_eq!(counter.next_fibonacci_number(), 1);
    assert_eq!(counter.current_fibonacci_number(), 1);
    assert_eq!(counter.next_fibonacci_number(), 1);
    assert_eq!(counter.current_fibonacci_number(), 1);
    assert_eq!(counter.next_fibonacci_number(), 2);
    assert_eq!(counter.current_fibonacci_number(), 2);
}

#[test]
fn current_does_not_move_the_counter() {
    let mut counter = Fibo::default();
    for _ in 0..7 {
        counter.next_fibonacci_number();
    }
    let before = counter;
    assert_eq!(counter.current_fibonacci_number(), 8);
    assert_eq!(counter.current_fibonacci_number(), 8);
    assert_eq!(counter, before);
}

#[test]
fn reset_twice_is_reset_once() {
    let mut once = Fibo::default();
    let mut twice = Fibo::default();
    for _ in 0..12 {
        once.next_fibonacci_number();
        twice.next_fibonacci_number();
    }
    once.reset_sequence();
    twice.reset_sequence();
    twice.reset_sequence();
    assert_eq!(once, twice);
    assert_eq!(once, Fibo::default());
    assert_eq!((twice.get_f1(), twice.get_f2(), twice.get_n()), (0, 1, 1));
}

#[test]
fn reset_in_the_middle_of_the_sequence() {
    let mut counter = Fibo::default();
    let mut last = 0;
    for _ in 0..5 {
        last = counter.next_fibonacci_number();
    }
    assert_eq!(last, 3);
    assert_eq!(counter.get_n(), 6);
    counter.reset_sequence();
    assert_eq!(counter.current_fibonacci_number(), 0);
    assert_eq!(counter.get_n(), 1);
    assert_eq!(counter.next_fibonacci_number(), 0);
}

#[test]
fn checked_advance_agrees_with_the_plain_one() {
    let mut plain = Fibo::default();
    let mut checked = Fibo::default();
    for _ in 1..MAX_POSITION {
        assert_eq!(checked.try_next_fibonacci_number(), Ok(plain.next_fibonacci_number()));
        assert_eq!(checked, plain);
    }
}

#[test]
fn the_ninety_fifth_advance_overflows() {
    let mut counter = Fibo::default();
    for _ in 0..94 {
        assert!(counter.try_next_fibonacci_number().is_ok());
    }
    assert_eq!(counter.get_n(), 95);
    let before = counter;
    assert_eq!(counter.try_next_fibonacci_number(), Err(FiboError::ArithmeticOverflow));
    assert_eq!(counter, before);
    assert_eq!(counter.get_n(), 95);
    assert_eq!(counter.try_next_fibonacci_number(), Err(FiboError::ArithmeticOverflow));
    assert!(counter.get_f1().checked_add(counter.get_f2()).is_none());
}

#[test]
fn the_last_advance_that_fits_is_the_ninety_fourth() {
    let mut counter = Fibo::default();
    for _ in 0..93 {
        counter.next_fibonacci_number();
    }
    assert_eq!(counter.get_n(), MAX_POSITION - 1);
    assert_eq!(counter.try_next_fibonacci_number(), Ok(12200160415121876738));
    assert_eq!(counter.get_n(), MAX_POSITION);
}

#[test]
fn reset_after_overflow_starts_over() {
    let mut counter = Fibo::default();
    while counter.try_next_fibonacci_number().is_ok() {}
    counter.reset_sequence();
    assert_eq!(counter, Fibo::default());
    assert_eq!(counter.try_next_fibonacci_number(), Ok(0));
}

#[test]
fn from_parts_accepts_every_state_a_counter_passes_through() {
    let mut counter = Fibo::default();
    loop {
        let rebuilt = Fibo::from_parts(counter.get_f1(), counter.get_f2(), counter.get_n());
        assert_eq!(rebuilt, Ok(counter));
        if counter.try_next_fibonacci_number().is_err() {
            break;
        }
    }
    assert_eq!(counter.get_n(), MAX_POSITION);
}

#[test]
fn from_parts_rejects_what_no_counter_holds() {
    assert_eq!(Fibo::from_parts(0, 1, 0), Err(FiboError::CorruptState));
    assert_eq!(Fibo::from_parts(1, 1, 1), Err(FiboError::CorruptState));
    assert_eq!(Fibo::from_parts(0, 0, 1), Err(FiboError::CorruptState));
    assert_eq!(Fibo::from_parts(0, 2, 2), Err(FiboError::CorruptState));
    assert_eq!(Fibo::from_parts(1, 1, 3), Err(FiboError::CorruptState));
    assert_eq!(Fibo::from_parts(1, 2, 4), Err(FiboError::CorruptState));
    assert_eq!(Fibo::from_parts(2, 1, 5), Err(FiboError::CorruptState));
    assert_eq!(Fibo::from_parts(1, 3, 5), Err(FiboError::CorruptState));
    assert_eq!(Fibo::from_parts(0, 1, 96), Err(FiboError::CorruptState));
    assert_eq!(
        Fibo::from_parts(7540113804746346429, 12200160415121876738, 96),
        Err(FiboError::CorruptState)
    );
    assert_eq!(Fibo::from_parts(0, 1, u64::MAX), Err(FiboError::CorruptState));
    assert_eq!(Fibo::from_parts(u64::MAX, u64::MAX, u64::MAX), Err(FiboError::CorruptState));
}

#[test]
fn from_parts_accepts_the_seed_and_steady_states() {
    let fresh = Fibo::from_parts(0, 1, 1).unwrap();
    assert_eq!(fresh, Fibo::default());
    let second = Fibo::from_parts(0, 1, 2).unwrap();
    assert_eq!(second.current_fibonacci_number(), 1);
    let third = Fibo::from_parts(0, 1, 3).unwrap();
    assert_eq!(third.get_n(), 3);
    let mut fifth = Fibo::from_parts(1, 2, 5).unwrap();
    assert_eq!(fifth.current_fibonacci_number(), 2);
    assert_eq!(fifth.next_fibonacci_number(), 3);
    let last = Fibo::from_parts(7540113804746346429, 12200160415121876738, 95).unwrap();
    assert_eq!(last.get_n(), MAX_POSITION);
}
