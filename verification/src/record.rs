//! The records that a host writes to its log when a counter is used.
//!
//! Nothing is written from here: each record is built as text and handed
//! to the caller, whose business it is to emit it.

use crate::counter::Fibo;
use vstd::prelude::*;
use vstd::string::StringExecFns;

verus! {

/// The record that goes with a reset.
pub const RESET_RECORD: &'static str = "Reset sequence";

/// The character for a single decimal digit.
pub open spec fn digit(d: nat) -> char
    recommends
        d < 10,
{
    if d == 0 {
        '0'
    } else if d == 1 {
        '1'
    } else if d == 2 {
        '2'
    } else if d == 3 {
        '3'
    } else if d == 4 {
        '4'
    } else if d == 5 {
        '5'
    } else if d == 6 {
        '6'
    } else if d == 7 {
        '7'
    } else if d == 8 {
        '8'
    } else {
        '9'
    }
}

/// A number in decimal, most significant digit first, without leading
/// zeros.
pub open spec fn decimal(n: nat) -> Seq<char>
    decreases n,
{
    if n < 10 {
        seq![digit(n)]
    } else {
        decimal(n / 10).push(digit(n % 10))
    }
}

/// The record that goes with a number handed out: a fixed prefix and the
/// number in decimal.
pub open spec fn number_record(number: nat) -> Seq<char> {
    "Got number: "@ + decimal(number)
}

fn digit_str(d: u64) -> (text: &'static str)
    requires
        d < 10,
    ensures
        text@ == seq![digit(d as nat)],
{
    proof {
        reveal_strlit("0");
        reveal_strlit("1");
        reveal_strlit("2");
        reveal_strlit("3");
        reveal_strlit("4");
        reveal_strlit("5");
        reveal_strlit("6");
        reveal_strlit("7");
        reveal_strlit("8");
        reveal_strlit("9");
    }
    let text = match d {
        0 => "0",
        1 => "1",
        2 => "2",
        3 => "3",
        4 => "4",
        5 => "5",
        6 => "6",
        7 => "7",
        8 => "8",
        _ => "9",
    };
    assert(text@ =~= seq![digit(d as nat)]);
    text
}

fn push_decimal(text: &mut String, n: u64)
    ensures
        final(text)@ == old(text)@ + decimal(n as nat),
    decreases n,
{
    if n >= 10 {
        push_decimal(text, n / 10);
    }
    text.append(digit_str(n % 10));
    assert(text@ =~= old(text)@ + decimal(n as nat));
}

impl Fibo {
    /// The record for `number`: the text `Got number: ` followed by the
    /// number in decimal.
    pub fn log_number(&self, number: u64) -> (record: String)
        ensures
            record@ == number_record(number as nat),
    {
        let mut record = String::from_str("Got number: ");
        push_decimal(&mut record, number);
        record
    }
}

} // verus!
