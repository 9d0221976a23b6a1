//! The texts that buttons show: a counter's value, and durations as
//! minutes and seconds or as hours, minutes and seconds.

use vstd::prelude::*;
use crate::text::{all_digits, decimal, is_digit, parsed_i64};

verus! {

/// The character of one decimal digit.
pub open spec fn digit_char(d: nat) -> char {
    if d == 0 {
        '0'
    } else if d == 1 {
        '1'
    } else if d == 2 {
        '2'
    } else if d == 3 {
        '3'
    } else if d == 4 {
        '4'
    } else if d == 5 {
        '5'
    } else if d == 6 {
        '6'
    } else if d == 7 {
        '7'
    } else if d == 8 {
        '8'
    } else {
        '9'
    }
}

/// The decimal digits of `n`, without leading zeros.
pub open spec fn digits_of(n: nat) -> Seq<char>
    decreases n,
{
    if n < 10 {
        seq![digit_char(n)]
    } else {
        digits_of(n / 10).push(digit_char(n % 10))
    }
}

/// The decimal text of a signed integer.
pub open spec fn number_text(v: i64) -> Seq<char> {
    if v < 0 {
        seq!['-'] + digits_of((-v) as nat)
    } else {
        digits_of(v as nat)
    }
}

/// The decimal digits of `n`, with a leading zero if it is a single one.
pub open spec fn two_digits(n: nat) -> Seq<char> {
    if n < 10 {
        seq!['0'] + digits_of(n)
    } else {
        digits_of(n)
    }
}

/// A duration as minutes and seconds; the minutes stop at 99.
pub open spec fn mmss_text(total_secs: u64) -> Seq<char> {
    let mins = if total_secs / 60 > 99 {
        99
    } else {
        total_secs / 60
    };
    two_digits(mins as nat) + seq![':'] + two_digits((total_secs % 60) as nat)
}

/// A duration as hours, minutes and seconds from one hour on, and as
/// minutes and seconds below.
pub open spec fn hhmmss_text(total_secs: u64) -> Seq<char> {
    if total_secs >= 3600 {
        two_digits((total_secs / 3600) as nat) + seq![':'] + two_digits(
            ((total_secs % 3600) / 60) as nat,
        ) + seq![':'] + two_digits((total_secs % 60) as nat)
    } else {
        two_digits((total_secs / 60) as nat) + seq![':'] + two_digits((total_secs % 60) as nat)
    }
}

/// Calls `u64::to_string`. Trusted: the result is the number in decimal
/// digits, without sign, padding or leading zeros.
#[verifier::external_body]
fn decimal_text(n: u64) -> (s: String)
    ensures
        s@ == digits_of(n as nat),
{
    n.to_string()
}

fn padded(n: u64) -> (s: String)
    ensures
        s@ == two_digits(n as nat),
{
    let digits = decimal_text(n);
    if n < 10 {
        proof {
            reveal_strlit("0");
            assert("0"@ =~= seq!['0']);
        }
        "0".to_owned().concat(digits.as_str())
    } else {
        digits
    }
}

fn joined(a: String, b: String) -> (s: String)
    ensures
        s@ == a@ + seq![':'] + b@,
{
    proof {
        reveal_strlit(":");
        assert(":"@ =~= seq![':']);
    }
    a.concat(":").concat(b.as_str())
}

/// The text of a counter's value.
pub fn render_number(value: i64) -> (text: String)
    ensures
        text@ == number_text(value),
{
    if value < 0 {
        let magnitude: u64 = if value == i64::MIN {
            9223372036854775808u64
        } else {
            (-value) as u64
        };
        proof {
            reveal_strlit("-");
            assert("-"@ =~= seq!['-']);
        }
        "-".to_owned().concat(decimal_text(magnitude).as_str())
    } else {
        decimal_text(value as u64)
    }
}

/// The text of a duration as `MM:SS`, with the minutes capped at 99.
pub fn render_time_mmss(total_secs: u64) -> (text: String)
    ensures
        text@ == mmss_text(total_secs),
{
    let mins = if total_secs / 60 > 99 {
        99
    } else {
        total_secs / 60
    };
    joined(padded(mins), padded(total_secs % 60))
}

/// The text of a duration as `HH:MM:SS` from one hour on, and as `MM:SS`
/// below.
pub fn render_time_hhmmss(total_secs: u64) -> (text: String)
    ensures
        text@ == hhmmss_text(total_secs),
{
    if total_secs >= 3600 {
        let hours = total_secs / 3600;
        let mins = (total_secs % 3600) / 60;
        let secs = total_secs % 60;
        joined(joined(padded(hours), padded(mins)), padded(secs))
    } else {
        joined(padded(total_secs / 60), padded(total_secs % 60))
    }
}

/// The digits of a number are decimal digits and spell that number.
pub proof fn lemma_digits_spell(n: nat)
    ensures
        digits_of(n).len() > 0,
        all_digits(digits_of(n)),
        decimal(digits_of(n)) == n,
    decreases n,
{
    let s = digits_of(n);
    if n < 10 {
        assert(s.drop_last() =~= Seq::<char>::empty());
        assert(decimal(s.drop_last()) == 0);
        assert(s.last() == digit_char(n));
    } else {
        lemma_digits_spell(n / 10);
        let head = digits_of(n / 10);
        assert(s.drop_last() =~= head);
        assert(s.last() == digit_char(n % 10));
        assert forall|i: int| 0 <= i < s.len() implies is_digit(#[trigger] s[i]) by {
            if i < head.len() {
                assert(s[i] == head[i]);
            }
        }
    }
}

/// What a counter shows reads back as the counter's value.
pub proof fn law_number_text_reads_back(v: i64)
    ensures
        parsed_i64(number_text(v)) == Some(v),
{
    let s = number_text(v);
    if v < 0 {
        let n = (-v) as nat;
        lemma_digits_spell(n);
        assert(s.skip(1) =~= digits_of(n));
        assert(s[0] == '-');
    } else {
        let n = v as nat;
        lemma_digits_spell(n);
        assert(is_digit(s[0]));
    }
}

} // verus!
