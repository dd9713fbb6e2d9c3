//! The Czech company registration number (IČO): eight digits, the last of
//! which is a weighted checksum of the others.

use vstd::arithmetic::div_mod::{lemma_add_mod_noop, lemma_mul_mod_noop_right, lemma_mod_bound};
use vstd::prelude::*;
use vstd::string::*;

use crate::text::{all_digits, digit_value, is_digit, slice_text};

verus! {

/// Sum of the digits before position `k`, each weighted by its distance
/// from the end of `s` (the digit just before the last one weighs 2).
pub open spec fn weighted_sum(s: Seq<char>, k: int) -> int
    decreases k,
{
    if k <= 0 {
        0
    } else {
        weighted_sum(s, k - 1) + digit_value(s[k - 1]) * (s.len() - (k - 1))
    }
}

/// The checksum digit that the characters before the last one call for.
pub open spec fn control_digit(s: Seq<char>) -> int {
    (11 - weighted_sum(s, s.len() - 1) % 11) % 10
}

/// A non-empty run of digits whose last digit is the checksum of the others.
pub open spec fn checksum_holds(s: Seq<char>) -> bool {
    &&& s.len() >= 1
    &&& all_digits(s)
    &&& digit_value(s.last()) == control_digit(s)
}

/// A valid registration number: eight digits with a correct checksum.
pub open spec fn is_registration_number(s: Seq<char>) -> bool {
    s.len() == 8 && checksum_holds(s)
}

/// A Czech company registration number whose checksum holds.
#[derive(Debug, Clone, PartialEq, Eq)]
pub struct RegistrationNumber(String);

#[derive(Debug, Clone, Copy, PartialEq, Eq)]
pub enum RegistrationNumberError {
    InvalidNumber,
}

impl RegistrationNumberError {
    /// The message shown to a user.
    pub fn message(&self) -> (r: &'static str) {
        match self {
            RegistrationNumberError::InvalidNumber => "Neplatné IČO",
        }
    }
}

impl View for RegistrationNumber {
    type V = Seq<char>;

    closed spec fn view(&self) -> Seq<char> {
        self.0@
    }
}

impl RegistrationNumber {
    /// Checks the digits and the checksum of `number`, whatever its length.
    pub fn valid(number: &str) -> (r: Option<()>)
        ensures
            r is Some <==> checksum_holds(number@),
    {
        let n = number.unicode_len();
        if n == 0 {
            return None;
        }
        let mut acc: usize = 0;
        let mut j: usize = 0;
        while j < n - 1
            invariant
                n == number@.len(),
                n >= 1,
                j <= n - 1,
                acc == weighted_sum(number@, j as int) % 11,
                forall|k: int| 0 <= k < j ==> is_digit(#[trigger] number@[k]),
            decreases n - 1 - j,
        {
            let c = number.get_char(j);
            if !('0' <= c && c <= '9') {
                return None;
            }
            let d = (c as u32 - '0' as u32) as usize;
            let w = (n - j) % 11;
            proof {
                let s = number@;
                let a = weighted_sum(s, j as int);
                let b = digit_value(c) * (s.len() - j);
                assert(weighted_sum(s, j + 1) == a + b);
                lemma_mul_mod_noop_right(digit_value(c), (n - j) as int, 11);
                lemma_add_mod_noop(a % 11, b, 11);
                lemma_mod_bound(a, 11);
                assert((a % 11) % 11 == a % 11);
                lemma_add_mod_noop(a, b, 11);
                assert((acc + d * w) % 11 == (a + b) % 11) by {
                    lemma_add_mod_noop(a % 11, d * w, 11);
                };
            }
            assert(d * w <= 90) by (nonlinear_arith)
                requires
                    d < 10,
                    w < 11,
            ;
            acc = (acc + d * w) % 11;
            j = j + 1;
        }
        let last = number.get_char(n - 1);
        if !('0' <= last && last <= '9') {
            return None;
        }
        let control = (11 - acc) % 10;
        if control != (last as u32 - '0' as u32) as usize {
            return None;
        }
        proof {
            assert(all_digits(number@));
        }
        Some(())
    }

    /// Accepts exactly the eight-digit numbers whose checksum holds.
    pub fn parse(number: &str) -> (r: Result<RegistrationNumber, RegistrationNumberError>)
        ensures
            r is Ok <==> is_registration_number(number@),
            r matches Ok(v) ==> v@ == number@,
            r matches Err(e) ==> e == RegistrationNumberError::InvalidNumber,
    {
        if number.unicode_len() != 8 {
            return Err(RegistrationNumberError::InvalidNumber);
        }
        match Self::valid(number) {
            Some(()) => Ok(RegistrationNumber(slice_text(number, 0, 8))),
            None => Err(RegistrationNumberError::InvalidNumber),
        }
    }

    /// The number as written.
    pub fn get(&self) -> (r: &str)
        ensures
            r@ == self@,
    {
        self.0.as_str()
    }
}

impl std::str::FromStr for RegistrationNumber {
    type Err = RegistrationNumberError;

    fn from_str(number: &str) -> Result<RegistrationNumber, RegistrationNumberError> {
        RegistrationNumber::parse(number)
    }
}

} // verus!
