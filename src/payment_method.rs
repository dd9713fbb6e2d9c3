//! How an invoice is to be paid.

use vstd::prelude::*;
use vstd::string::*;

use crate::text::{find, find_char, lemma_find_bounds, push_text, same_text, slice_text, starts_with};

verus! {

/// How an invoice is to be paid.
#[derive(Debug, Clone, PartialEq, Eq)]
pub enum PaymentMethod {
    Cash,
    /// Payment by card, with the card's reference.
    Card(String),
    /// Payment by bank transfer, with the variable symbol.
    BankTransfer(String),
}

/// The part of `s` after its first occurrence of `c`; empty when there is none.
pub open spec fn after_first(s: Seq<char>, c: char) -> Seq<char> {
    let p = find(s, c, 0);
    if p >= s.len() {
        Seq::empty()
    } else {
        s.subrange(p + 1, s.len() as int)
    }
}

/// The part of `s` after its first occurrence of `c`.
pub fn text_after_first(s: &str, c: char) -> (r: String)
    ensures
        r@ == after_first(s@, c),
{
    let n = s.unicode_len();
    let p = find_char(s, c, 0);
    proof {
        lemma_find_bounds(s@, c, 0);
    }
    if p >= n {
        let r = String::new();
        proof {
            assert(r@ =~= after_first(s@, c));
        }
        r
    } else {
        slice_text(s, p + 1, n)
    }
}

/// Whether `s` begins with the characters of `p`.
pub open spec fn has_prefix(s: Seq<char>, p: Seq<char>) -> bool {
    p.len() <= s.len() && s.subrange(0, p.len() as int) == p
}

/// Whether `s` names a payment method: `cash`, or a text that begins with
/// `card` or `bank`.
pub open spec fn names_payment_method(s: Seq<char>) -> bool {
    s == "cash"@ || has_prefix(s, "card"@) || has_prefix(s, "bank"@)
}

/// Whether `m` is the method that `s` names: `cash`; `card <reference>`;
/// `bank <variable symbol>`. The reference and the variable symbol are
/// whatever follows the first space.
pub open spec fn is_method_named(m: PaymentMethod, s: Seq<char>) -> bool {
    if s == "cash"@ {
        m is Cash
    } else if has_prefix(s, "card"@) {
        m matches PaymentMethod::Card(c) && c@ == after_first(s, ' ')
    } else {
        m matches PaymentMethod::BankTransfer(v) && v@ == after_first(s, ' ')
    }
}

/// The text that describes a method, as printed beside the payment details.
pub open spec fn description_spec(m: PaymentMethod) -> Seq<char> {
    match m {
        PaymentMethod::Cash => "Hotově"@,
        PaymentMethod::Card(c) => "Platbení kartou: "@ + c@,
        PaymentMethod::BankTransfer(_) => "Bankovním převodem: "@,
    }
}

/// The name of a method, without its details.
pub open spec fn name_spec(m: PaymentMethod) -> Seq<char> {
    match m {
        PaymentMethod::Cash => "Hotově"@,
        PaymentMethod::Card(_) => "Platební kartou"@,
        PaymentMethod::BankTransfer(_) => "Bankovním převodem"@,
    }
}

impl PaymentMethod {
    /// Reads a method from its configuration text.
    pub fn parse(value: &str) -> (r: Result<PaymentMethod, String>)
        ensures
            r is Ok <==> names_payment_method(value@),
            r matches Ok(m) ==> is_method_named(m, value@),
            r matches Err(e) ==> e@ == "Unknown payment method: "@ + value@,
    {
        if same_text(value, "cash") {
            return Ok(PaymentMethod::Cash);
        }
        if starts_with(value, "card") {
            return Ok(PaymentMethod::Card(text_after_first(value, ' ')));
        }
        if starts_with(value, "bank") {
            return Ok(PaymentMethod::BankTransfer(text_after_first(value, ' ')));
        }
        let mut e = String::new();
        push_text(&mut e, "Unknown payment method: ");
        push_text(&mut e, value);
        proof {
            assert(e@ =~= "Unknown payment method: "@ + value@);
        }
        Err(e)
    }

    /// The method with its details, as printed beside the payment details.
    pub fn description(&self) -> (r: String)
        ensures
            r@ == description_spec(*self),
    {
        let mut r = String::new();
        match self {
            PaymentMethod::Cash => push_text(&mut r, "Hotově"),
            PaymentMethod::Card(c) => {
                push_text(&mut r, "Platbení kartou: ");
                push_text(&mut r, c.as_str());
            },
            PaymentMethod::BankTransfer(_) => push_text(&mut r, "Bankovním převodem: "),
        }
        proof {
            assert(r@ =~= description_spec(*self));
        }
        r
    }

    /// The name of the method.
    pub fn name(&self) -> (r: &'static str)
        ensures
            r@ == name_spec(*self),
    {
        match self {
            PaymentMethod::Cash => "Hotově",
            PaymentMethod::Card(_) => "Platební kartou",
            PaymentMethod::BankTransfer(_) => "Bankovním převodem",
        }
    }
}

impl std::str::FromStr for PaymentMethod {
    type Err = String;

    fn from_str(value: &str) -> Result<PaymentMethod, String> {
        PaymentMethod::parse(value)
    }
}

} // verus!
