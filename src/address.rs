//! A postal address and the two lines in which an invoice prints it.

use vstd::prelude::*;

use crate::text::{decimal, decimal_text, push_char, push_text, repeat, repeat_text, lemma_repeat_len};

verus! {

/// A postal address.
#[derive(Debug, Clone, PartialEq, Eq)]
pub struct Address {
    pub city: String,
    pub street: String,
    pub postal_code: String,
    pub house_number: u32,
    pub orientation_number: Option<u32>,
}

/// Street and house number, then `/` and the orientation number if there is one.
pub open spec fn first_line_spec(street: Seq<char>, house: u32, orientation: Option<u32>) -> Seq<char> {
    let base = street + seq![' '] + decimal(house as nat);
    match orientation {
        Some(o) => base + seq!['/'] + decimal(o as nat),
        None => base,
    }
}

/// The postal code widened with spaces on the right to five characters.
pub open spec fn padded_postal_code(code: Seq<char>) -> Seq<char> {
    if code.len() < 5 {
        code + repeat(' ', (5 - code.len()) as nat)
    } else {
        code
    }
}

/// The postal code with a space after its third character, a space, and the city.
pub open spec fn second_line_spec(code: Seq<char>, city: Seq<char>) -> Seq<char> {
    let p = padded_postal_code(code);
    p.subrange(0, 3) + seq![' '] + p.subrange(3, p.len() as int) + seq![' '] + city
}

/// The first three characters of the postal code, where present, are ASCII,
/// so that the space can go after the third one.
pub open spec fn postal_code_splittable(code: Seq<char>) -> bool {
    forall|i: int| 0 <= i < 3 && i < code.len() ==> (#[trigger] code[i] as u32) < 128
}

impl Address {
    pub fn new(
        city: String,
        street: String,
        postal_code: String,
        house_number: u32,
        orientation_number: Option<u32>,
    ) -> (r: Address)
        ensures
            r.city@ == city@,
            r.street@ == street@,
            r.postal_code@ == postal_code@,
            r.house_number == house_number,
            r.orientation_number == orientation_number,
    {
        Address { city, street, postal_code, house_number, orientation_number }
    }

    /// `"<street> <house number>"`, followed by `"/<orientation number>"` if
    /// there is one.
    pub fn get_first_line(&self) -> (r: String)
        ensures
            r@ == first_line_spec(self.street@, self.house_number, self.orientation_number),
    {
        let mut r = self.street.clone();
        push_char(&mut r, ' ');
        let house = decimal_text(self.house_number as u128);
        push_text(&mut r, house.as_str());
        match self.orientation_number {
            Some(o) => {
                push_char(&mut r, '/');
                let on = decimal_text(o as u128);
                push_text(&mut r, on.as_str());
            },
            None => {},
        }
        proof {
            let base = self.street@ + seq![' '] + decimal(self.house_number as nat);
            match self.orientation_number {
                Some(o) => {
                    assert(r@ =~= base + seq!['/'] + decimal(o as nat));
                },
                None => {
                    assert(r@ =~= base);
                },
            }
        }
        r
    }

    /// The postal code, widened to five characters and split after the third
    /// by a space, then a space and the city: `"120 00 Praha"`.
    pub fn get_second_line(&self) -> (r: String)
        requires
            postal_code_splittable(self.postal_code@),
        ensures
            r@ == second_line_spec(self.postal_code@, self.city@),
    {
        let mut padded = self.postal_code.clone();
        let n = padded.as_str().unicode_len();
        if n < 5 {
            let fill = repeat_text(' ', 5 - n);
            push_text(&mut padded, fill.as_str());
        }
        proof {
            lemma_repeat_len(' ', (5 - n) as nat);
            assert(padded@ == padded_postal_code(self.postal_code@));
        }
        let m = padded.as_str().unicode_len();
        let head = crate::text::slice_text(padded.as_str(), 0, 3);
        let tail = crate::text::slice_text(padded.as_str(), 3, m);
        let mut r = head;
        push_char(&mut r, ' ');
        push_text(&mut r, tail.as_str());
        push_char(&mut r, ' ');
        push_text(&mut r, self.city.as_str());
        r
    }
}

} // verus!
