//! The records of the Czech business registry (ARES) that an entity is built
//! from. Fetching them is left to the caller; this module reads them.

use vstd::prelude::*;
use vstd::string::*;

use crate::address::Address;
use crate::entity::eu::Entity;
use crate::registration_number::RegistrationNumber;
use crate::text::{decimal, decimal_text, push_char};

verus! {

/// The registered office of a business.
#[derive(Debug, Clone, PartialEq, Eq)]
pub struct AresSidlo {
    pub country_code: String,
    pub country_name: String,
    pub region_code: u32,
    pub region_name: String,
    pub district_code: Option<u32>,
    pub district_name: Option<String>,
    pub municipality_code: u32,
    pub municipality_name: String,
    pub house_number: u32,
    pub municipality_part: u32,
    pub municipality_part_name: String,
    pub address_place_code: u32,
    pub postal_code: u32,
    pub text_address: String,
    pub house_number_type: u32,
    pub address_normalized: bool,
    pub orientation_number: Option<u32>,
    pub street: Option<String>,
    pub city_part: Option<String>,
}

/// The delivery address of a business, as two lines of text.
#[derive(Debug, Clone, PartialEq, Eq)]
pub struct AresAdresa {
    pub first_line: String,
    pub second_line: String,
}

/// The registry's record of one business.
#[derive(Debug, Clone, PartialEq, Eq)]
pub struct AresResponse {
    pub ico: String,
    pub name: String,
    pub office: AresSidlo,
    pub address: AresAdresa,
    pub dic: Option<String>,
}

/// `s` with each `-` written ` - `.
pub open spec fn dash_spaced(s: Seq<char>) -> Seq<char>
    decreases s.len(),
{
    if s.len() == 0 {
        Seq::empty()
    } else {
        dash_spaced(s.drop_last()) + if s.last() == '-' {
            seq![' ', '-', ' ']
        } else {
            seq![s.last()]
        }
    }
}

/// Writes each `-` of `s` as ` - `.
pub fn space_dashes(s: &str) -> (r: String)
    ensures
        r@ == dash_spaced(s@),
{
    let n = s.unicode_len();
    let mut r = String::new();
    let mut i: usize = 0;
    while i < n
        invariant
            n == s@.len(),
            i <= n,
            r@ == dash_spaced(s@.subrange(0, i as int)),
        decreases n - i,
    {
        let c = s.get_char(i);
        if c == '-' {
            push_char(&mut r, ' ');
            push_char(&mut r, '-');
            push_char(&mut r, ' ');
        } else {
            push_char(&mut r, c);
        }
        proof {
            let t = s@.subrange(0, i + 1);
            assert(t.drop_last() =~= s@.subrange(0, i as int));
            assert(t.last() == c);
            assert(r@ =~= dash_spaced(t));
        }
        i = i + 1;
    }
    proof {
        assert(s@.subrange(0, n as int) =~= s@);
    }
    r
}

/// The city of a registered office: its city part with dashes spaced out,
/// else its municipality.
pub open spec fn office_city(o: AresSidlo) -> Seq<char> {
    match o.city_part {
        Some(p) => dash_spaced(p@),
        None => o.municipality_name@,
    }
}

/// The street of a registered office, else the part of the municipality.
pub open spec fn office_street(o: AresSidlo) -> Seq<char> {
    match o.street {
        Some(s) => s@,
        None => o.municipality_part_name@,
    }
}

impl AresResponse {
    /// The entity that this record describes, under the registration number
    /// it was requested by.
    pub fn into_entity(self, number: RegistrationNumber) -> (r: Entity)
        ensures
            r.identifier == number,
            r.name == self.name,
            r.address.city@ == office_city(self.office),
            r.address.street@ == office_street(self.office),
            r.address.postal_code@ == decimal(self.office.postal_code as nat),
            r.address.house_number == self.office.house_number,
            r.address.orientation_number == self.office.orientation_number,
            r.vat_number == self.dic,
    {
        let office = self.office;
        let city = match office.city_part {
            Some(p) => space_dashes(p.as_str()),
            None => office.municipality_name,
        };
        let street = match office.street {
            Some(s) => s,
            None => office.municipality_part_name,
        };
        let postal_code = decimal_text(office.postal_code as u128);
        let address = Address::new(
            city,
            street,
            postal_code,
            office.house_number,
            office.orientation_number,
        );
        Entity::new(number, self.name, address, self.dic)
    }
}

} // verus!
