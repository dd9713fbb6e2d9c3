//! A party registered in the Czech company registry.

use vstd::prelude::*;

use crate::address::{Address, first_line_spec, postal_code_splittable, second_line_spec};
use crate::registration_number::RegistrationNumber;
use crate::text::push_text;

verus! {

/// A party identified by its registration number, with its registered name,
/// address and, if it is registered for VAT, its VAT number.
#[derive(Debug, Clone, PartialEq, Eq)]
pub struct Entity {
    pub identifier: RegistrationNumber,
    pub name: String,
    pub address: Address,
    pub vat_number: Option<String>,
}

/// The lines of a party's block: the heading, its name, the two lines of
/// its address, its registration number, and its VAT number or a notice
/// that it is not registered for VAT.
pub open spec fn info_lines_spec(e: Entity, heading: Seq<char>) -> Seq<Seq<char>> {
    seq![
        heading,
        e.name@,
        first_line_spec(e.address.street@, e.address.house_number, e.address.orientation_number),
        second_line_spec(e.address.postal_code@, e.address.city@),
        "IČO "@ + e.identifier@,
        match e.vat_number {
            Some(v) => "DPH "@ + v@,
            None => "Neplátce DPH"@,
        },
    ]
}

impl Entity {
    /// The lines of the party's block under `heading`.
    pub fn info_lines(&self, heading: &str) -> (r: Vec<String>)
        requires
            postal_code_splittable(self.address.postal_code@),
        ensures
            r@.map_values(|l: String| l@) == info_lines_spec(*self, heading@),
    {
        let mut r: Vec<String> = Vec::new();
        r.push(heading.to_owned());
        r.push(self.name.clone());
        r.push(self.address.get_first_line());
        r.push(self.address.get_second_line());
        let mut id = String::new();
        push_text(&mut id, "IČO ");
        push_text(&mut id, self.identifier.get());
        r.push(id);
        let mut vat = String::new();
        match &self.vat_number {
            Some(v) => {
                push_text(&mut vat, "DPH ");
                push_text(&mut vat, v.as_str());
            },
            None => push_text(&mut vat, "Neplátce DPH"),
        }
        r.push(vat);
        proof {
            assert(r@.map_values(|l: String| l@) =~= info_lines_spec(*self, heading@));
        }
        r
    }

    pub fn new(
        identifier: RegistrationNumber,
        name: String,
        address: Address,
        vat_number: Option<String>,
    ) -> (r: Entity)
        ensures
            r.identifier == identifier,
            r.name == name,
            r.address == address,
            r.vat_number == vat_number,
    {
        Entity { identifier, name, address, vat_number }
    }
}

} // verus!
