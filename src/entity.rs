//! The parties to an invoice.

use vstd::prelude::*;

pub mod eu;
pub mod us;

verus! {

/// A party to an invoice, by the jurisdiction whose identifiers it carries.
#[derive(Debug, Clone, PartialEq)]
pub enum Entity {
    Eu(eu::Entity),
    Us,
    Canada,
    China,
    India,
    Japan,
    Korea,
    Australia,
    Brazil,
    Argentina,
    Africa,
}

/// The role a party plays on an invoice.
#[derive(Debug, Clone, Copy, PartialEq, Eq)]
pub enum EntityType {
    Contractor,
    Client,
}

pub open spec fn entity_type_label(t: EntityType) -> Seq<char> {
    match t {
        EntityType::Contractor => "DODAVATEL"@,
        EntityType::Client => "ODBĚRATEL"@,
    }
}

impl EntityType {
    /// The heading printed above the party's block.
    pub fn label(&self) -> (r: &'static str)
        ensures
            r@ == entity_type_label(*self),
    {
        match self {
            EntityType::Contractor => "DODAVATEL",
            EntityType::Client => "ODBĚRATEL",
        }
    }
}

} // verus!
