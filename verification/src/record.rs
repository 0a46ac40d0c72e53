//! The green-space record, the payload a caller supplies for it, and the
//! one recoverable error of the store.

use vstd::prelude::*;
use vstd::string::StringExecFns;
use crate::text::{decimal, push_decimal};

verus! {

/// A green space as the store holds it.
#[derive(Clone, Debug, Default, PartialEq, Eq)]
pub struct GreenSpace {
    pub id: u64,
    pub name: String,
    pub location: String,
    pub description: String,
}

/// The three text fields a caller supplies when creating or replacing a record.
#[derive(Clone, Debug, Default, PartialEq, Eq)]
pub struct GreenSpaceUpdatePayload {
    pub name: String,
    pub location: String,
    pub description: String,
}

/// The only failure a caller can recover from: the identifier is not in the store.
#[derive(Clone, Debug, PartialEq, Eq)]
pub enum Error {
    NotFound { msg: String },
}

/// Mathematical value of a [`GreenSpace`].
#[verifier::ext_equal]
pub struct GreenSpaceView {
    pub id: u64,
    pub name: Seq<char>,
    pub location: Seq<char>,
    pub description: Seq<char>,
}

/// Mathematical value of a [`GreenSpaceUpdatePayload`].
#[verifier::ext_equal]
pub struct PayloadView {
    pub name: Seq<char>,
    pub location: Seq<char>,
    pub description: Seq<char>,
}

impl View for GreenSpace {
    type V = GreenSpaceView;

    open spec fn view(&self) -> GreenSpaceView {
        GreenSpaceView {
            id: self.id,
            name: self.name@,
            location: self.location@,
            description: self.description@,
        }
    }
}

impl View for GreenSpaceUpdatePayload {
    type V = PayloadView;

    open spec fn view(&self) -> PayloadView {
        PayloadView { name: self.name@, location: self.location@, description: self.description@ }
    }
}

/// The mathematical values of a run of records, in order.
pub open spec fn views_of(records: Seq<GreenSpace>) -> Seq<GreenSpaceView> {
    records.map_values(|record: GreenSpace| record@)
}

impl GreenSpaceView {
    /// The creation-time rule: all three text fields are non-empty.
    pub open spec fn is_valid(self) -> bool {
        &&& self.name.len() > 0
        &&& self.location.len() > 0
        &&& self.description.len() > 0
    }

    /// The three text fields, without the identifier.
    pub open spec fn payload(self) -> PayloadView {
        PayloadView { name: self.name, location: self.location, description: self.description }
    }

    /// This record with its location replaced and everything else kept.
    pub open spec fn with_location(self, location: Seq<char>) -> GreenSpaceView {
        GreenSpaceView { location, ..self }
    }
}

impl PayloadView {
    /// The record that carries these fields under the identifier `id`.
    pub open spec fn with_id(self, id: u64) -> GreenSpaceView {
        GreenSpaceView {
            id,
            name: self.name,
            location: self.location,
            description: self.description,
        }
    }

    /// The creation-time rule: all three text fields are non-empty.
    pub open spec fn is_valid(self) -> bool {
        self.with_id(0).is_valid()
    }
}

impl Error {
    /// The human-readable message the error carries.
    pub open spec fn message(self) -> Seq<char> {
        match self {
            Error::NotFound { msg } => msg@,
        }
    }
}

/// Message of a failed lookup.
pub open spec fn get_failure_text(id: u64) -> Seq<char> {
    "A green space with id="@ + decimal(id as nat) + " not found"@
}

/// Message of a failed full update.
pub open spec fn update_failure_text(id: u64) -> Seq<char> {
    "Couldn't update a green space with id="@ + decimal(id as nat) + ". Space not found"@
}

/// Message of a failed location update.
pub open spec fn update_location_failure_text(id: u64) -> Seq<char> {
    "Couldn't update location for green space with id="@ + decimal(id as nat)
        + ". Space not found"@
}

/// Message of a failed deletion.
pub open spec fn delete_failure_text(id: u64) -> Seq<char> {
    "Couldn't delete a green space with id="@ + decimal(id as nat) + ". Space not found"@
}

/// Builds the not-found error whose message is `before`, the decimal `id`, then `after`.
pub fn not_found(before: &str, id: u64, after: &str) -> (e: Error)
    ensures
        e.message() == before@ + decimal(id as nat) + after@,
{
    let mut msg = String::from_str(before);
    push_decimal(&mut msg, id);
    msg.append(after);
    Error::NotFound { msg }
}

impl GreenSpaceUpdatePayload {
    /// Tests the creation-time rule: name, location and description are all
    /// non-empty.
    pub fn is_valid(&self) -> (ok: bool)
        ensures
            ok == self@.is_valid(),
    {
        !self.name.as_str().is_empty() && !self.location.as_str().is_empty()
            && !self.description.as_str().is_empty()
    }
}

/// Accepts a candidate record only if its name, location and description are
/// all non-empty.
pub fn validate_green_space(space: &GreenSpace) -> (ok: bool)
    ensures
        ok == space@.is_valid(),
{
    !space.name.as_str().is_empty() && !space.location.as_str().is_empty()
        && !space.description.as_str().is_empty()
}

} // verus!
