//! What the caller is told: a status code and a JSON object with one member.
//!
//! | result                  | status | member                                               |
//! |-------------------------|--------|------------------------------------------------------|
//! | resolved                | 200    | `countrycode`: the ISO code                          |
//! | unrecognized            | 403    | `message`: `IP not recognized`                       |
//! | invalid, header absent  | 403    | `message`: `IP is not present in the header request` |
//! | invalid, not an address | 403    | `message`: `IP not recognized`                       |
//! | database not loaded     | 500    | `message`: what went wrong                           |

use vstd::prelude::*;
use vstd::utf8::{encode_utf8, is_ascii_chars_encode_utf8};
use crate::api_helper::{is_header_byte, is_header_value, ApiHelper, ApiResponse};
use crate::cache::LoadError;
use crate::resolver::{InvalidInput, LookupResult, Outcome};

verus! {

/// The compact JSON text that `serde_json` writes for an object with the one
/// member `name`, whose value is the string `value`.
pub uninterp spec fn json_object_text(name: Seq<char>, value: Seq<char>) -> Seq<char>;

/// `serde_json::Value`'s `Display` on an object built with one string member.
/// The text depends on the member's name and value alone.
#[verifier::external_body]
fn object_text(name: &str, value: &str) -> (text: String)
    ensures
        text@ == json_object_text(name@, value@),
{
    let mut members = serde_json::Map::new();
    members.insert(name.to_owned(), serde_json::Value::from(value));
    serde_json::Value::Object(members).to_string()
}

/// The one member of a reply's body.
#[derive(Clone, Debug, PartialEq, Eq)]
pub struct Payload {
    pub name: String,
    pub value: String,
}

impl View for Payload {
    type V = (Seq<char>, Seq<char>);

    open spec fn view(&self) -> (Seq<char>, Seq<char>) {
        (self.name@, self.value@)
    }
}

/// The status code for a result.
pub open spec fn status_of(outcome: Outcome) -> u16 {
    match outcome {
        Outcome::Resolved(_) => 200,
        _ => 403,
    }
}

/// The member for a result.
pub open spec fn payload_of(outcome: Outcome) -> (Seq<char>, Seq<char>) {
    match outcome {
        Outcome::Resolved(iso_code) => ("countrycode"@, iso_code),
        Outcome::Unrecognized => ("message"@, "IP not recognized"@),
        Outcome::Invalid(InvalidInput::HeaderAbsent) => (
            "message"@,
            "IP is not present in the header request"@,
        ),
        Outcome::Invalid(InvalidInput::NotAnAddress) => ("message"@, "IP not recognized"@),
    }
}

/// The member that tells of a failure to load the database.
pub open spec fn failure_payload(error: LoadError) -> (Seq<char>, Seq<char>) {
    match error {
        LoadError::Fetch(_) => ("message"@, "the database could not be fetched"@),
        LoadError::Format(_) => ("message"@, "the fetched bytes are not a database"@),
    }
}

/// `application/json` can stand in a header.
proof fn lemma_json_is_a_header_value()
    ensures
        is_header_value(encode_utf8("application/json"@)),
{
    reveal_strlit("application/json");
    let text = "application/json"@;
    is_ascii_chars_encode_utf8(text);
    assert forall|i: int| 0 <= i < encode_utf8(text).len() implies is_header_byte(
        #[trigger] encode_utf8(text)[i],
    ) by {
        assert(encode_utf8(text)[i] == text[i] as u8);
    }
}

/// A JSON response with the object of one member as its body.
fn json_response(status_code: u16, payload: &Payload) -> (response: ApiResponse)
    requires
        100 <= status_code <= 999,
    ensures
        response.status_code == status_code,
        response.content_type@ == "application/json"@,
        response.body@ == json_object_text(payload.name@, payload.value@),
        response.well_formed(),
{
    proof {
        lemma_json_is_a_header_value();
    }
    let body = object_text(payload.name.as_str(), payload.value.as_str());
    ApiHelper::response(status_code, body, "application/json".to_owned())
}

impl LookupResult {
    /// The status code that goes with this result.
    pub fn status_code(&self) -> (code: u16)
        ensures
            code == status_of(self@),
    {
        match self {
            LookupResult::Resolved { .. } => 200,
            _ => 403,
        }
    }

    /// The member that goes with this result.
    pub fn payload(&self) -> (payload: Payload)
        ensures
            payload@ == payload_of(self@),
    {
        match self {
            LookupResult::Resolved { iso_code } => Payload {
                name: "countrycode".to_owned(),
                value: iso_code.clone(),
            },
            LookupResult::Unrecognized => Payload {
                name: "message".to_owned(),
                value: "IP not recognized".to_owned(),
            },
            LookupResult::Invalid { reason: InvalidInput::HeaderAbsent } => Payload {
                name: "message".to_owned(),
                value: "IP is not present in the header request".to_owned(),
            },
            LookupResult::Invalid { reason: InvalidInput::NotAnAddress } => Payload {
                name: "message".to_owned(),
                value: "IP not recognized".to_owned(),
            },
        }
    }

    /// The response that tells the caller of this result.
    pub fn reply(&self) -> (response: ApiResponse)
        ensures
            response.status_code == status_of(self@),
            response.content_type@ == "application/json"@,
            response.body@ == json_object_text(payload_of(self@).0, payload_of(self@).1),
            response.well_formed(),
    {
        json_response(self.status_code(), &self.payload())
    }
}

impl LoadError {
    /// The status code that goes with a failure to load the database.
    pub fn status_code(&self) -> (code: u16)
        ensures
            code == 500,
    {
        500
    }

    /// The member that goes with a failure to load the database.
    pub fn payload(&self) -> (payload: Payload)
        ensures
            payload@ == failure_payload(*self),
    {
        match self {
            LoadError::Fetch(_) => Payload {
                name: "message".to_owned(),
                value: "the database could not be fetched".to_owned(),
            },
            LoadError::Format(_) => Payload {
                name: "message".to_owned(),
                value: "the fetched bytes are not a database".to_owned(),
            },
        }
    }

    /// The response that tells the caller of a failure to load the database.
    pub fn reply(&self) -> (response: ApiResponse)
        ensures
            response.status_code == 500,
            response.content_type@ == "application/json"@,
            response.body@ == json_object_text(failure_payload(*self).0, failure_payload(*self).1),
            response.well_formed(),
    {
        json_response(self.status_code(), &self.payload())
    }
}

/// Every result but a resolved one is refused with the same status, and a
/// resolved one alone is answered with success.
pub proof fn law_only_resolved_succeeds(outcome: Outcome)
    ensures
        status_of(outcome) == 200 <==> outcome is Resolved,
        !(outcome is Resolved) ==> status_of(outcome) == 403,
{
}

} // verus!
