//! One request, from the forwarded-for header to the response.

use vstd::prelude::*;
use crate::api_helper::ApiResponse;
use crate::index::CountryIndex;
use crate::reply::{json_object_text, payload_of, status_of};
use crate::resolver::{header_bytes, resolution, resolve};

verus! {

/// Answers a request whose forwarded-for header holds `forwarded_for`, from
/// the database behind `reader`: the country code of the address on success,
/// else the message that says why there is none.
pub fn function_handler(reader: &CountryIndex, forwarded_for: Option<&str>) -> (response:
    ApiResponse)
    ensures
        ({
            let outcome = resolution(header_bytes(forwarded_for), reader@);
            &&& response.status_code == status_of(outcome)
            &&& response.content_type@ == "application/json"@
            &&& response.body@ == json_object_text(payload_of(outcome).0, payload_of(outcome).1)
        }),
        response.well_formed(),
{
    resolve(reader, forwarded_for).reply()
}

} // verus!
