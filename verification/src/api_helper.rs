//! Responses as plain values: a status code, a content type and a body.

use vstd::prelude::*;
use vstd::string::StringSliceAdditionalSpecFns;
use vstd::utf8::encode_utf8;

verus! {

/// A response ready to be handed to the transport.
#[derive(Clone, Debug, PartialEq, Eq)]
pub struct ApiResponse {
    pub status_code: u16,
    pub content_type: String,
    pub body: String,
}

/// Builds responses.
pub struct ApiHelper;

/// The status codes that HTTP knows: three digits.
pub open spec fn is_status_code(code: u16) -> bool {
    100 <= code <= 999
}

/// The bytes that may stand in a header value: tab, and everything from the
/// space on but DEL.
pub open spec fn is_header_byte(b: u8) -> bool {
    (b >= 32 && b != 127) || b == 9
}

/// A header value is made of header bytes alone.
pub open spec fn is_header_value(bytes: Seq<u8>) -> bool {
    forall|i: int| 0 <= i < bytes.len() ==> is_header_byte(#[trigger] bytes[i])
}

impl ApiResponse {
    /// The status code is one, and the content type can stand in a header.
    pub open spec fn well_formed(&self) -> bool {
        is_status_code(self.status_code) && is_header_value(encode_utf8(self.content_type@))
    }
}

impl ApiHelper {
    /// Whether a status code and a content type can make a response.
    pub fn accepts(status_code: u16, content_type: &str) -> (ok: bool)
        ensures
            ok == (is_status_code(status_code) && is_header_value(content_type.spec_bytes())),
    {
        if status_code < 100 || status_code > 999 {
            return false;
        }
        let bytes = content_type.as_bytes();
        let mut i: usize = 0;
        while i < bytes.len()
            invariant
                i <= bytes@.len(),
                bytes@ == content_type.spec_bytes(),
                forall|j: int| 0 <= j < i ==> is_header_byte(#[trigger] bytes@[j]),
            decreases bytes@.len() - i,
        {
            let b = bytes[i];
            if !((b >= 32 && b != 127) || b == 9) {
                return false;
            }
            i = i + 1;
        }
        true
    }

    /// The response with this status, body and content type.
    pub fn response(status_code: u16, body: String, content_type: String) -> (response: ApiResponse)
        requires
            is_status_code(status_code),
            is_header_value(encode_utf8(content_type@)),
        ensures
            response.status_code == status_code,
            response.body == body,
            response.content_type == content_type,
            response.well_formed(),
    {
        ApiResponse { status_code, content_type, body }
    }

    /// The response with this status, body and content type, where they can
    /// make one.
    pub fn checked_response(status_code: u16, body: String, content_type: String) -> (response:
        Option<ApiResponse>)
        ensures
            response is Some <==> is_status_code(status_code) && is_header_value(
                encode_utf8(content_type@),
            ),
            response matches Some(made) ==> made.status_code == status_code && made.body == body
                && made.content_type == content_type && made.well_formed(),
    {
        if ApiHelper::accepts(status_code, content_type.as_str()) {
            Some(ApiHelper::response(status_code, body, content_type))
        } else {
            None
        }
    }
}

} // verus!
