//! From a request's forwarded-for header to a country code.
//!
//! One request passes four questions in order: is there a header value, does
//! it write an address, is the database there, does the database hold a
//! country code for the address. The first two and the last are answered
//! here; the database is the cache's business.

use vstd::prelude::*;
use vstd::string::StringSliceAdditionalSpecFns;
use crate::address::{address_of, IpAddress};
use crate::cache::LoadError;
use crate::index::{found_in, record_view, stored_record, CountryIndex, CountryRecord};

verus! {

/// Why a header value gives no address to look up.
#[derive(Clone, Copy, Debug, PartialEq, Eq, Structural)]
pub enum InvalidInput {
    /// The request carries no such header.
    HeaderAbsent,
    /// The header value does not write an IPv4 or IPv6 address.
    NotAnAddress,
}

/// How one request ends.
#[derive(Clone, Debug, PartialEq, Eq)]
pub enum LookupResult {
    /// The database holds a country code for the address.
    Resolved { iso_code: String },
    /// The address is valid, and the database holds no country code for it.
    Unrecognized,
    /// There was no address to look up.
    Invalid { reason: InvalidInput },
}

/// How one request ends, as plain values.
pub enum Outcome {
    Resolved(Seq<char>),
    Unrecognized,
    Invalid(InvalidInput),
}

impl View for LookupResult {
    type V = Outcome;

    open spec fn view(&self) -> Outcome {
        match *self {
            LookupResult::Resolved { iso_code } => Outcome::Resolved(iso_code@),
            LookupResult::Unrecognized => Outcome::Unrecognized,
            LookupResult::Invalid { reason } => Outcome::Invalid(reason),
        }
    }
}

/// A header value as the bytes of its text.
pub open spec fn header_bytes(header: Option<&str>) -> Option<Seq<u8>> {
    match header {
        Some(value) => Some(value.spec_bytes()),
        None => None,
    }
}

/// The address that a header asks about.
pub open spec fn query_of(header: Option<Seq<u8>>) -> Result<IpAddress, InvalidInput> {
    match header {
        None => Err(InvalidInput::HeaderAbsent),
        Some(text) => match address_of(text) {
            Some(address) => Ok(address),
            None => Err(InvalidInput::NotAnAddress),
        },
    }
}

/// What a request is told about what the database holds for its address. A
/// record without an ISO code counts as no record.
pub open spec fn outcome_of(found: Option<Option<Seq<char>>>) -> Outcome {
    match found {
        Some(Some(iso_code)) => Outcome::Resolved(iso_code),
        _ => Outcome::Unrecognized,
    }
}

/// How a request with this header ends against a database of these bytes.
pub open spec fn resolution(header: Option<Seq<u8>>, source: Seq<u8>) -> Outcome {
    match query_of(header) {
        Err(reason) => Outcome::Invalid(reason),
        Ok(address) => outcome_of(found_in(stored_record(source, address))),
    }
}

/// Reads the address that a request asks about from its header value.
pub fn read_header(header: Option<&str>) -> (query: Result<IpAddress, InvalidInput>)
    ensures
        query == query_of(header_bytes(header)),
{
    match header {
        None => Err(InvalidInput::HeaderAbsent),
        Some(value) => match IpAddress::parse(value) {
            Some(address) => Ok(address),
            None => Err(InvalidInput::NotAnAddress),
        },
    }
}

/// Turns what a lookup found into the request's result.
pub fn classify(found: Option<CountryRecord>) -> (result: LookupResult)
    ensures
        result@ == outcome_of(record_view(found)),
{
    match found {
        Some(record) => match record.iso_code {
            Some(iso_code) => LookupResult::Resolved { iso_code },
            None => LookupResult::Unrecognized,
        },
        None => LookupResult::Unrecognized,
    }
}

/// Ends a request once it is known whether the database could be had. A
/// failure to load is passed on as it is, never as "unrecognized".
pub fn conclude(address: IpAddress, database: Result<&CountryIndex, LoadError>) -> (result: Result<
    LookupResult,
    LoadError,
>)
    ensures
        match database {
            Ok(index) => result matches Ok(found) && found@ == outcome_of(
                found_in(stored_record(index@, address)),
            ),
            Err(error) => result == Err::<LookupResult, _>(error),
        },
{
    match database {
        Ok(index) => Ok(classify(index.lookup(address))),
        Err(error) => Err(error),
    }
}

/// Resolves a request against a database that is in place.
pub fn resolve(index: &CountryIndex, header: Option<&str>) -> (result: LookupResult)
    ensures
        result@ == resolution(header_bytes(header), index@),
{
    match read_header(header) {
        Err(reason) => LookupResult::Invalid { reason },
        Ok(address) => classify(index.lookup(address)),
    }
}

/// A header that is absent or writes no address is invalid whatever the
/// database holds, and only then.
pub proof fn law_invalid_input_ignores_the_database(header: Option<Seq<u8>>, source: Seq<u8>)
    ensures
        header is None ==> resolution(header, source) == Outcome::Invalid(
            InvalidInput::HeaderAbsent,
        ),
        header matches Some(text) && address_of(text) is None ==> resolution(header, source)
            == Outcome::Invalid(InvalidInput::NotAnAddress),
        resolution(header, source) is Invalid <==> query_of(header) is Err,
{
}

/// A request is resolved exactly when its header writes an address for which
/// the database holds a record with an ISO code, and then to that code.
pub proof fn law_resolved_is_the_stored_code(header: Option<Seq<u8>>, source: Seq<u8>, iso_code: Seq<char>)
    ensures
        resolution(header, source) == Outcome::Resolved(iso_code) <==> (query_of(header) matches Ok(
            address,
        ) && stored_record(source, address) == Ok::<_, ()>(Some(Some(iso_code)))),
{
}

} // verus!
