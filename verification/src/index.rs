//! The country database: bytes in the MaxMind DB format, opened for lookups.
//!
//! Reading the format is the work of the `maxminddb` crate. This module
//! states what the rest of the library relies on: an index holds exactly the
//! bytes it was opened on, and what a lookup finds depends on those bytes
//! and the address alone.

use vstd::prelude::*;
use vstd::slice::slice_to_vec;
use crate::address::IpAddress;

verus! {

#[verifier::external_type_specification]
#[verifier::external_body]
pub struct ExMaxMindDbError(maxminddb::MaxMindDbError);

/// A database opened for lookups. It owns the bytes it was opened on and
/// never changes them.
#[verifier::external_body]
pub struct CountryIndex {
    reader: maxminddb::Reader<Vec<u8>>,
}

/// The bytes that an index was opened on.
pub uninterp spec fn index_source(index: CountryIndex) -> Seq<u8>;

/// Whether `maxminddb::Reader::from_source` accepts these bytes as a database.
/// The crate decides this from the bytes and from the widths of the target's
/// integer and time types, so on one target it depends on the bytes alone.
pub uninterp spec fn opens_as_database(source: Seq<u8>) -> bool;

/// What `maxminddb::Reader::lookup`, followed by decoding the result as a
/// `geoip2::Country`, gives for an address in a database of these bytes:
/// `Err` where either step fails, `Ok(None)` where no record covers the
/// address, else the ISO code of the record's country, if it has one.
pub uninterp spec fn stored_record(source: Seq<u8>, address: IpAddress) -> Result<
    Option<Option<Seq<char>>>,
    (),
>;

/// `maxminddb::Reader::from_source` on an owned buffer. The index that comes
/// back holds exactly the bytes it was given; whether one comes back depends
/// on the bytes alone.
#[verifier::external_body]
fn open_reader(data: Vec<u8>) -> (r: Result<CountryIndex, maxminddb::MaxMindDbError>)
    ensures
        r is Ok <==> opens_as_database(data@),
        r matches Ok(index) ==> index_source(index) == data@,
{
    Ok(CountryIndex { reader: maxminddb::Reader::from_source(data)? })
}

/// `maxminddb::Reader::lookup` and then `maxminddb::LookupResult::decode` as
/// a `geoip2::Country`, of which only `country.iso_code` is kept. The outcome
/// depends on the bytes of the index and on the address alone.
#[verifier::external_body]
fn lookup_country(index: &CountryIndex, address: IpAddress) -> (r: Result<
    Option<CountryRecord>,
    maxminddb::MaxMindDbError,
>)
    ensures
        match r {
            Ok(found) => stored_record(index_source(*index), address) == Ok::<_, ()>(
                record_view(found),
            ),
            Err(_) => stored_record(index_source(*index), address) is Err,
        },
{
    let ip = match address {
        IpAddress::V4(a, b, c, d) => [a, b, c, d].into(),
        IpAddress::V6(a, b, c, d, e, f, g, h) => [a, b, c, d, e, f, g, h].into(),
    };
    let found = index.reader.lookup(ip)?.decode::<maxminddb::geoip2::Country>()?;
    Ok(found.map(|entry| CountryRecord { iso_code: entry.country.iso_code.map(String::from) }))
}

/// The bytes handed over are not a database that can be opened.
#[derive(Clone, Copy, Debug, PartialEq, Eq, Structural)]
pub struct FormatError;

/// What the database records for a range of addresses. The dataset allows
/// partial records: one may lack the ISO code of its country.
#[derive(Clone, Debug, PartialEq, Eq)]
pub struct CountryRecord {
    pub iso_code: Option<String>,
}

impl View for CountryRecord {
    type V = Option<Seq<char>>;

    open spec fn view(&self) -> Option<Seq<char>> {
        match self.iso_code {
            Some(code) => Some(code@),
            None => None,
        }
    }
}

/// A record that may be missing, as what it holds.
pub open spec fn record_view(found: Option<CountryRecord>) -> Option<Option<Seq<char>>> {
    match found {
        Some(record) => Some(record@),
        None => None,
    }
}

/// What a lookup reports of the database's answer: a failure to read the
/// entry counts as no entry.
pub open spec fn found_in(stored: Result<Option<Option<Seq<char>>>, ()>) -> Option<
    Option<Seq<char>>,
> {
    match stored {
        Ok(found) => found,
        Err(_) => None,
    }
}

impl View for CountryIndex {
    type V = Seq<u8>;

    open spec fn view(&self) -> Seq<u8> {
        index_source(*self)
    }
}

impl CountryIndex {
    /// Opens a database on a buffer that it takes over.
    pub fn from_vec(data: Vec<u8>) -> (r: Result<CountryIndex, FormatError>)
        ensures
            r is Ok <==> opens_as_database(data@),
            r matches Ok(index) ==> index@ == data@,
    {
        match open_reader(data) {
            Ok(index) => Ok(index),
            Err(_) => Err(FormatError),
        }
    }

    /// Opens a database on a copy of `data`.
    pub fn from_bytes(data: &[u8]) -> (r: Result<CountryIndex, FormatError>)
        ensures
            r is Ok <==> opens_as_database(data@),
            r matches Ok(index) ==> index@ == data@,
    {
        CountryIndex::from_vec(slice_to_vec(data))
    }

    /// The record of the most specific range that covers `address`, if any.
    pub fn lookup(&self, address: IpAddress) -> (r: Option<CountryRecord>)
        ensures
            record_view(r) == found_in(stored_record(self@, address)),
    {
        match lookup_country(self, address) {
            Ok(found) => found,
            Err(_) => None,
        }
    }
}

} // verus!
