//! Where the database comes from: one object in a bucket of the object
//! store, under a fixed key.

use vstd::prelude::*;

verus! {

/// The key under which the object store holds the database.
pub const DATABASE_KEY: &'static str = "GeoIP2-Country.mmdb";

/// The environment variable that names the bucket.
pub const BUCKET_VARIABLE: &'static str = "BUCKET_NAME";

/// The request header that carries the client's address.
pub const FORWARDED_FOR: &'static str = "x-forwarded-for";

/// The bucket is not configured. Nothing can be served without it.
#[derive(Clone, Copy, Debug, PartialEq, Eq, Structural)]
pub struct ConfigError;

/// The object that holds the database.
#[derive(Clone, Debug, PartialEq, Eq)]
pub struct ObjectLocation {
    pub bucket: String,
    pub key: String,
}

/// The room to set aside for an object of the announced length.
pub open spec fn capacity_for(content_length: Option<i64>) -> usize {
    match content_length {
        Some(length) => if 0 < length <= usize::MAX {
            length as usize
        } else {
            0
        },
        None => 0,
    }
}

/// The object to fetch, given the configured bucket name.
pub fn database_location(bucket_name: Option<String>) -> (location: Result<
    ObjectLocation,
    ConfigError,
>)
    ensures
        match bucket_name {
            Some(bucket) => location matches Ok(found) && found.bucket == bucket && found.key@
                == DATABASE_KEY@,
            None => location == Err::<ObjectLocation, _>(ConfigError),
        },
{
    match bucket_name {
        Some(bucket) => Ok(ObjectLocation { bucket, key: DATABASE_KEY.to_owned() }),
        None => Err(ConfigError),
    }
}

/// How much room to set aside before reading an object whose length the
/// store announced. An absent or senseless length asks for none.
pub fn buffer_capacity(content_length: Option<i64>) -> (capacity: usize)
    ensures
        capacity == capacity_for(content_length),
{
    match content_length {
        Some(length) => {
            if length > 0 && length as u64 <= usize::MAX as u64 {
                length as usize
            } else {
                0
            }
        },
        None => 0,
    }
}

} // verus!
