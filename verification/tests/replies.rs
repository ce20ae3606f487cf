use ip_country::api_helper::{ApiHelper, ApiResponse};
use ip_country::cache::{FetchError, LoadError};
use ip_country::index::FormatError;
use ip_country::reply::Payload;
use ip_country::resolver::{read_header, InvalidInput, LookupResult};
use ip_country::address::IpAddress;
use ip_country::source::{
    buffer_capacity, database_location, ConfigError, ObjectLocation, BUCKET_VARIABLE,
    DATABASE_KEY, FORWARDED_FOR,
};

fn payload(name: &str, value: &str) -> Payload {
    Payload { name: name.to_string(), value: value.to_string() }
}

fn object(name: &str, value: &str) -> serde_json::Value {
    let mut members = serde_json::Map::new();
    members.insert(name.to_string(), serde_json::Value::String(value.to_string()));
    serde_json::Value::Object(members)
}

fn parsed(response: &ApiResponse) -> serde_json::Value {
    serde_json::from_str(&response.body).unwrap()
}

#[test]
fn header_is_read_before_anything_else() {
    assert_eq!(read_header(None), Err(InvalidInput::HeaderAbsent));
    assert_eq!(read_header(Some("")), Err(InvalidInput::NotAnAddress));
    assert_eq!(read_header(Some("not-an-ip")), Err(InvalidInput::NotAnAddress));
    assert_eq!(read_header(Some("8.8.8.8")), Ok(IpAddress::V4(8, 8, 8, 8)));
    assert_eq!(read_header(Some("::1")), Ok(IpAddress::V6(0, 0, 0, 0, 0, 0, 0, 1)));
}

#[test]
fn status_codes_of_results() {
    assert_eq!(LookupResult::Resolved { iso_code: "US".to_string() }.status_code(), 200);
    assert_eq!(LookupResult::Unrecognized.status_code(), 403);
    assert_eq!(LookupResult::Invalid { reason: InvalidInput::HeaderAbsent }.status_code(), 403);
    assert_eq!(LookupResult::Invalid { reason: InvalidInput::NotAnAddress }.status_code(), 403);
    assert_eq!(LoadError::Fetch(FetchError).status_code(), 500);
    assert_eq!(LoadError::Format(FormatError).status_code(), 500);
}

#[test]
fn payloads_of_results() {
    assert_eq!(
        LookupResult::Resolved { iso_code: "US".to_string() }.payload(),
        payload("countrycode", "US")
    );
    assert_eq!(LookupResult::Unrecognized.payload(), payload("message", "IP not recognized"));
    assert_eq!(
        LookupResult::Invalid { reason: InvalidInput::HeaderAbsent }.payload(),
        payload("message", "IP is not present in the header request")
    );
    assert_eq!(
        LookupResult::Invalid { reason: InvalidInput::NotAnAddress }.payload(),
        payload("message", "IP not recognized")
    );
    assert_eq!(
        LoadError::Fetch(FetchError).payload(),
        payload("message", "the database could not be fetched")
    );
    assert_eq!(
        LoadError::Format(FormatError).payload(),
        payload("message", "the fetched bytes are not a database")
    );
}

#[test]
fn replies_of_results() {
    let resolved = LookupResult::Resolved { iso_code: "SE".to_string() }.reply();
    assert_eq!(resolved.status_code, 200);
    assert_eq!(resolved.content_type, "application/json");
    assert_eq!(resolved.body, "{\"countrycode\":\"SE\"}");
    assert_eq!(parsed(&resolved), object("countrycode", "SE"));
    let unrecognized = LookupResult::Unrecognized.reply();
    assert_eq!(unrecognized.status_code, 403);
    assert_eq!(unrecognized.content_type, "application/json");
    assert_eq!(parsed(&unrecognized), object("message", "IP not recognized"));
    let absent = LookupResult::Invalid { reason: InvalidInput::HeaderAbsent }.reply();
    assert_eq!(absent.status_code, 403);
    assert_eq!(parsed(&absent), object("message", "IP is not present in the header request"));
    let garbled = LookupResult::Invalid { reason: InvalidInput::NotAnAddress }.reply();
    assert_eq!(garbled.status_code, 403);
    assert_eq!(parsed(&garbled), object("message", "IP not recognized"));
}

#[test]
fn replies_of_failures() {
    let fetch = LoadError::Fetch(FetchError).reply();
    assert_eq!(fetch.status_code, 500);
    assert_eq!(fetch.content_type, "application/json");
    assert_eq!(fetch.body, "{\"message\":\"the database could not be fetched\"}");
    let format = LoadError::Format(FormatError).reply();
    assert_eq!(format.status_code, 500);
    assert_eq!(parsed(&format), object("message", "the fetched bytes are not a database"));
}

#[test]
fn reply_bodies_are_json_whatever_the_code_holds() {
    for code in ["", "US", "a\"b", "back\\slash", "line\nbreak", "tab\there", "\u{1}", "é", "日本"] {
        let response = LookupResult::Resolved { iso_code: code.to_string() }.reply();
        assert_eq!(parsed(&response), object("countrycode", code));
    }
    let quoted = LookupResult::Resolved { iso_code: "a\"b".to_string() }.reply();
    assert_eq!(quoted.body, "{\"countrycode\":\"a\\\"b\"}");
    let control = LookupResult::Resolved { iso_code: "\u{1}\n".to_string() }.reply();
    assert_eq!(control.body, "{\"countrycode\":\"\\u0001\\n\"}");
}

#[test]
fn response_keeps_what_it_is_given() {
    let response =
        ApiHelper::response(201, "hello".to_string(), "text/plain; charset=utf-8".to_string());
    assert_eq!(
        response,
        ApiResponse {
            status_code: 201,
            content_type: "text/plain; charset=utf-8".to_string(),
            body: "hello".to_string(),
        }
    );
}

#[test]
fn accepted_status_codes_and_content_types() {
    assert!(ApiHelper::accepts(200, "application/json"));
    assert!(ApiHelper::accepts(100, ""));
    assert!(ApiHelper::accepts(999, "a\tb"));
    assert!(ApiHelper::accepts(403, "text/plain; charset=\"utf-8\""));
    assert!(ApiHelper::accepts(200, "é"));
    assert!(ApiHelper::accepts(200, "~"));
    assert!(!ApiHelper::accepts(99, "application/json"));
    assert!(!ApiHelper::accepts(1000, "application/json"));
    assert!(!ApiHelper::accepts(0, "application/json"));
    assert!(!ApiHelper::accepts(u16::MAX, "application/json"));
    assert!(!ApiHelper::accepts(200, "a\nb"));
    assert!(!ApiHelper::accepts(200, "a\rb"));
    assert!(!ApiHelper::accepts(200, "\u{7f}"));
    assert!(!ApiHelper::accepts(200, "\u{0}"));
    assert!(!ApiHelper::accepts(200, "\u{1f}"));
}

#[test]
fn checked_response_refuses_what_cannot_be_sent() {
    assert_eq!(
        ApiHelper::checked_response(200, "{}".to_string(), "application/json".to_string()),
        Some(ApiResponse {
            status_code: 200,
            content_type: "application/json".to_string(),
            body: "{}".to_string(),
        })
    );
    assert_eq!(ApiHelper::checked_response(99, "{}".to_string(), "text/plain".to_string()), None);
    assert_eq!(ApiHelper::checked_response(200, "{}".to_string(), "text\n".to_string()), None);
    assert!(ApiHelper::checked_response(500, "line\nbreak".to_string(), "x".to_string()).is_some());
}

#[test]
fn the_database_lies_under_a_fixed_key() {
    assert_eq!(DATABASE_KEY, "GeoIP2-Country.mmdb");
    assert_eq!(BUCKET_VARIABLE, "BUCKET_NAME");
    assert_eq!(FORWARDED_FOR, "x-forwarded-for");
    assert_eq!(
        database_location(Some("geo-bucket".to_string())),
        Ok(ObjectLocation {
            bucket: "geo-bucket".to_string(),
            key: "GeoIP2-Country.mmdb".to_string(),
        })
    );
    assert_eq!(
        database_location(Some(String::new())),
        Ok(ObjectLocation { bucket: String::new(), key: "GeoIP2-Country.mmdb".to_string() })
    );
    assert_eq!(database_location(None), Err(ConfigError));
}

#[test]
fn room_for_the_announced_length() {
    assert_eq!(buffer_capacity(None), 0);
    assert_eq!(buffer_capacity(Some(0)), 0);
    assert_eq!(buffer_capacity(Some(-1)), 0);
    assert_eq!(buffer_capacity(Some(i64::MIN)), 0);
    assert_eq!(buffer_capacity(Some(1)), 1);
    assert_eq!(buffer_capacity(Some(6_291_456)), 6_291_456);
}
