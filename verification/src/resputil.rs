//! Builds the plain content of the read facade's HTTP responses: status
//! code, headers and JSON body as values. Sending them over a socket
//! happens outside the library.

use vstd::prelude::*;

verus! {

/// HTTP status of a well-formed request that was served.
pub const STATUS_OK: u16 = 200;

/// HTTP status of a request with a missing or malformed parameter.
pub const STATUS_BAD_REQUEST: u16 = 400;

/// HTTP status of a lookup that found nothing.
pub const STATUS_NOT_FOUND: u16 = 404;

/// HTTP status of a failure inside the service.
pub const STATUS_INTERNAL_SERVER_ERROR: u16 = 500;

/// The plain content of one HTTP response.
#[derive(Debug)]
pub struct ApiResponse {
    pub status: u16,
    pub content_type: String,
    pub allow_origin: String,
    pub body: String,
}

/// Builds responses that all carry the JSON content type and the
/// configured allowed origin.
#[derive(Debug)]
pub struct ResponseBuilder {
    pub allowed_host: String,
}

impl ResponseBuilder {
    /// Creates a builder whose responses allow the given origin.
    pub fn new(allowed_host: String) -> (r: ResponseBuilder)
        ensures
            r.allowed_host == allowed_host,
    {
        ResponseBuilder { allowed_host }
    }

    /// A rejected request: status 400 with the fault named in the body.
    pub fn invalid_form(&self, error: &str) -> (r: ApiResponse)
        ensures
            r.status == STATUS_BAD_REQUEST,
            r.content_type@ == "application/json"@,
            r.allow_origin@ == self.allowed_host@,
            r.body@ == "{ \"error\": \""@ + error@ + "\" }"@,
    {
        ApiResponse {
            status: STATUS_BAD_REQUEST,
            content_type: String::from_str("application/json"),
            allow_origin: self.allowed_host.clone(),
            body: String::from_str("{ \"error\": \"").concat(error).concat("\" }"),
        }
    }

    /// A served request: status 200 with the given JSON body.
    pub fn ok_json(&self, json: String) -> (r: ApiResponse)
        ensures
            r.status == STATUS_OK,
            r.content_type@ == "application/json"@,
            r.allow_origin@ == self.allowed_host@,
            r.body == json,
    {
        ApiResponse {
            status: STATUS_OK,
            content_type: String::from_str("application/json"),
            allow_origin: self.allowed_host.clone(),
            body: json,
        }
    }

    /// A lookup that found nothing: status 404.
    pub fn not_found(&self) -> (r: ApiResponse)
        ensures
            r.status == STATUS_NOT_FOUND,
            r.content_type@ == "application/json"@,
            r.allow_origin@ == self.allowed_host@,
            r.body@ == "{ \"error\": \"content not found\"}"@,
    {
        ApiResponse {
            status: STATUS_NOT_FOUND,
            content_type: String::from_str("application/json"),
            allow_origin: self.allowed_host.clone(),
            body: String::from_str("{ \"error\": \"content not found\"}"),
        }
    }

    /// A failure inside the service: status 500.
    pub fn internal_error(&self) -> (r: ApiResponse)
        ensures
            r.status == STATUS_INTERNAL_SERVER_ERROR,
            r.content_type@ == "application/json"@,
            r.allow_origin@ == self.allowed_host@,
            r.body@ == "{ \"error\": \"Internal Server Error\" }"@,
    {
        ApiResponse {
            status: STATUS_INTERNAL_SERVER_ERROR,
            content_type: String::from_str("application/json"),
            allow_origin: self.allowed_host.clone(),
            body: String::from_str("{ \"error\": \"Internal Server Error\" }"),
        }
    }
}

} // verus!
