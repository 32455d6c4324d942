//! HTTP status codes.
use vstd::prelude::*;

verus! {

/// An HTTP status code.
#[derive(Debug, Clone, Copy, PartialEq, Eq, Structural)]
pub struct StatusCode(pub u16);

impl StatusCode {

    /// The standard reason phrase of a code, `Unknown` for the codes not listed.
    pub open spec fn phrase(code: u16) -> Seq<char> {
        if code == 200 {
            "OK"@
        } else if code == 201 {
            "Created"@
        } else if code == 202 {
            "Accepted"@
        } else if code == 204 {
            "No Content"@
        } else if code == 301 {
            "Moved Permanently"@
        } else if code == 302 {
            "Found"@
        } else if code == 303 {
            "See Other"@
        } else if code == 304 {
            "Not Modified"@
        } else if code == 307 {
            "Temporary Redirect"@
        } else if code == 308 {
            "Permanent Redirect"@
        } else if code == 400 {
            "Bad Request"@
        } else if code == 401 {
            "Unauthorized"@
        } else if code == 403 {
            "Forbidden"@
        } else if code == 404 {
            "Not Found"@
        } else if code == 405 {
            "Method Not Allowed"@
        } else if code == 409 {
            "Conflict"@
        } else if code == 410 {
            "Gone"@
        } else if code == 422 {
            "Unprocessable Entity"@
        } else if code == 429 {
            "Too Many Requests"@
        } else if code == 500 {
            "Internal Server Error"@
        } else if code == 501 {
            "Not Implemented"@
        } else if code == 502 {
            "Bad Gateway"@
        } else if code == 503 {
            "Service Unavailable"@
        } else if code == 504 {
            "Gateway Timeout"@
        } else {
            "Unknown"@
        }
    }

    pub fn as_u16(&self) -> (r: u16)
        ensures
            r == self.0,
    {
        self.0
    }

    /// The reason phrase of the code.
    pub fn reason_phrase(&self) -> (r: &'static str)
        ensures
            r@ == StatusCode::phrase(self.0),
    {
        match self.0 {
            200 => "OK",
            201 => "Created",
            202 => "Accepted",
            204 => "No Content",
            301 => "Moved Permanently",
            302 => "Found",
            303 => "See Other",
            304 => "Not Modified",
            307 => "Temporary Redirect",
            308 => "Permanent Redirect",
            400 => "Bad Request",
            401 => "Unauthorized",
            403 => "Forbidden",
            404 => "Not Found",
            405 => "Method Not Allowed",
            409 => "Conflict",
            410 => "Gone",
            422 => "Unprocessable Entity",
            429 => "Too Many Requests",
            500 => "Internal Server Error",
            501 => "Not Implemented",
            502 => "Bad Gateway",
            503 => "Service Unavailable",
            504 => "Gateway Timeout",
            _ => "Unknown",
        }
    }

    /// 2xx.
    pub fn is_success(&self) -> (r: bool)
        ensures
            r == (200 <= self.0 < 300),
    {
        200 <= self.0 && self.0 < 300
    }

    /// 3xx.
    pub fn is_redirect(&self) -> (r: bool)
        ensures
            r == (300 <= self.0 < 400),
    {
        300 <= self.0 && self.0 < 400
    }

    /// 4xx.
    pub fn is_client_error(&self) -> (r: bool)
        ensures
            r == (400 <= self.0 < 500),
    {
        400 <= self.0 && self.0 < 500
    }

    /// 5xx.
    pub fn is_server_error(&self) -> (r: bool)
        ensures
            r == (500 <= self.0 < 600),
    {
        500 <= self.0 && self.0 < 600
    }
}

impl From<u16> for StatusCode {
    fn from(code: u16) -> (r: StatusCode)
        ensures
            r.0 == code,
    {
        StatusCode(code)
    }
}

impl vstd::std_specs::convert::FromSpecImpl<u16> for StatusCode {
    open spec fn obeys_from_spec() -> bool {
        true
    }

    open spec fn from_spec(v: u16) -> StatusCode {
        StatusCode(v)
    }
}

} // verus!
