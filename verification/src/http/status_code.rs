use vstd::prelude::*;

verus! {

/// The status codes the service emits. Closed set: the router never produces
/// anything outside these five.
#[derive(Clone, Copy, Debug, PartialEq, Eq, Structural)]
pub enum StatusCode {
    Okay,
    Created,
    BadRequest,
    NotFound,
    InternalServerError,
}

impl StatusCode {
    pub open spec fn spec_code(self) -> u16 {
        match self {
            StatusCode::Okay => 200u16,
            StatusCode::Created => 201u16,
            StatusCode::BadRequest => 400u16,
            StatusCode::NotFound => 404u16,
            StatusCode::InternalServerError => 500u16,
        }
    }

    /// The numeric code, as it appears on the status line.
    pub fn code(self) -> (c: u16)
        ensures
            c == self.spec_code(),
    {
        match self {
            StatusCode::Okay => 200,
            StatusCode::Created => 201,
            StatusCode::BadRequest => 400,
            StatusCode::NotFound => 404,
            StatusCode::InternalServerError => 500,
        }
    }

    pub open spec fn spec_reason(self) -> Seq<char> {
        match self {
            StatusCode::Okay => "OK"@,
            StatusCode::Created => "Created"@,
            StatusCode::BadRequest => "Bad Request"@,
            StatusCode::NotFound => "Not Found"@,
            StatusCode::InternalServerError => "Internal Server Error"@,
        }
    }

    /// The reason phrase, as it appears on the status line.
    pub fn reason_phrase(self) -> (r: &'static str)
        ensures
            r@ == self.spec_reason(),
    {
        match self {
            StatusCode::Okay => "OK",
            StatusCode::Created => "Created",
            StatusCode::BadRequest => "Bad Request",
            StatusCode::NotFound => "Not Found",
            StatusCode::InternalServerError => "Internal Server Error",
        }
    }

    pub open spec fn spec_status_text(self) -> Seq<char> {
        match self {
            StatusCode::Okay => "200 OK"@,
            StatusCode::Created => "201 Created"@,
            StatusCode::BadRequest => "400 Bad Request"@,
            StatusCode::NotFound => "404 Not Found"@,
            StatusCode::InternalServerError => "500 Internal Server Error"@,
        }
    }

    /// Code and reason phrase together, the middle of the status line.
    pub fn status_text(self) -> (r: &'static str)
        ensures
            r@ == self.spec_status_text(),
    {
        match self {
            StatusCode::Okay => "200 OK",
            StatusCode::Created => "201 Created",
            StatusCode::BadRequest => "400 Bad Request",
            StatusCode::NotFound => "404 Not Found",
            StatusCode::InternalServerError => "500 Internal Server Error",
        }
    }
}

} // verus!
