use crate::http::status_code::StatusCode;
use vstd::prelude::*;
use vstd::string::StringExecFns;

verus! {

/// One response per request: a status and an optional body. No headers are
/// modeled or emitted; the wire format is status line, blank line, body.
#[derive(Debug)]
pub struct Response {
    pub status_code: StatusCode,
    pub body: Option<String>,
}

impl Response {
    pub fn new(status_code: StatusCode, body: Option<String>) -> (r: Response)
        ensures
            r.status_code == status_code,
            r.body == body,
    {
        Response { status_code, body }
    }

    /// The exact characters written back on the stream.
    pub open spec fn spec_render(self) -> Seq<char> {
        "HTTP/1.1 "@ + self.status_code.spec_status_text() + "\r\n\r\n"@ + (match self.body {
            Some(b) => b@,
            None => Seq::<char>::empty(),
        })
    }

    /// Serializes the response: `HTTP/1.1 <code> <reason>\r\n\r\n<body>`,
    /// with an empty body when none is set.
    pub fn render(&self) -> (out: String)
        ensures
            out@ == self.spec_render(),
    {
        let mut out: String = "HTTP/1.1 ".to_owned();
        out.append(self.status_code.status_text());
        out.append("\r\n\r\n");
        match &self.body {
            Some(b) => out.append(b.as_str()),
            None => (),
        }
        proof {
            assert(out@ =~= self.spec_render());
        }
        out
    }
}

} // verus!
