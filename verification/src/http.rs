//! The transport-independent half of the request executor: a plain record of
//! an HTTP response, the error kinds a round trip can end in, and their
//! display messages.  The transport itself lives outside the library and
//! hands in either a response or a transport-failure message.

use vstd::prelude::*;

verus! {

use vstd::string::StringExecFns;
use crate::encoding::spec_dec_chars;
use crate::encoding::append_dec;

/// One completed HTTP round trip: the status code and the raw body bytes.
pub struct HttpResponse {
    pub status: u16,
    pub body: Vec<u8>,
}

/// Why a request produced no decoded value.
pub enum RequestError {
    /// The round trip itself failed; carries the transport's own message.
    Transport(String),
    /// The server answered with a status other than 200.
    Status(u16),
    /// The server answered 200 but the body did not decode as expected.
    Decode,
}

impl RequestError {
    /// The display message of this error.
    pub open spec fn spec_message(&self) -> Seq<char> {
        match self {
            RequestError::Transport(e) => "Request failed: "@ + e@,
            RequestError::Status(c) => "Request failed with status: "@ + spec_dec_chars(
                *c as int,
            ),
            RequestError::Decode => "Failed to parse the response"@,
        }
    }

    /// Renders this error for display; the status error names the code.
    pub fn message(&self) -> (r: String)
        ensures
            r@ == self.spec_message(),
    {
        match self {
            RequestError::Transport(e) => {
                let mut s = String::from_str("Request failed: ");
                s.append(e.as_str());
                s
            },
            RequestError::Status(c) => {
                let mut s = String::from_str("Request failed with status: ");
                append_dec(&mut s, *c);
                s
            },
            RequestError::Decode => String::from_str("Failed to parse the response"),
        }
    }
}

} // verus!
