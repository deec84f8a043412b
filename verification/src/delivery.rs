//! The delivery of a payload to an observer: the request, and when it is
//! posted again.

use http_types::Url;
use vstd::prelude::*;

verus! {

/// How long to wait before a request is posted again, in milliseconds.
pub const BACKOFF_MILLIS: u64 = 1_000;

/// The header that a request carries.
pub const CONTENT_TYPE: &'static str = "Content-Type";

/// The value of that header.
pub const APPLICATION_JSON: &'static str = "application/json";

/// A POST request to an observer: the address to connect to, the URL, a
/// header, and the body.
#[derive(Debug)]
pub struct PostRequest {
    pub endpoint: String,
    pub url: Url,
    pub header_name: String,
    pub header_value: String,
    pub body: Vec<u8>,
}

/// Why a payload cannot be posted.
#[derive(Debug)]
pub enum SendError {
    /// The payload could not be serialized.
    Serialization,
    /// The observer's URL, given here, is not one.
    InvalidUrl(String),
}

/// `url::ParseError`, the reason why a text is no URL.
#[verifier::external_type_specification]
#[verifier::external_body]
pub struct ExParseError(http_types::url::ParseError);

/// `http_types::Url`, a URL that was read from a text.
#[verifier::external_type_specification]
#[verifier::external_body]
pub struct ExUrl(http_types::Url);

/// The URL that `Url::parse` reads from a text, or `None` if it reports an
/// error.
pub uninterp spec fn parsed_url(text: Seq<char>) -> Option<http_types::Url>;

/// Calls `http_types::Url::parse`, which reads an absolute URL. What is read,
/// or that the text is no URL, depends on nothing but the text; which texts are
/// URLs is not described here.
#[verifier::external_body]
pub(crate) fn parse_url(text: &str) -> (url: Result<Url, http_types::url::ParseError>)
    ensures
        match url {
            Ok(read) => parsed_url(text@) == Some(read),
            Err(_) => parsed_url(text@) is None,
        },
{
    Url::parse(text)
}

impl PostRequest {
    /// Whether this posts `body` as JSON to `url` at `endpoint`.
    pub open spec fn posts(&self, endpoint: Seq<char>, url: Url, body: Seq<u8>) -> bool {
        &&& self.endpoint@ == endpoint
        &&& self.url == url
        &&& self.header_name@ == CONTENT_TYPE@
        &&& self.header_value@ == APPLICATION_JSON@
        &&& self.body@ == body
    }

    /// Puts a request together, from the serialized payload and the URL that
    /// was read from `requested_url`. That the payload could not be serialized
    /// is found first.
    pub fn assemble(
        endpoint: &str,
        body: Option<Vec<u8>>,
        requested_url: String,
        url: Option<Url>,
    ) -> (request: Result<PostRequest, SendError>)
        ensures
            match request {
                Ok(post) => body is Some && url is Some && post.posts(
                    endpoint@,
                    url->0,
                    body->0@,
                ),
                Err(SendError::Serialization) => body is None,
                Err(SendError::InvalidUrl(text)) => body is Some && url is None && text@
                    == requested_url@,
            },
    {
        match body {
            None => Err(SendError::Serialization),
            Some(body) => match url {
                None => Err(SendError::InvalidUrl(requested_url)),
                Some(url) => Ok(
                    PostRequest {
                        endpoint: endpoint.to_string(),
                        url,
                        header_name: CONTENT_TYPE.to_string(),
                        header_value: APPLICATION_JSON.to_string(),
                        body,
                    },
                ),
            },
        }
    }
}

/// What became of an attempt to post a request.
#[derive(Debug, Clone, Copy)]
pub enum AttemptOutcome {
    /// The observer could not be connected to.
    ConnectionFailed,
    /// The request could not be sent, or no response could be read.
    RequestFailed,
    /// The observer answered with this status code.
    Response(u16),
}

/// What to do after an attempt.
#[derive(Debug, Clone, Copy)]
pub enum NextStep {
    /// The payload was delivered.
    Finish,
    /// Wait for so many milliseconds, then post the same request again.
    RetryAfter(u64),
}

impl AttemptOutcome {
    /// Whether the observer took the payload: it answered with a status code
    /// of the `2xx` range.
    pub open spec fn delivered(self) -> bool {
        match self {
            AttemptOutcome::Response(status) => 200 <= status < 300,
            _ => false,
        }
    }

    /// How a delivery goes on after this attempt.
    pub open spec fn step_after(self) -> NextStep {
        if self.delivered() {
            NextStep::Finish
        } else {
            NextStep::RetryAfter(BACKOFF_MILLIS)
        }
    }

    /// Decides how the delivery goes on after this attempt.
    pub fn next_step(&self) -> (step: NextStep)
        ensures
            step == self.step_after(),
    {
        match *self {
            AttemptOutcome::Response(status) => {
                if 200 <= status && status < 300 {
                    NextStep::Finish
                } else {
                    NextStep::RetryAfter(BACKOFF_MILLIS)
                }
            },
            _ => NextStep::RetryAfter(BACKOFF_MILLIS),
        }
    }
}

} // verus!
