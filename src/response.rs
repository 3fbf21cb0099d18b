use std::time::Duration;
use vstd::prelude::*;

use crate::request::Headers;

verus! {

/// What an executed request brought back.
#[derive(Debug, PartialEq)]
pub struct Response {
    pub status: u16,
    pub status_text: String,
    pub headers: Headers,
    pub body: String,
    pub latency: Duration,
}

impl Clone for Response {
    fn clone(&self) -> (r: Response)
        ensures
            r.status == self.status,
            r.status_text == self.status_text,
            r.headers@ == self.headers@,
            r.body == self.body,
            r.latency == self.latency,
    {
        Response {
            status: self.status,
            status_text: self.status_text.clone(),
            headers: self.headers.clone(),
            body: self.body.clone(),
            latency: self.latency,
        }
    }
}

impl Response {
    /// A response with no headers.
    pub fn new(status: u16, status_text: String, body: String, latency: Duration) -> (r: Response)
        ensures
            r.status == status,
            r.status_text == status_text,
            r.headers@.len() == 0,
            r.body == body,
            r.latency == latency,
    {
        Response { status, status_text, headers: Headers::new(), body, latency }
    }
}

} // verus!
