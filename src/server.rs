//! Server bookkeeping: pre-rendered static routes and the count of open
//! connections during a graceful shutdown.
use vstd::prelude::*;
use crate::response::{Response, ResponseBuilder};
use crate::status::StatusCode;

verus! {

/// A route whose response is fixed and rendered once.
#[derive(Debug, Clone)]
pub struct StaticRoute {
    pub method: String,
    pub path: String,
    pub status: u16,
    pub content_type: String,
    pub body: String,
    pub handler_id: u32,
}

impl StaticRoute {
    /// The response this route always sends.
    pub open spec fn response_head(&self) -> Seq<char> {
        "HTTP/1.1 "@ + crate::text::decimal(self.status as nat) + " "@ + StatusCode::phrase(self.status) + "\r\n"@
            + "content-type"@ + ": "@ + self.content_type@ + "\r\n"@ + (if vstd::utf8::encode_utf8(self.body@).len() > 0 {
            "content-length: "@ + crate::text::decimal(vstd::utf8::encode_utf8(self.body@).len()) + "\r\n"@
        } else {
            Seq::empty()
        }) + "\r\n"@
    }

    /// The pre-rendered HTTP/1.1 response: the status, a `content-type`
    /// header, and the body.
    pub fn to_response_bytes(&self) -> (r: Vec<u8>)
        ensures
            r@ == vstd::utf8::encode_utf8(self.response_head()) + vstd::utf8::encode_utf8(self.body@),
    {
        let res = ResponseBuilder::new(StatusCode(self.status)).header("content-type", self.content_type.as_str()).body(
            self.body.as_str().as_bytes(),
        ).build();
        proof {
            assert(crate::response::header_lines(res.headers@) =~= "content-type"@ + ": "@ + self.content_type@ + "\r\n"@) by {
                assert(res.headers@.drop_last() =~= Seq::<(String, String)>::empty());
                assert(crate::response::header_lines(res.headers@.drop_last()) == Seq::<char>::empty());
                assert(res.headers@.last().0@ == "content-type"@);
                assert(res.headers@.last().1@ == self.content_type@);
            }
            assert(res.head() =~= self.response_head());
        }
        res.to_http1_bytes()
    }
}

/// Open connections and whether a shutdown has begun.
#[derive(Debug)]
pub struct ConnectionTracker {
    pub active: u64,
    pub shutting_down: bool,
}

impl ConnectionTracker {
    pub fn new() -> (r: ConnectionTracker)
        ensures
            r.active == 0,
            !r.shutting_down,
    {
        ConnectionTracker { active: 0, shutting_down: false }
    }

    /// One more open connection; wraps at `u64::MAX`.
    pub fn increment(&mut self)
        ensures
            final(self).active == (if old(self).active == u64::MAX { 0 } else { (old(self).active + 1) as u64 }),
            final(self).shutting_down == old(self).shutting_down,
    {
        self.active = self.active.wrapping_add(1);
    }

    /// One connection fewer; wraps at zero.
    pub fn decrement(&mut self)
        ensures
            final(self).active == (if old(self).active == 0 { u64::MAX } else { (old(self).active - 1) as u64 }),
            final(self).shutting_down == old(self).shutting_down,
    {
        self.active = self.active.wrapping_sub(1);
    }

    pub fn count(&self) -> (r: u64)
        ensures
            r == self.active,
    {
        self.active
    }

    pub fn start_shutdown(&mut self)
        ensures
            final(self).shutting_down,
            final(self).active == old(self).active,
    {
        self.shutting_down = true;
    }

    pub fn is_shutting_down(&self) -> (r: bool)
        ensures
            r == self.shutting_down,
    {
        self.shutting_down
    }

    /// Back to no connections and no shutdown.
    pub fn reset(&mut self)
        ensures
            final(self).active == 0,
            !final(self).shutting_down,
    {
        self.shutting_down = false;
        self.active = 0;
    }
}

} // verus!
