//! One HTTP exchange: the incoming request, the response being built for it
//! and the address of the peer.

use vstd::prelude::*;
use crate::http::{IpAddress, Request, Response, SocketAddress, same_request, same_response};

verus! {

/// The request and the current response of one HTTP connection, so that a
/// response can be edited along the way.
pub struct Message {
    pub request: Request,
    pub response: Response,
    pub address: SocketAddress,
}

/// The address the server listens on: 127.0.0.1, port 8787.
pub open spec fn is_local_server_address(a: SocketAddress) -> bool {
    &&& a.ip matches IpAddress::V4(o) && o[0] == 127 && o[1] == 0 && o[2] == 0 && o[3] == 1
    &&& a.port == 8787
}

impl Message {
    /// A message of `request`, `response` and `address`.
    pub fn new(request: Request, response: Response, address: SocketAddress) -> (m: Message)
        ensures
            m.request == request,
            m.response == response,
            m.address == address,
    {
        Message { request, response, address }
    }

    /// The response, when the message is done.
    pub fn done(self) -> (r: Response)
        ensures
            r == self.response,
    {
        self.response
    }

    /// A copy of the message: same request, same response, same address.
    pub fn clone(&self) -> (m: Message)
        ensures
            same_request(m.request, self.request),
            same_response(m.response, self.response),
            m.address == self.address,
    {
        Message {
            request: self.request.duplicate(),
            response: self.response.duplicate(),
            address: self.address,
        }
    }
}

impl Default for Message {
    /// A `GET /` request, a status-200 response, both over HTTP/1.1 and with
    /// no fields, from 127.0.0.1:8787.
    fn default() -> (m: Message)
        ensures
            m.request.method == crate::http::Method::Get,
            m.request.uri.spec_text() == seq!['/'],
            m.request.uri.spec_path() == seq!['/'],
            m.request.version == crate::http::Version::Http11,
            m.request.headers@.len() == 0,
            m.response.status == crate::http::OK,
            m.response.version == crate::http::Version::Http11,
            m.response.headers@.len() == 0,
            is_local_server_address(m.address),
    {
        Message {
            request: Request::default_get(),
            response: Response::default_ok(),
            address: SocketAddress { ip: IpAddress::V4([127, 0, 0, 1]), port: 8787 },
        }
    }
}

} // verus!
