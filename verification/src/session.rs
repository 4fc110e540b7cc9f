//! The signalling endpoint: which requests open a session, and what the
//! server answers.

use crate::lookup::SocketAddress;
use vstd::prelude::*;
use vstd::string::*;
use webrtc_unreliable::SessionEndpoint;

verus! {

/// The status of the answer to a request that is not well formed.
pub const BAD_REQUEST: u16 = 400;

/// The status of the answer to a request for anything but a session.
pub const NOT_FOUND: u16 = 404;

/// The status of the answer that opens a session.
pub const OK: u16 = 200;

/// The handle through which session requests reach the datagram transport,
/// `webrtc_unreliable::SessionEndpoint`. Opaque.
#[verifier::external_type_specification]
#[verifier::external_body]
pub struct ExSessionEndpoint(SessionEndpoint);

/// `Clone` of `webrtc_unreliable::SessionEndpoint`: one more handle to the
/// same transport. Nothing is claimed of it.
pub assume_specification[ <SessionEndpoint as Clone>::clone ](endpoint: &SessionEndpoint) -> (other:
    SessionEndpoint);

/// A request, as far as routing reads it.
pub struct Request {
    pub method: String,
    pub path: String,
    pub remote_address: SocketAddress,
}

/// Where a request goes.
#[derive(Debug, Clone, Copy, PartialEq, Eq, Structural)]
pub enum Route {
    /// To the session handler.
    Session,
    /// Nowhere.
    NotFound,
}

/// The answer to a request, as far as the server decides it.
#[derive(Debug, PartialEq, Eq)]
pub struct Reply {
    pub status: u16,
    /// Whether the answer carries `Access-Control-Allow-Origin: *`.
    pub allow_any_origin: bool,
    pub body: String,
}

/// The route of a request: a `POST` to `/session` opens a session, and
/// nothing else is found.
pub open spec fn route_of(method: Seq<char>, path: Seq<char>) -> Route {
    if method == "POST"@ && path == "/session"@ {
        Route::Session
    } else {
        Route::NotFound
    }
}

/// Whether two texts are the same.
fn same_text(a: &str, b: &str) -> (same: bool)
    ensures
        same == (a@ == b@),
{
    let left = String::from_str(a);
    let right = String::from_str(b);
    left == right
}

/// The route of a request with the given method and path.
pub fn classify(method: &str, path: &str) -> (route: Route)
    ensures
        route == route_of(method@, path@),
{
    if same_text(method, "POST") && same_text(path, "/session") {
        Route::Session
    } else {
        Route::NotFound
    }
}

/// Answers session requests.
pub struct Handler {
    session_endpoint: SessionEndpoint,
}

impl Clone for Handler {
    fn clone(&self) -> Self {
        Handler { session_endpoint: self.session_endpoint.clone() }
    }
}

impl Handler {
    /// The handle through which the handler's requests reach the transport.
    pub closed spec fn endpoint(&self) -> SessionEndpoint {
        self.session_endpoint
    }

    /// A handler that puts session requests to `session_endpoint`.
    pub fn new(session_endpoint: SessionEndpoint) -> (handler: Self)
        ensures
            handler.endpoint() == session_endpoint,
    {
        Handler { session_endpoint }
    }

    /// One more handle to the transport, for the caller to put the request to.
    pub fn session_endpoint(&self) -> SessionEndpoint {
        self.session_endpoint.clone()
    }

    /// The answer to a session request, from what the transport made of it:
    /// its answer goes out with any origin allowed, its refusal is a bad
    /// request with the error's text.
    pub fn post_session(outcome: Result<String, String>) -> (reply: Reply)
        ensures
            match outcome {
                Ok(answer) => reply.status == OK && reply.allow_any_origin && reply.body@
                    == answer@,
                Err(error) => reply.status == BAD_REQUEST && !reply.allow_any_origin && reply.body@
                    == error@,
            },
    {
        match outcome {
            Ok(answer) => Reply { status: OK, allow_any_origin: true, body: answer },
            Err(error) => Handler::response(BAD_REQUEST, error),
        }
    }

    /// An answer with the given status and text, and no more.
    pub fn response(status: u16, message: String) -> (reply: Reply)
        ensures
            reply.status == status,
            !reply.allow_any_origin,
            reply.body@ == message@,
    {
        Reply { status, allow_any_origin: false, body: message }
    }
}

/// Routes requests.
pub struct Router {
    handler: Handler,
}

impl Clone for Router {
    fn clone(&self) -> Self {
        Router { handler: self.handler.clone() }
    }
}

impl Router {
    /// The handler that session requests go to.
    pub closed spec fn session_handler(&self) -> Handler {
        self.handler
    }

    /// A router that sends session requests to `handler`.
    pub fn new(handler: Handler) -> (router: Self)
        ensures
            router.session_handler() == handler,
    {
        Router { handler }
    }

    /// The handler of session requests.
    pub fn handler(&self) -> (handler: &Handler)
        ensures
            *handler == self.session_handler(),
    {
        &self.handler
    }

    /// Where `request` goes.
    pub fn route(&self, request: &Request) -> (route: Route)
        ensures
            route == route_of(request.method@, request.path@),
    {
        classify(request.method.as_str(), request.path.as_str())
    }

    /// The answer to a request that is not found: the status, and an empty
    /// body.
    pub fn not_found() -> (reply: Reply)
        ensures
            reply.status == NOT_FOUND,
            !reply.allow_any_origin,
            reply.body@ == Seq::<char>::empty(),
    {
        Reply { status: NOT_FOUND, allow_any_origin: false, body: String::new() }
    }
}

} // verus!
