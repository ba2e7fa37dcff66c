//! The request gateway's validation middleware.
//!
//! It wraps the client-facing entry point: a request classified illegal is
//! rejected before it reaches the engine, leaving the store untouched — this
//! is the sole validation gate for malformed input. Every other request is
//! delegated unchanged, and the engine's answer is passed back unaltered.
//! The timing and diagnostic logging that surrounds this gate is the
//! embedding process's business.

use vstd::prelude::*;

use crate::engine::{engine_step, Outcome, S};
use crate::request::RedisRequest;

verus! {

/// Why the gateway refused a request.
#[derive(Clone, Copy, PartialEq, Eq, Structural, Debug)]
pub enum GatewayError {
    IllegalRequest,
}

/// The validation middleware around one node's client-facing entry point.
pub struct LogService(pub S);

impl LogService {
    /// Rejects an illegal request before the engine sees it; delegates every
    /// other request to the engine and returns its outcome unaltered.
    pub fn call(&mut self, req: &RedisRequest) -> (r: Result<Outcome, GatewayError>)
        requires
            req.wf(),
        ensures
            r is Err <==> req.request_type is Illegal,
            req.request_type is Illegal ==> final(self).0.map@ == old(self).0.map@,
            !(req.request_type is Illegal) ==> engine_step(
                old(self).0.map@,
                old(self).0.is_main,
                *req,
                final(self).0.map@,
                r->Ok_0,
            ),
            final(self).0.is_main == old(self).0.is_main,
            final(self).0.aof_path == old(self).0.aof_path,
    {
        if matches!(req.request_type, crate::request::RequestType::Illegal) {
            Err(GatewayError::IllegalRequest)
        } else {
            Ok(self.0.redis_command(req))
        }
    }
}

/// Wraps a node in the validation middleware.
pub struct LogLayer;

impl LogLayer {
    /// Builds the middleware around the given node.
    pub fn layer(self, inner: S) -> (svc: LogService)
        ensures
            svc.0.map@ == inner.map@,
            svc.0.is_main == inner.is_main,
            svc.0.aof_path == inner.aof_path,
    {
        LogService(inner)
    }
}

} // verus!
