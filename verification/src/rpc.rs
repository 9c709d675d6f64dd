//! Remote procedure calls as callers and handlers see them.
use std::time::Duration;
use vstd::prelude::*;

verus! {

/// Data passed to a method handler for an incoming invocation.
#[derive(Debug)]
pub struct RpcInvocationData {
    /// Matches on both sides of the call. Useful for logs.
    pub request_id: String,
    /// Identity of the caller.
    pub caller_identity: String,
    /// User-defined payload. Typically JSON; opaque here.
    pub payload: String,
    /// Upper bound on how long the caller will wait for a reply.
    pub response_timeout: Duration,
}

impl Clone for RpcInvocationData {
    fn clone(&self) -> (c: Self)
        ensures
            c == *self,
    {
        RpcInvocationData {
            request_id: self.request_id.clone(),
            caller_identity: self.caller_identity.clone(),
            payload: self.payload.clone(),
            response_timeout: self.response_timeout,
        }
    }
}

/// Error raised by a handler or returned to a caller.
///
/// Codes 1001 to 1999 are reserved for the transport's own errors.
/// Application code should pick codes outside that range.
#[derive(Debug)]
pub struct RpcError {
    pub code: u32,
    pub message: String,
    pub data: Option<String>,
}

impl Clone for RpcError {
    fn clone(&self) -> (c: Self)
        ensures
            c == *self,
    {
        let data: Option<String> = match &self.data {
            Some(d) => Some(d.clone()),
            None => None,
        };
        RpcError { code: self.code, message: self.message.clone(), data }
    }
}

impl RpcError {
    pub fn new(code: u32, message: String, data: Option<String>) -> (e: Self)
        ensures
            e.code == code,
            e.message == message,
            e.data == data,
    {
        RpcError { code, message, data }
    }

    /// The text that describes the error to a person.
    pub open spec fn text(self) -> Seq<char> {
        "rpc error "@ + crate::text::decimal(self.code as nat) + ": "@ + self.message@
    }

    /// The error in words: its code and message.
    pub fn describe(&self) -> (s: String)
        ensures
            s@ == self.text(),
    {
        let mut s: String = "rpc error ".to_owned();
        crate::text::append_decimal(&mut s, self.code as u128);
        s.append(": ");
        s.append(self.message.as_str());
        s
    }
}

} // verus!
