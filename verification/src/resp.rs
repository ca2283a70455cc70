//! Decoded wire-protocol tokens, as the wire decoder outside this crate
//! hands them in.

use vstd::prelude::*;

verus! {

/// One decoded protocol value of a request.
#[derive(Debug, PartialEq, Clone)]
pub enum Resp {
    /// A textual (bulk) value: the only shape a command name, key, value or
    /// duration argument may take.
    BulkString(Vec<u8>),
    /// A decoded integer token.
    Integer(i64),
    /// A decoded nil token.
    Nil,
}

/// Mathematical shape of a decoded token.
pub enum RespV {
    BulkString(Seq<u8>),
    Integer(int),
    Nil,
}

impl View for Resp {
    type V = RespV;

    open spec fn view(&self) -> RespV {
        match self {
            Resp::BulkString(b) => RespV::BulkString(b@),
            Resp::Integer(n) => RespV::Integer(*n as int),
            Resp::Nil => RespV::Nil,
        }
    }
}

/// The views of a whole request, in order.
pub open spec fn views_of(request: Seq<Resp>) -> Seq<RespV> {
    request.map_values(|t: Resp| t@)
}

} // verus!
