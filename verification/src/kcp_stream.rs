//! The KCP transport is not served: a connection over it is refused, and plain TCP is used.

use crate::error::Error;
use crate::message::StreamId;
use vstd::prelude::*;

verus! {

/// A connection over KCP.
pub struct KcpStream;

impl KcpStream {
    /// Refuses to wait for a peer, whatever the socket.
    pub fn accept<S>(
        _udp_socket: S,
        _timeout_ms: u64,
        _init_packet: Option<Vec<u8>>,
    ) -> (stream: Result<(KcpStream, StreamId), Error>)
        ensures
            stream is Err,
            stream->Err_0@ == "KCP transport deferred (see src/kcp_stream.rs)"@,
    {
        Err(Error::new("KCP transport deferred (see src/kcp_stream.rs)"))
    }

    /// Refuses to reach a peer, whatever the socket.
    pub fn connect<S>(_udp_socket: S, _timeout_ms: u64) -> (stream: Result<
        (KcpStream, StreamId),
        Error,
    >)
        ensures
            stream is Err,
            stream->Err_0@ == "KCP transport deferred (see src/kcp_stream.rs)"@,
    {
        Err(Error::new("KCP transport deferred (see src/kcp_stream.rs)"))
    }
}

}
