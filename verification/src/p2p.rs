//! The connection that the protocols share.

use vstd::prelude::*;

use crate::capability::SharedCapabilities;

verus! {

/// An established p2p connection: the raw stream, and the capabilities that the peers found they
/// share when they set it up.
#[derive(Debug)]
pub struct P2PStream<St> {
    /// The raw stream.
    pub inner: St,
    /// The capabilities that both peers have.
    pub shared_capabilities: SharedCapabilities,
}

impl<St> P2PStream<St> {
    /// The connection over `inner` on which the given capabilities are shared.
    pub fn new(inner: St, shared_capabilities: SharedCapabilities) -> (conn: Self)
        ensures
            conn.inner == inner,
            conn.shared_capabilities == shared_capabilities,
    {
        P2PStream { inner, shared_capabilities }
    }

    /// The capabilities that both peers have.
    pub fn shared_capabilities(&self) -> (shared: &SharedCapabilities)
        ensures
            *shared == self.shared_capabilities,
    {
        &self.shared_capabilities
    }
}

} // verus!
