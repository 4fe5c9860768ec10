//! Settings of the transport through shared memory.
use vstd::prelude::*;

verus! {

/// Whose memory holds the buffers.
#[derive(Clone, Copy, Debug, PartialEq, Eq, Structural)]
pub enum ShmLocality {
    Sender,
    Receiver,
}

/// Settings of the transport through shared memory.
#[derive(Clone, Copy, Debug, PartialEq, Eq, Structural)]
pub struct ShmConfig {
    pub locality: ShmLocality,
    pub use_memcpy_send: bool,
    pub use_memcpy_recv: bool,
}

} // verus!
