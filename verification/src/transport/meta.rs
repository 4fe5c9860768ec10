//! The counters and slot tables that lie beside a connection's buffer.
use vstd::prelude::*;

use crate::cuda::ptr::DEVICE_NULL;
use crate::transport::NUM_BUFFER_SLOTS;

verus! {

/// Bytes of a cache line.
pub const CACHE_LINE_SIZE: usize = 128;

/// Bytes of a 64-bit counter.
pub const WORD_SIZE: usize = 8;

/// Bytes behind the leading counter, up to the end of its cache line.
pub const COUNTER_PAD: usize = 120;

/// Bytes behind the exchange fields, up to the end of their cache line: what the address and the two
/// words before them leave of it.
pub const EXCHANGE_PAD: usize = 112 - (usize::BITS / 8) as usize;

/// What the sending side shares with the device.
pub struct SendBufMeta {
    pub head: u64,
    pub _pad1: [u8; COUNTER_PAD],
    /// An address; null for none.
    pub _ptr_exchange: usize,
    pub _reduce_op_arg_exchange: [u64; 2],
    pub _pad2: [u8; EXCHANGE_PAD],
    pub _slots_offsets: [u32; NUM_BUFFER_SLOTS],
}

/// What the receiving side shares with the device.
pub struct RecvBufMeta {
    pub tail: u64,
    pub _pad1: [u8; COUNTER_PAD],
    pub slots_sizes: [u32; NUM_BUFFER_SLOTS],
    pub _slots_offsets: [u32; NUM_BUFFER_SLOTS],
    pub _flush: bool,
}

/// Slots with nothing in them.
pub open spec fn empty_slots(slots: [u32; NUM_BUFFER_SLOTS]) -> bool {
    forall|i: int| 0 <= i < NUM_BUFFER_SLOTS ==> #[trigger] slots@[i] == 0
}

impl SendBufMeta {
    /// Where the connection stands before anything is sent: all zero.
    pub fn new() -> (r: SendBufMeta)
        ensures
            r.head == 0,
            forall|i: int| 0 <= i < COUNTER_PAD ==> #[trigger] r._pad1@[i] == 0,
            r._ptr_exchange == DEVICE_NULL,
            r._reduce_op_arg_exchange@ == seq![0u64, 0u64],
            forall|i: int| 0 <= i < r._pad2@.len() ==> #[trigger] r._pad2@[i] == 0,
            empty_slots(r._slots_offsets),
    {
        let r = SendBufMeta {
            head: 0,
            _pad1: [0; COUNTER_PAD],
            _ptr_exchange: DEVICE_NULL,
            _reduce_op_arg_exchange: [0; 2],
            _pad2: [0; EXCHANGE_PAD],
            _slots_offsets: [0; NUM_BUFFER_SLOTS],
        };
        assert(r._reduce_op_arg_exchange@ =~= seq![0u64, 0u64]);
        r
    }
}

impl RecvBufMeta {
    /// Where the connection stands before anything is received: all zero.
    pub fn new() -> (r: RecvBufMeta)
        ensures
            r.tail == 0,
            forall|i: int| 0 <= i < COUNTER_PAD ==> #[trigger] r._pad1@[i] == 0,
            empty_slots(r.slots_sizes),
            empty_slots(r._slots_offsets),
            !r._flush,
    {
        RecvBufMeta {
            tail: 0,
            _pad1: [0; COUNTER_PAD],
            slots_sizes: [0; NUM_BUFFER_SLOTS],
            _slots_offsets: [0; NUM_BUFFER_SLOTS],
            _flush: false,
        }
    }
}

/// The paddings fill up the cache lines: the leading counter has a line to itself, and so have the
/// exchange fields, an address and two words.
pub proof fn padding_fills_cache_lines()
    ensures
        WORD_SIZE + COUNTER_PAD == CACHE_LINE_SIZE,
        usize::BITS / 8 + 2 * WORD_SIZE + EXCHANGE_PAD == CACHE_LINE_SIZE,
{
}

} // verus!
