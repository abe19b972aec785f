//! Record layouts of the flow-operation events shared with the in-kernel
//! probes. Field order and widths are part of that interface; default
//! values are all zero, as the in-kernel side leaves untouched fields.

use vstd::prelude::*;

verus! {

/// One flow-operation event record.
#[allow(non_camel_case_types)]
#[derive(Debug, Clone, Copy, PartialEq, Eq, Structural)]
pub struct ovs_operation_event {
    pub batch_ts: u64,
    pub queue_id: u32,
    pub batch_idx: u8,
    pub type_: u8,
}

impl Default for ovs_operation_event {
    /// The all-zero record.
    fn default() -> (r: Self)
        ensures
            r.batch_ts == 0,
            r.queue_id == 0,
            r.batch_idx == 0,
            r.type_ == 0,
    {
        ovs_operation_event { batch_ts: 0, queue_id: 0, batch_idx: 0, type_: 0 }
    }
}

/// The state of one queued upcall awaiting user-space processing.
#[allow(non_camel_case_types)]
#[derive(Debug, Clone, Copy, PartialEq, Eq, Structural)]
pub struct user_upcall_info {
    pub queue_id: u32,
    pub skip_event: bool,
    pub processed_ops: u8,
}

impl Default for user_upcall_info {
    /// The all-zero record.
    fn default() -> (r: Self)
        ensures
            r.queue_id == 0,
            !r.skip_event,
            r.processed_ops == 0,
    {
        user_upcall_info { queue_id: 0, skip_event: false, processed_ops: 0 }
    }
}

/// A batch of queued upcalls under processing.
#[allow(non_camel_case_types)]
#[derive(Debug, Clone, Copy)]
pub struct upcall_batch {
    pub leader_ts: u64,
    pub processing: bool,
    pub upcalls: [user_upcall_info; 64],
    pub current_upcall: u8,
    pub total: u8,
}

impl Default for upcall_batch {
    /// The all-zero batch: no leader, nothing processing, every slot
    /// cleared.
    fn default() -> (r: Self)
        ensures
            r.leader_ts == 0,
            !r.processing,
            r.current_upcall == 0,
            r.total == 0,
            forall|i: int|
                0 <= i < 64 ==> #[trigger] r.upcalls@[i] == (user_upcall_info {
                    queue_id: 0,
                    skip_event: false,
                    processed_ops: 0,
                }),
    {
        upcall_batch {
            leader_ts: 0,
            processing: false,
            upcalls: [user_upcall_info { queue_id: 0, skip_event: false, processed_ops: 0 }; 64],
            current_upcall: 0,
            total: 0,
        }
    }
}

} // verus!
