//! Plain data exchanged with the sampling device and its transport:
//! raw sample reports and acknowledgments. The transport itself
//! (serial framing, radio notifications, sockets) lives outside this
//! crate and hands these values in and out.

use vstd::prelude::*;

verus! {

/// Identifies one continuous operating session of the sampling
/// device; a change signals a reboot or reconnect and resets all
/// per-server classification and timing state.
pub type ServerRunId = u64;

/// One multi-channel sample as the device records it.
#[derive(Clone, Copy, PartialEq, Eq, Debug)]
pub struct Samples {
    pub time_since_start_micros: u64,
    pub inputs: [u16; 4],
}

/// A batch of consecutive samples from the device: the run it belongs
/// to, the index of its first sample, and the channel values.
#[derive(Clone, PartialEq, Debug)]
pub struct ReportFromServer {
    pub server_run_id: ServerRunId,
    pub first_sample_index: u64,
    pub samples: Vec<[u16; 4]>,
}

/// Acknowledgment sent back to the device: the latest sample index
/// received for the given run.
#[derive(Clone, Copy, PartialEq, Eq, Structural, Debug)]
pub struct MessageToServer {
    pub server_run_id: ServerRunId,
    pub latest_received_sample_index: u64,
}

} // verus!
