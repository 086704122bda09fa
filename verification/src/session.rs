//! What the audio worker does on each poll, from whether recording was on at
//! the last poll and whether it is on now.
use vstd::prelude::*;

verus! {

/// The work of one poll of the audio worker.
#[derive(Clone, Copy, Debug, PartialEq, Eq, Structural)]
pub struct WorkerPhase {
    /// Recording has just been switched on: open the capture and reset the engine.
    pub start_capture: bool,
    /// Recording has just been switched off: flush the engine, type what it
    /// gives, and close the capture.
    pub finish_recording: bool,
    /// Recording is on: read the captured samples and feed them to the engine.
    pub capture: bool,
}

/// The work of one poll, given the recording flag at the last poll and now.
pub fn worker_phase(was_recording: bool, is_recording: bool) -> (r: WorkerPhase)
    ensures
        r.start_capture == (is_recording && !was_recording),
        r.finish_recording == (!is_recording && was_recording),
        r.capture == is_recording,
{
    WorkerPhase {
        start_capture: is_recording && !was_recording,
        finish_recording: !is_recording && was_recording,
        capture: is_recording,
    }
}

} // verus!
