//! What the hooks installed in a context do when a script calls them.

use std::sync::{Arc, Mutex};
use vstd::rwlock::{RwLock, RwLockPredicate};
use rand_pcg::Pcg64;
use vstd::prelude::*;
use crate::engine::quickjs::{base64_standard_decode, base64_decode, draw_u64, utf8_lossy, utf8_lossy_text};
use crate::instrumentation::{after_log, event_for_name, wasm_event_for_name, write_slot, EventType, InstrumentationLog};

verus! {

/// Records one event that the instrumentation script reports: its name is
/// mapped to an event type and logged with its payload. An event that the
/// log cannot take (no slots, or its overwrite count exhausted) is dropped.
pub fn record_event(log: &mut InstrumentationLog, name: String, payload: Option<String>)
    ensures
        old(log)@.capacity > 0 && (old(log)@.entries.len() < old(log)@.capacity || old(log)@.dropped
            < usize::MAX) ==> {
            &&& final(log)@ == after_log(old(log)@, final(log)@.entries[write_slot(old(log)@)])
            &&& final(log)@.entries[write_slot(old(log)@)].payload == payload
            &&& if event_for_name(name@) is Other {
                final(log)@.entries[write_slot(old(log)@)].event_type matches EventType::Other(s)
                    && s@ == name@
            } else {
                final(log)@.entries[write_slot(old(log)@)].event_type == event_for_name(name@)
            }
        },
        !(old(log)@.capacity > 0 && (old(log)@.entries.len() < old(log)@.capacity || old(log)@.dropped
            < usize::MAX)) ==> final(log)@ == old(log)@,
{
    let free = log.entries().len() < log.capacity();
    if log.capacity() > 0 && (free || log.dropped_count() < usize::MAX) {
        log.log(EventType::from_name(name), payload);
    }
}

/// Records one event that the instrumentation script reports to the
/// WebAssembly engine: its name is mapped as that engine's hooks map it, and
/// it is logged with its payload. An event that the log cannot take is
/// dropped.
pub fn record_wasm_event(log: &mut InstrumentationLog, name: String, payload: Option<String>)
    ensures
        old(log)@.capacity > 0 && (old(log)@.entries.len() < old(log)@.capacity || old(log)@.dropped
            < usize::MAX) ==> {
            &&& final(log)@ == after_log(old(log)@, final(log)@.entries[write_slot(old(log)@)])
            &&& final(log)@.entries[write_slot(old(log)@)].payload == payload
            &&& if wasm_event_for_name(name@) is Other {
                final(log)@.entries[write_slot(old(log)@)].event_type matches EventType::Other(s)
                    && s@ == name@
            } else {
                final(log)@.entries[write_slot(old(log)@)].event_type == wasm_event_for_name(name@)
            }
        },
        !(old(log)@.capacity > 0 && (old(log)@.entries.len() < old(log)@.capacity || old(log)@.dropped
            < usize::MAX)) ==> final(log)@ == old(log)@,
{
    let free = log.entries().len() < log.capacity();
    if log.capacity() > 0 && (free || log.dropped_count() < usize::MAX) {
        log.log(EventType::from_wasm_name(name), payload);
    }
}

/// The bound on the log a run shares with its hooks: 1000 slots, never more
/// entries than slots.
pub struct RunLogBound;

impl RwLockPredicate<InstrumentationLog> for RunLogBound {
    open spec fn inv(self, v: InstrumentationLog) -> bool {
        v@.capacity == 1000 && v@.entries.len() <= v@.capacity
    }
}

/// The log of a run, shared between the run and its hooks.
pub type SharedLog = Arc<RwLock<InstrumentationLog, RunLogBound>>;

/// An empty shared log with 1000 slots.
pub fn new_shared_log() -> (l: SharedLog) {
    let log = InstrumentationLog::new(1000);
    Arc::new(RwLock::new(log, Ghost(RunLogBound)))
}

/// Records one reported event in the shared log, under its lock (see
/// `record_event`).
pub fn record_shared(log: &SharedLog, name: String, payload: Option<String>) {
    let lock: &RwLock<InstrumentationLog, RunLogBound> = &**log;
    let (mut v, handle) = lock.acquire_write();
    let ghost before = v@;
    record_event(&mut v, name, payload);
    proof {
        if before.capacity > 0 && (before.entries.len() < before.capacity || before.dropped < usize::MAX) {
            crate::instrumentation::law_log_keeps_capacity(
                before,
                v@.entries[crate::instrumentation::write_slot(before)],
            );
        }
    }
    handle.release_write(v);
}

/// Takes the log out of the shared log, leaving an empty one in its place;
/// it has 1000 slots and no more entries than that.
pub fn take_shared_log(log: &SharedLog) -> (v: InstrumentationLog)
    ensures
        v@.capacity == 1000,
        v@.entries.len() <= 1000,
{
    let lock: &RwLock<InstrumentationLog, RunLogBound> = &**log;
    let (v, handle) = lock.acquire_write();
    let empty = InstrumentationLog::new(1000);
    handle.release_write(empty);
    v
}

/// What the script's `atob` computes: the standard base64 decoding of the
/// input, read as UTF-8 with invalid sequences replaced; `None` when the input
/// is not valid base64.
pub fn decode_for_atob(input: String) -> (r: Option<String>)
    ensures
        match base64_standard_decode(input@) {
            Some(bytes) => r matches Some(s) && s@ == utf8_lossy_text(bytes),
            None => r is None,
        },
{
    match base64_decode(input.as_str()) {
        Some(bytes) => Some(utf8_lossy(&bytes)),
        None => None,
    }
}

/// The 53 high bits of a 64-bit draw, which the script's `Math.random`
/// scales by 2^-53 as `rand` does for a float in [0, 1).
pub fn fraction_bits(x: u64) -> (r: u64)
    ensures
        r == x >> 11u64,
        r < 0x20_0000_0000_0000u64,
{
    assert(x >> 11u64 < 0x20_0000_0000_0000u64) by (bit_vector);
    x >> 11u64
}

/// The 53 high bits of the next output of the generator (see
/// `fraction_bits`).
pub fn random_fraction_bits(rng: &Arc<Mutex<Pcg64>>) -> (r: u64)
    ensures
        r < 0x20_0000_0000_0000u64,
{
    let x = draw_u64(rng);
    fraction_bits(x)
}

} // verus!
