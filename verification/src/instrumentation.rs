//! Instrumentation records: the events a script produces while it runs, kept
//! in a bounded circular buffer.

use std::time::{Duration, Instant};
use vstd::prelude::*;
use crate::text::same_text;

verus! {

/// The standard library's monotonic clock reading, carried opaquely.
#[verifier::external_type_specification]
#[verifier::external_body]
pub struct ExInstant(Instant);

/// `Instant::now`: nothing is promised of the reading.
#[verifier::external_body]
pub(crate) fn instant_now() -> Instant {
    Instant::now()
}

/// `Instant::elapsed`: nothing is promised of the duration.
#[verifier::external_body]
pub(crate) fn instant_elapsed(start: &Instant) -> Duration {
    start.elapsed()
}

/// `Duration::as_millis`: nothing is promised of the count.
#[verifier::external_body]
pub(crate) fn duration_millis(d: &Duration) -> u128 {
    d.as_millis()
}

/// `Duration::as_nanos`: nothing is promised of the count.
#[verifier::external_body]
pub(crate) fn duration_nanos(d: &Duration) -> u128 {
    d.as_nanos()
}

/// Whether more than `limit_ms` milliseconds have passed since `start`.
pub(crate) fn elapsed_exceeds(start: &Instant, limit_ms: u64) -> bool {
    let d = instant_elapsed(start);
    let nanos = duration_nanos(&d);
    nanos > (limit_ms as u128) * 1_000_000
}

/// Whole milliseconds elapsed since `start`, saturated at `u64::MAX`.
pub(crate) fn millis_since(start: &Instant) -> u64 {
    let d = instant_elapsed(start);
    let ms = duration_millis(&d);
    if ms > u64::MAX as u128 {
        u64::MAX
    } else {
        ms as u64
    }
}

/// Types of instrumentation events.
#[derive(Debug, Clone, PartialEq, Eq, Hash)]
pub enum EventType {
    /// eval() call.
    Eval,
    /// Function constructor.
    FunctionConstructor,
    /// String decoding (atob, btoa, fromCharCode).
    StringDecode,
    /// Timer (setTimeout, setInterval).
    Timer,
    /// Random number generation.
    Random,
    /// Network-like API (fetch, XMLHttpRequest).
    Network,
    /// Sensitive storage access (localStorage, cookies).
    Storage,
    /// System-level API access (process, require, console).
    System,
    /// Cryptographic operations (WebCrypto).
    Crypto,
    /// Anti-analysis and evasion techniques (Reflect, Proxy, debugger).
    Evasion,
    /// DOM mutations and element creation.
    DOM,
    /// Other/custom event.
    Other(String),
}

/// The event that a hook name from the instrumentation script stands for.
pub open spec fn event_for_name(name: Seq<char>) -> EventType {
    if name == "eval"@ {
        EventType::Eval
    } else if name == "FunctionConstructor"@ {
        EventType::FunctionConstructor
    } else if name == "atob"@ || name == "btoa"@ || name == "fromCharCode"@ {
        EventType::StringDecode
    } else if name == "timer"@ {
        EventType::Timer
    } else if name == "network"@ {
        EventType::Network
    } else if name == "random"@ {
        EventType::Random
    } else if name == "storage"@ {
        EventType::Storage
    } else if name == "system"@ {
        EventType::System
    } else if name == "crypto"@ {
        EventType::Crypto
    } else if name == "evasion"@ {
        EventType::Evasion
    } else if name == "dom"@ {
        EventType::DOM
    } else {
        EventType::Other(arbitrary())
    }
}

/// The event that a hook name stands for in the WebAssembly engine, whose
/// hooks take "atob" and "fromCharCode", but not "btoa", as string decoding.
pub open spec fn wasm_event_for_name(name: Seq<char>) -> EventType {
    if name == "btoa"@ {
        EventType::Other(arbitrary())
    } else {
        event_for_name(name)
    }
}

impl EventType {
    /// The event for a hook name of the WebAssembly engine: as `from_name`,
    /// except that "btoa" gives `Other`.
    pub fn from_wasm_name(name: String) -> (e: EventType)
        ensures
            e matches EventType::Other(s) ==> s@ == name@ && wasm_event_for_name(name@) is Other,
            !(e is Other) ==> e == wasm_event_for_name(name@),
    {
        if same_text(name.as_str(), "btoa") {
            EventType::Other(name)
        } else {
            EventType::from_name(name)
        }
    }

    /// The event for a hook name: a known name gives its event type, any other
    /// name gives `Other` carrying the name.
    pub fn from_name(name: String) -> (e: EventType)
        ensures
            e matches EventType::Other(s) ==> s@ == name@ && event_for_name(name@) is Other,
            !(e is Other) ==> e == event_for_name(name@),
    {
        let n = name.as_str();
        if same_text(n, "eval") {
            EventType::Eval
        } else if same_text(n, "FunctionConstructor") {
            EventType::FunctionConstructor
        } else if same_text(n, "atob") || same_text(n, "btoa") || same_text(n, "fromCharCode") {
            EventType::StringDecode
        } else if same_text(n, "timer") {
            EventType::Timer
        } else if same_text(n, "network") {
            EventType::Network
        } else if same_text(n, "random") {
            EventType::Random
        } else if same_text(n, "storage") {
            EventType::Storage
        } else if same_text(n, "system") {
            EventType::System
        } else if same_text(n, "crypto") {
            EventType::Crypto
        } else if same_text(n, "evasion") {
            EventType::Evasion
        } else if same_text(n, "dom") {
            EventType::DOM
        } else {
            EventType::Other(name)
        }
    }
}

/// Single instrumentation log entry.
#[derive(Debug, Clone)]
pub struct LogEntry {
    /// Event type.
    pub event_type: EventType,
    /// Milliseconds since the start of the log.
    pub timestamp_ms: u64,
    /// Optional payload (e.g. eval'd code, URL).
    pub payload: Option<String>,
}

/// The abstract state of an instrumentation log.
pub struct LogState {
    /// The retained entries, by slot.
    pub entries: Seq<LogEntry>,
    /// The number of slots.
    pub capacity: nat,
    /// How many entries have overwritten an older one.
    pub dropped: nat,
}

/// The slot the next entry goes to: the next free one, and once the buffer
/// is full, the one after the last overwritten, round robin.
pub open spec fn write_slot(s: LogState) -> int {
    if s.entries.len() < s.capacity {
        s.entries.len() as int
    } else {
        (s.dropped % s.capacity) as int
    }
}

/// The state after an entry `e` is logged in state `s`.
pub open spec fn after_log(s: LogState, e: LogEntry) -> LogState {
    if s.entries.len() < s.capacity {
        LogState { entries: s.entries.push(e), capacity: s.capacity, dropped: s.dropped }
    } else {
        LogState {
            entries: s.entries.update(write_slot(s), e),
            capacity: s.capacity,
            dropped: s.dropped + 1,
        }
    }
}

/// Bounded circular buffer for instrumentation logs.
#[derive(Debug, Clone)]
pub struct InstrumentationLog {
    entries: Vec<LogEntry>,
    max_entries: usize,
    start_time: Option<Instant>,
    dropped_count: usize,
}

impl View for InstrumentationLog {
    type V = LogState;

    closed spec fn view(&self) -> LogState {
        LogState {
            entries: self.entries@,
            capacity: self.max_entries as nat,
            dropped: self.dropped_count as nat,
        }
    }
}

impl InstrumentationLog {
    /// Create an empty log with `max_entries` slots.
    pub fn new(max_entries: usize) -> (log: Self)
        ensures
            log@.entries.len() == 0,
            log@.capacity == max_entries,
            log@.dropped == 0,
    {
        InstrumentationLog {
            entries: Vec::with_capacity(max_entries),
            max_entries,
            start_time: Some(instant_now()),
            dropped_count: 0,
        }
    }

    /// Add an entry for `event_type` with `payload`, stamped with the
    /// milliseconds since the log started. While there is a free slot the
    /// entry is appended; once all are used it overwrites the oldest one.
    pub fn log(&mut self, event_type: EventType, payload: Option<String>)
        requires
            old(self)@.capacity > 0,
            old(self)@.entries.len() >= old(self)@.capacity ==> old(self)@.dropped < usize::MAX,
        ensures
            final(self)@ == after_log(old(self)@, final(self)@.entries[write_slot(old(self)@)]),
            final(self)@.entries[write_slot(old(self)@)].event_type == event_type,
            final(self)@.entries[write_slot(old(self)@)].payload == payload,
    {
        let timestamp_ms = match &self.start_time {
            Some(start) => millis_since(start),
            None => 0,
        };
        let entry = LogEntry { event_type, timestamp_ms, payload };
        if self.entries.len() < self.max_entries {
            self.entries.push(entry);
        } else {
            let index = self.dropped_count % self.max_entries;
            self.entries.set(index, entry);
            self.dropped_count = self.dropped_count + 1;
        }
    }

    /// The number of slots.
    pub fn capacity(&self) -> (r: usize)
        ensures
            r == self@.capacity,
    {
        self.max_entries
    }

    /// All retained entries, by slot.
    pub fn entries(&self) -> (r: &[LogEntry])
        ensures
            r@ == self@.entries,
    {
        self.entries.as_slice()
    }

    /// The retained entries, by slot, taking the log apart.
    pub fn into_entries(self) -> (r: Vec<LogEntry>)
        ensures
            r@ == self@.entries,
    {
        self.entries
    }

    /// The number of entries that overwrote an older one.
    pub fn dropped_count(&self) -> (r: usize)
        ensures
            r == self@.dropped,
    {
        self.dropped_count
    }

    /// Remove every entry, reset the overwrite count and restart the clock.
    pub fn clear(&mut self)
        ensures
            final(self)@.entries.len() == 0,
            final(self)@.dropped == 0,
            final(self)@.capacity == old(self)@.capacity,
    {
        self.entries.clear();
        self.dropped_count = 0;
        self.start_time = Some(instant_now());
    }
}

impl Default for InstrumentationLog {
    /// An empty log with 1000 slots.
    fn default() -> (log: Self)
        ensures
            log@.entries.len() == 0,
            log@.capacity == 1000,
            log@.dropped == 0,
    {
        Self::new(1000)
    }
}


/// An empty log with `capacity` slots.
pub open spec fn fresh_log(capacity: nat) -> LogState {
    LogState { entries: seq![], capacity, dropped: 0 }
}

/// The state after the entries `es` are logged, in order, from state `s`.
pub open spec fn replay(s: LogState, es: Seq<LogEntry>) -> LogState
    decreases es.len(),
{
    if es.len() == 0 {
        s
    } else {
        after_log(replay(s, es.drop_last()), es.last())
    }
}

/// The position, among `n` logged entries, of the last one written to slot
/// `i` of a buffer with `c` slots: the last position congruent to `i`.
pub open spec fn last_write(i: int, n: int, c: int) -> int {
    i + c * ((n - 1 - i) / c)
}

/// Logging never puts more entries in the buffer than it has slots, and
/// never changes the number of slots.
pub proof fn law_log_keeps_capacity(s: LogState, e: LogEntry)
    requires
        s.entries.len() <= s.capacity,
        s.capacity > 0,
    ensures
        after_log(s, e).entries.len() <= after_log(s, e).capacity,
        after_log(s, e).capacity == s.capacity,
{
}

/// Every logged entry is accounted for: it either takes a free slot or
/// overwrites one and is counted as dropped, so the retained entries plus
/// the overwrites grow by one per entry.
pub proof fn law_log_counts_entries(s: LogState, e: LogEntry)
    requires
        s.entries.len() <= s.capacity,
        s.capacity > 0,
    ensures
        after_log(s, e).entries.len() + after_log(s, e).dropped == s.entries.len() + s.dropped + 1,
{
}

/// What a write gives back: right after logging `e`, the slot it went to
/// holds `e`, and every other slot keeps what it held.
pub proof fn law_log_read_back(s: LogState, e: LogEntry)
    requires
        s.entries.len() <= s.capacity,
        s.capacity > 0,
    ensures
        after_log(s, e).entries[write_slot(s)] == e,
        forall|i: int|
            0 <= i < s.entries.len() && i != write_slot(s) ==> after_log(s, e).entries[i]
                == s.entries[i],
{
    vstd::arithmetic::div_mod::lemma_mod_pos_bound(s.dropped as int, s.capacity as int);
}

proof fn lemma_small_quotient(x: int, c: int)
    requires
        0 <= x < c,
    ensures
        x / c == 0,
{
    vstd::arithmetic::div_mod::lemma_fundamental_div_mod_converse(x, c, 0, x);
}

proof fn lemma_next_quotient(i: int, n: int, c: int)
    requires
        0 <= i < c <= n,
        i != n % c,
    ensures
        (n - i) / c == (n - 1 - i) / c,
{
    let x = n - 1 - i;
    let q = x / c;
    let r = x % c;
    vstd::arithmetic::div_mod::lemma_fundamental_div_mod(x, c);
    vstd::arithmetic::div_mod::lemma_mod_pos_bound(x, c);
    assert(x == c * q + r);
    if r + 1 < c {
        assert(n - i == q * c + (r + 1)) by (nonlinear_arith)
            requires
                x == c * q + r,
                x == n - 1 - i,
        ;
        vstd::arithmetic::div_mod::lemma_fundamental_div_mod_converse(n - i, c, q, r + 1);
    } else {
        assert(n == (q + 1) * c + i) by (nonlinear_arith)
            requires
                x == c * q + r,
                x == n - 1 - i,
                r + 1 == c,
        ;
        vstd::arithmetic::div_mod::lemma_fundamental_div_mod_converse(n, c, q + 1, i);
    }
}

proof fn lemma_slot_write(n: int, c: int)
    requires
        0 < c <= n,
    ensures
        (n - c) % c == n % c,
        0 <= n % c < c,
        last_write(n % c, n + 1, c) == n,
{
    let q = n / c;
    let r = n % c;
    vstd::arithmetic::div_mod::lemma_fundamental_div_mod(n, c);
    vstd::arithmetic::div_mod::lemma_mod_pos_bound(n, c);
    assert(n - c == (q - 1) * c + r) by (nonlinear_arith)
        requires
            n == c * q + r,
    ;
    vstd::arithmetic::div_mod::lemma_fundamental_div_mod_converse(n - c, c, q - 1, r);
    assert(n - r == q * c + 0) by (nonlinear_arith)
        requires
            n == c * q + r,
    ;
    vstd::arithmetic::div_mod::lemma_fundamental_div_mod_converse(n - r, c, q, 0);
    assert(n + 1 - 1 - r == n - r);
    assert(c * q == n - r) by (nonlinear_arith)
        requires
            n == c * q + r,
    ;
}

proof fn lemma_ring_shape(c: nat, es: Seq<LogEntry>)
    requires
        c > 0,
    ensures
        replay(fresh_log(c), es).capacity == c,
        replay(fresh_log(c), es).entries.len() == if es.len() < c {
            es.len()
        } else {
            c
        },
        replay(fresh_log(c), es).dropped == if es.len() < c {
            0
        } else {
            (es.len() - c) as nat
        },
    decreases es.len(),
{
    if es.len() > 0 {
        lemma_ring_shape(c, es.drop_last());
    }
}

#[verifier::spinoff_prover]
proof fn lemma_ring_slot(c: nat, es: Seq<LogEntry>, i: int)
    requires
        c > 0,
        0 <= i < replay(fresh_log(c), es).entries.len(),
    ensures
        0 <= last_write(i, es.len() as int, c as int) < es.len(),
        replay(fresh_log(c), es).entries[i] == es[last_write(i, es.len() as int, c as int)],
    decreases es.len(),
{
    lemma_ring_shape(c, es);
    let prev = es.drop_last();
    lemma_ring_shape(c, prev);
    let n = prev.len() as int;
    let ci = c as int;
    let st = replay(fresh_log(c), prev);
    let e = es.last();
    let next = replay(fresh_log(c), es);
    assert(es.len() as int == n + 1);
    if n < ci {
        assert(next.entries == st.entries.push(e));
        lemma_small_quotient(n - i, ci);
        assert(n + 1 - 1 - i == n - i);
        assert(ci * ((n - i) / ci) == 0) by (nonlinear_arith)
            requires
                (n - i) / ci == 0,
        ;
        assert(last_write(i, n + 1, ci) == i);
        if i < n {
            lemma_ring_slot(c, prev, i);
            lemma_small_quotient(n - 1 - i, ci);
            assert(last_write(i, n, ci) == i);
            assert(prev[i] == es[i]);
        }
    } else {
        lemma_slot_write(n, ci);
        let slot = n % ci;
        assert(write_slot(st) == slot);
        assert(next.entries == st.entries.update(slot, e));
        if i == slot {
            assert(last_write(i, n + 1, ci) == n);
        } else {
            lemma_ring_slot(c, prev, i);
            lemma_next_quotient(i, n, ci);
            assert(last_write(i, n + 1, ci) == last_write(i, n, ci));
            assert(prev[last_write(i, n, ci)] == es[last_write(i, n, ci)]);
        }
    }
}

/// Whether slot `i` of the log built from `es` in `c` slots holds the last
/// entry whose position is congruent to `i` modulo `c`.
pub open spec fn holds_last_write(c: nat, es: Seq<LogEntry>, i: int) -> bool {
    let k = last_write(i, es.len() as int, c as int);
    &&& 0 <= k < es.len()
    &&& replay(fresh_log(c), es).entries[i] == es[k]
}

/// The circular buffer law: after `n` entries are logged into an empty log
/// with `c` slots, it holds the first `min(n, c)` slots, counts `n - c`
/// overwrites once full, and each slot `i` holds the last entry whose
/// position is congruent to `i` modulo `c`; so it holds exactly the last
/// `c` entries.
pub proof fn law_ring_buffer(c: nat, es: Seq<LogEntry>)
    requires
        c > 0,
    ensures
        replay(fresh_log(c), es).capacity == c,
        replay(fresh_log(c), es).entries.len() == if es.len() < c {
            es.len()
        } else {
            c
        },
        replay(fresh_log(c), es).dropped == if es.len() < c {
            0
        } else {
            (es.len() - c) as nat
        },
        forall|i: int|
            0 <= i < replay(fresh_log(c), es).entries.len() ==> #[trigger] holds_last_write(c, es, i),
{
    lemma_ring_shape(c, es);
    assert forall|i: int| 0 <= i < replay(fresh_log(c), es).entries.len() implies #[trigger] holds_last_write(c, es, i) by {
        lemma_ring_slot(c, es, i);
    }
}

} // verus!
