//! Behavioural features drawn from an instrumented run, and the assessment of
//! a script that they lead to.

use vstd::prelude::*;
use crate::instrumentation::{EventType, LogEntry};
use crate::sandbox::ExecutionResult;
use crate::static_analysis::severity_rank;
use crate::text::{contains_seq, same_text, str_contains, to_lowercase, lowercase};

verus! {

/// Assessment of an analysed script.
#[derive(Debug, Clone, Copy, PartialEq, Eq, Structural)]
pub enum Classification {
    /// No suspicious behaviour detected.
    Benign,
    /// Some suspicious indicators found.
    Suspicious,
    /// Highly likely to be malicious.
    Malicious,
    /// Inconclusive, or resource limits hit too early.
    Inconclusive,
}

impl Default for Classification {
    /// `Inconclusive`.
    fn default() -> (c: Self)
        ensures
            c == Classification::Inconclusive,
    {
        Classification::Inconclusive
    }
}

/// Level of code obfuscation detected.
#[derive(Debug, Clone, Copy, PartialEq, Eq, Structural)]
pub enum ObfuscationLevel {
    /// No obfuscation detected.
    Plain,
    /// Likely minified or lightly obfuscated.
    Low,
    /// Obfuscated.
    Medium,
    /// Heavily obfuscated or packed.
    High,
}

impl Default for ObfuscationLevel {
    /// `Plain`.
    fn default() -> (l: Self)
        ensures
            l == ObfuscationLevel::Plain,
    {
        ObfuscationLevel::Plain
    }
}


/// Whether `key` is one of the keys of `entries`.
pub open spec fn has_key(entries: Seq<(Seq<char>, usize)>, key: Seq<char>) -> bool {
    exists|i: int| 0 <= i < entries.len() && (#[trigger] entries[i]).0 == key
}

/// Whether the keys of `entries` are pairwise distinct.
pub open spec fn distinct_keys(entries: Seq<(Seq<char>, usize)>) -> bool {
    forall|i: int, j: int|
        0 <= i < entries.len() && 0 <= j < entries.len() && i != j ==> (#[trigger] entries[i]).0
            != (#[trigger] entries[j]).0
}

/// The count recorded for `key` in `entries` (0 when absent).
pub open spec fn count_in(entries: Seq<(Seq<char>, usize)>, key: Seq<char>) -> nat
    decreases entries.len(),
{
    if entries.len() == 0 {
        0
    } else if entries.last().0 == key {
        entries.last().1 as nat
    } else {
        count_in(entries.drop_last(), key)
    }
}

/// The position of `key` in `entries` (meaningful when present).
pub open spec fn key_position(entries: Seq<(Seq<char>, usize)>, key: Seq<char>) -> int {
    choose|i: int| 0 <= i < entries.len() && entries[i].0 == key
}

/// `entries` after one more occurrence of `key`: its count goes up by one, or
/// it is appended with a count of one.
pub open spec fn bump(entries: Seq<(Seq<char>, usize)>, key: Seq<char>) -> Seq<(Seq<char>, usize)> {
    if has_key(entries, key) {
        let i = key_position(entries, key);
        entries.update(i, (key, (entries[i].1 + 1) as usize))
    } else {
        entries.push((key, 1usize))
    }
}

/// The counts of the keys `keys`, in order of first occurrence.
pub open spec fn tally(keys: Seq<Seq<char>>) -> Seq<(Seq<char>, usize)>
    decreases keys.len(),
{
    if keys.len() == 0 {
        seq![]
    } else {
        bump(tally(keys.drop_last()), keys.last())
    }
}

/// Counts of events by name, in order of first occurrence.
#[derive(Debug)]
pub struct CallCounts {
    entries: Vec<(String, usize)>,
}

impl View for CallCounts {
    type V = Seq<(Seq<char>, usize)>;

    closed spec fn view(&self) -> Seq<(Seq<char>, usize)> {
        self.entries@.map_values(|e: (String, usize)| (e.0@, e.1))
    }
}

impl CallCounts {
    /// Every key has one count.
    #[verifier::type_invariant]
    spec fn keys_distinct(&self) -> bool {
        distinct_keys(self@)
    }

    /// No counts.
    pub fn new() -> (c: Self)
        ensures
            c@ == Seq::<(Seq<char>, usize)>::empty(),
    {
        let c = CallCounts { entries: Vec::new() };
        assert(c@ =~= Seq::<(Seq<char>, usize)>::empty());
        c
    }

    /// The position of `key`, if it has a count.
    fn position(&self, key: &str) -> (r: Option<usize>)
        ensures
            r matches Some(i) ==> i < self@.len() && self@[i as int].0 == key@,
            r is None ==> !has_key(self@, key@),
    {
        let mut i: usize = 0;
        while i < self.entries.len()
            invariant
                i <= self.entries@.len(),
                forall|k: int| 0 <= k < i ==> self@[k].0 != key@,
            decreases self.entries@.len() - i,
        {
            if same_text(self.entries[i].0.as_str(), key) {
                return Some(i);
            }
            i = i + 1;
        }
        None
    }

    /// Whether `key` has a count.
    pub fn contains_key(&self, key: &str) -> (r: bool)
        ensures
            r == has_key(self@, key@),
    {
        match self.position(key) {
            Some(_) => true,
            None => false,
        }
    }

    /// The count of `key`, if it has one.
    pub fn get(&self, key: &str) -> (r: Option<&usize>)
        ensures
            r is None <==> !has_key(self@, key@),
            r matches Some(c) ==> *c == count_in(self@, key@),
    {
        proof {
            use_type_invariant(self);
        }
        match self.position(key) {
            Some(i) => {
                proof {
                    lemma_count_at(self@, key@, i as int);
                }
                Some(&self.entries[i].1)
            },
            None => None,
        }
    }

    /// The number of distinct keys.
    pub fn len(&self) -> (n: usize)
        ensures
            n == self@.len(),
    {
        self.entries.len()
    }

    /// The key and count at position `i`.
    pub fn entry(&self, i: usize) -> (r: (&str, usize))
        requires
            i < self@.len(),
        ensures
            r.0@ == self@[i as int].0,
            r.1 == self@[i as int].1,
    {
        (self.entries[i].0.as_str(), self.entries[i].1)
    }

    /// Counts one more occurrence of `key`.
    pub fn increment(&mut self, key: String)
        requires
            count_in(old(self)@, key@) < usize::MAX,
        ensures
            final(self)@ == bump(old(self)@, key@),
    {
        proof {
            use_type_invariant(&*self);
        }
        let ghost before = self@;
        let found = self.position(key.as_str());
        let mut entries: Vec<(String, usize)> = Vec::new();
        std::mem::swap(&mut entries, &mut self.entries);
        assert(entries@.map_values(|e: (String, usize)| (e.0@, e.1)) == before);
        match found {
            Some(i) => {
                proof {
                    lemma_count_at(before, key@, i as int);
                    lemma_key_position(before, key@, i as int);
                    lemma_count_bump(before, key@, key@);
                }
                let c = entries[i].1;
                entries.set(i, (key, c + 1));
                assert(entries@.map_values(|e: (String, usize)| (e.0@, e.1)) =~= bump(before, key@));
            },
            None => {
                proof {
                    lemma_count_bump(before, key@, key@);
                }
                entries.push((key, 1));
                assert(entries@.map_values(|e: (String, usize)| (e.0@, e.1)) =~= bump(before, key@));
            },
        }
        self.entries = entries;
    }
}

impl Clone for CallCounts {
    /// A copy of every count.
    fn clone(&self) -> (c: Self)
        ensures
            c@ == self@,
    {
        proof {
            use_type_invariant(self);
        }
        let mut entries: Vec<(String, usize)> = Vec::new();
        let mut i: usize = 0;
        while i < self.entries.len()
            invariant
                i <= self.entries@.len(),
                entries@.len() == i,
                distinct_keys(self@),
                forall|k: int|
                    0 <= k < i ==> (#[trigger] entries@[k]).0@ == self.entries@[k].0@ && entries@[k].1
                        == self.entries@[k].1,
            decreases self.entries@.len() - i,
        {
            entries.push((self.entries[i].0.clone(), self.entries[i].1));
            i = i + 1;
        }
        assert(entries@.map_values(|e: (String, usize)| (e.0@, e.1)) =~= self@);
        CallCounts { entries }
    }
}

proof fn lemma_key_position(entries: Seq<(Seq<char>, usize)>, key: Seq<char>, i: int)
    requires
        distinct_keys(entries),
        0 <= i < entries.len(),
        entries[i].0 == key,
    ensures
        key_position(entries, key) == i,
{
    let k = key_position(entries, key);
    assert(0 <= k < entries.len() && entries[k].0 == key);
}

proof fn lemma_count_at(entries: Seq<(Seq<char>, usize)>, key: Seq<char>, i: int)
    requires
        distinct_keys(entries),
        0 <= i < entries.len(),
        entries[i].0 == key,
    ensures
        count_in(entries, key) == entries[i].1,
    decreases entries.len(),
{
    if i < entries.len() - 1 {
        let t = entries.drop_last();
        assert(entries.last().0 != key);
        assert(t[i] == entries[i]);
        lemma_count_at(t, key, i);
    }
}


/// Behavioural features drawn from the instrumentation log of a run.
#[derive(Debug, Clone)]
pub struct BehavioralFeatures {
    /// Event counts by name.
    pub api_call_counts: CallCounts,
    /// Total size in bytes of dynamically generated code (eval and
    /// Function constructor payloads).
    pub total_expansion_bytes: usize,
}

impl Default for BehavioralFeatures {
    /// No counts and no generated code.
    fn default() -> (f: Self)
        ensures
            f.api_call_counts@.len() == 0,
            f.total_expansion_bytes == 0,
    {
        BehavioralFeatures { api_call_counts: CallCounts::new(), total_expansion_bytes: 0 }
    }
}

/// Names of the entry points that the harness probes itself; an evasion event
/// that mentions one of them is the harness's own doing.
pub open spec fn harness_probes() -> Seq<Seq<char>> {
    seq![
        "main"@, "init"@, "start"@, "run"@, "execute"@, "onLoad"@, "onReady"@, "setup"@,
        "bootstrap"@, "launch"@, "begin"@, "entry"@, "onError"@, "onComplete"@, "onSuccess"@,
        "onInit"@, "onChange"@, "onClick"@, "onSubmit"@, "DOMContentLoaded"@, "addEventListener"@,
    ]
}

/// Whether `payload` mentions a harness probe.
pub open spec fn mentions_probe(payload: Seq<char>) -> bool {
    exists|i: int| 0 <= i < harness_probes().len() && contains_seq(payload, #[trigger] harness_probes()[i])
}

/// The name an entry is counted under, or `None` for an evasion event caused
/// by the harness's own probing: the lower-case name of its event type.
pub open spec fn event_key(e: LogEntry) -> Option<Seq<char>> {
    match e.event_type {
        EventType::Network => Some("network"@),
        EventType::Evasion => match e.payload {
            Some(p) => if mentions_probe(p@) {
                None
            } else {
                Some("evasion"@)
            },
            None => Some("evasion"@),
        },
        EventType::Other(s) => Some(lowercase(s@)),
        EventType::Eval => Some("eval"@),
        EventType::FunctionConstructor => Some("functionconstructor"@),
        EventType::StringDecode => Some("stringdecode"@),
        EventType::Timer => Some("timer"@),
        EventType::Random => Some("random"@),
        EventType::Storage => Some("storage"@),
        EventType::System => Some("system"@),
        EventType::Crypto => Some("crypto"@),
        EventType::DOM => Some("dom"@),
    }
}

/// The names the entries of `logs` are counted under, in order.
pub open spec fn event_keys(logs: Seq<LogEntry>) -> Seq<Seq<char>>
    decreases logs.len(),
{
    if logs.len() == 0 {
        seq![]
    } else {
        let prev = event_keys(logs.drop_last());
        match event_key(logs.last()) {
            Some(k) => prev.push(k),
            None => prev,
        }
    }
}

/// The byte length of a string with the characters `s`, as `str::len`
/// reports it: the length of its UTF-8 encoding.
pub open spec fn byte_len(s: Seq<char>) -> nat {
    (vstd::utf8::encode_utf8(s).len() as usize) as nat
}

/// The bytes of generated code an entry carries: the UTF-8 length of the
/// payload of an eval or Function constructor event.
pub open spec fn expansion_of(e: LogEntry) -> nat {
    match e.payload {
        Some(p) => match e.event_type {
            EventType::Eval => byte_len(p@),
            EventType::FunctionConstructor => byte_len(p@),
            _ => 0,
        },
        None => 0,
    }
}

/// The bytes of generated code in `logs`.
pub open spec fn expansion_bytes(logs: Seq<LogEntry>) -> nat
    decreases logs.len(),
{
    if logs.len() == 0 {
        0
    } else {
        expansion_bytes(logs.drop_last()) + expansion_of(logs.last())
    }
}

/// Whether a payload mentions one of the harness's probe names.
fn is_harness_probe(payload: &str) -> (r: bool)
    ensures
        r == mentions_probe(payload@),
{
    let probes = [
        "main", "init", "start", "run", "execute", "onLoad", "onReady", "setup", "bootstrap",
        "launch", "begin", "entry", "onError", "onComplete", "onSuccess", "onInit", "onChange",
        "onClick", "onSubmit", "DOMContentLoaded", "addEventListener",
    ];
    assert(probes@.len() == harness_probes().len());
    assert(forall|i: int| 0 <= i < probes@.len() ==> #[trigger] probes@[i]@ == harness_probes()[i]);
    let mut i: usize = 0;
    while i < 21
        invariant
            i <= 21,
            probes@.len() == 21,
            forall|k: int| 0 <= k < probes@.len() ==> #[trigger] probes@[k]@ == harness_probes()[k],
            forall|k: int| 0 <= k < i ==> !contains_seq(payload@, #[trigger] harness_probes()[k]),
        decreases 21 - i,
    {
        if str_contains(payload, probes[i]) {
            return true;
        }
        i = i + 1;
    }
    false
}

/// The name an entry is counted under, or `None` for a harness probe.
fn key_of(e: &LogEntry) -> (r: Option<String>)
    ensures
        match r {
            Some(k) => event_key(*e) == Some(k@),
            None => event_key(*e) is None,
        },
{
    match &e.event_type {
        EventType::Network => Some(String::from_str("network")),
        EventType::Evasion => match &e.payload {
            Some(p) => if is_harness_probe(p.as_str()) {
                None
            } else {
                Some(String::from_str("evasion"))
            },
            None => Some(String::from_str("evasion")),
        },
        EventType::Other(s) => Some(to_lowercase(s.as_str())),
        EventType::Eval => Some(String::from_str("eval")),
        EventType::FunctionConstructor => Some(String::from_str("functionconstructor")),
        EventType::StringDecode => Some(String::from_str("stringdecode")),
        EventType::Timer => Some(String::from_str("timer")),
        EventType::Random => Some(String::from_str("random")),
        EventType::Storage => Some(String::from_str("storage")),
        EventType::System => Some(String::from_str("system")),
        EventType::Crypto => Some(String::from_str("crypto")),
        EventType::DOM => Some(String::from_str("dom")),
    }
}

proof fn lemma_tally_bounded(keys: Seq<Seq<char>>, k: Seq<char>)
    requires
        keys.len() <= usize::MAX,
    ensures
        count_in(tally(keys), k) <= keys.len(),
        distinct_keys(tally(keys)),
    decreases keys.len(),
{
    if keys.len() > 0 {
        let prev = tally(keys.drop_last());
        lemma_tally_bounded(keys.drop_last(), k);
        lemma_tally_bounded(keys.drop_last(), keys.last());
        lemma_count_bump(prev, keys.last(), k);
    }
}

proof fn lemma_count_bump(entries: Seq<(Seq<char>, usize)>, key: Seq<char>, k: Seq<char>)
    requires
        distinct_keys(entries),
        count_in(entries, key) < usize::MAX,
    ensures
        distinct_keys(bump(entries, key)),
        count_in(bump(entries, key), k) == if k == key {
            count_in(entries, k) + 1
        } else {
            count_in(entries, k)
        },
{
    if has_key(entries, key) {
        let i = key_position(entries, key);
        let c = entries[i].1;
        lemma_count_at(entries, key, i);
        let up = entries.update(i, (key, (c + 1) as usize));
        assert(distinct_keys(up)) by {
            assert forall|a: int, b: int|
                0 <= a < up.len() && 0 <= b < up.len() && a != b implies (#[trigger] up[a]).0
                != (#[trigger] up[b]).0 by {
                assert(up[a].0 == entries[a].0);
                assert(up[b].0 == entries[b].0);
            }
        }
        lemma_count_at(up, key, i);
        if k != key {
            if has_key(entries, k) {
                let j = choose|j: int| 0 <= j < entries.len() && (#[trigger] entries[j]).0 == k;
                lemma_count_at(entries, k, j);
                assert(up[j] == entries[j]);
                lemma_count_at(up, k, j);
            } else {
                lemma_count_absent(entries, k);
                assert(!has_key(up, k)) by {
                    if has_key(up, k) {
                        let j = choose|j: int| 0 <= j < up.len() && (#[trigger] up[j]).0 == k;
                        assert(entries[j].0 == k);
                    }
                }
                lemma_count_absent(up, k);
            }
        }
    } else {
        lemma_count_absent(entries, key);
        let up = entries.push((key, 1usize));
        assert(distinct_keys(up)) by {
            assert forall|a: int, b: int|
                0 <= a < up.len() && 0 <= b < up.len() && a != b implies (#[trigger] up[a]).0
                != (#[trigger] up[b]).0 by {
                if a == entries.len() {
                    assert(entries[b].0 != key);
                } else if b == entries.len() {
                    assert(entries[a].0 != key);
                }
            }
        }
        assert(up.drop_last() =~= entries);
    }
}

proof fn lemma_count_absent(entries: Seq<(Seq<char>, usize)>, k: Seq<char>)
    requires
        !has_key(entries, k),
    ensures
        count_in(entries, k) == 0,
    decreases entries.len(),
{
    if entries.len() > 0 {
        let t = entries.drop_last();
        assert(entries[entries.len() - 1].0 != k);
        assert(!has_key(t, k)) by {
            if has_key(t, k) {
                let j = choose|j: int| 0 <= j < t.len() && (#[trigger] t[j]).0 == k;
                assert(entries[j].0 == k);
            }
        }
        lemma_count_absent(t, k);
    }
}

impl BehavioralFeatures {
    /// Counts the events of a run by name and totals the generated code:
    /// network events under "network"; evasion events under "evasion" unless
    /// their payload mentions a harness probe; other events under the lower-case
    /// name of their type (for `Other`, of the name it carries); and the bytes
    /// of the payloads of eval and Function constructor events, saturated at
    /// `usize::MAX`.
    pub fn extract(result: &ExecutionResult) -> (f: Self)
        ensures
            f.api_call_counts@ == tally(event_keys(result.logs@)),
            f.total_expansion_bytes == if expansion_bytes(result.logs@) < usize::MAX {
                expansion_bytes(result.logs@)
            } else {
                usize::MAX as nat
            },
    {
        let logs = &result.logs;
        let mut counts = CallCounts::new();
        let mut total: usize = 0;
        let mut i: usize = 0;
        assert(logs@.take(0) =~= Seq::<LogEntry>::empty());
        while i < logs.len()
            invariant
                i <= logs@.len(),
                counts@ == tally(event_keys(logs@.take(i as int))),
                event_keys(logs@.take(i as int)).len() <= i,
                total == if expansion_bytes(logs@.take(i as int)) < usize::MAX {
                    expansion_bytes(logs@.take(i as int))
                } else {
                    usize::MAX as nat
                },
            decreases logs@.len() - i,
        {
            let e = &logs[i];
            let ghost before = logs@.take(i as int);
            proof {
                assert(logs@.take(i + 1).drop_last() =~= before);
                assert(logs@.take(i + 1).last() == *e);
            }
            match key_of(e) {
                Some(k) => {
                    proof {
                        lemma_tally_bounded(event_keys(before), k@);
                        assert(event_keys(logs@.take(i + 1)) == event_keys(before).push(k@));
                        assert(event_keys(before).push(k@).drop_last() =~= event_keys(before));
                    }
                    counts.increment(k);
                },
                None => {
                    assert(event_keys(logs@.take(i + 1)) == event_keys(before));
                },
            }
            let add: usize = match &e.payload {
                Some(p) => match &e.event_type {
                    EventType::Eval => p.as_str().len(),
                    EventType::FunctionConstructor => p.as_str().len(),
                    _ => 0,
                },
                None => 0,
            };
            assert(add == expansion_of(*e));
            assert(expansion_bytes(logs@.take(i + 1)) == expansion_bytes(before) + expansion_of(*e));
            total = if total > usize::MAX - add {
                usize::MAX
            } else {
                total + add
            };
            i = i + 1;
        }
        assert(logs@.take(logs@.len() as int) =~= logs@);
        BehavioralFeatures { api_call_counts: counts, total_expansion_bytes: total }
    }
}


/// How high a Shannon entropy is against the three thresholds that matter
/// for it (for a source sample 4.8, 5.5 and 6.5 bits per byte; for the most
/// random payload 5.0, 6.5 and 7.5).
#[derive(Debug, Clone, Copy, PartialEq, Eq, Structural)]
pub enum EntropyBand {
    /// Not above the first threshold.
    Ordinary,
    /// Above the first threshold only.
    Elevated,
    /// Above the second threshold but not the third.
    High,
    /// Above the third threshold.
    Extreme,
}

/// The rank of a band, from 0 for `Ordinary` to 3 for `Extreme`.
pub open spec fn band_rank(b: EntropyBand) -> nat {
    match b {
        EntropyBand::Ordinary => 0,
        EntropyBand::Elevated => 1,
        EntropyBand::High => 2,
        EntropyBand::Extreme => 3,
    }
}

/// Whether generated code is more than `k` times the size of the input.
pub open spec fn expands_beyond(total: nat, input_size: nat, k: nat) -> bool {
    input_size > 0 && total > k * input_size
}

/// The obfuscation level that the entropies of the source sample and of the
/// most random payload, the generated code and the input size point to.
pub open spec fn obfuscation_of(
    source: EntropyBand,
    payload: EntropyBand,
    total: nat,
    input_size: nat,
) -> ObfuscationLevel {
    if band_rank(source) == 3 || band_rank(payload) == 3 || expands_beyond(total, input_size, 10) {
        ObfuscationLevel::High
    } else if band_rank(source) >= 2 || band_rank(payload) >= 2 || expands_beyond(total, input_size, 3)
        || total > 5000 {
        ObfuscationLevel::Medium
    } else if band_rank(source) >= 1 || band_rank(payload) >= 1 || total > 0 {
        ObfuscationLevel::Low
    } else {
        ObfuscationLevel::Plain
    }
}

/// The classification of a run from whether it completed, the names its
/// events were counted under, the generated code and the obfuscation level:
/// an unfinished run is inconclusive; network use, or storage use together
/// with evasion, at medium or high obfuscation is malicious; network use,
/// evasion or high obfuscation is suspicious, and so is much generated code or
/// eval under any obfuscation; anything else is benign.
pub open spec fn classification_for(
    completed: bool,
    counts: Seq<(Seq<char>, usize)>,
    total: nat,
    level: ObfuscationLevel,
) -> Classification {
    let network = has_key(counts, "network"@);
    let evasion = has_key(counts, "evasion"@);
    let storage = has_key(counts, "storage"@);
    let heavy = level == ObfuscationLevel::Medium || level == ObfuscationLevel::High;
    if !completed {
        Classification::Inconclusive
    } else if (network || (storage && evasion)) && heavy {
        Classification::Malicious
    } else if network || evasion || level == ObfuscationLevel::High {
        Classification::Suspicious
    } else if (total > 1000 || has_key(counts, "eval"@)) && level != ObfuscationLevel::Plain {
        Classification::Suspicious
    } else {
        Classification::Benign
    }
}

/// The assessment of a run: its obfuscation level and classification.
#[derive(Debug, Clone, Copy, PartialEq, Eq, Structural)]
pub struct Assessment {
    pub obfuscation_level: ObfuscationLevel,
    pub classification: Classification,
}

/// Whether generated code is more than `k` times the size of the input.
fn expands_beyond_exec(total: usize, input_size: usize, k: u64) -> (r: bool)
    requires
        k <= 10,
    ensures
        r == expands_beyond(total as nat, input_size as nat, k as nat),
{
    let t = total as u128;
    let n = input_size as u128;
    let kk = k as u128;
    assert(kk * n <= 10 * 0xffff_ffff_ffff_ffffu128) by (nonlinear_arith)
        requires
            kk <= 10,
            n <= 0xffff_ffff_ffff_ffffu128,
    ;
    input_size > 0 && t > kk * n
}

impl BehavioralFeatures {
    /// The obfuscation level: high when an entropy is above its third
    /// threshold or generated code is more than ten times the input; medium
    /// when above the second, more than three times the input, or more than
    /// 5000 bytes; low when above the first or when any code was generated.
    pub fn obfuscation_level(
        &self,
        source: EntropyBand,
        payload: EntropyBand,
        input_size: usize,
    ) -> (level: ObfuscationLevel)
        ensures
            level == obfuscation_of(source, payload, self.total_expansion_bytes as nat, input_size as nat),
    {
        let total = self.total_expansion_bytes;
        if source == EntropyBand::Extreme || payload == EntropyBand::Extreme || expands_beyond_exec(
            total,
            input_size,
            10,
        ) {
            ObfuscationLevel::High
        } else if source == EntropyBand::High || source == EntropyBand::Extreme || payload
            == EntropyBand::High || payload == EntropyBand::Extreme || expands_beyond_exec(
            total,
            input_size,
            3,
        ) || total > 5000 {
            ObfuscationLevel::Medium
        } else if source != EntropyBand::Ordinary || payload != EntropyBand::Ordinary || total > 0 {
            ObfuscationLevel::Low
        } else {
            ObfuscationLevel::Plain
        }
    }

    /// The classification of a run with these features (see
    /// `classification_for`).
    pub fn classify(&self, completed: bool, level: ObfuscationLevel) -> (c: Classification)
        ensures
            c == classification_for(
                completed,
                self.api_call_counts@,
                self.total_expansion_bytes as nat,
                level,
            ),
    {
        let counts = &self.api_call_counts;
        let network = counts.contains_key("network");
        let evasion = counts.contains_key("evasion");
        let storage = counts.contains_key("storage");
        let heavy = level == ObfuscationLevel::Medium || level == ObfuscationLevel::High;
        if !completed {
            Classification::Inconclusive
        } else if (network || (storage && evasion)) && heavy {
            Classification::Malicious
        } else if network || evasion || level == ObfuscationLevel::High {
            Classification::Suspicious
        } else if (self.total_expansion_bytes > 1000 || counts.contains_key("eval")) && level
            != ObfuscationLevel::Plain {
            Classification::Suspicious
        } else {
            Classification::Benign
        }
    }

    /// The obfuscation level and the classification together.
    pub fn assess(
        &self,
        completed: bool,
        source: EntropyBand,
        payload: EntropyBand,
        input_size: usize,
    ) -> (a: Assessment)
        ensures
            a.obfuscation_level == obfuscation_of(
                source,
                payload,
                self.total_expansion_bytes as nat,
                input_size as nat,
            ),
            a.classification == classification_for(
                completed,
                self.api_call_counts@,
                self.total_expansion_bytes as nat,
                a.obfuscation_level,
            ),
    {
        let obfuscation_level = self.obfuscation_level(source, payload, input_size);
        let classification = self.classify(completed, obfuscation_level);
        Assessment { obfuscation_level, classification }
    }
}


/// The number of times `k` occurs in `keys`.
pub open spec fn occurrences(keys: Seq<Seq<char>>, k: Seq<char>) -> nat {
    keys.filter(|x: Seq<char>| x == k).len()
}

/// The rank of an obfuscation level, from 0 for `Plain` to 3 for `High`.
pub open spec fn level_rank(l: ObfuscationLevel) -> nat {
    match l {
        ObfuscationLevel::Plain => 0,
        ObfuscationLevel::Low => 1,
        ObfuscationLevel::Medium => 2,
        ObfuscationLevel::High => 3,
    }
}

/// Counting by name: the tally of a sequence of names records each name once,
/// and records for `k` the number of times `k` occurs in the sequence.
pub proof fn law_tally_counts(keys: Seq<Seq<char>>, k: Seq<char>)
    requires
        keys.len() <= usize::MAX,
    ensures
        count_in(tally(keys), k) == occurrences(keys, k),
        distinct_keys(tally(keys)),
    decreases keys.len(),
{
    reveal(Seq::filter);
    if keys.len() > 0 {
        let prev = keys.drop_last();
        law_tally_counts(prev, k);
        lemma_tally_bounded(prev, keys.last());
        lemma_tally_bounded(prev, k);
        lemma_count_bump(tally(prev), keys.last(), k);
        let pred = |x: Seq<char>| x == k;
        assert(keys.filter(pred) == if pred(keys.last()) {
            prev.filter(pred).push(keys.last())
        } else {
            prev.filter(pred)
        });
    }
}

/// A run that did not complete is inconclusive, whatever it did.
pub proof fn law_unfinished_is_inconclusive(
    counts: Seq<(Seq<char>, usize)>,
    total: nat,
    level: ObfuscationLevel,
)
    ensures
        classification_for(false, counts, total, level) == Classification::Inconclusive,
{
}

/// A run is malicious only when it completed, used the network or storage
/// together with evasion, and is at least moderately obfuscated.
pub proof fn law_malicious_needs_obfuscation(
    completed: bool,
    counts: Seq<(Seq<char>, usize)>,
    total: nat,
    level: ObfuscationLevel,
)
    ensures
        classification_for(completed, counts, total, level) == Classification::Malicious ==> {
            &&& completed
            &&& level_rank(level) >= 2
            &&& has_key(counts, "network"@) || (has_key(counts, "storage"@) && has_key(
                counts,
                "evasion"@,
            ))
        },
{
}

/// A completed run with no network use, no evasion and no obfuscation is
/// benign.
pub proof fn law_plain_quiet_run_is_benign(counts: Seq<(Seq<char>, usize)>, total: nat)
    ensures
        !has_key(counts, "network"@) && !has_key(counts, "evasion"@) ==> classification_for(
            true,
            counts,
            total,
            ObfuscationLevel::Plain,
        ) == Classification::Benign,
{
}

/// Higher entropy bands or more generated code never lower the obfuscation
/// level.
pub proof fn law_obfuscation_monotone(
    s1: EntropyBand,
    s2: EntropyBand,
    p1: EntropyBand,
    p2: EntropyBand,
    t1: nat,
    t2: nat,
    input_size: nat,
)
    requires
        band_rank(s1) <= band_rank(s2),
        band_rank(p1) <= band_rank(p2),
        t1 <= t2,
    ensures
        level_rank(obfuscation_of(s1, p1, t1, input_size)) <= level_rank(
            obfuscation_of(s2, p2, t2, input_size),
        ),
{
}

/// More obfuscation never makes the classification of the same behaviour
/// milder.
pub proof fn law_classification_monotone_in_obfuscation(
    completed: bool,
    counts: Seq<(Seq<char>, usize)>,
    total: nat,
    l1: ObfuscationLevel,
    l2: ObfuscationLevel,
)
    requires
        level_rank(l1) <= level_rank(l2),
    ensures
        severity_rank(classification_for(completed, counts, total, l1)) <= severity_rank(
            classification_for(completed, counts, total, l2),
        ),
{
}

/// The sum of the counts recorded in `entries`.
pub open spec fn total_count(entries: Seq<(Seq<char>, usize)>) -> nat
    decreases entries.len(),
{
    if entries.len() == 0 {
        0
    } else {
        total_count(entries.drop_last()) + entries.last().1 as nat
    }
}

proof fn lemma_total_update(entries: Seq<(Seq<char>, usize)>, i: int, x: (Seq<char>, usize))
    requires
        0 <= i < entries.len(),
    ensures
        total_count(entries.update(i, x)) + entries[i].1 == total_count(entries) + x.1,
    decreases entries.len(),
{
    let up = entries.update(i, x);
    if i == entries.len() - 1 {
        assert(up.drop_last() =~= entries.drop_last());
    } else {
        assert(up.drop_last() =~= entries.drop_last().update(i, x));
        lemma_total_update(entries.drop_last(), i, x);
    }
}

/// Counting by name loses no occurrence: the counts of the tally of a
/// sequence of names add up to its length.
pub proof fn law_tally_total(keys: Seq<Seq<char>>)
    requires
        keys.len() <= usize::MAX,
    ensures
        total_count(tally(keys)) == keys.len(),
    decreases keys.len(),
{
    if keys.len() > 0 {
        let prev = keys.drop_last();
        let k = keys.last();
        let t = tally(prev);
        law_tally_total(prev);
        lemma_tally_bounded(prev, k);
        if has_key(t, k) {
            let i = key_position(t, k);
            lemma_count_at(t, k, i);
            lemma_total_update(t, i, (k, (t[i].1 + 1) as usize));
        } else {
            assert(t.push((k, 1usize)).drop_last() =~= t);
        }
    }
}

/// The signals that raise a completed run's classification, whatever else it
/// did: network use, evasion or high obfuscation make it at least
/// suspicious, and so do eval or more than 1000 bytes of generated code under
/// any obfuscation; network use, or storage use with evasion, at medium or
/// high obfuscation make it malicious. Without any of these a completed run
/// is benign.
pub proof fn law_risky_signals_are_flagged(
    counts: Seq<(Seq<char>, usize)>,
    total: nat,
    level: ObfuscationLevel,
)
    ensures
        has_key(counts, "network"@) ==> severity_rank(classification_for(true, counts, total, level))
            >= 1,
        has_key(counts, "evasion"@) ==> severity_rank(classification_for(true, counts, total, level))
            >= 1,
        level == ObfuscationLevel::High ==> severity_rank(
            classification_for(true, counts, total, level),
        ) >= 1,
        (has_key(counts, "eval"@) || total > 1000) && level != ObfuscationLevel::Plain
            ==> severity_rank(classification_for(true, counts, total, level)) >= 1,
        has_key(counts, "network"@) && level_rank(level) >= 2 ==> classification_for(
            true,
            counts,
            total,
            level,
        ) == Classification::Malicious,
        has_key(counts, "storage"@) && has_key(counts, "evasion"@) && level_rank(level) >= 2
            ==> classification_for(true, counts, total, level) == Classification::Malicious,
        !has_key(counts, "network"@) && !has_key(counts, "evasion"@) && level_rank(level) <= 2 && !(
        (has_key(counts, "eval"@) || total > 1000) && level != ObfuscationLevel::Plain)
            ==> classification_for(true, counts, total, level) == Classification::Benign,
{
}

/// The thresholds of obfuscation: an entropy band of High or more in the
/// source sample or in a payload, generated code more than three times the
/// input, or more than 5000 bytes of it, is at least medium; a band of
/// Extreme, or generated code more than ten times the input, is high; any
/// raised band or any generated code is at least low; with none of these the
/// code is plain.
pub proof fn law_obfuscation_thresholds(
    source: EntropyBand,
    payload: EntropyBand,
    total: nat,
    input_size: nat,
)
    ensures
        band_rank(source) >= 2 ==> level_rank(obfuscation_of(source, payload, total, input_size)) >= 2,
        band_rank(payload) >= 2 ==> level_rank(obfuscation_of(source, payload, total, input_size)) >= 2,
        input_size > 0 && total > 3 * input_size ==> level_rank(
            obfuscation_of(source, payload, total, input_size),
        ) >= 2,
        total > 5000 ==> level_rank(obfuscation_of(source, payload, total, input_size)) >= 2,
        band_rank(source) == 3 || band_rank(payload) == 3 || (input_size > 0 && total > 10
            * input_size) ==> obfuscation_of(source, payload, total, input_size)
            == ObfuscationLevel::High,
        band_rank(source) >= 1 || band_rank(payload) >= 1 || total > 0 ==> level_rank(
            obfuscation_of(source, payload, total, input_size),
        ) >= 1,
        band_rank(source) == 0 && band_rank(payload) == 0 && total == 0 ==> obfuscation_of(
            source,
            payload,
            total,
            input_size,
        ) == ObfuscationLevel::Plain,
        band_rank(source) <= 1 && band_rank(payload) <= 1 && total <= 5000 && !(input_size > 0
            && total > 3 * input_size) ==> level_rank(obfuscation_of(source, payload, total, input_size))
            <= 1,
{
}

} // verus!
