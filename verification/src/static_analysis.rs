//! Static analysis: a line-by-line scan of the source text for suspicious
//! patterns, without running it.

use vstd::prelude::*;
use crate::features::Classification;
use crate::pattern::{regex_compiles, regex_finds, CompiledPattern};
use crate::text::{
    byte_prefix, chars_of, copy_range, is_byte_boundary, lines_of, split_lines,
    string_from_chars, trim, trim_bounds, utf8_len,
};

verus! {

/// How dangerous a pattern is.
#[derive(Debug, Clone, Copy, PartialEq, Eq, Structural)]
pub enum Severity {
    Low,
    Medium,
    High,
}

/// A suspicious pattern detected in code.
#[derive(Debug, Clone)]
pub struct SuspiciousPattern {
    /// Pattern name (e.g. "eval", "fetch request").
    pub name: String,
    /// How dangerous the pattern is.
    pub severity: Severity,
    /// Numbers of the lines where it was found, counted from 1.
    pub line_numbers: Vec<usize>,
    /// The first line where it was found, trimmed and shortened.
    pub context: String,
}

/// Result of static code analysis.
#[derive(Debug, Clone)]
pub struct StaticAnalysis {
    /// Suspicious patterns found in the code, in the order of the pattern table.
    pub patterns_found: Vec<SuspiciousPattern>,
    /// Overall risk score (0-100).
    pub risk_score: u8,
}

/// The abstract content of a `SuspiciousPattern`.
pub struct Finding {
    pub name: Seq<char>,
    pub severity: Severity,
    pub lines: Seq<usize>,
    pub context: Seq<char>,
}

impl View for SuspiciousPattern {
    type V = Finding;

    open spec fn view(&self) -> Finding {
        Finding {
            name: self.name@,
            severity: self.severity,
            lines: self.line_numbers@,
            context: self.context@,
        }
    }
}

/// The pattern table: regex text, name and severity of each pattern, in the
/// order in which they are reported.
pub open spec fn pattern_table() -> Seq<(Seq<char>, Seq<char>, Severity)> {
    seq![
        ("eval\\s*\\("@, "eval"@, Severity::High),
        ("Function\\s*\\("@, "Function constructor"@, Severity::High),
        ("document\\.cookie"@, "cookie access"@, Severity::High),
        ("localStorage\\.getItem"@, "localStorage read"@, Severity::High),
        ("sessionStorage\\.getItem"@, "sessionStorage read"@, Severity::High),
        ("window\\.crypto\\.subtle"@, "crypto operations"@, Severity::High),
        ("atob\\s*\\("@, "base64 decode"@, Severity::Medium),
        ("btoa\\s*\\("@, "base64 encode"@, Severity::Medium),
        ("fetch\\s*\\("@, "fetch request"@, Severity::Medium),
        ("XMLHttpRequest"@, "XMLHttpRequest"@, Severity::Medium),
        ("WebSocket"@, "WebSocket"@, Severity::Medium),
        ("setTimeout\\s*\\("@, "setTimeout"@, Severity::Medium),
        ("setInterval\\s*\\("@, "setInterval"@, Severity::Medium),
        ("\\.postMessage\\s*\\("@, "postMessage"@, Severity::Medium),
        ("importScripts\\s*\\("@, "importScripts"@, Severity::Medium),
        ("navigator\\.userAgent"@, "userAgent access"@, Severity::Low),
        ("screen\\."@, "screen properties"@, Severity::Low),
        ("Math\\.random\\s*\\("@, "random generation"@, Severity::Low),
        ("Date\\.now\\s*\\("@, "timestamp access"@, Severity::Low),
    ]
}

/// The numbers (from 1) of the lines that `pattern` finds, in order.
pub open spec fn matching_lines(pattern: Seq<char>, lines: Seq<Seq<char>>) -> Seq<usize>
    decreases lines.len(),
{
    if lines.len() == 0 {
        seq![]
    } else {
        let prev = matching_lines(pattern, lines.drop_last());
        if regex_finds(pattern, lines.last()) {
            prev.push(lines.len() as usize)
        } else {
            prev
        }
    }
}

/// Where byte offset 97 falls in `t`, counted in characters.
pub open spec fn cut_point(t: Seq<char>) -> int {
    choose|k: int| 0 <= k <= t.len() && utf8_len(t.take(k)) == 97
}

/// Whether shortening the trimmed `line` would cut a character in two: it is
/// longer than 100 bytes and byte offset 97 is not a character boundary.
pub open spec fn context_cuts_char(line: Seq<char>) -> bool {
    utf8_len(trim(line)) > 100 && !is_byte_boundary(trim(line), 97)
}

/// The context shown for a matching line: the trimmed line, and when it is
/// longer than 100 bytes, its first 97 bytes followed by "...".
pub open spec fn context_of(line: Seq<char>) -> Seq<char> {
    let t = trim(line);
    if utf8_len(t) > 100 {
        t.take(cut_point(t)) + "..."@
    } else {
        t
    }
}

/// The context kept for `pattern` over `lines`: that of the first matching
/// line whose context is not empty, or empty.
pub open spec fn pick_context(pattern: Seq<char>, lines: Seq<Seq<char>>) -> Seq<char>
    decreases lines.len(),
{
    if lines.len() == 0 {
        seq![]
    } else {
        let prev = pick_context(pattern, lines.drop_last());
        if prev.len() == 0 && regex_finds(pattern, lines.last()) {
            context_of(lines.last())
        } else {
            prev
        }
    }
}

/// Whether choosing the context for `pattern` would shorten a line at a point
/// inside a character.
pub open spec fn pick_cuts_char(pattern: Seq<char>, lines: Seq<Seq<char>>) -> bool
    decreases lines.len(),
{
    if lines.len() == 0 {
        false
    } else {
        pick_cuts_char(pattern, lines.drop_last()) || (pick_context(pattern, lines.drop_last()).len()
            == 0 && regex_finds(pattern, lines.last()) && context_cuts_char(lines.last()))
    }
}

/// The finding for one table entry over `lines`, when its regex compiles and
/// finds at least one line.
pub open spec fn finding_for(entry: (Seq<char>, Seq<char>, Severity), lines: Seq<Seq<char>>) -> Option<
    Finding,
> {
    if regex_compiles(entry.0) && matching_lines(entry.0, lines).len() > 0 {
        Some(
            Finding {
                name: entry.1,
                severity: entry.2,
                lines: matching_lines(entry.0, lines),
                context: pick_context(entry.0, lines),
            },
        )
    } else {
        None
    }
}

/// The findings of the table entries `table` over `lines`, in table order.
pub open spec fn findings(table: Seq<(Seq<char>, Seq<char>, Severity)>, lines: Seq<Seq<char>>) -> Seq<
    Finding,
>
    decreases table.len(),
{
    if table.len() == 0 {
        seq![]
    } else {
        let prev = findings(table.drop_last(), lines);
        match finding_for(table.last(), lines) {
            Some(f) => prev.push(f),
            None => prev,
        }
    }
}

/// Whether the scan of `code` would shorten some context inside a character.
pub open spec fn analysis_cuts_char(code: Seq<char>) -> bool {
    exists|i: int|
        0 <= i < pattern_table().len() && regex_compiles(#[trigger] pattern_table()[i].0)
            && pick_cuts_char(pattern_table()[i].0, lines_of(code))
}

/// Risk points of one occurrence of a pattern of severity `s`.
pub open spec fn points(s: Severity) -> nat {
    match s {
        Severity::High => 30,
        Severity::Medium => 15,
        Severity::Low => 5,
    }
}

/// Risk points of a finding: its severity's points, plus a third of them for
/// every further line.
pub open spec fn finding_points(f: Finding) -> nat {
    let extra: nat = if f.lines.len() == 0 {
        0
    } else {
        (f.lines.len() - 1) as nat
    };
    points(f.severity) + extra * (points(f.severity) / 3)
}

/// The uncapped risk of a list of findings.
pub open spec fn raw_score(fs: Seq<Finding>) -> nat
    decreases fs.len(),
{
    if fs.len() == 0 {
        0
    } else {
        raw_score(fs.drop_last()) + finding_points(fs.last())
    }
}

/// The risk score: the uncapped risk, capped at 100.
pub open spec fn risk_of(fs: Seq<Finding>) -> nat {
    if raw_score(fs) < 100 {
        raw_score(fs)
    } else {
        100
    }
}

/// The categorical reading of a risk score.
pub open spec fn classification_of(score: nat) -> Classification {
    if score >= 60 {
        Classification::Malicious
    } else if score >= 20 {
        Classification::Suspicious
    } else {
        Classification::Benign
    }
}

/// The abstract findings of a list of reported patterns.
pub open spec fn findings_of(ps: Seq<SuspiciousPattern>) -> Seq<Finding> {
    ps.map_values(|p: SuspiciousPattern| p@)
}

impl StaticAnalysis {
    /// The pattern table, as the scan uses it.
    fn get_patterns() -> (table: Vec<(&'static str, &'static str, Severity)>)
        ensures
            table@.len() == pattern_table().len(),
            forall|i: int|
                0 <= i < table@.len() ==> (#[trigger] table@[i].0@, table@[i].1@, table@[i].2)
                    == pattern_table()[i],
    {
        let table = vec![
            ("eval\\s*\\(", "eval", Severity::High),
            ("Function\\s*\\(", "Function constructor", Severity::High),
            ("document\\.cookie", "cookie access", Severity::High),
            ("localStorage\\.getItem", "localStorage read", Severity::High),
            ("sessionStorage\\.getItem", "sessionStorage read", Severity::High),
            ("window\\.crypto\\.subtle", "crypto operations", Severity::High),
            ("atob\\s*\\(", "base64 decode", Severity::Medium),
            ("btoa\\s*\\(", "base64 encode", Severity::Medium),
            ("fetch\\s*\\(", "fetch request", Severity::Medium),
            ("XMLHttpRequest", "XMLHttpRequest", Severity::Medium),
            ("WebSocket", "WebSocket", Severity::Medium),
            ("setTimeout\\s*\\(", "setTimeout", Severity::Medium),
            ("setInterval\\s*\\(", "setInterval", Severity::Medium),
            ("\\.postMessage\\s*\\(", "postMessage", Severity::Medium),
            ("importScripts\\s*\\(", "importScripts", Severity::Medium),
            ("navigator\\.userAgent", "userAgent access", Severity::Low),
            ("screen\\.", "screen properties", Severity::Low),
            ("Math\\.random\\s*\\(", "random generation", Severity::Low),
            ("Date\\.now\\s*\\(", "timestamp access", Severity::Low),
        ];
        assert(table@.len() == 19);
        table
    }
}


/// The abstract lines of a list of character vectors.
pub open spec fn lines_view(lines: Seq<Vec<char>>) -> Seq<Seq<char>> {
    lines.map_values(|l: Vec<char>| l@)
}

/// The context for one matching line, or `None` when shortening it would cut
/// a character in two.
fn make_context(line: &Vec<char>) -> (r: Option<String>)
    ensures
        r is None <==> context_cuts_char(line@),
        r matches Some(c) ==> c@ == context_of(line@),
{
    let (a, b) = trim_bounds(line);
    let t = copy_range(line, a, b);
    let (_, longer) = byte_prefix(&t, 100);
    if !longer {
        return Some(string_from_chars(&t, 0, t.len()));
    }
    let (cut, _) = byte_prefix(&t, 97);
    match cut {
        None => None,
        Some(k) => {
            let mut c = string_from_chars(&t, 0, k);
            c.append("...");
            proof {
                let ghost tt = trim(line@);
                assert(t@ == tt);
                assert(is_byte_boundary(tt, 97));
                let kk = cut_point(tt);
                assert(0 <= kk <= tt.len() && utf8_len(tt.take(kk)) == 97);
                lemma_cut_unique(tt, k as int, kk);
                assert(t@.subrange(0, k as int) =~= tt.take(kk));
            }
            Some(c)
        },
    }
}

proof fn lemma_cut_unique(t: Seq<char>, a: int, b: int)
    requires
        0 <= a <= t.len(),
        0 <= b <= t.len(),
        utf8_len(t.take(a)) == utf8_len(t.take(b)),
    ensures
        a == b,
{
    if a < b {
        lemma_utf8_strict(t, a, b);
    } else if b < a {
        lemma_utf8_strict(t, b, a);
    }
}

proof fn lemma_utf8_strict(s: Seq<char>, a: int, b: int)
    requires
        0 <= a < b <= s.len(),
    ensures
        utf8_len(s.take(a)) < utf8_len(s.take(b)),
    decreases b - a,
{
    assert(s.take(b).drop_last() =~= s.take(b - 1));
    if a < b - 1 {
        lemma_utf8_strict(s, a, b - 1);
    }
}

proof fn lemma_cuts_persist(pattern: Seq<char>, all: Seq<Seq<char>>, a: int, b: int)
    requires
        0 <= a <= b <= all.len(),
        pick_cuts_char(pattern, all.take(a)),
    ensures
        pick_cuts_char(pattern, all.take(b)),
    decreases b - a,
{
    if a < b {
        lemma_cuts_persist(pattern, all, a, b - 1);
        assert(all.take(b).drop_last() =~= all.take(b - 1));
    }
}

/// Scans the lines with one compiled pattern: the numbers of the matching
/// lines and the context, or `None` when the context would cut a character.
fn scan_pattern(p: &CompiledPattern, lines: &Vec<Vec<char>>, texts: &Vec<String>) -> (r: Option<
    (Vec<usize>, String),
>)
    requires
        texts@.len() == lines@.len(),
        forall|k: int| 0 <= k < lines@.len() ==> #[trigger] texts@[k]@ == lines@[k]@,
    ensures
        r is None <==> pick_cuts_char(p.source(), lines_view(lines@)),
        r matches Some(out) ==> out.0@ == matching_lines(p.source(), lines_view(lines@)) && out.1@
            == pick_context(p.source(), lines_view(lines@)),
{
    let ghost all = lines_view(lines@);
    let mut numbers: Vec<usize> = Vec::new();
    let mut context = String::new();
    let n = lines.len();
    let mut j: usize = 0;
    assert(all.take(0) =~= Seq::<Seq<char>>::empty());
    while j < n
        invariant
            n == lines@.len() == texts@.len(),
            j <= n,
            all == lines_view(lines@),
            forall|k: int| 0 <= k < lines@.len() ==> #[trigger] texts@[k]@ == lines@[k]@,
            numbers@ == matching_lines(p.source(), all.take(j as int)),
            context@ == pick_context(p.source(), all.take(j as int)),
            !pick_cuts_char(p.source(), all.take(j as int)),
        decreases n - j,
    {
        let ghost before = all.take(j as int);
        proof {
            assert(all.take(j + 1).drop_last() =~= before);
            assert(all.take(j + 1).last() == lines@[j as int]@);
        }
        if p.is_match(texts[j].as_str()) {
            numbers.push(j + 1);
            if context.as_str().is_empty() {
                match make_context(&lines[j]) {
                    None => {
                        proof {
                            assert(pick_cuts_char(p.source(), all.take(j + 1)));
                            lemma_cuts_persist(p.source(), all, j + 1, n as int);
                            assert(all.take(n as int) =~= all);
                        }
                        return None;
                    },
                    Some(c) => {
                        context = c;
                    },
                }
            }
        }
        j = j + 1;
    }
    assert(all.take(n as int) =~= all);
    Some((numbers, context))
}


impl StaticAnalysis {
    /// The risk score of a list of reported patterns: each contributes its
    /// severity's points (30, 15 or 5) plus a third of them for every line
    /// after the first, and the total is capped at 100.
    fn calculate_risk_score(patterns: &Vec<SuspiciousPattern>) -> (score: u8)
        ensures
            score == risk_of(findings_of(patterns@)),
    {
        let ghost fs = findings_of(patterns@);
        let mut score: u64 = 0;
        let n = patterns.len();
        let mut i: usize = 0;
        assert(fs.take(0) =~= Seq::<Finding>::empty());
        while i < n
            invariant
                n == patterns@.len() == fs.len(),
                fs == findings_of(patterns@),
                i <= n,
                score == risk_of(fs.take(i as int)),
            decreases n - i,
        {
            let p = &patterns[i];
            let (pts, third): (u64, u64) = match p.severity {
                Severity::High => (30, 10),
                Severity::Medium => (15, 5),
                Severity::Low => (5, 1),
            };
            let occurrences = p.line_numbers.len();
            let extra = if occurrences == 0 {
                0
            } else {
                occurrences - 1
            };
            let add: u64 = if extra >= 100 {
                100
            } else {
                pts + (extra as u64) * third
            };
            proof {
                assert(fs.take(i + 1).drop_last() =~= fs.take(i as int));
                assert(fs.take(i + 1).last() == p@);
                assert(points(p.severity) == pts && points(p.severity) / 3 == third);
                if extra >= 100 {
                    assert(extra * third >= 100) by (nonlinear_arith)
                        requires
                            extra >= 100,
                            third >= 1,
                    ;
                }
            }
            score = if score + add >= 100 {
                100
            } else {
                score + add
            };
            i = i + 1;
        }
        assert(fs.take(n as int) =~= fs);
        score as u8
    }

    /// Whether scanning `code` would shorten a context inside a character.
    pub open spec fn scan_cuts_char(code: Seq<char>) -> bool {
        analysis_cuts_char(code)
    }

    /// Scans `code` for suspicious patterns; `None` exactly when a context
    /// would have to be shortened inside a character.
    pub fn try_analyze(code: &str) -> (r: Option<StaticAnalysis>)
        ensures
            r is None <==> analysis_cuts_char(code@),
            r matches Some(a) ==> findings_of(a.patterns_found@) == findings(
                pattern_table(),
                lines_of(code@),
            ) && a.risk_score == risk_of(findings_of(a.patterns_found@)),
    {
        let chars = chars_of(code);
        let lines = split_lines(&chars);
        let ghost all = lines_of(code@);
        let mut texts: Vec<String> = Vec::new();
        let mut j: usize = 0;
        while j < lines.len()
            invariant
                j <= lines@.len(),
                texts@.len() == j,
                forall|k: int| 0 <= k < j ==> #[trigger] texts@[k]@ == lines@[k]@,
            decreases lines@.len() - j,
        {
            let t = string_from_chars(&lines[j], 0, lines[j].len());
            assert(t@ =~= lines@[j as int]@);
            texts.push(t);
            j = j + 1;
        }
        proof {
            assert(lines_view(lines@) =~= all);
        }
        let table = Self::get_patterns();
        let mut found: Vec<SuspiciousPattern> = Vec::new();
        let mut i: usize = 0;
        assert(pattern_table().take(0) =~= Seq::<(Seq<char>, Seq<char>, Severity)>::empty());
        while i < table.len()
            invariant
                table@.len() == pattern_table().len(),
                forall|k: int|
                    0 <= k < table@.len() ==> (#[trigger] table@[k].0@, table@[k].1@, table@[k].2)
                        == pattern_table()[k],
                i <= table@.len(),
                lines_view(lines@) == all,
                all == lines_of(code@),
                texts@.len() == lines@.len(),
                forall|k: int| 0 <= k < lines@.len() ==> #[trigger] texts@[k]@ == lines@[k]@,
                findings_of(found@) == findings(pattern_table().take(i as int), all),
                forall|k: int|
                    0 <= k < i ==> !(regex_compiles(#[trigger] pattern_table()[k].0)
                        && pick_cuts_char(pattern_table()[k].0, all)),
            decreases table@.len() - i,
        {
            let (pat, name, severity) = table[i];
            let ghost entry = pattern_table()[i as int];
            proof {
                assert((pat@, name@, severity) == entry);
                assert(pattern_table().take(i + 1).drop_last() =~= pattern_table().take(i as int));
                assert(pattern_table().take(i + 1).last() == entry);
            }
            match CompiledPattern::compile(pat) {
                None => {},
                Some(p) => {
                    match scan_pattern(&p, &lines, &texts) {
                        None => {
                            assert(regex_compiles(pattern_table()[i as int].0) && pick_cuts_char(
                                pattern_table()[i as int].0,
                                all,
                            ));
                            return None;
                        },
                        Some((numbers, context)) => {
                            if numbers.len() > 0 {
                                let finding = SuspiciousPattern {
                                    name: String::from_str(name),
                                    severity,
                                    line_numbers: numbers,
                                    context,
                                };
                                let ghost before = found@;
                                found.push(finding);
                                assert(findings_of(found@) =~= findings_of(before).push(finding@));
                            }
                        },
                    }
                },
            }
            i = i + 1;
        }
        assert(pattern_table().take(table@.len() as int) =~= pattern_table());
        let risk_score = Self::calculate_risk_score(&found);
        Some(StaticAnalysis { patterns_found: found, risk_score })
    }

    /// Scans `code` for suspicious patterns: for each pattern of the table
    /// whose regex compiles and finds at least one line, in table order, the
    /// numbers of the lines it finds and the context of the first of them;
    /// and the risk score of those findings.
    pub fn analyze(code: &str) -> (a: StaticAnalysis)
        requires
            !Self::scan_cuts_char(code@),
        ensures
            findings_of(a.patterns_found@) == findings(pattern_table(), lines_of(code@)),
            a.risk_score == risk_of(findings_of(a.patterns_found@)),
    {
        match Self::try_analyze(code) {
            Some(a) => a,
            None => {
                assert(false);
                StaticAnalysis { patterns_found: Vec::new(), risk_score: 0 }
            },
        }
    }

    /// The categorical reading of the risk score: `Malicious` from 60,
    /// `Suspicious` from 20, `Benign` below.
    pub fn classification(&self) -> (c: Classification)
        ensures
            c == classification_of(self.risk_score as nat),
    {
        if self.risk_score >= 60 {
            Classification::Malicious
        } else if self.risk_score >= 20 {
            Classification::Suspicious
        } else {
            Classification::Benign
        }
    }
}

impl Default for StaticAnalysis {
    /// No patterns and a risk score of zero.
    fn default() -> (a: Self)
        ensures
            a.patterns_found@.len() == 0,
            a.risk_score == 0,
    {
        StaticAnalysis { patterns_found: Vec::new(), risk_score: 0 }
    }
}


/// The rank of a classification on the scale Benign < Suspicious < Malicious.
pub open spec fn severity_rank(c: Classification) -> nat {
    match c {
        Classification::Benign => 0,
        Classification::Suspicious => 1,
        Classification::Malicious => 2,
        Classification::Inconclusive => 0,
    }
}

/// The risk score never exceeds 100.
pub proof fn law_risk_at_most_100(fs: Seq<Finding>)
    ensures
        risk_of(fs) <= 100,
{
}

/// A scan scores zero risk exactly when it reports no pattern: every
/// reported pattern adds at least five points.
pub proof fn law_zero_risk_iff_no_findings(fs: Seq<Finding>)
    ensures
        (risk_of(fs) == 0) <==> (fs.len() == 0),
    decreases fs.len(),
{
    if fs.len() > 0 {
        law_zero_risk_iff_no_findings(fs.drop_last());
        assert(finding_points(fs.last()) >= 5);
    }
}

/// A higher risk score never reads as a milder classification.
pub proof fn law_classification_monotone(a: nat, b: nat)
    requires
        a <= b,
    ensures
        severity_rank(classification_of(a)) <= severity_rank(classification_of(b)),
{
}

/// The line numbers reported for a pattern are exactly the numbers, counted
/// from 1, of the lines it finds, in increasing order.
pub proof fn law_matching_lines_exact(pattern: Seq<char>, lines: Seq<Seq<char>>)
    requires
        lines.len() <= usize::MAX,
    ensures
        forall|i: int, j: int|
            0 <= i < j < matching_lines(pattern, lines).len() ==> matching_lines(pattern, lines)[i]
                < matching_lines(pattern, lines)[j],
        forall|i: int|
            0 <= i < matching_lines(pattern, lines).len() ==> 1 <= #[trigger] matching_lines(
                pattern,
                lines,
            )[i] <= lines.len() && regex_finds(
                pattern,
                lines[matching_lines(pattern, lines)[i] - 1],
            ),
        forall|k: int|
            0 <= k < lines.len() && regex_finds(pattern, #[trigger] lines[k]) ==> matching_lines(
                pattern,
                lines,
            ).contains((k + 1) as usize),
    decreases lines.len(),
{
    if lines.len() > 0 {
        let prev = lines.drop_last();
        law_matching_lines_exact(pattern, prev);
        let m = matching_lines(pattern, prev);
        let full = matching_lines(pattern, lines);
        let n = lines.len() as usize;
        assert(n as int == lines.len());
        assert forall|i: int| 0 <= i < m.len() implies 1 <= #[trigger] m[i] < lines.len()
            && regex_finds(pattern, lines[m[i] - 1]) by {
            assert(prev[m[i] - 1] == lines[m[i] - 1]);
        }
        if regex_finds(pattern, lines.last()) {
            assert(full == m.push(n));
            assert forall|i: int| 0 <= i < full.len() implies 1 <= #[trigger] full[i] <= lines.len()
                && regex_finds(pattern, lines[full[i] - 1]) by {
                if i < m.len() {
                    assert(full[i] == m[i]);
                }
            }
            assert forall|i: int, j: int| 0 <= i < j < full.len() implies full[i] < full[j] by {
                if j < m.len() {
                    assert(full[i] == m[i] && full[j] == m[j]);
                } else {
                    assert(full[i] == m[i]);
                }
            }
        } else {
            assert(full == m);
        }
        assert forall|k: int|
            0 <= k < lines.len() && regex_finds(pattern, #[trigger] lines[k]) implies full.contains(
            (k + 1) as usize,
        ) by {
            if k < prev.len() {
                assert(prev[k] == lines[k]);
                let w = choose|w: int| 0 <= w < m.len() && m[w] == (k + 1) as usize;
                if regex_finds(pattern, lines.last()) {
                    assert(full[w] == (k + 1) as usize);
                }
            } else {
                assert(full[m.len() as int] == (k + 1) as usize);
            }
        }
    }
}

proof fn lemma_utf8_len_concat(a: Seq<char>, b: Seq<char>)
    ensures
        utf8_len(a + b) == utf8_len(a) + utf8_len(b),
    decreases b.len(),
{
    if b.len() == 0 {
        assert(a + b =~= a);
    } else {
        lemma_utf8_len_concat(a, b.drop_last());
        assert((a + b).drop_last() =~= a + b.drop_last());
    }
}

/// A context never takes more than 100 bytes: a longer trimmed line is cut
/// to 97 bytes and marked with "...".
pub proof fn law_context_at_most_100_bytes(line: Seq<char>)
    requires
        !context_cuts_char(line),
    ensures
        utf8_len(context_of(line)) <= 100,
{
    let t = trim(line);
    if utf8_len(t) > 100 {
        let k = cut_point(t);
        assert(is_byte_boundary(t, 97));
        assert(0 <= k <= t.len() && utf8_len(t.take(k)) == 97);
        lemma_utf8_len_concat(t.take(k), "..."@);
        assert(utf8_len("..."@) == 3) by {
            reveal_strlit("...");
            reveal_with_fuel(utf8_len, 4);
            assert("..."@.drop_last().drop_last().drop_last() =~= Seq::<char>::empty());
            assert("..."@.drop_last().drop_last() =~= seq!['.']);
            assert("..."@.drop_last() =~= seq!['.', '.']);
        }
    }
}

/// Every reported pattern comes from the table, has at least one line, and
/// the report holds at most one entry per table entry.
pub proof fn law_findings_from_table(table: Seq<(Seq<char>, Seq<char>, Severity)>, lines: Seq<Seq<char>>)
    ensures
        findings(table, lines).len() <= table.len(),
        forall|i: int|
            0 <= i < findings(table, lines).len() ==> {
                &&& (#[trigger] findings(table, lines)[i]).lines.len() > 0
                &&& exists|k: int|
                    #![trigger table[k]] 0 <= k < table.len() && table[k].1 == findings(table, lines)[i].name
                        && table[k].2 == findings(table, lines)[i].severity
            },
    decreases table.len(),
{
    if table.len() > 0 {
        let prev = table.drop_last();
        law_findings_from_table(prev, lines);
        let f = findings(prev, lines);
        assert forall|i: int| #![trigger f[i]] 0 <= i < f.len() implies exists|k: int|
            #![trigger table[k]] 0 <= k < table.len() && table[k].1 == f[i].name && table[k].2 == f[i].severity by {
            let k = choose|k: int| 0 <= k < prev.len() && prev[k].1 == f[i].name && prev[k].2 == f[i].severity;
            assert(table[k] == prev[k]);
        }
        match finding_for(table.last(), lines) {
            Some(g) => {
                let all = f.push(g);
                assert forall|i: int| 0 <= i < all.len() implies {
                    &&& (#[trigger] all[i]).lines.len() > 0
                    &&& exists|k: int| #![trigger table[k]] 0 <= k < table.len() && table[k].1 == all[i].name && table[k].2 == all[i].severity
                } by {
                    if i == f.len() {
                        assert(table[table.len() - 1].1 == all[i].name);
                    } else {
                        assert(all[i] == f[i]);
                    }
                }
            },
            None => {},
        }
    }
}

/// The points of a finding in closed form: 30, 15 or 5 for its first line
/// by severity, and each further line a third of that, 10, 5 or 1, whatever
/// the severity.
pub proof fn law_finding_points_closed_form(f: Finding)
    requires
        f.lines.len() >= 1,
    ensures
        f.severity == Severity::High ==> finding_points(f) == 30 + 10 * (f.lines.len() - 1),
        f.severity == Severity::Medium ==> finding_points(f) == 15 + 5 * (f.lines.len() - 1),
        f.severity == Severity::Low ==> finding_points(f) == 5 + 1 * (f.lines.len() - 1),
{
}

/// One more line of a finding adds a third of its severity's points, at
/// least one point, whatever the severity.
pub proof fn law_further_line_adds_a_third(f: Finding, line: usize)
    requires
        f.lines.len() >= 1,
    ensures
        finding_points(Finding { lines: f.lines.push(line), ..f }) == finding_points(f) + points(
            f.severity,
        ) / 3,
        points(f.severity) / 3 >= 1,
{
    let g = Finding { lines: f.lines.push(line), ..f };
    let n = (f.lines.len() - 1) as nat;
    let p = points(f.severity) / 3;
    assert(g.lines.len() - 1 == n + 1);
    assert((n + 1) * p == n * p + p) by (nonlinear_arith);
}

} // verus!
