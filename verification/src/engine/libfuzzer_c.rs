//! The native-code (C/C++) fuzzing engine: its runtime telemetry record,
//! the grammar of its progress output, the translation of a job's argument
//! string into a process invocation, and the task that supervises one
//! fuzzer child process.
use vstd::prelude::*;
use vstd::string::StringExecFns;
use vstd::string::StrSliceExecFns;
use crate::text::dec_val;
use crate::text::find_char;
use crate::text::find_in_str;
use crate::text::is_canon_dec;
use crate::text::lemma_dec_val_u64;
use crate::text::lemma_find_offset;
use crate::text::parse_dec;
use crate::text::find_from;
use crate::config::ServerConfig;
use crate::schedule::EngineStrategy;
use crate::supervisor::Supervisor;
use crate::supervisor::WorkerAction;
use crate::supervisor::WorkerEvent;
use crate::supervisor::WorkerState;

verus! {

/// The larger of two counters.
pub open spec fn max64(a: u64, b: u64) -> u64 {
    if a >= b {
        a
    } else {
        b
    }
}

/// Telemetry for one worker instance: identity, monotonic counters, an
/// instantaneous execution rate, the originating command line, and paired
/// coverage metrics with their `whole_*` denominators.
pub struct RuntimeStats {
    pub worker_id: usize,
    pub run_id: u128,
    pub count: u64,
    pub execs_sec: u64,
    pub cmd: String,
    pub crashes: u64,
    pub queue_entries: u64,
    pub basic_blocks: u64,
    pub whole_basic_blocks: u64,
    pub functions: u64,
    pub whole_functions: u64,
    pub lines: u64,
    pub whole_lines: u64,
    pub edges: u64,
    pub whole_edges: u64,
}

impl RuntimeStats {
    /// Coverage consistency: each metric is at most its paired denominator
    /// whenever both are non-zero.
    pub open spec fn wf(self) -> bool {
        &&& (self.basic_blocks != 0 && self.whole_basic_blocks != 0 ==> self.basic_blocks
            <= self.whole_basic_blocks)
        &&& (self.functions != 0 && self.whole_functions != 0 ==> self.functions
            <= self.whole_functions)
        &&& (self.lines != 0 && self.whole_lines != 0 ==> self.lines <= self.whole_lines)
        &&& (self.edges != 0 && self.whole_edges != 0 ==> self.edges <= self.whole_edges)
    }

    /// A fresh record for one worker: identity and command line set, every
    /// counter and metric zero.
    pub fn new(worker_id: usize, run_id: u128, cmd: String) -> (r: RuntimeStats)
        ensures
            r.worker_id == worker_id,
            r.run_id == run_id,
            r.cmd == cmd,
            r.count == 0,
            r.execs_sec == 0,
            r.crashes == 0,
            r.queue_entries == 0,
            r.basic_blocks == 0,
            r.whole_basic_blocks == 0,
            r.functions == 0,
            r.whole_functions == 0,
            r.lines == 0,
            r.whole_lines == 0,
            r.edges == 0,
            r.whole_edges == 0,
            r.wf(),
    {
        RuntimeStats {
            worker_id,
            run_id,
            count: 0,
            execs_sec: 0,
            cmd,
            crashes: 0,
            queue_entries: 0,
            basic_blocks: 0,
            whole_basic_blocks: 0,
            functions: 0,
            whole_functions: 0,
            lines: 0,
            whole_lines: 0,
            edges: 0,
            whole_edges: 0,
        }
    }

    /// The record after a restart of the same worker: identity and command
    /// line kept, every per-run counter and metric reset to zero.
    pub open spec fn spec_reset(self) -> RuntimeStats {
        RuntimeStats {
            count: 0,
            execs_sec: 0,
            crashes: 0,
            queue_entries: 0,
            basic_blocks: 0,
            whole_basic_blocks: 0,
            functions: 0,
            whole_functions: 0,
            lines: 0,
            whole_lines: 0,
            edges: 0,
            whole_edges: 0,
            ..self
        }
    }

    /// Reset the per-run counters for a restart, preserving `worker_id`,
    /// `run_id` and `cmd`.
    pub fn reset_for_restart(&mut self)
        ensures
            *final(self) == old(self).spec_reset(),
            final(self).wf(),
    {
        self.count = 0;
        self.execs_sec = 0;
        self.crashes = 0;
        self.queue_entries = 0;
        self.basic_blocks = 0;
        self.whole_basic_blocks = 0;
        self.functions = 0;
        self.whole_functions = 0;
        self.lines = 0;
        self.whole_lines = 0;
        self.edges = 0;
        self.whole_edges = 0;
    }
}

/// One recognized update carried by a line of engine progress output.
#[derive(Clone, Copy, PartialEq, Eq, Structural, Debug)]
pub enum StatUpdate {
    /// Total executions so far.
    Execs(u64),
    /// Instantaneous executions per second.
    ExecsSec(u64),
    /// Crashing inputs found so far.
    Crashes(u64),
    /// Queue entries accumulated so far.
    Queue(u64),
    /// Covered and total basic blocks.
    BasicBlocks(u64, u64),
    /// Covered and total functions.
    Functions(u64, u64),
    /// Covered and total source lines.
    Lines(u64, u64),
    /// Covered and total edges.
    Edges(u64, u64),
}

/// The meaning of a bare numeral: a canonical decimal of at most 19 digits.
pub open spec fn spec_parse_u64(s: Seq<char>) -> Option<u64> {
    if is_canon_dec(s) && s.len() <= 19 {
        Some(dec_val(s) as u64)
    } else {
        None
    }
}

/// The meaning of a `covered/total` pair.
pub open spec fn spec_parse_pair(s: Seq<char>) -> Option<(u64, u64)> {
    match find_char(s, '/') {
        None => None,
        Some(i) => {
            let left = s.subrange(0, i);
            let right = s.subrange(i + 1, s.len() as int);
            match (spec_parse_u64(left), spec_parse_u64(right)) {
                (Some(a), Some(b)) => Some((a, b)),
                _ => None,
            }
        },
    }
}

/// The grammar of one line of this engine's progress output: a key, a
/// colon and a space, then a numeral for the counters or a
/// `covered/total` pair for the coverage metrics. Any other line means
/// nothing and is ignored by the monitor.
pub open spec fn spec_parse_line(s: Seq<char>) -> Option<StatUpdate> {
    match find_char(s, ':') {
        None => None,
        Some(i) => {
            if i + 2 <= s.len() && s[i + 1] == ' ' {
                let key = s.subrange(0, i);
                let v = s.subrange(i + 2, s.len() as int);
                if key == "execs"@ {
                    match spec_parse_u64(v) {
                        Some(n) => Some(StatUpdate::Execs(n)),
                        None => None,
                    }
                } else if key == "execs_sec"@ {
                    match spec_parse_u64(v) {
                        Some(n) => Some(StatUpdate::ExecsSec(n)),
                        None => None,
                    }
                } else if key == "crashes"@ {
                    match spec_parse_u64(v) {
                        Some(n) => Some(StatUpdate::Crashes(n)),
                        None => None,
                    }
                } else if key == "queue"@ {
                    match spec_parse_u64(v) {
                        Some(n) => Some(StatUpdate::Queue(n)),
                        None => None,
                    }
                } else if key == "basic_blocks"@ {
                    match spec_parse_pair(v) {
                        Some(p) => Some(StatUpdate::BasicBlocks(p.0, p.1)),
                        None => None,
                    }
                } else if key == "functions"@ {
                    match spec_parse_pair(v) {
                        Some(p) => Some(StatUpdate::Functions(p.0, p.1)),
                        None => None,
                    }
                } else if key == "lines"@ {
                    match spec_parse_pair(v) {
                        Some(p) => Some(StatUpdate::Lines(p.0, p.1)),
                        None => None,
                    }
                } else if key == "edges"@ {
                    match spec_parse_pair(v) {
                        Some(p) => Some(StatUpdate::Edges(p.0, p.1)),
                        None => None,
                    }
                } else {
                    None
                }
            } else {
                None
            }
        },
    }
}

/// The record after applying one (possibly meaningless) line: counters only
/// ever grow towards the reported absolute totals, the rate is replaced,
/// and a coverage pair is taken only when the metric fits its denominator.
pub open spec fn spec_apply(stats: RuntimeStats, u: Option<StatUpdate>) -> RuntimeStats {
    match u {
        None => stats,
        Some(StatUpdate::Execs(n)) => RuntimeStats { count: max64(stats.count, n), ..stats },
        Some(StatUpdate::ExecsSec(n)) => RuntimeStats { execs_sec: n, ..stats },
        Some(StatUpdate::Crashes(n)) => RuntimeStats { crashes: max64(stats.crashes, n), ..stats },
        Some(StatUpdate::Queue(n)) => RuntimeStats {
            queue_entries: max64(stats.queue_entries, n),
            ..stats
        },
        Some(StatUpdate::BasicBlocks(m, n)) => if m <= n {
            RuntimeStats { basic_blocks: m, whole_basic_blocks: n, ..stats }
        } else {
            stats
        },
        Some(StatUpdate::Functions(m, n)) => if m <= n {
            RuntimeStats { functions: m, whole_functions: n, ..stats }
        } else {
            stats
        },
        Some(StatUpdate::Lines(m, n)) => if m <= n {
            RuntimeStats { lines: m, whole_lines: n, ..stats }
        } else {
            stats
        },
        Some(StatUpdate::Edges(m, n)) => if m <= n {
            RuntimeStats { edges: m, whole_edges: n, ..stats }
        } else {
            stats
        },
    }
}

/// Applying a line never decreases `count`, `crashes` or `queue_entries`,
/// and never touches the worker's identity or command line.
pub proof fn lemma_apply_monotone(stats: RuntimeStats, u: Option<StatUpdate>)
    ensures
        spec_apply(stats, u).count >= stats.count,
        spec_apply(stats, u).crashes >= stats.crashes,
        spec_apply(stats, u).queue_entries >= stats.queue_entries,
        spec_apply(stats, u).worker_id == stats.worker_id,
        spec_apply(stats, u).run_id == stats.run_id,
        spec_apply(stats, u).cmd == stats.cmd,
{
}

/// Applying a line preserves coverage consistency: every metric stays at
/// most its denominator whenever both are non-zero.
pub proof fn lemma_apply_wf(stats: RuntimeStats, u: Option<StatUpdate>)
    requires
        stats.wf(),
    ensures
        spec_apply(stats, u).wf(),
{
}

/// The telemetry after a whole run's worth of output lines, oldest first.
pub open spec fn spec_apply_all(stats: RuntimeStats, lines: Seq<Seq<char>>) -> RuntimeStats
    decreases lines.len(),
{
    if lines.len() == 0 {
        stats
    } else {
        spec_apply_all(spec_apply(stats, spec_parse_line(lines[0])), lines.drop_first())
    }
}

/// Over the lifetime of a single run — any sequence of output lines —
/// `count`, `crashes` and `queue_entries` never decrease, the worker's
/// identity and command line never change, and coverage consistency is
/// preserved.
pub proof fn lemma_run_monotone(stats: RuntimeStats, lines: Seq<Seq<char>>)
    ensures
        spec_apply_all(stats, lines).count >= stats.count,
        spec_apply_all(stats, lines).crashes >= stats.crashes,
        spec_apply_all(stats, lines).queue_entries >= stats.queue_entries,
        spec_apply_all(stats, lines).worker_id == stats.worker_id,
        spec_apply_all(stats, lines).run_id == stats.run_id,
        spec_apply_all(stats, lines).cmd == stats.cmd,
        stats.wf() ==> spec_apply_all(stats, lines).wf(),
    decreases lines.len(),
{
    if lines.len() > 0 {
        let next = spec_apply(stats, spec_parse_line(lines[0]));
        lemma_apply_monotone(stats, spec_parse_line(lines[0]));
        if stats.wf() {
            lemma_apply_wf(stats, spec_parse_line(lines[0]));
        }
        lemma_run_monotone(next, lines.drop_first());
    }
}

/// Compare `s[from..to]` with a literal key.
fn range_eq(s: &str, from: usize, to: usize, lit: &str) -> (r: bool)
    requires
        from <= to <= s@.len(),
    ensures
        r == (s@.subrange(from as int, to as int) == lit@),
{
    let m = lit.unicode_len();
    if to - from != m {
        proof {
            assert(s@.subrange(from as int, to as int).len() != lit@.len());
        }
        return false;
    }
    let ghost sub = s@.subrange(from as int, to as int);
    let mut i: usize = 0;
    while i < m
        invariant
            0 <= i <= m == lit@.len(),
            from + m <= to <= s@.len(),
            to - from == m,
            sub == s@.subrange(from as int, to as int),
            forall|j: int| 0 <= j < i ==> sub[j] == lit@[j],
        decreases m - i,
    {
        if s.get_char(from + i) != lit.get_char(i) {
            proof {
                assert(sub[i as int] != lit@[i as int]);
            }
            return false;
        }
        i += 1;
    }
    proof {
        assert(sub =~= lit@);
    }
    true
}

/// Parse the numeral in `s[from..to]`.
fn parse_u64_range(s: &str, from: usize, to: usize) -> (r: Option<u64>)
    requires
        from <= to <= s@.len(),
    ensures
        r == spec_parse_u64(s@.subrange(from as int, to as int)),
{
    let r = parse_dec(s, from, to);
    proof {
        let sub = s@.subrange(from as int, to as int);
        if is_canon_dec(sub) && sub.len() <= 19 {
            lemma_dec_val_u64(sub);
        }
    }
    r
}

/// Parse the `covered/total` pair in `s[from..to]`.
fn parse_pair_range(s: &str, from: usize, to: usize) -> (r: Option<(u64, u64)>)
    requires
        from <= to <= s@.len(),
    ensures
        r == spec_parse_pair(s@.subrange(from as int, to as int)),
{
    let ghost sub = s@.subrange(from as int, to as int);
    proof {
        lemma_find_offset(s@, '/', from as int, to as int);
    }
    let k = match find_in_str(s, from, '/') {
        None => {
            return None;
        },
        Some(k) => {
            if k >= to {
                return None;
            }
            k
        },
    };
    proof {
        assert(find_char(sub, '/') == Some(k - from));
        assert(sub.subrange(0, k - from) =~= s@.subrange(from as int, k as int));
        assert(sub.subrange(k - from + 1, sub.len() as int) =~= s@.subrange(k + 1, to as int));
    }
    let left = parse_u64_range(s, from, k);
    let right = parse_u64_range(s, k + 1, to);
    match (left, right) {
        (Some(a), Some(b)) => Some((a, b)),
        _ => None,
    }
}

/// Parse one line of engine progress output into the update it carries,
/// or nothing when the line means nothing.
pub fn parse_line(line: &str) -> (r: Option<StatUpdate>)
    ensures
        r == spec_parse_line(line@),
{
    let n = line.unicode_len();
    proof {
        lemma_find_offset(line@, ':', 0, n as int);
        assert(line@.subrange(0, n as int) =~= line@);
    }
    let i = match find_in_str(line, 0, ':') {
        None => {
            return None;
        },
        Some(i) => i,
    };
    if i >= n - 1 {
        return None;
    }
    if line.get_char(i + 1) != ' ' {
        return None;
    }
    let ghost key = line@.subrange(0, i as int);
    let ghost v = line@.subrange(i + 2, n as int);
    if range_eq(line, 0, i, "execs") {
        match parse_u64_range(line, i + 2, n) {
            Some(x) => Some(StatUpdate::Execs(x)),
            None => None,
        }
    } else if range_eq(line, 0, i, "execs_sec") {
        match parse_u64_range(line, i + 2, n) {
            Some(x) => Some(StatUpdate::ExecsSec(x)),
            None => None,
        }
    } else if range_eq(line, 0, i, "crashes") {
        match parse_u64_range(line, i + 2, n) {
            Some(x) => Some(StatUpdate::Crashes(x)),
            None => None,
        }
    } else if range_eq(line, 0, i, "queue") {
        match parse_u64_range(line, i + 2, n) {
            Some(x) => Some(StatUpdate::Queue(x)),
            None => None,
        }
    } else if range_eq(line, 0, i, "basic_blocks") {
        match parse_pair_range(line, i + 2, n) {
            Some(p) => Some(StatUpdate::BasicBlocks(p.0, p.1)),
            None => None,
        }
    } else if range_eq(line, 0, i, "functions") {
        match parse_pair_range(line, i + 2, n) {
            Some(p) => Some(StatUpdate::Functions(p.0, p.1)),
            None => None,
        }
    } else if range_eq(line, 0, i, "lines") {
        match parse_pair_range(line, i + 2, n) {
            Some(p) => Some(StatUpdate::Lines(p.0, p.1)),
            None => None,
        }
    } else if range_eq(line, 0, i, "edges") {
        match parse_pair_range(line, i + 2, n) {
            Some(p) => Some(StatUpdate::Edges(p.0, p.1)),
            None => None,
        }
    } else {
        None
    }
}

/// Fold one line of engine output into the telemetry record: the exact
/// update of the line grammar, never a decrease of a monotonic counter,
/// never a change of identity, and coverage consistency preserved.
/// Meaningless lines leave the record unchanged.
pub fn interpret_output(line: &str, stats: &mut RuntimeStats)
    ensures
        *final(stats) == spec_apply(*old(stats), spec_parse_line(line@)),
        final(stats).count >= old(stats).count,
        final(stats).crashes >= old(stats).crashes,
        final(stats).queue_entries >= old(stats).queue_entries,
        final(stats).worker_id == old(stats).worker_id,
        final(stats).run_id == old(stats).run_id,
        final(stats).cmd == old(stats).cmd,
        old(stats).wf() ==> final(stats).wf(),
{
    proof {
        lemma_apply_monotone(*stats, spec_parse_line(line@));
        lemma_apply_wf_conditional(*stats, spec_parse_line(line@));
    }
    match parse_line(line) {
        None => {},
        Some(StatUpdate::Execs(n)) => {
            if n > stats.count {
                stats.count = n;
            }
        },
        Some(StatUpdate::ExecsSec(n)) => {
            stats.execs_sec = n;
        },
        Some(StatUpdate::Crashes(n)) => {
            if n > stats.crashes {
                stats.crashes = n;
            }
        },
        Some(StatUpdate::Queue(n)) => {
            if n > stats.queue_entries {
                stats.queue_entries = n;
            }
        },
        Some(StatUpdate::BasicBlocks(m, n)) => {
            if m <= n {
                stats.basic_blocks = m;
                stats.whole_basic_blocks = n;
            }
        },
        Some(StatUpdate::Functions(m, n)) => {
            if m <= n {
                stats.functions = m;
                stats.whole_functions = n;
            }
        },
        Some(StatUpdate::Lines(m, n)) => {
            if m <= n {
                stats.lines = m;
                stats.whole_lines = n;
            }
        },
        Some(StatUpdate::Edges(m, n)) => {
            if m <= n {
                stats.edges = m;
                stats.whole_edges = n;
            }
        },
    }
}

/// Helper: coverage consistency is preserved whether or not it held.
proof fn lemma_apply_wf_conditional(stats: RuntimeStats, u: Option<StatUpdate>)
    ensures
        stats.wf() ==> spec_apply(stats, u).wf(),
{
    if stats.wf() {
        lemma_apply_wf(stats, u);
    }
}

/// Relies on `uuid::Uuid::new_v4` and `uuid::Uuid::as_u128`: a freshly
/// generated random version-4, RFC-variant UUID, returned as the big-endian
/// 128-bit integer of its bytes. Whatever the random bits, the version
/// nibble is 4 and the variant bits are binary 10.
#[verifier::external_body]
fn fresh_run_id() -> (r: u128)
    ensures
        (r >> 76) & 0xf == 4,
        (r >> 62) & 0x3 == 2,
{
    uuid::Uuid::new_v4().as_u128()
}

/// The space-separated tokens of `s` from position `i` on, empty pieces
/// dropped. The range guard on the found position keeps the recursion
/// well-founded; a first occurrence always lies in range.
pub open spec fn spec_tokens_from(s: Seq<char>, i: int) -> Seq<Seq<char>>
    decreases s.len() - i,
{
    if i < 0 || i >= s.len() {
        Seq::empty()
    } else {
        match find_from(s, ' ', i) {
            None => seq![s.subrange(i, s.len() as int)],
            Some(k) => if i <= k < s.len() {
                let first = s.subrange(i, k);
                let rest = spec_tokens_from(s, k + 1);
                if first.len() == 0 {
                    rest
                } else {
                    seq![first] + rest
                }
            } else {
                Seq::empty()
            },
        }
    }
}

/// The space-separated tokens of an invocation string, empty pieces
/// dropped.
pub open spec fn spec_tokens(s: Seq<char>) -> Seq<Seq<char>> {
    spec_tokens_from(s, 0)
}

/// The views of a vector of strings.
pub open spec fn str_views(v: Seq<String>) -> Seq<Seq<char>> {
    v.map_values(|t: String| t@)
}

/// Split an invocation string into its space-separated tokens.
pub fn tokenize(s: &str) -> (r: Vec<String>)
    ensures
        str_views(r@) == spec_tokens(s@),
        r@.len() == spec_tokens(s@).len(),
        forall|j: int| 0 <= j < r@.len() ==> r@[j]@ == spec_tokens(s@)[j],
{
    let n = s.unicode_len();
    let mut out: Vec<String> = Vec::new();
    let mut pos: usize = 0;
    proof {
        assert(str_views(out@) =~= Seq::<Seq<char>>::empty());
        assert(spec_tokens(s@) =~= str_views(out@) + spec_tokens_from(s@, 0));
    }
    while pos < n
        invariant
            pos <= n == s@.len(),
            spec_tokens(s@) == str_views(out@) + spec_tokens_from(s@, pos as int),
        decreases n - pos,
    {
        let ghost out0 = out@;
        match find_in_str(s, pos, ' ') {
            None => {
                let tok = s.substring_char(pos, n);
                out.push(String::from_str(tok));
                proof {
                    assert(spec_tokens_from(s@, pos as int) =~= seq![
                        s@.subrange(pos as int, n as int),
                    ]);
                    assert(str_views(out@) =~= str_views(out0) + seq![tok@]);
                    assert(spec_tokens(s@) =~= str_views(out@) + spec_tokens_from(s@, n as int));
                }
                pos = n;
            },
            Some(k) => {
                if k > pos {
                    let tok = s.substring_char(pos, k);
                    out.push(String::from_str(tok));
                    proof {
                        assert(str_views(out@) =~= str_views(out0) + seq![tok@]);
                    }
                }
                proof {
                    let first = s@.subrange(pos as int, k as int);
                    assert(spec_tokens_from(s@, pos as int) == if first.len() == 0 {
                        spec_tokens_from(s@, k + 1)
                    } else {
                        seq![first] + spec_tokens_from(s@, k + 1)
                    });
                    assert(spec_tokens(s@) =~= str_views(out@) + spec_tokens_from(s@, k + 1));
                }
                pos = k + 1;
            },
        }
    }
    proof {
        assert(spec_tokens_from(s@, n as int) =~= Seq::<Seq<char>>::empty());
        assert(str_views(out@) =~= spec_tokens(s@));
    }
    out
}

/// A concrete process invocation: the executable and its argument vector.
#[derive(Debug)]
pub struct ProcessSpec {
    pub program: String,
    pub argv: Vec<String>,
}

/// Invalid or missing job parameters; the worker concerned is not started
/// and the node process goes on.
#[derive(Debug)]
pub struct ConfigurationError {
    pub message: String,
}

/// Translate the job's free-form invocation string into a concrete
/// program-plus-arguments invocation: the first token is the executable,
/// the rest its arguments. An invocation string without tokens (empty or
/// all blanks) is rejected as a configuration error.
pub fn build_invocation(cfg: &ServerConfig) -> (r: Result<ProcessSpec, ConfigurationError>)
    ensures
        match r {
            Ok(p) => {
                &&& spec_tokens(cfg.args@).len() > 0
                &&& p.program@ == spec_tokens(cfg.args@)[0]
                &&& p.argv@.len() == spec_tokens(cfg.args@).len() - 1
                &&& forall|j: int|
                    0 <= j < p.argv@.len() ==> p.argv@[j]@ == spec_tokens(cfg.args@)[j + 1]
            },
            Err(_) => spec_tokens(cfg.args@).len() == 0,
        },
{
    let mut toks = tokenize(cfg.args.as_str());
    if toks.len() == 0 {
        return Err(
            ConfigurationError { message: String::from_str("empty fuzzer command line") },
        );
    }
    let ghost all = toks@;
    let program = toks.remove(0);
    proof {
        assert(forall|j: int| 0 <= j < toks@.len() ==> toks@[j] == all[j + 1]);
    }
    Ok(ProcessSpec { program, argv: toks })
}

/// One native-engine fuzzing task: a supervisor bound to the libFuzzer
/// strategy for C and C++ targets.
pub struct LibFuzzerFuzzTask {
    pub supervisor: Supervisor,
}

impl LibFuzzerFuzzTask {
    /// A task around the given telemetry record, idle until asked to run,
    /// granted `persistent` automatic restarts.
    pub fn new(runtime_stats: RuntimeStats, persistent: u8) -> (t: LibFuzzerFuzzTask)
        ensures
            t.supervisor.engine == EngineStrategy::LibFuzzerC,
            t.supervisor.state == WorkerState::Idle,
            t.supervisor.stats == runtime_stats,
            t.supervisor.persistent == persistent,
            t.supervisor.restarts == 0,
    {
        LibFuzzerFuzzTask {
            supervisor: Supervisor {
                engine: EngineStrategy::LibFuzzerC,
                state: WorkerState::Idle,
                stats: runtime_stats,
                persistent,
                restarts: 0,
            },
        }
    }

    /// Ask the worker to run: the `Start` event of the lifecycle. From
    /// `Idle` this moves the worker to `Spawning` and orders the spawn.
    pub fn run(&mut self) -> (a: WorkerAction)
        ensures
            (final(self).supervisor, a) == old(self).supervisor.spec_step(WorkerEvent::Start),
            old(self).supervisor.state == WorkerState::Idle ==> final(self).supervisor.state
                == WorkerState::Spawning && a == WorkerAction::Spawn,
    {
        self.supervisor.step(&WorkerEvent::Start)
    }

    /// Advance the lifecycle by one observed event.
    pub fn step(&mut self, ev: &WorkerEvent) -> (a: WorkerAction)
        ensures
            (final(self).supervisor, a) == old(self).supervisor.spec_step(*ev),
            old(self).supervisor.wf() ==> final(self).supervisor.wf(),
    {
        self.supervisor.step(ev)
    }
}

/// Create the worker for one native-code fuzzing job: a fresh run
/// identity, a zeroed telemetry record carrying the job's command line,
/// and an idle supervisor granted the configured persistence.
pub fn run_fuzzer(cfg: &ServerConfig, worker_id: usize) -> (t: LibFuzzerFuzzTask)
    ensures
        t.supervisor.engine == EngineStrategy::LibFuzzerC,
        t.supervisor.state == WorkerState::Idle,
        t.supervisor.restarts == 0,
        t.supervisor.persistent == cfg.persistent,
        t.supervisor.stats.worker_id == worker_id,
        t.supervisor.stats.cmd == cfg.args,
        t.supervisor.stats.count == 0,
        t.supervisor.stats.execs_sec == 0,
        t.supervisor.stats.crashes == 0,
        t.supervisor.stats.queue_entries == 0,
        t.supervisor.stats.basic_blocks == 0,
        t.supervisor.stats.whole_basic_blocks == 0,
        t.supervisor.stats.functions == 0,
        t.supervisor.stats.whole_functions == 0,
        t.supervisor.stats.lines == 0,
        t.supervisor.stats.whole_lines == 0,
        t.supervisor.stats.edges == 0,
        t.supervisor.stats.whole_edges == 0,
        t.supervisor.wf(),
        (t.supervisor.stats.run_id >> 76) & 0xf == 4,
        (t.supervisor.stats.run_id >> 62) & 0x3 == 2,
{
    let run_id = fresh_run_id();
    let stats = RuntimeStats::new(worker_id, run_id, cfg.args.clone());
    LibFuzzerFuzzTask::new(stats, cfg.persistent)
}

} // verus!
