//! Lifecycle of the desktop-managed Hermes backend process.
//!
//! The contract that the renderer depends on: spawn `hermes serve --port 0`,
//! read the announced port from stdout, probe `/api/health` (or `/api/status`
//! for backends that predate the health route), and hand back a connection
//! descriptor. Starting and watching the child is the caller's work; what is
//! started, what is made of each observation and when to stop is decided here.
use crate::backend::command;
use crate::backend::command::BackendCommand;
use crate::backend::env;
use crate::backend::env::InheritedEnv;
use crate::backend::ready;
use crate::duplicate::Duplicate;
use crate::paths;
use crate::paths::Host;
use crate::text;
use crate::token;
use vstd::prelude::*;

verus! {

/// Cap on retained child output: a chatty or failing backend must not grow the
/// buffer for the life of the process.
pub const MAX_OUTPUT_BUFFER_BYTES: usize = 262144;

/// How much of the retained output a failure report quotes, in bytes.
pub const REPORTED_OUTPUT_BYTES: usize = 2000;

/// How many lines of retained child output the descriptor carries.
pub const DESCRIPTOR_LOG_LINES: usize = 40;

/// How long one health probe may take.
pub const HEALTH_PROBE_TIMEOUT_MS: u64 = 5_000;

/// How long a backend that announced its port may take to answer.
pub const BACKEND_READY_TIMEOUT_MS: u64 = 45_000;

/// How often the output is searched for the announcement.
pub const READY_POLL_INTERVAL_MS: u64 = 50;

/// How long to wait between two health probes.
pub const PROBE_RETRY_INTERVAL_MS: u64 = 500;

/// The header that carries the session token.
pub const SESSION_TOKEN_HEADER: &'static str = "X-Hermes-Session-Token";

// ---------------------------------------------------------------------------
// Retained output
// ---------------------------------------------------------------------------
/// What is retained of the output `s`: all of it within the cap, and its newest
/// half-cap of bytes beyond it.
pub open spec fn retained(s: Seq<char>) -> Seq<char> {
    if text::bytes::byte_len(s) > MAX_OUTPUT_BUFFER_BYTES {
        text::bytes::last_bytes(s, MAX_OUTPUT_BUFFER_BYTES as int / 2)
    } else {
        s
    }
}

/// What the desktop log says of a chunk of output, unless the chunk is blank.
pub open spec fn pump_line(label: Seq<char>, chunk: Seq<char>) -> Option<Seq<char>> {
    if text::trimmed_end(chunk).len() > 0 {
        Some("backend["@ + label + "] "@ + text::trimmed_end(chunk))
    } else {
        None
    }
}

/// Take a chunk of child output into the retained buffer and return what the
/// desktop log says of it. `label` names the stream.
pub fn pump_output(buffer: &mut String, bytes: &[u8], label: &str) -> (r: Option<String>)
    ensures
        final(buffer)@ == retained(old(buffer)@ + text::unicode::lossy(bytes@)),
        text::bytes::byte_len(final(buffer)@) <= MAX_OUTPUT_BUFFER_BYTES,
        r.deep_view() == pump_line(label@, text::unicode::lossy(bytes@)),
{
    let chunk = text::unicode::from_utf8_lossy(bytes);
    retain_output(buffer, chunk.as_str());
    output_log_line(label, chunk.as_str())
}

/// Take decoded child output into the retained buffer.
pub fn retain_output(buffer: &mut String, chunk: &str)
    ensures
        final(buffer)@ == retained(old(buffer)@ + chunk@),
        text::bytes::byte_len(final(buffer)@) <= MAX_OUTPUT_BUFFER_BYTES,
{
    buffer.append(chunk);
    let chars = text::chars_of(buffer.as_str());
    let total = text::bytes::measure(&chars);
    if total > 262144 {
        let kept = text::bytes::keep_last_bytes(buffer.as_str(), 131072);
        proof {
            text::bytes::the_tail_fits(buffer@, 131072);
        }
        *buffer = kept;
    }
}

/// What the desktop log says of decoded child output.
pub fn output_log_line(label: &str, chunk: &str) -> (r: Option<String>)
    ensures
        r.deep_view() == pump_line(label@, chunk@),
{
    let trimmed = text::trim_end(chunk);
    if text::is_empty(trimmed.as_str()) {
        None
    } else {
        Some(text::cat4("backend[", label, "] ", trimmed.as_str()))
    }
}

/// What a failure report quotes of the retained output.
pub open spec fn output_report(output: Seq<char>) -> Seq<char> {
    let shown = text::trimmed(output);
    if shown.len() == 0 {
        Seq::empty()
    } else {
        "\n--- backend output ---\n"@ + text::bytes::last_bytes(shown, REPORTED_OUTPUT_BYTES as int)
    }
}

/// What a failure report quotes of the retained output.
pub fn output_tail(output: &str) -> (r: String)
    ensures
        r@ == output_report(output@),
{
    let shown = text::trim(output);
    if text::is_empty(shown.as_str()) {
        return String::new();
    }
    let tail = text::bytes::keep_last_bytes(shown.as_str(), 2000);
    text::cat("\n--- backend output ---\n", tail.as_str())
}

/// The newest `limit` lines of `output`.
pub open spec fn newest_lines(output: Seq<char>, limit: int) -> Seq<Seq<char>> {
    let all = text::scan::lines(output);
    if all.len() > limit {
        all.skip(all.len() - limit)
    } else {
        all
    }
}

/// The newest `limit` lines of retained child output; none where the buffer
/// could not be read without waiting.
pub fn output_lines(output: Option<&str>, limit: usize) -> (r: Vec<String>)
    ensures
        r.deep_view() == (match output {
            Some(text) => newest_lines(text@, limit as int),
            None => Seq::empty(),
        }),
{
    let mut out: Vec<String> = Vec::new();
    match output {
        None => {
            proof {
                assert(out.deep_view() =~= Seq::<Seq<char>>::empty());
            }
            out
        },
        Some(text) => {
            let all = text::scan::split_lines(text);
            let ghost lines = all.deep_view();
            let n: usize = all.len();
            let start: usize = if n > limit {
                n - limit
            } else {
                0
            };
            let mut i: usize = start;
            proof {
                assert(out.deep_view() =~= lines.subrange(start as int, start as int));
            }
            while i < n
                invariant
                    start <= i <= n == all@.len(),
                    lines == all.deep_view(),
                    out.deep_view() == lines.subrange(start as int, i as int),
                decreases n - i,
            {
                let ghost before = out.deep_view();
                out.push(all[i].clone());
                proof {
                    assert(lines[i as int] == all@[i as int]@);
                    assert(out.deep_view() =~= before.push(lines[i as int]));
                    assert(lines.subrange(start as int, i + 1) =~= before.push(lines[i as int]));
                }
                i = i + 1;
            }
            proof {
                assert(lines.subrange(start as int, n as int) =~= newest_lines(
                    text@,
                    limit as int,
                ));
            }
            out
        },
    }
}

/// The lines that a descriptor carries are the last ones, in order, and no more
/// than it may carry.
pub proof fn the_newest_lines_are_kept(output: Seq<char>, limit: int)
    requires
        0 <= limit,
    ensures
        newest_lines(output, limit).len() <= limit,
        newest_lines(output, limit).is_suffix_of(text::scan::lines(output)),
        text::scan::lines(output).len() <= limit ==> newest_lines(output, limit)
            == text::scan::lines(output),
{
}

// ---------------------------------------------------------------------------
// Waiting for the announcement
// ---------------------------------------------------------------------------
/// What became of the child since it was last looked at.
#[derive(Debug, Clone, PartialEq, Eq)]
pub enum ChildState {
    Running,
    /// It ended, with this status.
    Exited(String),
    /// Its state could not be read, for this reason.
    Unknown(String),
}

/// Where the wait for the announcement stands.
#[derive(Debug, Clone, PartialEq, Eq)]
pub enum PortWait {
    Announced(u16),
    Failed(String),
    Waiting,
}

/// What a `PortWait` says.
#[verifier::ext_equal]
pub enum PortWaitView {
    Announced(u16),
    Failed(Seq<char>),
    Waiting,
}

impl View for PortWait {
    type V = PortWaitView;

    open spec fn view(&self) -> PortWaitView {
        match self {
            PortWait::Announced(port) => PortWaitView::Announced(*port),
            PortWait::Failed(error) => PortWaitView::Failed(error@),
            PortWait::Waiting => PortWaitView::Waiting,
        }
    }
}

/// The failure of a child that ended before it announced a port.
pub open spec fn exited_early(status: Seq<char>, output: Seq<char>) -> Seq<char> {
    "Hermes backend exited before port announcement ("@ + status + ")."@ + output_report(output)
}

/// The failure of a child whose state cannot be read.
pub open spec fn wait_failed(error: Seq<char>) -> Seq<char> {
    "Hermes backend wait failed: "@ + error
}

/// The failure of a child that announced no port in time.
pub open spec fn announced_late(timeout_ms: u64, output: Seq<char>) -> Seq<char> {
    "Timed out waiting for Hermes backend port announcement ("@ + text::number::decimal(
        timeout_ms as nat,
    ) + "ms)."@ + output_report(output)
}

/// Where the wait stands, given the output so far, the state of the child and
/// how long the wait has lasted: an announced port counts whatever became of
/// the child, and an ended child counts before the deadline does.
pub open spec fn port_wait(
    output: Seq<char>,
    child: ChildState,
    elapsed_ms: u64,
    timeout_ms: u64,
) -> PortWaitView {
    match ready::ready_port(output) {
        Some(port) => PortWaitView::Announced(port),
        None => match child {
            ChildState::Exited(status) => PortWaitView::Failed(exited_early(status@, output)),
            ChildState::Unknown(error) => PortWaitView::Failed(wait_failed(error@)),
            ChildState::Running => if elapsed_ms >= timeout_ms {
                PortWaitView::Failed(announced_late(timeout_ms, output))
            } else {
                PortWaitView::Waiting
            },
        },
    }
}

/// One look at a child that is to announce its port.
pub fn poll_port(
    output: &str,
    child: &ChildState,
    elapsed_ms: u64,
    timeout_ms: u64,
) -> (r: PortWait)
    ensures
        r@ == port_wait(output@, *child, elapsed_ms, timeout_ms),
{
    if let Some(port) = ready::parse_ready_port(output) {
        return PortWait::Announced(port);
    }
    match child {
        ChildState::Exited(status) => {
            let tail = output_tail(output);
            PortWait::Failed(
                text::cat4(
                    "Hermes backend exited before port announcement (",
                    status.as_str(),
                    ").",
                    tail.as_str(),
                ),
            )
        },
        ChildState::Unknown(error) => PortWait::Failed(
            text::cat("Hermes backend wait failed: ", error.as_str()),
        ),
        ChildState::Running => {
            if elapsed_ms >= timeout_ms {
                let ms = text::number::write_decimal(timeout_ms);
                let tail = output_tail(output);
                PortWait::Failed(
                    text::cat4(
                        "Timed out waiting for Hermes backend port announcement (",
                        ms.as_str(),
                        "ms).",
                        tail.as_str(),
                    ),
                )
            } else {
                PortWait::Waiting
            }
        },
    }
}

// ---------------------------------------------------------------------------
// Waiting for the first answer
// ---------------------------------------------------------------------------
/// What came back from a probe.
#[derive(Debug, Clone, PartialEq, Eq)]
pub enum ProbeReply {
    /// An HTTP status.
    Status(u16),
    /// No reply, for this reason.
    Error(String),
}

/// What to do after a probe.
#[derive(Debug, Clone, Copy, PartialEq, Eq, Structural)]
pub enum ProbeStep {
    Ready,
    /// Probe again at once.
    RetryNow,
    /// Probe again after the retry interval.
    RetryLater,
}

/// The readiness probe of one backend.
#[derive(Debug, Clone, PartialEq, Eq)]
pub struct ReadyProbe {
    pub base: String,
    pub use_status_fallback: bool,
    pub last_error: String,
}

/// What a `ReadyProbe` says.
#[verifier::ext_equal]
pub struct ReadyProbeView {
    pub base: Seq<char>,
    pub use_status_fallback: bool,
    pub last_error: Seq<char>,
}

impl View for ReadyProbe {
    type V = ReadyProbeView;

    open spec fn view(&self) -> ReadyProbeView {
        ReadyProbeView {
            base: self.base@,
            use_status_fallback: self.use_status_fallback,
            last_error: self.last_error@,
        }
    }
}

/// Whether a wait that has lasted this long may go on.
pub open spec fn in_time(elapsed_ms: u64) -> bool {
    elapsed_ms < BACKEND_READY_TIMEOUT_MS
}

/// Whether an HTTP status reports success.
pub open spec fn is_success(status: u16) -> bool {
    200 <= status <= 299
}

/// What to do after `reply`.
pub open spec fn probe_step(probe: ReadyProbeView, reply: ProbeReply) -> ProbeStep {
    match reply {
        ProbeReply::Status(status) => if is_success(status) {
            ProbeStep::Ready
        } else if !probe.use_status_fallback && status == 404 {
            ProbeStep::RetryNow
        } else {
            ProbeStep::RetryLater
        },
        ProbeReply::Error(_) => ProbeStep::RetryLater,
    }
}

/// The probe after `reply`: a missing route means that the backend predates the
/// health route, and every other failure is remembered.
pub open spec fn probe_after(probe: ReadyProbeView, reply: ProbeReply) -> ReadyProbeView {
    match reply {
        ProbeReply::Status(status) => if is_success(status) {
            probe
        } else {
            ReadyProbeView {
                base: probe.base,
                use_status_fallback: probe.use_status_fallback || status == 404,
                last_error: text::number::decimal(status as nat) + ": probe failed"@,
            }
        },
        ProbeReply::Error(error) => ReadyProbeView { last_error: error@, ..probe },
    }
}

impl ReadyProbe {
    /// The probe of the backend at `base_url`, before the first reply.
    pub fn start(base_url: &str) -> (r: Self)
        ensures
            r@ == (ReadyProbeView {
                base: text::strip_end(base_url@, text::just('/')),
                use_status_fallback: false,
                last_error: "timeout"@,
            }),
    {
        ReadyProbe {
            base: text::trim_end_char(base_url, '/'),
            use_status_fallback: false,
            last_error: "timeout".to_owned(),
        }
    }

    /// Whether a probe may still be sent once the wait has lasted this long.
    pub fn may_probe(&self, elapsed_ms: u64) -> (r: bool)
        ensures
            r == in_time(elapsed_ms),
    {
        elapsed_ms < BACKEND_READY_TIMEOUT_MS
    }

    /// Where to send the next probe.
    pub fn url(&self) -> (r: String)
        ensures
            r@ == self@.base + (if self@.use_status_fallback {
                "/api/status"@
            } else {
                "/api/health"@
            }),
    {
        if self.use_status_fallback {
            text::cat(self.base.as_str(), "/api/status")
        } else {
            text::cat(self.base.as_str(), "/api/health")
        }
    }

    /// Take a reply into account and say what to do next.
    pub fn on_reply(&mut self, reply: &ProbeReply) -> (r: ProbeStep)
        ensures
            r == probe_step(old(self)@, *reply),
            final(self)@ == probe_after(old(self)@, *reply),
    {
        match reply {
            ProbeReply::Status(status) => {
                let status: u16 = *status;
                if 200 <= status && status <= 299 {
                    return ProbeStep::Ready;
                }
                let code = text::number::write_decimal(status as u64);
                self.last_error = text::cat(code.as_str(), ": probe failed");
                if !self.use_status_fallback && status == 404 {
                    self.use_status_fallback = true;
                    ProbeStep::RetryNow
                } else {
                    ProbeStep::RetryLater
                }
            },
            ProbeReply::Error(error) => {
                self.last_error = error.clone();
                ProbeStep::RetryLater
            },
        }
    }

    /// The failure of a backend that did not answer in time.
    pub fn give_up(&self) -> (r: String)
        ensures
            r@ == never_ready(self@.last_error),
    {
        text::cat("Hermes backend did not become ready: ", self.last_error.as_str())
    }
}

/// The failure of a backend that did not answer in time.
pub open spec fn never_ready(last_error: Seq<char>) -> Seq<char> {
    "Hermes backend did not become ready: "@ + last_error
}

/// A probe switches to the older route at most once and never back, and only a
/// switch is retried at once: no reply can make the wait spin.
pub proof fn a_probe_switches_once(probe: ReadyProbeView, reply: ProbeReply)
    ensures
        probe.use_status_fallback ==> probe_after(probe, reply).use_status_fallback
            && probe_step(probe, reply) != ProbeStep::RetryNow,
        probe_step(probe, reply) == ProbeStep::RetryNow ==> !probe.use_status_fallback
            && probe_after(probe, reply).use_status_fallback,
        probe_after(probe, reply).base == probe.base,
{
}

/// One turn of the wait for the first answer.
pub ghost struct ReadyTurn {
    /// How long the wait has lasted when the turn begins.
    pub elapsed_ms: u64,
    /// What a probe that is sent in this turn brings back.
    pub reply: ProbeReply,
}

impl ReadyTurn {
    /// Whether a probe may be sent in this turn, and answers with success.
    pub open spec fn answers(self) -> bool {
        in_time(self.elapsed_ms) && (self.reply matches ProbeReply::Status(status) && is_success(
            status,
        ))
    }
}

/// What comes of the wait for the first answer over its turns, if it ends: each
/// turn looks at the clock, and only in time is a probe sent and its reply taken
/// into account.
pub open spec fn ready_wait(probe: ReadyProbeView, turns: Seq<ReadyTurn>) -> Option<
    Result<(), Seq<char>>,
>
    decreases turns.len(),
{
    if turns.len() == 0 {
        None
    } else if !in_time(turns[0].elapsed_ms) {
        Some(Err(never_ready(probe.last_error)))
    } else if probe_step(probe, turns[0].reply) == ProbeStep::Ready {
        Some(Ok(()))
    } else {
        ready_wait(probe_after(probe, turns[0].reply), turns.skip(1))
    }
}

/// The probe after the replies of `turns`.
pub open spec fn probe_after_all(probe: ReadyProbeView, turns: Seq<ReadyTurn>) -> ReadyProbeView
    decreases turns.len(),
{
    if turns.len() == 0 {
        probe
    } else {
        probe_after_all(probe_after(probe, turns[0].reply), turns.skip(1))
    }
}

/// How many probes the wait sends.
pub open spec fn probes_sent(probe: ReadyProbeView, turns: Seq<ReadyTurn>) -> nat
    decreases turns.len(),
{
    if turns.len() == 0 || !in_time(turns[0].elapsed_ms) {
        0
    } else if probe_step(probe, turns[0].reply) == ProbeStep::Ready {
        1
    } else {
        1 + probes_sent(probe_after(probe, turns[0].reply), turns.skip(1))
    }
}

/// A backend is ready exactly where a probe that was sent in time answers with
/// success, and no probe follows the first that does. Where none did by the time
/// that a turn comes too late, and only there, the wait fails: it has sent a probe
/// in each turn that came in time, and reports the last failure that it saw.
pub proof fn a_backend_is_ready_if_it_answers_in_time(probe: ReadyProbeView, turns: Seq<ReadyTurn>)
    requires
        forall|i: int, j: int|
            0 <= i <= j < turns.len() ==> (#[trigger] turns[i]).elapsed_ms <= (
            #[trigger] turns[j]).elapsed_ms,
    ensures
        ({
            let sent = probes_sent(probe, turns) as int;
            let answered = exists|i: int| 0 <= i < turns.len() && (#[trigger] turns[i]).answers();
            let late = exists|i: int|
                0 <= i < turns.len() && !in_time((#[trigger] turns[i]).elapsed_ms);
            &&& sent <= turns.len()
            &&& ready_wait(probe, turns) == Some(Ok::<(), Seq<char>>(())) <==> answered
            &&& answered ==> 0 < sent && turns[sent - 1].answers() && forall|i: int|
                0 <= i < sent - 1 ==> !(#[trigger] turns[i]).answers()
            &&& late && !answered <==> ready_wait(probe, turns) == Some(
                Err::<(), Seq<char>>(
                    never_ready(probe_after_all(probe, turns.take(sent)).last_error),
                ),
            )
            &&& !answered ==> forall|i: int|
                0 <= i < turns.len() ==> (in_time((#[trigger] turns[i]).elapsed_ms) <==> i < sent)
        }),
    decreases turns.len(),
{
    if turns.len() > 0 {
        let rest = turns.skip(1);
        let sent = probes_sent(probe, turns) as int;
        if !in_time(turns[0].elapsed_ms) {
            assert forall|i: int| 0 <= i < turns.len() implies !in_time(
                (#[trigger] turns[i]).elapsed_ms,
            ) by {
                assert(turns[0].elapsed_ms <= turns[i].elapsed_ms);
            }
            assert(turns.take(sent).len() == 0);
        } else if probe_step(probe, turns[0].reply) == ProbeStep::Ready {
            assert(turns[0].answers());
        } else {
            let next = probe_after(probe, turns[0].reply);
            assert(!turns[0].answers());
            assert forall|i: int, j: int| 0 <= i <= j < rest.len() implies (
            #[trigger] rest[i]).elapsed_ms <= (#[trigger] rest[j]).elapsed_ms by {
                assert(turns[i + 1].elapsed_ms <= turns[j + 1].elapsed_ms);
            }
            a_backend_is_ready_if_it_answers_in_time(next, rest);
            assert forall|i: int| 1 <= i < turns.len() implies #[trigger] turns[i] == rest[
                i - 1] by {}
            assert(turns.take(sent).skip(1) =~= rest.take(sent - 1));
            assert(turns.take(sent)[0] == turns[0]);
            assert(forall|i: int| 0 <= i < rest.len() ==> rest[i] == turns[i + 1]);
        }
    }
}

// ---------------------------------------------------------------------------
// Spawning
// ---------------------------------------------------------------------------
/// A backend that announced its port, with everything needed to talk to it.
///
/// The announced port lives inside `base_url` and not in a field of its own:
/// every consumer wants the URL, and a second copy of the number is one more
/// thing that can drift.
#[derive(Debug, Clone, PartialEq, Eq)]
pub struct BackendHandle {
    pub pid: u32,
    pub base_url: String,
    pub profile: Option<String>,
    pub token: String,
    /// Retained child output, newest last; `None` where it could not be read
    /// without waiting.
    pub output: Option<String>,
}

/// What a `BackendHandle` says.
#[verifier::ext_equal]
pub struct BackendHandleView {
    pub pid: u32,
    pub base_url: Seq<char>,
    pub profile: Option<Seq<char>>,
    pub token: Seq<char>,
    pub output: Option<Seq<char>>,
}

impl View for BackendHandle {
    type V = BackendHandleView;

    open spec fn view(&self) -> BackendHandleView {
        BackendHandleView {
            pid: self.pid,
            base_url: self.base_url@,
            profile: self.profile.deep_view(),
            token: self.token@,
            output: self.output.deep_view(),
        }
    }
}

/// How a child is to be started.
#[derive(Debug, Clone, PartialEq, Eq)]
pub struct SpawnPlan {
    pub program: String,
    pub args: Vec<String>,
    /// Set over the inherited environment, in this order.
    pub env: Vec<(String, String)>,
    pub current_dir: String,
    /// Whether the child leads a process group of its own, which is what stopping
    /// it signals.
    pub own_group: bool,
    /// Whether the child is kept from opening a console window.
    pub no_window: bool,
    pub log_line: String,
}

/// The environment of one backend over the inherited one.
pub open spec fn spawn_env(
    host: Host,
    inherited: InheritedEnv,
    session_token: Seq<char>,
) -> Seq<(Seq<char>, Seq<char>)> {
    env::backend_env(host, host.venv_path(), inherited) + seq![
        ("HERMES_HOME"@, host.hermes_home_path()),
        ("HERMES_DESKTOP"@, "1"@),
        ("HERMES_DASHBOARD_SESSION_TOKEN"@, session_token),
        ("PYTHONUNBUFFERED"@, "1"@),
    ]
}

/// How a backend is started: in the Hermes home, with its environment and the
/// session token that it is to ask for. Off Windows it gets a process group of its
/// own, on Windows it opens no console window.
pub fn spawn_plan(
    program: &str,
    args: &Vec<String>,
    host: &Host,
    inherited: &InheritedEnv,
    session_token: &str,
) -> (r: SpawnPlan)
    ensures
        r.program@ == program@,
        r.args.deep_view() == args.deep_view(),
        r.env.deep_view() == spawn_env(*host, *inherited, session_token@),
        r.current_dir@ == host.hermes_home_path(),
        r.own_group == !host.is_windows,
        r.no_window == host.is_windows,
        r.log_line@ == "spawning backend: "@ + program@ + " "@ + text::scan::join(
            args.deep_view(),
            " "@,
        ),
{
    let home = paths::hermes_home(host);
    let venv = paths::venv_root(host);
    let mut env = env::build_backend_env(host, venv.as_str(), inherited);
    let ghost base = env.deep_view();
    env.push(("HERMES_HOME".to_owned(), home.clone()));
    env.push(("HERMES_DESKTOP".to_owned(), "1".to_owned()));
    env.push(("HERMES_DASHBOARD_SESSION_TOKEN".to_owned(), session_token.to_owned()));
    env.push(("PYTHONUNBUFFERED".to_owned(), "1".to_owned()));
    proof {
        assert(env.deep_view() =~= base + seq![
            ("HERMES_HOME"@, host.hermes_home_path()),
            ("HERMES_DESKTOP"@, "1"@),
            ("HERMES_DASHBOARD_SESSION_TOKEN"@, session_token@),
            ("PYTHONUNBUFFERED"@, "1"@),
        ]);
    }
    let shown = text::scan::join_text(args, " ");
    SpawnPlan {
        program: program.to_owned(),
        args: args.duplicate(),
        env,
        current_dir: home,
        own_group: !host.is_windows,
        no_window: host.is_windows,
        log_line: text::cat4("spawning backend: ", program, " ", shown.as_str()),
    }
}

/// A fresh session token for one backend.
pub fn session_token() -> (r: String)
    ensures
        token::is_random_uuid(r@),
{
    token::random_uuid()
}

/// The failure of a program that could not be started.
pub open spec fn not_started(program: Seq<char>, error: Seq<char>) -> Seq<char> {
    "Failed to spawn Hermes backend ("@ + program + "): "@ + error
}

/// The failure of a program that could not be started.
pub fn spawn_failure(program: &str, error: &str) -> (r: String)
    ensures
        r@ == not_started(program@, error@),
{
    text::cat4("Failed to spawn Hermes backend (", program, "): ", error)
}

/// The failure of a child without a process id.
pub const MISSING_PID: &'static str = "Hermes backend spawned without a pid";

/// Which attempt to start the backend was made.
#[derive(Debug, Clone, PartialEq, Eq)]
pub enum SpawnAttempt {
    /// With the `serve` subcommand.
    Serve,
    /// With the older subcommand, after the first attempt failed.
    Legacy { first_error: String },
}

/// What came of an attempt.
#[derive(Debug, Clone, PartialEq, Eq)]
pub enum AttemptOutcome {
    /// The child announced its port.
    Announced { pid: u32, port: u16 },
    /// It was not started, or was stopped again.
    Failed { error: String },
}

/// What to do after an attempt.
#[derive(Debug, Clone, PartialEq, Eq)]
pub enum SpawnStep {
    /// The backend is up.
    Ready { handle: BackendHandle, log_line: String },
    /// Try the older subcommand.
    Retry { args: Vec<String>, attempt: SpawnAttempt, log_line: String },
    Failed { error: String },
}

/// The base URL of a backend on this machine.
pub open spec fn local_url(port: u16) -> Seq<char> {
    "http://127.0.0.1:"@ + text::number::decimal(port as nat)
}

/// The failure of both attempts.
pub open spec fn both_failed(first_error: Seq<char>, retry_error: Seq<char>) -> Seq<char> {
    retry_error + "\n--- the `serve` attempt failed with ---\n"@ + first_error
}

/// Decide what follows an attempt to start `command`.
///
/// A runtime that predates the `serve` subcommand exits at once, and the older
/// form starts the same headless gateway: so a first attempt that fails before
/// its announcement is repeated once in that form.
pub fn after_attempt(
    command: &BackendCommand,
    profile: Option<&str>,
    session_token: &str,
    attempt: &SpawnAttempt,
    outcome: &AttemptOutcome,
) -> (r: SpawnStep)
    ensures
        match *outcome {
            AttemptOutcome::Announced { pid, port } => {
                &&& r matches SpawnStep::Ready { handle, log_line }
                &&& handle@ == (BackendHandleView {
                    pid,
                    base_url: local_url(port),
                    profile: profile.deep_view(),
                    token: session_token@,
                    output: None,
                })
                &&& log_line@ == "backend ready on "@ + local_url(port) + " (pid "@
                    + text::number::decimal(pid as nat) + ")"@
            },
            AttemptOutcome::Failed { error } => match *attempt {
                SpawnAttempt::Serve => if command::serve_index(command.args.deep_view(), 0)
                    < command.args.deep_view().len() {
                    &&& r matches SpawnStep::Retry { args, attempt: next, log_line }
                    &&& args.deep_view() == command::fallback_args(command.args.deep_view())
                    &&& next matches SpawnAttempt::Legacy { first_error }
                    &&& first_error@ == error@
                    &&& log_line@ == "backend rejected the `serve` form ("@ + error@
                        + "); retrying as `dashboard --no-open`"@
                } else {
                    r matches SpawnStep::Failed { error: reported } && reported@ == error@
                },
                SpawnAttempt::Legacy { first_error } => r matches SpawnStep::Failed {
                    error: reported,
                } && reported@ == both_failed(first_error@, error@),
            },
        },
{
    match outcome {
        AttemptOutcome::Announced { pid, port } => {
            let digits = text::number::write_decimal(*port as u64);
            let base_url = text::cat("http://127.0.0.1:", digits.as_str());
            let pid_text = text::number::write_decimal(*pid as u64);
            let log_line = text::cat5(
                "backend ready on ",
                base_url.as_str(),
                " (pid ",
                pid_text.as_str(),
                ")",
            );
            let handle = BackendHandle {
                pid: *pid,
                base_url,
                profile: match profile {
                    Some(name) => Some(name.to_owned()),
                    None => None,
                },
                token: session_token.to_owned(),
                output: None,
            };
            SpawnStep::Ready { handle, log_line }
        },
        AttemptOutcome::Failed { error } => match attempt {
            SpawnAttempt::Serve => {
                if !command::has_serve(command.args.as_slice()) {
                    return SpawnStep::Failed { error: error.clone() };
                }
                let args = command::dashboard_fallback_args(command.args.as_slice());
                let log_line = text::cat3(
                    "backend rejected the `serve` form (",
                    error.as_str(),
                    "); retrying as `dashboard --no-open`",
                );
                SpawnStep::Retry {
                    args,
                    attempt: SpawnAttempt::Legacy { first_error: error.clone() },
                    log_line,
                }
            },
            SpawnAttempt::Legacy { first_error } => SpawnStep::Failed {
                error: text::cat3(
                    error.as_str(),
                    "\n--- the `serve` attempt failed with ---\n",
                    first_error.as_str(),
                ),
            },
        },
    }
}

proof fn lemma_not_a_prefix(s: Seq<char>, p: Seq<char>, at: int)
    requires
        0 <= at < p.len(),
        at < s.len(),
        s[at] != p[at],
    ensures
        !text::scan::occurs_at(s, p, 0),
{
    if text::scan::occurs_at(s, p, 0) {
        assert(s.subrange(0, p.len() as int)[at] == s[at]);
    }
}

/// A backend that was found but failed to start is never mistaken for one that
/// is not installed: none of the failures after resolution makes the boot run
/// the installer, whether one attempt was made or two.
pub proof fn a_failed_start_is_no_missing_backend(
    program: Seq<char>,
    error: Seq<char>,
    output: Seq<char>,
    timeout_ms: u64,
)
    ensures
        !command::says_backend_not_found(not_started(program, error)),
        !command::says_backend_not_found(MISSING_PID@),
        !command::says_backend_not_found(exited_early(error, output)),
        !command::says_backend_not_found(wait_failed(error)),
        !command::says_backend_not_found(announced_late(timeout_ms, output)),
        !command::says_backend_not_found(never_ready(error)),
        forall|first: Seq<char>|
            !command::says_backend_not_found(
                #[trigger] both_failed(first, not_started(program, error)),
            ),
        forall|first: Seq<char>|
            !command::says_backend_not_found(#[trigger] both_failed(first, MISSING_PID@)),
        forall|first: Seq<char>|
            !command::says_backend_not_found(
                #[trigger] both_failed(first, exited_early(error, output)),
            ),
        forall|first: Seq<char>|
            !command::says_backend_not_found(#[trigger] both_failed(first, wait_failed(error))),
        forall|first: Seq<char>|
            !command::says_backend_not_found(
                #[trigger] both_failed(first, announced_late(timeout_ms, output)),
            ),
{
    reveal_strlit("Hermes backend not found");
    reveal_strlit("Failed to spawn Hermes backend (");
    reveal_strlit("Hermes backend spawned without a pid");
    reveal_strlit("Hermes backend exited before port announcement (");
    reveal_strlit("Hermes backend wait failed: ");
    reveal_strlit("Timed out waiting for Hermes backend port announcement (");
    reveal_strlit("Hermes backend did not become ready: ");
    let p = "Hermes backend not found"@;
    lemma_not_a_prefix(not_started(program, error), p, 0);
    lemma_not_a_prefix(MISSING_PID@, p, 15);
    lemma_not_a_prefix(exited_early(error, output), p, 15);
    lemma_not_a_prefix(wait_failed(error), p, 15);
    lemma_not_a_prefix(announced_late(timeout_ms, output), p, 0);
    lemma_not_a_prefix(never_ready(error), p, 15);
    assert forall|first: Seq<char>| !command::says_backend_not_found(
        #[trigger] both_failed(first, not_started(program, error)),
    ) by {
        lemma_not_a_prefix(both_failed(first, not_started(program, error)), p, 0);
    }
    assert forall|first: Seq<char>| !command::says_backend_not_found(
        #[trigger] both_failed(first, MISSING_PID@),
    ) by {
        lemma_not_a_prefix(both_failed(first, MISSING_PID@), p, 15);
    }
    assert forall|first: Seq<char>| !command::says_backend_not_found(
        #[trigger] both_failed(first, exited_early(error, output)),
    ) by {
        lemma_not_a_prefix(both_failed(first, exited_early(error, output)), p, 15);
    }
    assert forall|first: Seq<char>| !command::says_backend_not_found(
        #[trigger] both_failed(first, wait_failed(error)),
    ) by {
        lemma_not_a_prefix(both_failed(first, wait_failed(error)), p, 15);
    }
    assert forall|first: Seq<char>| !command::says_backend_not_found(
        #[trigger] both_failed(first, announced_late(timeout_ms, output)),
    ) by {
        lemma_not_a_prefix(both_failed(first, announced_late(timeout_ms, output)), p, 0);
    }
}

// ---------------------------------------------------------------------------
// Stopping
// ---------------------------------------------------------------------------
/// What stops a backend and everything that it spawned: the process tree on
/// Windows, the process group elsewhere.
pub fn stop_command(pid: u32, is_windows: bool) -> (r: BackendCommand)
    ensures
        r.program@ == (if is_windows {
            "taskkill"@
        } else {
            "kill"@
        }),
        r.args.deep_view() == (if is_windows {
            seq!["/T"@, "/F"@, "/PID"@, text::number::decimal(pid as nat)]
        } else {
            seq!["-TERM"@, "-"@ + text::number::decimal(pid as nat)]
        }),
{
    let digits = text::number::write_decimal(pid as u64);
    let mut args: Vec<String> = Vec::new();
    if is_windows {
        args.push("/T".to_owned());
        args.push("/F".to_owned());
        args.push("/PID".to_owned());
        args.push(digits);
        proof {
            assert(args.deep_view() =~= seq![
                "/T"@,
                "/F"@,
                "/PID"@,
                text::number::decimal(pid as nat),
            ]);
        }
        BackendCommand { program: "taskkill".to_owned(), args }
    } else {
        args.push("-TERM".to_owned());
        args.push(text::cat("-", digits.as_str()));
        proof {
            assert(args.deep_view() =~= seq![
                "-TERM"@,
                "-"@ + text::number::decimal(pid as nat),
            ]);
        }
        BackendCommand { program: "kill".to_owned(), args }
    }
}

/// What the desktop log says of a stopped backend.
pub fn stopped_log_line(pid: u32) -> (r: String)
    ensures
        r@ == "stopped backend pid "@ + text::number::decimal(pid as nat),
{
    let digits = text::number::write_decimal(pid as u64);
    text::cat("stopped backend pid ", digits.as_str())
}

// ---------------------------------------------------------------------------
// Profiles and the descriptor
// ---------------------------------------------------------------------------
/// The profile name that a request resolves to: an absent or blank profile is
/// the default one.
pub open spec fn canonical(profile: Option<Seq<char>>) -> Seq<char> {
    match text::non_blank(profile) {
        Some(name) => name,
        None => "default"@,
    }
}

/// The profile name that a request resolves to.
///
/// An absent profile *is* the default profile and not a distinct backend. Both
/// spellings arrive for the same backend: the boot dial sends nothing, while a
/// routed request sends the active profile's name.
pub fn canonical_profile<'a>(profile: Option<&'a str>) -> (r: &'a str)
    ensures
        r@ == canonical(profile.deep_view()),
{
    match profile {
        Some(name) => {
            let trimmed = text::trim_slice(name);
            if text::is_empty(trimmed) {
                "default"
            } else {
                trimmed
            }
        },
        None => "default",
    }
}

/// Whether a live backend for `handle_profile` can serve `requested`.
pub open spec fn serves(handle_profile: Option<Seq<char>>, requested: Option<Seq<char>>) -> bool {
    canonical(handle_profile) == canonical(requested)
}

/// Whether a live backend for `handle_profile` can serve `requested` without a
/// respawn.
pub fn serves_profile(handle_profile: Option<&str>, requested: Option<&str>) -> (r: bool)
    ensures
        r == serves(handle_profile.deep_view(), requested.deep_view()),
{
    text::str_eq(canonical_profile(handle_profile), canonical_profile(requested))
}

/// Serving is an equivalence of profiles: a backend serves its own profile,
/// two profiles serve each other or not at all, and what serves one spelling of
/// a profile serves every spelling of it.
pub proof fn serving_is_an_equivalence(
    a: Option<Seq<char>>,
    b: Option<Seq<char>>,
    c: Option<Seq<char>>,
)
    ensures
        serves(a, a),
        serves(a, b) == serves(b, a),
        serves(a, b) && serves(b, c) ==> serves(a, c),
{
}

/// An absent profile, a blank one and the name `default` are one backend, and a
/// profile named otherwise is another.
pub proof fn an_absent_profile_is_the_default(name: Seq<char>)
    ensures
        serves(None, Some("default"@)),
        text::is_blank(name) ==> serves(Some(name), None),
        !text::is_blank(name) && text::trimmed(name) != "default"@ ==> !serves(Some(name), None),
{
    reveal_strlit("default");
    let d = "default"@;
    text::lemma_strip_start(d, text::white(), 0);
    assert(d.subrange(0, d.len() as int) =~= d);
    text::lemma_strip_end(d, text::white(), d.len() as int);
}

/// What the renderer needs in order to talk to a backend.
#[derive(Debug, Clone, PartialEq, Eq)]
pub struct ConnectionDescriptor {
    pub base_url: String,
    pub is_fullscreen: bool,
    pub token: String,
    pub ws_url: String,
    pub logs: Vec<String>,
    /// Only ever `local` or `remote`.
    pub mode: String,
    pub profile: String,
    pub source: String,
}

/// Build the descriptor for a live backend.
pub fn descriptor_for(handle: &BackendHandle) -> (r: ConnectionDescriptor)
    ensures
        r.base_url@ == handle.base_url@,
        !r.is_fullscreen,
        r.token@ == handle.token@,
        r.ws_url@ == ws_url(handle.base_url@, handle.token@),
        r.logs.deep_view() == (match handle.output {
            Some(text) => newest_lines(text@, DESCRIPTOR_LOG_LINES as int),
            None => Seq::empty(),
        }),
        r.mode@ == "local"@,
        r.profile@ == canonical(handle.profile.deep_view()),
        r.source@ == "local"@,
{
    let profile = canonical_profile(text::borrowed(&handle.profile)).to_owned();
    let output = match &handle.output {
        Some(text) => Some(text.as_str()),
        None => None,
    };
    ConnectionDescriptor {
        base_url: handle.base_url.clone(),
        is_fullscreen: false,
        token: handle.token.clone(),
        ws_url: gateway_ws_url(handle.base_url.as_str(), handle.token.as_str()),
        logs: output_lines(output, DESCRIPTOR_LOG_LINES),
        mode: "local".to_owned(),
        profile,
        source: "local".to_owned(),
    }
}

/// A base URL without its scheme.
pub open spec fn without_scheme(base_url: Seq<char>) -> Seq<char> {
    if text::scan::occurs_at(base_url, "https://"@, 0) {
        base_url.skip("https://"@.len() as int)
    } else if text::scan::occurs_at(base_url, "http://"@, 0) {
        base_url.skip("http://"@.len() as int)
    } else {
        base_url
    }
}

/// The gateway's socket URL: the scheme becomes a socket scheme, secure if it
/// was, the host stays, the path loses its trailing slashes, and the token is
/// encoded into the query.
pub open spec fn ws_url(base_url: Seq<char>, session_token: Seq<char>) -> Seq<char> {
    let scheme = if text::scan::occurs_at(base_url, "https://"@, 0) {
        "wss"@
    } else {
        "ws"@
    };
    let rest = without_scheme(base_url);
    let slash = text::scan::first_index(rest, '/') as int;
    let host = rest.subrange(0, slash);
    let prefix = text::strip_end(rest.subrange(slash, rest.len() as int), text::just('/'));
    scheme + "://"@ + host + prefix + "/api/ws?token="@ + text::percent::component(session_token)
}

/// `ws(s)://<host><prefix>/api/ws?token=<encoded token>`.
pub fn gateway_ws_url(base_url: &str, session_token: &str) -> (r: String)
    ensures
        r@ == ws_url(base_url@, session_token@),
{
    let chars = text::chars_of(base_url);
    let n: usize = chars.len();
    let secure = text::scan::starts_with(base_url, "https://");
    let plain = text::scan::starts_with(base_url, "http://");
    proof {
        reveal_strlit("https://");
        reveal_strlit("http://");
    }
    let from: usize = if secure {
        8
    } else if plain {
        7
    } else {
        0
    };
    let ghost rest = without_scheme(base_url@);
    proof {
        assert(rest =~= chars@.subrange(from as int, n as int));
    }
    let mut slash: usize = from;
    while slash < n && chars[slash] != '/'
        invariant
            from <= slash <= n == chars@.len(),
            forall|j: int| from <= j < slash ==> chars@[j] != '/',
        decreases n - slash,
    {
        slash = slash + 1;
    }
    proof {
        assert forall|j: int| 0 <= j < slash - from implies rest[j] != '/' by {
            assert(rest[j] == chars@[j + from]);
        }
        text::scan::lemma_first_index(rest, '/', slash - from);
        assert(rest.subrange(0, slash - from) =~= chars@.subrange(from as int, slash as int));
        assert(rest.subrange(slash - from, rest.len() as int) =~= chars@.subrange(
            slash as int,
            n as int,
        ));
    }
    let host = text::substring(&chars, from, slash);
    let path = text::substring(&chars, slash, n);
    let prefix = text::trim_end_char(path.as_str(), '/');
    let scheme = if secure {
        "wss"
    } else {
        "ws"
    };
    let encoded = encode_uri_component(session_token);
    let start = text::cat4(scheme, "://", host.as_str(), prefix.as_str());
    text::cat3(start.as_str(), "/api/ws?token=", encoded.as_str())
}

/// `value` as one URL component: letters, digits and `-_.!~*'()` pass through,
/// every other byte is percent-encoded.
pub fn encode_uri_component(value: &str) -> (r: String)
    ensures
        r@ == text::percent::component(value@),
{
    text::percent::encode_component(value)
}

/// The socket URL of a local backend names its port, and carries its session
/// token as it is.
pub proof fn a_local_socket_url_carries_port_and_token(port: u16, session_token: Seq<char>)
    requires
        token::is_random_uuid(session_token),
    ensures
        ws_url(local_url(port), session_token) == "ws://127.0.0.1:"@ + text::number::decimal(
            port as nat,
        ) + "/api/ws?token="@ + session_token,
{
    reveal_strlit("https://");
    reveal_strlit("http://");
    reveal_strlit("http://127.0.0.1:");
    reveal_strlit("ws://127.0.0.1:");
    reveal_strlit("ws");
    reveal_strlit("://");
    let digits = text::number::decimal(port as nat);
    let base = local_url(port);
    token::a_random_uuid_needs_no_escape(session_token);
    text::number::value_undoes_decimal(port as nat);
    lemma_not_a_prefix(base, "https://"@, 4);
    assert(base.subrange(0, 7) =~= "http://"@);
    let rest = without_scheme(base);
    assert forall|j: int| 0 <= j < rest.len() implies rest[j] != '/' by {
        if j >= 10 {
            assert(rest[j] == digits[j - 10]);
            assert(text::number::is_digit(digits[j - 10]));
        }
    }
    text::scan::lemma_first_index(rest, '/', rest.len() as int);
    let path = rest.subrange(rest.len() as int, rest.len() as int);
    assert(path =~= Seq::<char>::empty());
    assert(ws_url(base, session_token) =~= "ws://127.0.0.1:"@ + digits + "/api/ws?token="@
        + session_token);
}

// ---------------------------------------------------------------------------
// Laws
// ---------------------------------------------------------------------------
/// Output is retained whole up to 262144 bytes. Beyond that its newest end stays,
/// of at most 131072 bytes, and no more is dropped than that asks for.
pub proof fn the_newest_output_is_retained(s: Seq<char>)
    ensures
        retained(s).is_suffix_of(s),
        text::bytes::byte_len(s) <= 262144 ==> retained(s) == s,
        text::bytes::byte_len(s) > 262144 ==> text::bytes::byte_len(retained(s)) <= 131072,
        text::bytes::byte_len(s) > 262144 ==> forall|i: int|
            0 <= i < s.len() - retained(s).len() ==> text::bytes::byte_len(#[trigger] s.skip(i))
                > 131072,
{
    if text::bytes::byte_len(s) > 262144 {
        text::bytes::the_tail_fits(s, 131072);
        assert forall|i: int| 0 <= i < s.len() - retained(s).len() implies text::bytes::byte_len(
            #[trigger] s.skip(i),
        ) > 131072 by {
            text::bytes::the_tail_is_the_longest_that_fits(s, 131072, i);
        }
    }
}

/// A chunk is logged exactly where a character of it prints: under the name of
/// its stream, and without the white space at its end.
pub proof fn a_chunk_that_prints_is_logged(label: Seq<char>, chunk: Seq<char>)
    ensures
        pump_line(label, chunk) is None <==> forall|i: int|
            0 <= i < chunk.len() ==> text::is_white_space(#[trigger] chunk[i]),
        pump_line(label, chunk) matches Some(line) ==> exists|n: int|
            {
                &&& 0 < n <= chunk.len()
                &&& line == "backend["@ + label + "] "@ + #[trigger] chunk.take(n)
                &&& !text::is_white_space(chunk[n - 1])
                &&& forall|i: int| n <= i < chunk.len() ==> text::is_white_space(#[trigger] chunk[i])
            },
{
    text::stripping_takes_a_run_off_the_end(chunk, text::white());
    let rest = text::trimmed_end(chunk);
    let n = rest.len() as int;
    assert forall|i: int| n <= i < chunk.len() implies text::is_white_space(#[trigger] chunk[i]) by {
        assert(text::white()(chunk[i]));
    }
    if n > 0 {
        assert(rest.last() == chunk[n - 1]);
        assert(!text::white()(rest.last()));
        assert(pump_line(label, chunk) == Some("backend["@ + label + "] "@ + chunk.take(n)));
    }
}

/// A failure quotes the output, where a character of it prints: under a heading,
/// all of it up to 2000 bytes, and else its newest end within them.
pub proof fn a_failure_quotes_the_newest_output(output: Seq<char>)
    ensures
        text::is_blank(output) ==> output_report(output).len() == 0,
        !text::is_blank(output) ==> exists|n: int|
            {
                &&& 0 <= n < text::trimmed(output).len()
                &&& output_report(output) == "\n--- backend output ---\n"@ + #[trigger] text::trimmed(
                    output,
                ).skip(n)
                &&& text::bytes::byte_len(text::trimmed(output).skip(n)) <= 2000
                &&& n > 0 ==> text::bytes::byte_len(text::trimmed(output).skip(n - 1)) > 2000
            },
{
    let shown = text::trimmed(output);
    if !text::is_blank(output) {
        let quoted = text::bytes::last_bytes(shown, 2000);
        text::bytes::the_tail_fits(shown, 2000);
        let n = shown.len() - quoted.len();
        assert(quoted =~= shown.skip(n));
        if n > 0 {
            text::bytes::the_tail_is_the_longest_that_fits(shown, 2000, n - 1);
        }
        if n == shown.len() {
            text::bytes::the_tail_is_the_longest_that_fits(shown, 2000, n - 1);
            let last = shown.skip(n - 1);
            assert(last.drop_last() =~= Seq::<char>::empty());
            assert(text::bytes::byte_len(last.drop_last()) == 0);
            assert(text::bytes::byte_len(last) <= 4);
        }
        assert(output_report(output) == "\n--- backend output ---\n"@ + shown.skip(n));
    }
}

/// A descriptor carries as many of the last lines as it may, in their order.
pub proof fn as_many_lines_as_allowed_are_kept(output: Seq<char>, limit: int)
    requires
        0 <= limit,
    ensures
        ({
            let all = text::scan::lines(output);
            let n = newest_lines(output, limit).len();
            &&& n == limit || (n == all.len() && n < limit)
            &&& forall|i: int|
                0 <= i < n ==> #[trigger] newest_lines(output, limit)[i] == all[all.len() - n + i]
        }),
{
}

/// An announced port ends the wait, whatever became of the child and however long
/// it took. Without one the wait goes on exactly while the child runs and the time
/// is not up; else it fails, and the failure says why and quotes the output.
pub proof fn an_announced_port_ends_the_wait(
    output: Seq<char>,
    child: ChildState,
    elapsed_ms: u64,
    timeout_ms: u64,
)
    ensures
        ({
            let wait = port_wait(output, child, elapsed_ms, timeout_ms);
            &&& forall|port: u16|
                wait == PortWaitView::Announced(port) <==> #[trigger] ready::ready_port(output)
                    == Some(port)
            &&& wait is Waiting <==> ready::ready_port(output) is None && child is Running
                && elapsed_ms < timeout_ms
            &&& wait is Failed <==> ready::ready_port(output) is None && !(child is Running
                && elapsed_ms < timeout_ms)
            &&& wait is Failed && child is Exited ==> wait->Failed_0
                == "Hermes backend exited before port announcement ("@ + child->Exited_0@ + ")."@
                + output_report(output)
            &&& wait is Failed && child is Unknown ==> wait->Failed_0
                == "Hermes backend wait failed: "@ + child->Unknown_0@
            &&& wait is Failed && child is Running ==> wait->Failed_0
                == "Timed out waiting for Hermes backend port announcement ("@
                + text::number::decimal(timeout_ms as nat) + "ms)."@ + output_report(output)
        }),
{
}

/// A success is a status from 200 to 299, a redirection is none, and a wait may go
/// on for 45 seconds.
pub proof fn only_a_status_of_the_two_hundreds_is_a_success(status: u16, elapsed_ms: u64)
    ensures
        is_success(status) <==> status / 100 == 2,
        in_time(elapsed_ms) <==> elapsed_ms < 45_000,
{
}

/// What a reply makes of a probe. A success ends the wait. The first 404 turns to
/// the older route and is followed by a probe at once, every other failure by one
/// after a pause, and the failure that came last is the one that is remembered.
pub proof fn a_failed_probe_is_remembered(probe: ReadyProbeView, reply: ProbeReply)
    ensures
        probe_step(probe, reply) == ProbeStep::Ready <==> (reply matches ProbeReply::Status(status)
            && 200 <= status <= 299),
        probe_step(probe, reply) == ProbeStep::RetryNow <==> !probe.use_status_fallback && reply
            == ProbeReply::Status(404),
        probe_after(probe, reply).use_status_fallback <==> probe.use_status_fallback || reply
            == ProbeReply::Status(404),
        reply matches ProbeReply::Error(error) ==> probe_after(probe, reply).last_error == error@,
        reply is Status && !(200 <= reply->Status_0 <= 299) ==> probe_after(
            probe,
            reply,
        ).last_error == text::number::decimal(reply->Status_0 as nat) + ": probe failed"@,
{
}

/// What a backend finds in its environment: where its home is, that the desktop
/// started it, the token that it is to ask for, and that its output is not held
/// back. What it is given for its runtime stays.
pub proof fn a_backend_is_told_its_home_and_token(
    host: Host,
    inherited: InheritedEnv,
    session_token: Seq<char>,
)
    ensures
        ({
            let env = spawn_env(host, inherited, session_token);
            let runtime = env::backend_env(host, host.venv_path(), inherited);
            &&& env::value_set(env, "HERMES_HOME"@) == Some(host.hermes_home_path())
            &&& env::value_set(env, "HERMES_DESKTOP"@) == Some("1"@)
            &&& env::value_set(env, "HERMES_DASHBOARD_SESSION_TOKEN"@) == Some(session_token)
            &&& env::value_set(env, "PYTHONUNBUFFERED"@) == Some("1"@)
            &&& env::value_set(env, "PATH"@) == env::value_set(runtime, "PATH"@)
            &&& env::value_set(env, "PYTHONUTF8"@) == env::value_set(runtime, "PYTHONUTF8"@)
            &&& env::value_set(env, "PYTHONPATH"@) == env::value_set(runtime, "PYTHONPATH"@)
        }),
{
    reveal_strlit("HERMES_HOME");
    reveal_strlit("HERMES_DESKTOP");
    reveal_strlit("HERMES_DASHBOARD_SESSION_TOKEN");
    reveal_strlit("PYTHONUNBUFFERED");
    reveal_strlit("PATH");
    reveal_strlit("PYTHONUTF8");
    reveal_strlit("PYTHONPATH");
    let runtime = env::backend_env(host, host.venv_path(), inherited);
    let env = spawn_env(host, inherited, session_token);
    reveal_with_fuel(env::value_set, 5);
    let three = env.drop_last();
    let two = three.drop_last();
    let one = two.drop_last();
    assert(one.drop_last() =~= runtime);
    assert(env.last() == ("PYTHONUNBUFFERED"@, "1"@));
    assert(three.last() == ("HERMES_DASHBOARD_SESSION_TOKEN"@, session_token));
    assert(two.last() == ("HERMES_DESKTOP"@, "1"@));
    assert(one.last() == ("HERMES_HOME"@, host.hermes_home_path()));
    assert("HERMES_HOME"@.len() == 11 && "HERMES_DESKTOP"@.len() == 14 && "PATH"@.len() == 4);
    assert("HERMES_DASHBOARD_SESSION_TOKEN"@.len() == 30 && "PYTHONUNBUFFERED"@.len() == 16);
    assert("PYTHONUTF8"@.len() == 10 && "PYTHONPATH"@.len() == 10);
}

/// The failure of both attempts begins with the second failure and ends with the
/// first, so that neither is lost.
pub proof fn both_failures_are_shown(first_error: Seq<char>, retry_error: Seq<char>)
    ensures
        retry_error.is_prefix_of(both_failed(first_error, retry_error)),
        first_error.is_suffix_of(both_failed(first_error, retry_error)),
        both_failed(first_error, retry_error).len() > first_error.len() + retry_error.len(),
{
    reveal_strlit("\n--- the `serve` attempt failed with ---\n");
}

/// The base URL of a local backend names its port and nothing else.
pub proof fn a_local_url_names_its_port(port: u16)
    ensures
        local_url(port) == "http://127.0.0.1:"@ + text::number::decimal(port as nat),
        text::number::value_of(local_url(port).skip("http://127.0.0.1:"@.len() as int)) == port,
{
    let digits = text::number::decimal(port as nat);
    text::number::value_undoes_decimal(port as nat);
    assert(local_url(port).skip("http://127.0.0.1:"@.len() as int) =~= digits);
}

/// A profile is the backend that it names: a name counts without the white space
/// around it, no name and a blank one name the default, and two profiles are the
/// same backend exactly where they come to the same name.
pub proof fn a_profile_is_the_name_that_it_comes_to(
    held: Option<Seq<char>>,
    requested: Option<Seq<char>>,
)
    ensures
        held is Some && !text::is_blank(held->0) ==> canonical(held) == text::trimmed(
            held->0,
        ),
        held is None || text::is_blank(held->0) ==> canonical(held) == "default"@,
        serves(held, requested) <==> canonical(held) == canonical(requested),
        held is None && requested is Some && !text::is_blank(requested->0) ==> (serves(
            held,
            requested,
        ) <==> text::trimmed(requested->0) == "default"@),
        held is Some && requested is Some && !text::is_blank(held->0) && !text::is_blank(
            requested->0,
        ) ==> (serves(held, requested) <==> text::trimmed(held->0) == text::trimmed(requested->0)),
{
}

proof fn lemma_ws_url(
    secure: bool,
    host: Seq<char>,
    path: Seq<char>,
    slashes: Seq<char>,
    session_token: Seq<char>,
)
    requires
        !host.contains('/'),
        path.len() > 0 ==> path[0] == '/' && path.last() != '/',
        forall|i: int| 0 <= i < slashes.len() ==> #[trigger] slashes[i] == '/',
    ensures
        ws_url(
            (if secure {
                "https://"@
            } else {
                "http://"@
            }) + host + path + slashes,
            session_token,
        ) == (if secure {
            "wss://"@
        } else {
            "ws://"@
        }) + host + path + "/api/ws?token="@ + text::percent::component(session_token),
{
    reveal_strlit("https://");
    reveal_strlit("http://");
    reveal_strlit("wss://");
    reveal_strlit("ws://");
    reveal_strlit("wss");
    reveal_strlit("ws");
    reveal_strlit("://");
    let scheme = if secure {
        "https://"@
    } else {
        "http://"@
    };
    let base = scheme + host + path + slashes;
    assert(base.subrange(0, scheme.len() as int) =~= scheme);
    if !secure {
        lemma_not_a_prefix(base, "https://"@, 4);
    }
    let rest = without_scheme(base);
    assert(rest =~= host + path + slashes);
    let n = host.len() as int;
    assert forall|j: int| 0 <= j < n implies rest[j] != '/' by {
        assert(rest[j] == host[j]);
        assert(host.contains(host[j]));
    }
    if n < rest.len() {
        if path.len() > 0 {
            assert(rest[n] == path[0]);
        } else {
            assert(rest[n] == slashes[0]);
        }
    }
    text::scan::lemma_first_index(rest, '/', n);
    let tail = rest.subrange(n, rest.len() as int);
    assert(tail =~= path + slashes);
    assert forall|j: int| path.len() <= j < tail.len() implies text::just('/')(
        #[trigger] tail[j],
    ) by {
        assert(tail[j] == slashes[j - path.len()]);
    }
    if path.len() > 0 {
        assert(tail[path.len() - 1] == path.last());
    }
    text::lemma_strip_end(tail, text::just('/'), path.len() as int);
    assert(tail.subrange(0, path.len() as int) =~= path);
    assert(rest.subrange(0, n) =~= host);
    assert("ws"@ + "://"@ =~= "ws://"@);
    assert("wss"@ + "://"@ =~= "wss://"@);
}

/// The socket URL of a backend stays on its host and below its path: the scheme
/// becomes a socket scheme, secure where it was, slashes at the end of the path go,
/// and the token follows in the query, encoded.
pub proof fn a_socket_url_stays_on_its_host(
    host: Seq<char>,
    path: Seq<char>,
    slashes: Seq<char>,
    session_token: Seq<char>,
)
    requires
        !host.contains('/'),
        path.len() > 0 ==> path[0] == '/' && path.last() != '/',
        forall|i: int| 0 <= i < slashes.len() ==> #[trigger] slashes[i] == '/',
    ensures
        ws_url("http://"@ + host + path + slashes, session_token) == "ws://"@ + host + path
            + "/api/ws?token="@ + text::percent::component(session_token),
        ws_url("https://"@ + host + path + slashes, session_token) == "wss://"@ + host + path
            + "/api/ws?token="@ + text::percent::component(session_token),
{
    lemma_ws_url(false, host, path, slashes, session_token);
    lemma_ws_url(true, host, path, slashes, session_token);
}

// ---------------------------------------------------------------------------
// Laws of the operations themselves
// ---------------------------------------------------------------------------
/// A readiness probe begins with the health endpoint, asks the status endpoint
/// once the backend has said that it has no other, and is given up after
/// forty-five seconds.
pub proof fn a_backend_is_asked_for_its_health(
    base_url: &str,
    started: ReadyProbe,
    url: String,
    elapsed_ms: u64,
    may: bool,
    probe: ReadyProbe,
    later: String,
)
    requires
        call_ensures(ReadyProbe::start, (base_url,), started),
        call_ensures(ReadyProbe::url, (&started,), url),
        call_ensures(ReadyProbe::may_probe, (&started, elapsed_ms), may),
        call_ensures(ReadyProbe::url, (&probe,), later),
    ensures
        base_url@.len() > 0 && base_url@.last() != '/' ==> url@ == base_url@ + "/api/health"@,
        started.last_error@ == "timeout"@,
        may <==> elapsed_ms < 45000,
        later@ == probe.base@ + if probe.use_status_fallback {
            "/api/status"@
        } else {
            "/api/health"@
        },
{
    let base = base_url@;
    if base.len() > 0 && base.last() != '/' {
        text::stripping_takes_a_run_off_the_end(base, text::just('/'));
    }
}

/// A backend that announced its port is held by it and by the token that it was
/// given; one that failed is started over once, as a dashboard, and the second
/// failure ends it.
pub proof fn a_failed_backend_is_started_over_once(
    command: BackendCommand,
    profile: Option<&str>,
    session_token: &str,
    error: String,
    second_error: String,
    pid: u32,
    port: u16,
    attempt: SpawnAttempt,
    ready: SpawnStep,
    first: SpawnStep,
    second: SpawnStep,
)
    requires
        call_ensures(
            after_attempt,
            (
                &command,
                profile,
                session_token,
                &attempt,
                &(AttemptOutcome::Announced { pid, port }),
            ),
            ready,
        ),
        call_ensures(
            after_attempt,
            (
                &command,
                profile,
                session_token,
                &SpawnAttempt::Serve,
                &(AttemptOutcome::Failed { error }),
            ),
            first,
        ),
        call_ensures(
            after_attempt,
            (
                &command,
                profile,
                session_token,
                &(SpawnAttempt::Legacy { first_error: error }),
                &(AttemptOutcome::Failed { error: second_error }),
            ),
            second,
        ),
    ensures
        ready is Ready,
        ready->handle.pid == pid,
        ready->handle.token@ == session_token@,
        ready->handle.profile.deep_view() == profile.deep_view(),
        ready->handle.base_url@ == "http://127.0.0.1:"@ + text::number::decimal(port as nat),
        ({
            let args = command.args.deep_view();
            let older = command::fallback_args(args);
            &&& older != args ==> {
                &&& first is Retry
                &&& first->args.deep_view() == older
                &&& first->attempt is Legacy && first->attempt->first_error@ == error@
            }
            &&& older == args ==> first is Failed && first->error@ == error@
        }),
        second is Failed,
        second->error@ == both_failed(error@, second_error@),
{
    let args = command.args.deep_view();
    command::a_subcommand_is_found_where_it_stands(args);
    if command::serve_index(args, 0) < args.len() {
        assert(command::fallback_args(args).len() == args.len() + 1);
    }
}

/// A backend is started as it was resolved, in Hermes's own directory; where groups
/// of processes are, in one of its own, so that stopping it stops what it started,
/// and on Windows without a window.
pub proof fn a_backend_is_started_in_its_home(
    program: &str,
    args: Vec<String>,
    host: Host,
    inherited: InheritedEnv,
    session_token: &str,
    plan: SpawnPlan,
)
    requires
        call_ensures(spawn_plan, (program, &args, &host, &inherited, session_token), plan),
    ensures
        plan.program@ == program@,
        plan.args.deep_view() == args.deep_view(),
        plan.current_dir@ == host.hermes_home_path(),
        plan.own_group <==> !host.is_windows,
        plan.no_window <==> host.is_windows,
        plan.env.deep_view() == spawn_env(host, inherited, session_token@),
{
}

/// Stopping a backend stops the processes that it started with it: its group, by
/// the negative of its number, or its tree.
pub proof fn a_backend_is_stopped_with_its_children(
    pid: u32,
    posix: BackendCommand,
    windows: BackendCommand,
)
    requires
        call_ensures(stop_command, (pid, false), posix),
        call_ensures(stop_command, (pid, true), windows),
    ensures
        posix.program@ == "kill"@,
        posix.args.deep_view() == seq!["-TERM"@, "-"@ + text::number::decimal(pid as nat)],
        windows.program@ == "taskkill"@,
        windows.args.deep_view() == seq![
            "/T"@,
            "/F"@,
            "/PID"@,
            text::number::decimal(pid as nat),
        ],
{
}

} // verus!
