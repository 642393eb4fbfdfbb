use vstd::prelude::*;

verus! {

/// A spawned worker process, as far as the supervisor needs it.
pub trait WorkerProcess {
    /// Terminates the process at once, without a shutdown handshake.
    fn kill(&mut self) -> Result<(), String>;
}

/// The writing end of a worker's input stream.
pub trait WorkerInput {
    fn write_text(&mut self, text: &str) -> Result<(), String>;

    fn flush(&mut self) -> Result<(), String>;
}

/// Where the supervisor stands in a worker's lifecycle.
pub enum PhaseView {
    Stopped,
    /// A caller has claimed the right to spawn and is doing so.
    Starting,
    /// A worker is live; `instance` tells it apart from earlier ones, and `input` is
    /// all the text written to its input stream so far.
    Running { instance: u64, runtime_path: Seq<char>, input: Seq<char> },
}

pub struct SupervisorView {
    pub phase: PhaseView,
    /// The instance number that the next started worker receives.
    pub next_instance: u64,
}

/// What a request to start finds.
#[derive(Clone, Copy, Debug, PartialEq, Eq, Structural)]
pub enum StartGate {
    /// No worker is live: the caller now holds the start and must finish or abort it.
    Proceed,
    AlreadyStarting,
    AlreadyRunning,
}

pub open spec fn gate_text(g: StartGate) -> Seq<char> {
    match g {
        StartGate::Proceed => "Sidecar starting"@,
        StartGate::AlreadyStarting => "Sidecar already starting"@,
        StartGate::AlreadyRunning => "Sidecar already running"@,
    }
}

impl StartGate {
    /// The confirmation for a start request that found a worker already on its way.
    pub fn message(&self) -> (r: String)
        ensures
            r@ == gate_text(*self),
    {
        match self {
            StartGate::Proceed => String::from_str("Sidecar starting"),
            StartGate::AlreadyStarting => String::from_str("Sidecar already starting"),
            StartGate::AlreadyRunning => String::from_str("Sidecar already running"),
        }
    }
}

pub open spec fn successor(n: u64) -> u64 {
    if n == u64::MAX {
        0
    } else {
        (n + 1) as u64
    }
}

pub open spec fn initial_view() -> SupervisorView {
    SupervisorView { phase: PhaseView::Stopped, next_instance: 0 }
}

pub open spec fn is_running(s: SupervisorView) -> bool {
    s.phase is Running
}

pub open spec fn start_gate(s: SupervisorView) -> StartGate {
    match s.phase {
        PhaseView::Stopped => StartGate::Proceed,
        PhaseView::Starting => StartGate::AlreadyStarting,
        PhaseView::Running { .. } => StartGate::AlreadyRunning,
    }
}

pub open spec fn after_begin_start(s: SupervisorView) -> SupervisorView {
    match s.phase {
        PhaseView::Stopped => SupervisorView { phase: PhaseView::Starting, next_instance: s.next_instance },
        _ => s,
    }
}

pub open spec fn after_abort_start(s: SupervisorView) -> SupervisorView {
    match s.phase {
        PhaseView::Starting => SupervisorView { phase: PhaseView::Stopped, next_instance: s.next_instance },
        _ => s,
    }
}

pub open spec fn after_finish_start(s: SupervisorView, runtime_path: Seq<char>) -> SupervisorView {
    SupervisorView {
        phase: PhaseView::Running { instance: s.next_instance, runtime_path, input: Seq::empty() },
        next_instance: successor(s.next_instance),
    }
}

/// An explicit stop always leaves no worker behind.
pub open spec fn after_stop(s: SupervisorView) -> SupervisorView {
    match s.phase {
        PhaseView::Running { .. } => SupervisorView { phase: PhaseView::Stopped, next_instance: s.next_instance },
        _ => s,
    }
}

/// The end of a worker's output stops the supervisor only if that worker is the live one.
pub open spec fn after_exit(s: SupervisorView, instance: u64) -> SupervisorView {
    match s.phase {
        PhaseView::Running { instance: live, .. } => if live == instance {
            SupervisorView { phase: PhaseView::Stopped, next_instance: s.next_instance }
        } else {
            s
        },
        _ => s,
    }
}

struct Worker<C, W> {
    process: C,
    input: W,
    runtime_path: String,
    instance: u64,
    written: Ghost<Seq<char>>,
}

enum Slot<C, W> {
    Stopped,
    Starting,
    Running(Worker<C, W>),
}

/// Owns at most one worker and its handles; every lifecycle step goes through it.
pub struct Supervisor<C, W> {
    slot: Slot<C, W>,
    next_instance: u64,
}

impl<C, W> View for Supervisor<C, W> {
    type V = SupervisorView;

    closed spec fn view(&self) -> SupervisorView {
        SupervisorView {
            phase: match self.slot {
                Slot::Stopped => PhaseView::Stopped,
                Slot::Starting => PhaseView::Starting,
                Slot::Running(w) => PhaseView::Running {
                    instance: w.instance,
                    runtime_path: w.runtime_path@,
                    input: w.written@,
                },
            },
            next_instance: self.next_instance,
        }
    }
}

impl<C: WorkerProcess, W: WorkerInput> Default for Supervisor<C, W> {
    fn default() -> (r: Self)
        ensures
            r@ == initial_view(),
    {
        Supervisor::new()
    }
}

impl<C: WorkerProcess, W: WorkerInput> Supervisor<C, W> {
    pub fn new() -> (r: Self)
        ensures
            r@ == initial_view(),
    {
        Supervisor { slot: Slot::Stopped, next_instance: 0 }
    }

    pub fn is_running(&self) -> (r: bool)
        ensures
            r == is_running(self@),
    {
        match self.slot {
            Slot::Running(_) => true,
            _ => false,
        }
    }

    pub fn is_starting(&self) -> (r: bool)
        ensures
            r == (self@.phase is Starting),
    {
        match self.slot {
            Slot::Starting => true,
            _ => false,
        }
    }

    /// Claims the start when no worker is live or starting; otherwise changes nothing.
    pub fn begin_start(&mut self) -> (r: StartGate)
        ensures
            r == start_gate(old(self)@),
            final(self)@ == after_begin_start(old(self)@),
    {
        match self.slot {
            Slot::Stopped => {
                self.slot = Slot::Starting;
                StartGate::Proceed
            },
            Slot::Starting => StartGate::AlreadyStarting,
            Slot::Running(_) => StartGate::AlreadyRunning,
        }
    }

    /// Gives up a claimed start after `error`, and returns the text that reports it.
    pub fn abort_start(&mut self, error: StartError) -> (r: String)
        ensures
            final(self)@ == after_abort_start(old(self)@),
            r@ == start_error_text(error),
    {
        if let Slot::Starting = self.slot {
            self.slot = Slot::Stopped;
        }
        error.message()
    }
    /// Installs a freshly spawned worker in a claimed start and returns its instance
    /// number with a confirmation naming the runtime.
    pub fn finish_start(&mut self, process: C, input: W, runtime_path: String) -> (r: (u64, String))
        requires
            old(self)@.phase is Starting,
        ensures
            final(self)@ == after_finish_start(old(self)@, runtime_path@),
            r.0 == old(self)@.next_instance,
            r.1@ == started_text(runtime_path@),
    {
        let mut text = String::from_str("Sidecar started with Node at ");
        text.append(runtime_path.as_str());
        let instance = self.next_instance;
        self.next_instance = if instance == u64::MAX {
            0
        } else {
            instance + 1
        };
        self.slot = Slot::Running(
            Worker { process, input, runtime_path, instance, written: Ghost(Seq::empty()) },
        );
        (instance, text)
    }

    /// Kills the live worker and drops its handles. The supervisor is left stopped
    /// whether or not the kill succeeded; with no live worker this is a success that
    /// changes nothing.
    pub fn stop(&mut self) -> (r: Result<String, String>)
        ensures
            final(self)@ == after_stop(old(self)@),
            !is_running(old(self)@) ==> r is Ok && r->Ok_0@ == not_running_text(),
            is_running(old(self)@) && r is Ok ==> r->Ok_0@ == stopped_text(),
    {
        let mut slot = Slot::Stopped;
        core::mem::swap(&mut self.slot, &mut slot);
        match slot {
            Slot::Running(mut worker) => {
                match worker.process.kill() {
                    Ok(()) => Ok(String::from_str("Sidecar stopped")),
                    Err(e) => Err(e),
                }
            },
            other => {
                self.slot = other;
                Ok(String::from_str("Sidecar was not running"))
            },
        }
    }

    /// Records that the output stream of worker `instance` has ended. Only the live
    /// worker's end stops the supervisor; a late signal from an earlier worker changes
    /// nothing. Returns whether the supervisor stopped.
    pub fn worker_exited(&mut self, instance: u64) -> (r: bool)
        ensures
            final(self)@ == after_exit(old(self)@, instance),
            r == (is_running(old(self)@) && old(self)@.phase->instance == instance),
    {
        let live = match &self.slot {
            Slot::Running(worker) => worker.instance == instance,
            _ => false,
        };
        if live {
            self.slot = Slot::Stopped;
        }
        live
    }

    /// Writes `message` and one newline to the live worker's input and flushes it.
    pub fn send(&mut self, message: &str) -> (r: Result<String, SendError>)
        ensures
            r matches Err(SendError::NotRunning) <==> !is_running(old(self)@),
            r is Ok ==> r->Ok_0@ == sent_text() && final(self)@ == after_send(old(self)@, message@),
            r is Err ==> final(self)@ == old(self)@ || final(self)@ == after_send(old(self)@, message@),
    {
        match &mut self.slot {
            Slot::Running(worker) => {
                let line = frame_line(message);
                match worker.input.write_text(line.as_str()) {
                    Ok(()) => {
                        worker.written = Ghost(worker.written@ + line@);
                    },
                    Err(e) => {
                        return Err(SendError::Write(e));
                    },
                }
                match worker.input.flush() {
                    Ok(()) => Ok(String::from_str("Message sent")),
                    Err(e) => Err(SendError::Write(e)),
                }
            },
            _ => Err(SendError::NotRunning),
        }
    }
}

pub open spec fn framed(message: Seq<char>) -> Seq<char> {
    message.push('\n')
}

/// A successful send appends the framed message to the live worker's input.
pub open spec fn after_send(s: SupervisorView, message: Seq<char>) -> SupervisorView {
    match s.phase {
        PhaseView::Running { instance, runtime_path, input } => SupervisorView {
            phase: PhaseView::Running { instance, runtime_path, input: input + framed(message) },
            next_instance: s.next_instance,
        },
        _ => s,
    }
}

/// The text written for one message: the message and exactly one newline.
pub fn frame_line(message: &str) -> (r: String)
    ensures
        r@ == framed(message@),
{
    let mut line = String::from_str(message);
    line.append("\n");
    proof {
        reveal_strlit("\n");
        assert(line@ =~= framed(message@));
    }
    line
}

pub open spec fn started_text(runtime_path: Seq<char>) -> Seq<char> {
    "Sidecar started with Node at "@ + runtime_path
}

pub open spec fn stopped_text() -> Seq<char> {
    "Sidecar stopped"@
}

pub open spec fn not_running_text() -> Seq<char> {
    "Sidecar was not running"@
}

pub open spec fn sent_text() -> Seq<char> {
    "Message sent"@
}

/// Why a message could not be handed to the worker.
#[derive(Debug, PartialEq, Eq)]
pub enum SendError {
    /// No worker is live, so there is no input stream to write to.
    NotRunning,
    /// Writing or flushing the input stream failed.
    Write(String),
}

impl SendError {
    pub fn message(&self) -> (r: String)
        ensures
            self is NotRunning ==> r@ == "Sidecar not running or stdin not available"@,
            self matches SendError::Write(e) ==> r@ == e@,
    {
        match self {
            SendError::NotRunning => String::from_str("Sidecar not running or stdin not available"),
            SendError::Write(e) => e.clone(),
        }
    }
}

/// Two requests to start in succession never both proceed; once a start has
/// finished, a further request finds the worker running and changes nothing.
pub proof fn lemma_start_twice_spawns_once(s: SupervisorView, runtime_path: Seq<char>)
    ensures
        start_gate(after_begin_start(s)) != StartGate::Proceed,
        start_gate(s) == StartGate::Proceed ==> {
            let started = after_finish_start(after_begin_start(s), runtime_path);
            &&& is_running(started)
            &&& start_gate(started) == StartGate::AlreadyRunning
            &&& after_begin_start(started) == started
        },
{
}

/// Stopping a supervisor that never started is a success that changes nothing.
pub proof fn lemma_stop_before_start()
    ensures
        !is_running(initial_view()),
        after_stop(initial_view()) == initial_view(),
{
}

/// The end of the live worker's output leaves the supervisor stopped, and a second
/// signal for that worker changes nothing more.
pub proof fn lemma_output_end_stops_once(s: SupervisorView, instance: u64)
    requires
        s.phase matches PhaseView::Running { instance: live, .. } && live == instance,
    ensures
        !is_running(after_exit(s, instance)),
        after_exit(after_exit(s, instance), instance) == after_exit(s, instance),
{
}

/// The text that a sequence of messages puts on the worker's input, first message first.
pub open spec fn input_stream(messages: Seq<Seq<char>>) -> Seq<char>
    decreases messages.len(),
{
    if messages.len() == 0 {
        seq![]
    } else {
        framed(messages[0]) + input_stream(messages.subrange(1, messages.len() as int))
    }
}

/// The state after each message in turn has been sent successfully.
pub open spec fn after_sends(s: SupervisorView, messages: Seq<Seq<char>>) -> SupervisorView
    decreases messages.len(),
{
    if messages.len() == 0 {
        s
    } else {
        after_send(after_sends(s, messages.drop_last()), messages.last())
    }
}

/// Position of the first newline in `text`, or its length when it holds none.
pub open spec fn newline_index(text: Seq<char>) -> nat
    decreases text.len(),
{
    if text.len() == 0 || text[0] == '\n' {
        0
    } else {
        1 + newline_index(text.subrange(1, text.len() as int))
    }
}

/// The lines a reader of `text` sees, each without its newline.
pub open spec fn lines_of(text: Seq<char>) -> Seq<Seq<char>>
    decreases text.len(),
{
    if text.len() == 0 {
        seq![]
    } else {
        let j = newline_index(text);
        if j >= text.len() {
            seq![text]
        } else {
            seq![text.subrange(0, j as int)] + lines_of(text.subrange(j + 1 as int, text.len() as int))
        }
    }
}

pub open spec fn has_no_newline(message: Seq<char>) -> bool {
    forall|i: int| 0 <= i < message.len() ==> message[i] != '\n'
}

proof fn lemma_input_stream_push(messages: Seq<Seq<char>>, m: Seq<char>)
    ensures
        input_stream(messages.push(m)) == input_stream(messages) + framed(m),
    decreases messages.len(),
{
    let all = messages.push(m);
    if messages.len() == 0 {
        assert(all.subrange(1, all.len() as int) =~= Seq::<Seq<char>>::empty());
        assert(all[0] == m);
        assert(input_stream(all.subrange(1, all.len() as int)) == Seq::<char>::empty());
        assert(input_stream(all) =~= framed(m));
    } else {
        let rest = messages.subrange(1, messages.len() as int);
        assert(all.subrange(1, all.len() as int) =~= rest.push(m));
        lemma_input_stream_push(rest, m);
        assert(input_stream(all) =~= input_stream(messages) + framed(m));
    }
}

proof fn lemma_newline_after(m: Seq<char>, rest: Seq<char>)
    requires
        has_no_newline(m),
    ensures
        newline_index(framed(m) + rest) == m.len(),
    decreases m.len(),
{
    let t = framed(m) + rest;
    if m.len() > 0 {
        let tail = m.subrange(1, m.len() as int);
        assert(t[0] == m[0]);
        assert(t.subrange(1, t.len() as int) =~= framed(tail) + rest);
        assert forall|i: int| 0 <= i < tail.len() implies tail[i] != '\n' by {
            assert(tail[i] == m[i + 1]);
        }
        lemma_newline_after(tail, rest);
    } else {
        assert(t[0] == '\n');
    }
}

/// Messages without newlines, sent in turn to a fresh worker, reach it as exactly
/// those lines, in the order sent: each is closed by one newline.
pub proof fn lemma_sends_arrive_in_order(s: SupervisorView, messages: Seq<Seq<char>>)
    requires
        s.phase matches PhaseView::Running { input, .. } && input.len() == 0,
        forall|i: int| 0 <= i < messages.len() ==> has_no_newline(#[trigger] messages[i]),
    ensures
        after_sends(s, messages).phase matches PhaseView::Running { input, .. } && input
            == input_stream(messages),
        lines_of(input_stream(messages)) == messages,
    decreases messages.len(),
{
    if messages.len() > 0 {
        let prev = messages.drop_last();
        assert forall|i: int| 0 <= i < prev.len() implies has_no_newline(#[trigger] prev[i]) by {
            assert(prev[i] == messages[i]);
        }
        lemma_sends_arrive_in_order(s, prev);
        lemma_input_stream_push(prev, messages.last());
        assert(prev.push(messages.last()) =~= messages);
        let rest = messages.subrange(1, messages.len() as int);
        assert forall|i: int| 0 <= i < rest.len() implies has_no_newline(#[trigger] rest[i]) by {
            assert(rest[i] == messages[i + 1]);
        }
        lemma_split_stream(messages);
    }
}

proof fn lemma_split_stream(messages: Seq<Seq<char>>)
    requires
        forall|i: int| 0 <= i < messages.len() ==> has_no_newline(#[trigger] messages[i]),
    ensures
        lines_of(input_stream(messages)) == messages,
    decreases messages.len(),
{
    if messages.len() > 0 {
        let m = messages[0];
        let rest = messages.subrange(1, messages.len() as int);
        assert forall|i: int| 0 <= i < rest.len() implies has_no_newline(#[trigger] rest[i]) by {
            assert(rest[i] == messages[i + 1]);
        }
        assert(has_no_newline(messages[0]));
        lemma_split_stream(rest);
        let t = input_stream(messages);
        let tail = input_stream(rest);
        assert(t == framed(m) + tail);
        lemma_newline_after(m, tail);
        assert(t.subrange(0, m.len() as int) =~= m);
        assert(t.subrange(m.len() + 1 as int, t.len() as int) =~= tail);
        assert(seq![m] + rest =~= messages);
    }
}

/// Why a worker could not be started.
#[derive(Debug, PartialEq, Eq)]
pub enum StartError {
    /// No script runtime was found.
    RuntimeNotFound,
    /// Neither location of the worker's entry script exists; both are named.
    WorkerNotFound { development: Option<String>, packaged: String },
    /// The application's resource directory could not be determined.
    ResourceDir(String),
    /// The operating system refused to create the process.
    SpawnFailed(String),
    StdinUnavailable,
    StdoutUnavailable,
    StderrUnavailable,
}

pub open spec fn quoted(text: Seq<char>) -> Seq<char> {
    seq!['"'] + text + seq!['"']
}

pub open spec fn worker_not_found_text(development: Option<Seq<char>>, packaged: Seq<char>) -> Seq<char> {
    match development {
        Some(d) => "Sidecar not found at "@ + quoted(d) + " or "@ + quoted(packaged),
        None => "Sidecar not found at "@ + quoted(packaged),
    }
}

pub open spec fn start_error_text(e: StartError) -> Seq<char> {
    match e {
        StartError::RuntimeNotFound => "Node.js not found"@,
        StartError::WorkerNotFound { development, packaged } => worker_not_found_text(
            development.deep_view(),
            packaged@,
        ),
        StartError::ResourceDir(detail) => detail@,
        StartError::SpawnFailed(detail) => "Failed to start sidecar: "@ + detail@,
        StartError::StdinUnavailable => "Failed to get stdin"@,
        StartError::StdoutUnavailable => "Failed to get stdout"@,
        StartError::StderrUnavailable => "Failed to get stderr"@,
    }
}

fn push_quoted(text: &mut String, item: &str)
    ensures
        final(text)@ == old(text)@ + quoted(item@),
{
    let ghost before = text@;
    text.append("\"");
    text.append(item);
    text.append("\"");
    proof {
        reveal_strlit("\"");
        assert(text@ =~= before + quoted(item@));
    }
}

impl StartError {
    /// The text shown to the caller of a failed start.
    pub fn message(&self) -> (r: String)
        ensures
            r@ == start_error_text(*self),
    {
        match self {
            StartError::RuntimeNotFound => String::from_str("Node.js not found"),
            StartError::WorkerNotFound { development, packaged } => {
                let mut text = String::from_str("Sidecar not found at ");
                match development {
                    Some(d) => {
                        push_quoted(&mut text, d.as_str());
                        text.append(" or ");
                        push_quoted(&mut text, packaged.as_str());
                    },
                    None => {
                        push_quoted(&mut text, packaged.as_str());
                    },
                }
                text
            },
            StartError::ResourceDir(detail) => detail.clone(),
            StartError::SpawnFailed(detail) => {
                let mut text = String::from_str("Failed to start sidecar: ");
                text.append(detail.as_str());
                text
            },
            StartError::StdinUnavailable => String::from_str("Failed to get stdin"),
            StartError::StdoutUnavailable => String::from_str("Failed to get stdout"),
            StartError::StderrUnavailable => String::from_str("Failed to get stderr"),
        }
    }
}

} // verus!
