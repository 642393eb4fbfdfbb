use vstd::prelude::*;

verus! {

/// Which of the worker's output streams a reader drains.
#[derive(Clone, Copy, Debug, PartialEq, Eq, Structural)]
pub enum StreamSource {
    Stdout,
    Stderr,
}

/// One result of reading a line from a stream, the line terminator removed.
#[derive(Debug, PartialEq, Eq)]
pub enum LineRead {
    Line(String),
    /// The read failed; the text describes why.
    Failed(String),
    /// The stream reached its end.
    Closed,
}

pub enum LineReadView {
    Line(Seq<char>),
    Failed(Seq<char>),
    Closed,
}

impl View for LineRead {
    type V = LineReadView;

    open spec fn view(&self) -> LineReadView {
        match self {
            LineRead::Line(l) => LineReadView::Line(l@),
            LineRead::Failed(e) => LineReadView::Failed(e@),
            LineRead::Closed => LineReadView::Closed,
        }
    }
}

/// An event handed to the host.
#[derive(Debug, PartialEq, Eq)]
pub enum StreamEvent {
    /// A line the worker wrote on its output.
    Message(String),
    /// A line the worker wrote on its error stream.
    StderrLine(String),
    /// Reading one of the streams failed.
    ReadError(String),
    /// The worker's output has ended.
    Exited,
}

pub enum EventView {
    Message(Seq<char>),
    StderrLine(Seq<char>),
    ReadError(Seq<char>),
    Exited,
}

impl View for StreamEvent {
    type V = EventView;

    open spec fn view(&self) -> EventView {
        match self {
            StreamEvent::Message(l) => EventView::Message(l@),
            StreamEvent::StderrLine(l) => EventView::StderrLine(l@),
            StreamEvent::ReadError(e) => EventView::ReadError(e@),
            StreamEvent::Exited => EventView::Exited,
        }
    }
}

pub open spec fn event_name(e: EventView) -> Seq<char> {
    match e {
        EventView::Message(_) => "worker-message"@,
        EventView::StderrLine(_) => "worker-stderr"@,
        EventView::ReadError(_) => "worker-error"@,
        EventView::Exited => "worker-exit"@,
    }
}

impl StreamEvent {
    /// The name under which the host receives this event.
    pub fn name(&self) -> (r: String)
        ensures
            r@ == event_name(self@),
    {
        match self {
            StreamEvent::Message(_) => String::from_str("worker-message"),
            StreamEvent::StderrLine(_) => String::from_str("worker-stderr"),
            StreamEvent::ReadError(_) => String::from_str("worker-error"),
            StreamEvent::Exited => String::from_str("worker-exit"),
        }
    }

    pub fn is_exit(&self) -> (r: bool)
        ensures
            r == (self@ is Exited),
    {
        match self {
            StreamEvent::Exited => true,
            _ => false,
        }
    }
}

pub open spec fn is_terminal(r: LineReadView) -> bool {
    !(r is Line)
}

pub open spec fn has_terminal(reads: Seq<LineReadView>) -> bool {
    exists|i: int| 0 <= i < reads.len() && is_terminal(#[trigger] reads[i])
}

pub open spec fn read_error_text(e: Seq<char>) -> Seq<char> {
    "Read error: "@ + e
}

/// The events for one read of a stream that is still open. Empty lines are skipped;
/// only the end of the worker's output, by failure or by close, is its exit.
pub open spec fn events_of_read(source: StreamSource, r: LineReadView) -> Seq<EventView> {
    match r {
        LineReadView::Line(l) => if l.len() == 0 {
            seq![]
        } else if source == StreamSource::Stdout {
            seq![EventView::Message(l)]
        } else {
            seq![EventView::StderrLine(l)]
        },
        LineReadView::Failed(e) => if source == StreamSource::Stdout {
            seq![EventView::ReadError(read_error_text(e)), EventView::Exited]
        } else {
            seq![EventView::ReadError(read_error_text(e))]
        },
        LineReadView::Closed => if source == StreamSource::Stdout {
            seq![EventView::Exited]
        } else {
            seq![]
        },
    }
}

/// All events for a sequence of reads of one stream: reading stops at the first
/// failure or end, and whatever is read after it is ignored.
pub open spec fn stream_events(source: StreamSource, reads: Seq<LineReadView>) -> Seq<EventView>
    decreases reads.len(),
{
    if reads.len() == 0 {
        seq![]
    } else if has_terminal(reads.drop_last()) {
        stream_events(source, reads.drop_last())
    } else {
        stream_events(source, reads.drop_last()) + events_of_read(source, reads.last())
    }
}

pub open spec fn event_views(events: Seq<StreamEvent>) -> Seq<EventView> {
    events.map_values(|e: StreamEvent| e@)
}

pub struct ReaderView {
    pub source: StreamSource,
    /// Every read handed to the reader so far, in order.
    pub reads: Seq<LineReadView>,
}

/// Turns the reads of one worker stream into host events, one read at a time.
pub struct StreamReader {
    source: StreamSource,
    finished: bool,
    reads: Ghost<Seq<LineReadView>>,
}

impl View for StreamReader {
    type V = ReaderView;

    closed spec fn view(&self) -> ReaderView {
        ReaderView { source: self.source, reads: self.reads@ }
    }
}

impl StreamReader {
    #[verifier::type_invariant]
    spec fn inv(&self) -> bool {
        self.finished == has_terminal(self.reads@)
    }

    pub fn new(source: StreamSource) -> (r: Self)
        ensures
            r@.source == source,
            r@.reads == Seq::<LineReadView>::empty(),
    {
        StreamReader { source, finished: false, reads: Ghost(Seq::empty()) }
    }

    /// Whether the stream has failed or ended, after which reads yield nothing.
    pub fn is_finished(&self) -> (r: bool)
        ensures
            r == has_terminal(self@.reads),
    {
        proof {
            use_type_invariant(self);
        }
        self.finished
    }

    /// The events due for one more read, in the order the host receives them.
    pub fn on_read(&mut self, read: LineRead) -> (out: Vec<StreamEvent>)
        ensures
            final(self)@.source == old(self)@.source,
            final(self)@.reads == old(self)@.reads.push(read@),
            stream_events(final(self)@.source, final(self)@.reads) == stream_events(
                old(self)@.source,
                old(self)@.reads,
            ) + event_views(out@),
    {
        proof {
            use_type_invariant(&*self);
        }
        let ghost before = self.reads@;
        let ghost rv = read@;
        let stdout = self.source == StreamSource::Stdout;
        let mut out: Vec<StreamEvent> = Vec::new();
        let mut finished = self.finished;
        if !finished {
            match read {
                LineRead::Line(l) => {
                    if !l.as_str().is_empty() {
                        if stdout {
                            out.push(StreamEvent::Message(l));
                        } else {
                            out.push(StreamEvent::StderrLine(l));
                        }
                    }
                },
                LineRead::Failed(e) => {
                    let mut text = String::from_str("Read error: ");
                    text.append(e.as_str());
                    out.push(StreamEvent::ReadError(text));
                    if stdout {
                        out.push(StreamEvent::Exited);
                    }
                    finished = true;
                },
                LineRead::Closed => {
                    if stdout {
                        out.push(StreamEvent::Exited);
                    }
                    finished = true;
                },
            }
        }
        proof {
            let after = before.push(rv);
            assert(after.drop_last() =~= before);
            assert(after.last() == rv);
            if is_terminal(rv) {
                assert(is_terminal(after[after.len() - 1]));
            }
            if has_terminal(before) {
                let i = choose|i: int| 0 <= i < before.len() && is_terminal(#[trigger] before[i]);
                assert(after[i] == before[i]);
            }
            if has_terminal(after) && !is_terminal(rv) {
                let i = choose|i: int| 0 <= i < after.len() && is_terminal(#[trigger] after[i]);
                assert(i < before.len());
                assert(before[i] == after[i]);
            }
            assert(event_views(out@) =~= if has_terminal(before) {
                seq![]
            } else {
                events_of_read(self.source, rv)
            });
        }
        *self = StreamReader { source: self.source, finished, reads: Ghost(before.push(rv)) };
        out
    }
}

/// Once a stream has failed or ended, whatever is read after that adds no event.
pub proof fn lemma_nothing_after_end(source: StreamSource, reads: Seq<LineReadView>, more: Seq<LineReadView>)
    requires
        has_terminal(reads),
    ensures
        stream_events(source, reads + more) == stream_events(source, reads),
    decreases more.len(),
{
    if more.len() == 0 {
        assert(reads + more =~= reads);
    } else {
        let all = reads + more;
        lemma_nothing_after_end(source, reads, more.drop_last());
        assert(all.drop_last() =~= reads + more.drop_last());
        let i = choose|i: int| 0 <= i < reads.len() && is_terminal(#[trigger] reads[i]);
        assert(all.drop_last()[i] == reads[i]);
    }
}

/// The worker's output yields an exit event exactly when it has failed or ended,
/// then exactly once, and as the last of its events: no message follows it.
pub proof fn lemma_output_exits_once(reads: Seq<LineReadView>)
    ensures
        has_terminal(reads) ==> {
            let ev = stream_events(StreamSource::Stdout, reads);
            &&& ev.len() > 0
            &&& ev.last() is Exited
            &&& forall|i: int| 0 <= i < ev.len() - 1 ==> !(#[trigger] ev[i] is Exited)
        },
        !has_terminal(reads) ==> forall|i: int|
            0 <= i < stream_events(StreamSource::Stdout, reads).len() ==> !(#[trigger] stream_events(
                StreamSource::Stdout,
                reads,
            )[i] is Exited),
    decreases reads.len(),
{
    if reads.len() > 0 {
        let prev = reads.drop_last();
        let last = reads.last();
        lemma_output_exits_once(prev);
        if has_terminal(prev) {
            let i = choose|i: int| 0 <= i < prev.len() && is_terminal(#[trigger] prev[i]);
            assert(reads[i] == prev[i]);
        } else {
            let ep = stream_events(StreamSource::Stdout, prev);
            let ev = stream_events(StreamSource::Stdout, reads);
            assert(ev == ep + events_of_read(StreamSource::Stdout, last));
            if is_terminal(last) {
                assert(is_terminal(reads[reads.len() - 1]));
                assert forall|i: int| 0 <= i < ev.len() - 1 implies !(#[trigger] ev[i] is Exited) by {
                    if i >= ep.len() {
                        assert(ev[i] == events_of_read(StreamSource::Stdout, last)[i - ep.len()]);
                    } else {
                        assert(ev[i] == ep[i]);
                    }
                }
            } else {
                assert(!has_terminal(reads)) by {
                    if has_terminal(reads) {
                        let i = choose|i: int| 0 <= i < reads.len() && is_terminal(#[trigger] reads[i]);
                        if i < prev.len() {
                            assert(prev[i] == reads[i]);
                        }
                    }
                }
                assert forall|i: int| 0 <= i < ev.len() implies !(#[trigger] ev[i] is Exited) by {
                    if i >= ep.len() {
                        assert(ev[i] == events_of_read(StreamSource::Stdout, last)[i - ep.len()]);
                    } else {
                        assert(ev[i] == ep[i]);
                    }
                }
            }
        }
    }
}

/// The error stream never signals an exit: a worker may close it and live on.
pub proof fn lemma_error_stream_never_exits(reads: Seq<LineReadView>)
    ensures
        forall|i: int|
            0 <= i < stream_events(StreamSource::Stderr, reads).len() ==> !(#[trigger] stream_events(
                StreamSource::Stderr,
                reads,
            )[i] is Exited),
    decreases reads.len(),
{
    if reads.len() > 0 {
        let prev = reads.drop_last();
        lemma_error_stream_never_exits(prev);
        let ep = stream_events(StreamSource::Stderr, prev);
        let ev = stream_events(StreamSource::Stderr, reads);
        if !has_terminal(prev) {
            assert forall|i: int| 0 <= i < ev.len() implies !(#[trigger] ev[i] is Exited) by {
                if i >= ep.len() {
                    assert(ev[i] == events_of_read(StreamSource::Stderr, reads.last())[i - ep.len()]);
                } else {
                    assert(ev[i] == ep[i]);
                }
            }
        }
    }
}

pub open spec fn line_reads(lines: Seq<Seq<char>>) -> Seq<LineReadView> {
    lines.map_values(|l: Seq<char>| LineReadView::Line(l))
}

pub open spec fn messages(lines: Seq<Seq<char>>) -> Seq<EventView> {
    lines.map_values(|l: Seq<char>| EventView::Message(l))
}

proof fn lemma_lines_only(lines: Seq<Seq<char>>)
    requires
        forall|i: int| 0 <= i < lines.len() ==> (#[trigger] lines[i]).len() > 0,
    ensures
        !has_terminal(line_reads(lines)),
        stream_events(StreamSource::Stdout, line_reads(lines)) == messages(lines),
    decreases lines.len(),
{
    if lines.len() > 0 {
        let prev = lines.drop_last();
        assert(line_reads(lines).drop_last() =~= line_reads(prev));
        assert(prev.len() > 0 ==> prev[0] == lines[0]);
        assert forall|i: int| 0 <= i < prev.len() implies (#[trigger] prev[i]).len() > 0 by {
            assert(prev[i] == lines[i]);
        }
        lemma_lines_only(prev);
        assert(lines[lines.len() - 1].len() > 0);
        assert(messages(lines) =~= messages(prev) + seq![EventView::Message(lines.last())]);
    }
}

/// Lines that the worker writes on its output reach the host one event per line,
/// whole and in the order written, and the end of the output follows them.
pub proof fn lemma_lines_relayed_in_order(lines: Seq<Seq<char>>)
    requires
        forall|i: int| 0 <= i < lines.len() ==> (#[trigger] lines[i]).len() > 0,
    ensures
        stream_events(StreamSource::Stdout, line_reads(lines).push(LineReadView::Closed)) == messages(
            lines,
        ).push(EventView::Exited),
{
    lemma_lines_only(lines);
    let all = line_reads(lines).push(LineReadView::Closed);
    assert(all.drop_last() =~= line_reads(lines));
    assert(messages(lines).push(EventView::Exited) =~= messages(lines) + seq![EventView::Exited]);
}

} // verus!
