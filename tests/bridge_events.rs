use worker_bridge::bridge::{LineRead, StreamEvent, StreamReader, StreamSource};

fn run(source: StreamSource, reads: Vec<LineRead>) -> Vec<StreamEvent> {
    let mut reader = StreamReader::new(source);
    let mut out = Vec::new();
    for r in reads {
        out.extend(reader.on_read(r));
    }
    out
}

#[test]
fn three_lines_relayed_in_order() {
    let events = run(
        StreamSource::Stdout,
        vec![
            LineRead::Line("{\"id\":1}".to_string()),
            LineRead::Line("{\"id\":2}".to_string()),
            LineRead::Line("{\"id\":3}".to_string()),
        ],
    );
    assert_eq!(
        events,
        vec![
            StreamEvent::Message("{\"id\":1}".to_string()),
            StreamEvent::Message("{\"id\":2}".to_string()),
            StreamEvent::Message("{\"id\":3}".to_string()),
        ]
    );
}

#[test]
fn output_close_exits_once_and_nothing_follows() {
    let events = run(
        StreamSource::Stdout,
        vec![
            LineRead::Line("a".to_string()),
            LineRead::Closed,
            LineRead::Line("b".to_string()),
            LineRead::Closed,
        ],
    );
    assert_eq!(events, vec![StreamEvent::Message("a".to_string()), StreamEvent::Exited]);
}

#[test]
fn output_read_error_then_exit() {
    let mut reader = StreamReader::new(StreamSource::Stdout);
    assert!(!reader.is_finished());
    let events = reader.on_read(LineRead::Failed("stream did not contain valid UTF-8".to_string()));
    assert_eq!(
        events,
        vec![StreamEvent::ReadError("Read error: stream did not contain valid UTF-8".to_string()), StreamEvent::Exited]
    );
    assert!(reader.is_finished());
    assert!(reader.on_read(LineRead::Line("x".to_string())).is_empty());
}

#[test]
fn empty_lines_are_skipped() {
    let events = run(
        StreamSource::Stdout,
        vec![LineRead::Line(String::new()), LineRead::Line("x".to_string()), LineRead::Line(String::new())],
    );
    assert_eq!(events, vec![StreamEvent::Message("x".to_string())]);
}

#[test]
fn error_stream_lines_and_close() {
    let events = run(
        StreamSource::Stderr,
        vec![LineRead::Line("warn".to_string()), LineRead::Line(String::new()), LineRead::Closed],
    );
    assert_eq!(events, vec![StreamEvent::StderrLine("warn".to_string())]);
}

#[test]
fn error_stream_failure_does_not_exit() {
    let events = run(StreamSource::Stderr, vec![LineRead::Failed("bad".to_string()), LineRead::Line("z".to_string())]);
    assert_eq!(events, vec![StreamEvent::ReadError("Read error: bad".to_string())]);
}

#[test]
fn event_names() {
    assert_eq!(StreamEvent::Message("m".to_string()).name(), "worker-message");
    assert_eq!(StreamEvent::StderrLine("m".to_string()).name(), "worker-stderr");
    assert_eq!(StreamEvent::ReadError("m".to_string()).name(), "worker-error");
    assert_eq!(StreamEvent::Exited.name(), "worker-exit");
    assert!(StreamEvent::Exited.is_exit());
    assert!(!StreamEvent::Message("m".to_string()).is_exit());
}
