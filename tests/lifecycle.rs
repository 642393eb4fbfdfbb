use std::cell::RefCell;
use std::rc::Rc;
use worker_bridge::supervisor::{
    frame_line, SendError, StartError, StartGate, Supervisor, WorkerInput, WorkerProcess,
};

struct FakeProcess {
    log: Rc<RefCell<Vec<String>>>,
    fail_kill: bool,
}

impl WorkerProcess for FakeProcess {
    fn kill(&mut self) -> Result<(), String> {
        self.log.borrow_mut().push("kill".to_string());
        if self.fail_kill {
            Err("no such process".to_string())
        } else {
            Ok(())
        }
    }
}

struct FakeInput {
    written: Rc<RefCell<String>>,
    fail_write: bool,
}

impl WorkerInput for FakeInput {
    fn write_text(&mut self, text: &str) -> Result<(), String> {
        if self.fail_write {
            return Err("broken pipe".to_string());
        }
        self.written.borrow_mut().push_str(text);
        Ok(())
    }

    fn flush(&mut self) -> Result<(), String> {
        Ok(())
    }
}

struct Fixture {
    log: Rc<RefCell<Vec<String>>>,
    written: Rc<RefCell<String>>,
}

impl Fixture {
    fn new() -> Self {
        Fixture { log: Rc::new(RefCell::new(Vec::new())), written: Rc::new(RefCell::new(String::new())) }
    }

    fn handles(&self, fail_kill: bool, fail_write: bool) -> (FakeProcess, FakeInput) {
        (
            FakeProcess { log: self.log.clone(), fail_kill },
            FakeInput { written: self.written.clone(), fail_write },
        )
    }
}

fn started(fx: &Fixture) -> (Supervisor<FakeProcess, FakeInput>, u64) {
    let mut sup = Supervisor::new();
    assert_eq!(sup.begin_start(), StartGate::Proceed);
    let (p, i) = fx.handles(false, false);
    let (instance, message) = sup.finish_start(p, i, "/usr/bin/node".to_string());
    assert_eq!(message, "Sidecar started with Node at /usr/bin/node");
    (sup, instance)
}

#[test]
fn start_twice_spawns_once() {
    let fx = Fixture::new();
    let (mut sup, _) = started(&fx);
    assert!(sup.is_running());
    let gate = sup.begin_start();
    assert_eq!(gate, StartGate::AlreadyRunning);
    assert_eq!(gate.message(), "Sidecar already running");
    assert!(sup.is_running());
    assert!(!sup.is_starting());
}

#[test]
fn start_while_starting_does_not_proceed() {
    let mut sup: Supervisor<FakeProcess, FakeInput> = Supervisor::new();
    assert_eq!(sup.begin_start(), StartGate::Proceed);
    assert!(sup.is_starting());
    assert_eq!(sup.begin_start(), StartGate::AlreadyStarting);
    assert!(!sup.is_running());
}

#[test]
fn stop_before_start_succeeds() {
    let mut sup: Supervisor<FakeProcess, FakeInput> = Supervisor::default();
    assert_eq!(sup.stop(), Ok("Sidecar was not running".to_string()));
    assert!(!sup.is_running());
}

#[test]
fn stop_kills_and_clears() {
    let fx = Fixture::new();
    let (mut sup, _) = started(&fx);
    assert_eq!(sup.stop(), Ok("Sidecar stopped".to_string()));
    assert_eq!(*fx.log.borrow(), vec!["kill".to_string()]);
    assert!(!sup.is_running());
    assert_eq!(sup.send("ping"), Err(SendError::NotRunning));
    assert_eq!(sup.stop(), Ok("Sidecar was not running".to_string()));
}

#[test]
fn failed_kill_is_reported_and_stops() {
    let fx = Fixture::new();
    let mut sup = Supervisor::new();
    sup.begin_start();
    let (p, i) = fx.handles(true, false);
    sup.finish_start(p, i, "node".to_string());
    assert_eq!(sup.stop(), Err("no such process".to_string()));
    assert!(!sup.is_running());
}

#[test]
fn sends_arrive_in_order_with_one_newline_each() {
    let fx = Fixture::new();
    let (mut sup, _) = started(&fx);
    for m in ["first", "second", "{\"id\":3}"] {
        assert_eq!(sup.send(m), Ok("Message sent".to_string()));
    }
    assert_eq!(*fx.written.borrow(), "first\nsecond\n{\"id\":3}\n");
    let lines: Vec<&str> = fx.written.borrow().clone().leak().split_terminator('\n').collect();
    assert_eq!(lines, vec!["first", "second", "{\"id\":3}"]);
}

#[test]
fn frame_line_appends_one_newline() {
    assert_eq!(frame_line("ping"), "ping\n");
    assert_eq!(frame_line(""), "\n");
}

#[test]
fn send_write_failure_is_reported() {
    let fx = Fixture::new();
    let mut sup = Supervisor::new();
    sup.begin_start();
    let (p, i) = fx.handles(false, true);
    sup.finish_start(p, i, "node".to_string());
    let r = sup.send("ping");
    assert_eq!(r, Err(SendError::Write("broken pipe".to_string())));
    assert_eq!(r.unwrap_err().message(), "broken pipe");
    assert!(sup.is_running());
}

#[test]
fn send_before_start_reports_not_running() {
    let mut sup: Supervisor<FakeProcess, FakeInput> = Supervisor::new();
    let err = sup.send("ping").unwrap_err();
    assert_eq!(err, SendError::NotRunning);
    assert!(err.message().contains("not running"));
}

#[test]
fn start_without_runtime_reports_not_found() {
    let mut sup: Supervisor<FakeProcess, FakeInput> = Supervisor::new();
    assert_eq!(sup.begin_start(), StartGate::Proceed);
    let message = sup.abort_start(StartError::RuntimeNotFound);
    assert!(message.contains("not found"));
    assert!(!sup.is_running());
    assert!(!sup.is_starting());
    assert_eq!(sup.begin_start(), StartGate::Proceed);
}

#[test]
fn output_end_stops_live_worker_once() {
    let fx = Fixture::new();
    let (mut sup, instance) = started(&fx);
    assert!(sup.worker_exited(instance));
    assert!(!sup.is_running());
    assert!(!sup.worker_exited(instance));
    assert!(sup.send("late").is_err());
}

#[test]
fn late_exit_of_earlier_worker_is_ignored() {
    let fx = Fixture::new();
    let (mut sup, first) = started(&fx);
    sup.stop().unwrap();
    sup.begin_start();
    let (p, i) = fx.handles(false, false);
    let (second, _) = sup.finish_start(p, i, "node".to_string());
    assert_ne!(first, second);
    assert!(!sup.worker_exited(first));
    assert!(sup.is_running());
    assert!(sup.worker_exited(second));
    assert!(!sup.is_running());
}

#[test]
fn start_error_messages() {
    assert_eq!(StartError::RuntimeNotFound.message(), "Node.js not found");
    assert_eq!(
        StartError::SpawnFailed("permission denied".to_string()).message(),
        "Failed to start sidecar: permission denied"
    );
    assert_eq!(StartError::ResourceDir("no resources".to_string()).message(), "no resources");
    assert_eq!(StartError::StdinUnavailable.message(), "Failed to get stdin");
    assert_eq!(StartError::StdoutUnavailable.message(), "Failed to get stdout");
    assert_eq!(StartError::StderrUnavailable.message(), "Failed to get stderr");
    assert_eq!(
        StartError::WorkerNotFound { development: Some("/a/x.cjs".to_string()), packaged: "/r/y.cjs".to_string() }
            .message(),
        "Sidecar not found at \"/a/x.cjs\" or \"/r/y.cjs\""
    );
    assert_eq!(
        StartError::WorkerNotFound { development: None, packaged: "/r/y.cjs".to_string() }.message(),
        "Sidecar not found at \"/r/y.cjs\""
    );
}
