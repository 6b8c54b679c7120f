use chat_bridge::bridge::{
    merge_events, resolve_worker, Channel, ConfigError, Merger, StreamEvent, INTERPRETER_PATH,
    WORKER_SCRIPT,
};

fn out(s: &str) -> StreamEvent {
    StreamEvent::Line(Channel::Stdout, s.to_string())
}

fn err(s: &str) -> StreamEvent {
    StreamEvent::Line(Channel::Stderr, s.to_string())
}

#[test]
fn stdout_line_is_forwarded_as_is() {
    let mut m = Merger::new();
    assert_eq!(m.on_event(out("ready")), Some("ready".to_string()));
    assert!(!m.is_completed());
}

#[test]
fn stderr_line_carries_marker() {
    let mut m = Merger::new();
    assert_eq!(m.on_event(err("boom")), Some("[ERROR] boom".to_string()));
}

#[test]
fn completes_only_after_both_channels_close() {
    let mut m = Merger::new();
    assert_eq!(m.on_event(StreamEvent::Closed(Channel::Stdout)), None);
    assert!(!m.is_completed());
    assert_eq!(m.on_event(err("late")), Some("[ERROR] late".to_string()));
    assert_eq!(m.on_event(StreamEvent::Closed(Channel::Stderr)), None);
    assert!(m.is_completed());
}

#[test]
fn line_after_close_is_dropped() {
    let mut m = Merger::new();
    m.on_event(StreamEvent::Closed(Channel::Stderr));
    assert_eq!(m.on_event(err("stray")), None);
    assert_eq!(m.on_event(out("still here")), Some("still here".to_string()));
}

#[test]
fn interleaved_channels_keep_their_own_order() {
    let events = vec![
        out("o1"),
        err("e1"),
        err("e2"),
        out("o2"),
        StreamEvent::Closed(Channel::Stderr),
        out("o3"),
        StreamEvent::Closed(Channel::Stdout),
    ];
    let merged = merge_events(&events);
    assert_eq!(merged, vec!["o1", "[ERROR] e1", "[ERROR] e2", "o2", "o3"]);
    let outs: Vec<&String> = merged.iter().filter(|l| !l.starts_with("[ERROR] ")).collect();
    assert_eq!(outs, vec!["o1", "o2", "o3"]);
}

#[test]
fn all_lines_of_both_channels_arrive() {
    let mut events = Vec::new();
    for i in 0..5 {
        events.push(out(&format!("out {}", i)));
        if i < 3 {
            events.push(err(&format!("err {}", i)));
        }
    }
    events.push(StreamEvent::Closed(Channel::Stdout));
    events.push(StreamEvent::Closed(Channel::Stderr));
    let merged = merge_events(&events);
    assert_eq!(merged.len(), 8);
    let errs: Vec<&String> = merged.iter().filter(|l| l.starts_with("[ERROR] ")).collect();
    assert_eq!(errs, vec!["[ERROR] err 0", "[ERROR] err 1", "[ERROR] err 2"]);
}

#[test]
fn empty_event_sequence_forwards_nothing() {
    assert!(merge_events(&Vec::new()).is_empty());
}

#[test]
fn worker_resolves_when_interpreter_present() {
    let c = resolve_worker(true).unwrap();
    assert_eq!(c.program, INTERPRETER_PATH);
    assert_eq!(c.script, WORKER_SCRIPT);
    assert_eq!(c.program, "../python/venv/Scripts/python.exe");
}

#[test]
fn missing_interpreter_is_configuration_error() {
    assert!(matches!(resolve_worker(false), Err(ConfigError::InterpreterMissing)));
}

#[test]
fn every_line_delivered_once() {
    let events = vec![
        err("x"),
        out("a"),
        out("a"),
        err("y"),
        StreamEvent::Closed(Channel::Stdout),
        out("dropped"),
        StreamEvent::Closed(Channel::Stderr),
    ];
    let mut merged = merge_events(&events);
    merged.sort();
    let mut expected = vec!["a", "a", "[ERROR] x", "[ERROR] y"];
    expected.sort();
    assert_eq!(merged, expected);
}
