use app_builder::builds::route_events;
use app_builder::model::Status;
use app_builder::output::{OutputEvent, OutputParser};

fn logs(events: &[OutputEvent]) -> Vec<(Status, String)> {
    events
        .iter()
        .filter_map(|e| match e {
            OutputEvent::Log { status, message } => Some((*status, message.clone())),
            _ => None,
        })
        .collect()
}

fn envs(events: &[OutputEvent]) -> Vec<(String, String)> {
    events
        .iter()
        .filter_map(|e| match e {
            OutputEvent::Env { key, value } => Some((key.clone(), value.clone())),
            _ => None,
        })
        .collect()
}

#[test]
fn stdout_lines_become_success_logs() {
    let mut p = OutputParser::new(vec![]);
    let ev = p.feed_stdout(b"hello\nworld\n\npartial");
    assert_eq!(logs(&ev), vec![(Status::Success, "hello".to_string()), (Status::Success, "world".to_string())]);
    let ev = p.finish();
    assert_eq!(logs(&ev), vec![(Status::Success, "partial".to_string())]);
}

#[test]
fn carriage_return_line_is_marked() {
    let mut p = OutputParser::new(vec![]);
    let ev = p.feed_stdout(b"50%\r100%\n");
    assert_eq!(logs(&ev), vec![(Status::Success, "\r50%".to_string()), (Status::Success, "100%".to_string())]);
}

#[test]
fn stderr_lines_become_error_logs() {
    let mut p = OutputParser::new(vec![]);
    let ev = p.feed_stderr(b"boom\r\n");
    // "boom\r" ends at the carriage return; the lone "\n" after it is a blank line.
    assert_eq!(logs(&ev), vec![(Status::Error, "\rboom".to_string())]);
    let ev = p.feed_stderr(b"tail");
    assert!(ev.is_empty());
    let ev = p.finish();
    assert_eq!(logs(&ev), vec![(Status::Error, "tail".to_string())]);
}

#[test]
fn marker_switches_to_environment_mode() {
    let mut p = OutputParser::new(vec!["VERSION".to_string(), "TAG".to_string()]);
    let ev = p.feed_stdout(b"building\n+_+_+_\nVERSION=1.2=3\nOTHER=x\nnot a pair\nTAG=v1\n");
    assert_eq!(logs(&ev), vec![(Status::Success, "building".to_string())]);
    // The value keeps everything after the first '=', line end included.
    assert_eq!(envs(&ev), vec![("VERSION".to_string(), "1.2=3\n".to_string()), ("TAG".to_string(), "v1\n".to_string())]);
}

#[test]
fn invalid_utf8_lines_are_dropped() {
    let mut p = OutputParser::new(vec![]);
    let ev = p.feed_stdout(&[0xff, 0xfe, b'\n', b'o', b'k', b'\n']);
    assert_eq!(logs(&ev), vec![(Status::Success, "ok".to_string())]);
}

#[test]
fn chunking_does_not_matter() {
    let text = b"one\ntwo\r\nthree\n+_+_+\nK=v\n";
    let mut whole = OutputParser::new(vec!["K".to_string()]);
    let all = whole.feed_stdout(text);
    let mut parts = OutputParser::new(vec!["K".to_string()]);
    let mut got = Vec::new();
    for chunk in text.chunks(3) {
        got.extend(parts.feed_stdout(chunk));
    }
    assert_eq!(logs(&all), logs(&got));
    assert_eq!(envs(&all), envs(&got));
}

#[test]
fn events_route_to_logs_and_environment() {
    let events = vec![
        OutputEvent::Log { status: Status::Success, message: "a".to_string() },
        OutputEvent::Env { key: "K".to_string(), value: "v".to_string() },
        OutputEvent::Log { status: Status::Error, message: "b".to_string() },
    ];
    let (lines, pairs) = route_events(&events, 2, 5, 1234);
    assert_eq!(lines.len(), 2);
    assert_eq!((lines[0].status, lines[0].message.as_str(), lines[0].step, lines[0].total_steps, lines[0].timestamp), (Status::Success, "a", 2, 5, 1234));
    assert_eq!((lines[1].status, lines[1].message.as_str()), (Status::Error, "b"));
    assert_eq!(pairs, vec![("K".to_string(), "v".to_string())]);
}
