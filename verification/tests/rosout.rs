use termviz::rosout::{format_logstring, LogBuffer, RosoutListener, DEBUG, ERROR, FATAL, INFO, WARN};

fn strings(items: &[&str]) -> Vec<String> {
    items.iter().map(|s| s.to_string()).collect()
}

#[test]
fn new_buffer_is_empty() {
    let mut buffer = LogBuffer::new(4, true);
    assert!(buffer.is_buffering());
    assert_eq!(buffer.drain_logstrings(), Vec::<String>::new());
}

#[test]
fn buffer_hands_lines_out_oldest_first() {
    let mut buffer = LogBuffer::new(4, true);
    buffer.push_logstring("one".to_string());
    buffer.push_logstring("two".to_string());
    buffer.push_logstring("three".to_string());
    assert_eq!(buffer.drain_logstrings(), strings(&["one", "two", "three"]));
    assert_eq!(buffer.drain_logstrings(), Vec::<String>::new());
}

#[test]
fn full_buffer_drops_the_newcomer() {
    let mut buffer = LogBuffer::new(2, false);
    buffer.push_logstring("a".to_string());
    buffer.push_logstring("b".to_string());
    buffer.push_logstring("c".to_string());
    assert_eq!(buffer.drain_logstrings(), strings(&["a", "b"]));
    buffer.push_logstring("d".to_string());
    assert_eq!(buffer.drain_logstrings(), strings(&["d"]));
}

#[test]
fn buffer_of_size_zero_keeps_nothing() {
    let mut buffer = LogBuffer::new(0, true);
    buffer.push_logstring("lost".to_string());
    assert_eq!(buffer.drain_logstrings(), Vec::<String>::new());
}

#[test]
fn buffer_wraps_around() {
    let mut buffer = LogBuffer::new(3, true);
    for round in 0..5 {
        buffer.push_logstring(format!("{}a", round));
        buffer.push_logstring(format!("{}b", round));
        assert_eq!(
            buffer.drain_logstrings(),
            vec![format!("{}a", round), format!("{}b", round)]
        );
    }
}

#[test]
fn log_lines_plain_and_coloured() {
    colored::control::set_override(false);
    assert_eq!(format_logstring(DEBUG, "starting", "/node", "12.5"), "[/node DEBUG 12.5] starting");
    assert_eq!(format_logstring(INFO, "ready", "/nav", "3"), "[/nav INFO 3] ready");
    assert_eq!(format_logstring(WARN, "slow", "/nav", "3"), "[/nav WARN 3] slow");
    assert_eq!(format_logstring(ERROR, "stuck", "/nav", "3"), "[/nav ERROR 3] stuck");
    assert_eq!(format_logstring(FATAL, "down", "/nav", "3"), "[/nav FATAL 3] down");
    colored::control::set_override(true);
    assert_eq!(
        format_logstring(DEBUG, "starting", "/node", "12.5"),
        "\x1b[37m[/node DEBUG 12.5] starting\x1b[0m"
    );
    assert_eq!(format_logstring(INFO, "ready", "/nav", "3"), "\x1b[37m[/nav INFO 3] ready\x1b[0m");
    assert_eq!(format_logstring(WARN, "slow", "/nav", "3"), "\x1b[33m[/nav WARN 3] slow\x1b[0m");
    assert_eq!(format_logstring(ERROR, "stuck", "/nav", "3"), "\x1b[31m[/nav ERROR 3] stuck\x1b[0m");
    assert_eq!(format_logstring(FATAL, "down", "/nav", "3"), "\x1b[31m[/nav FATAL 3] down\x1b[0m");
    colored::control::unset_override();
}

fn uncoloured(line: &str) -> String {
    let body = line.strip_suffix("\x1b[0m").unwrap_or(line);
    match body.find('m') {
        Some(at) if body.starts_with("\x1b[") => body[at + 1..].to_string(),
        _ => body.to_string(),
    }
}

#[test]
fn listener_records_only_while_buffering() {
    let mut listener = RosoutListener::new(8, false);
    listener.on_message(INFO, "ignored", "/a", "1");
    assert_eq!(listener.drain_logstring_buffer(), Vec::<String>::new());
    listener.toggle_buffering();
    assert!(listener.log_buffer.is_buffering());
    listener.on_message(WARN, "kept", "/a", "2");
    listener.on_message(ERROR, "kept too", "/b", "2.25");
    let lines: Vec<String> =
        listener.drain_logstring_buffer().iter().map(|l| uncoloured(l)).collect();
    assert_eq!(lines, strings(&["[/a WARN 2] kept", "[/b ERROR 2.25] kept too"]));
    listener.toggle_buffering();
    assert!(!listener.log_buffer.is_buffering());
    listener.on_message(FATAL, "ignored again", "/a", "3");
    assert_eq!(listener.drain_logstring_buffer(), Vec::<String>::new());
}

#[test]
fn listener_ignores_unknown_severity_while_off() {
    let mut listener = RosoutListener::new(2, false);
    listener.on_message(3, "odd", "/a", "1");
    assert_eq!(listener.drain_logstring_buffer(), Vec::<String>::new());
}

#[test]
fn listener_drops_lines_beyond_its_size() {
    let mut listener = RosoutListener::new(1, true);
    listener.on_message(DEBUG, "first", "/a", "1");
    listener.on_message(DEBUG, "second", "/a", "2");
    let lines: Vec<String> =
        listener.drain_logstring_buffer().iter().map(|l| uncoloured(l)).collect();
    assert_eq!(lines, strings(&["[/a DEBUG 1] first"]));
}
