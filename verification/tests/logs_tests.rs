use vote_relay::logs::{init, logs};

#[test]
fn log_buffer_round_trip() {
    let buffer = init(vec!["one".to_string(), "two".to_string()]);
    assert_eq!(logs(&buffer), vec!["one".to_string(), "two".to_string()]);
}

#[test]
fn log_buffer_drops_oldest_over_cap() {
    let mut buffer = init(Vec::new());
    for i in 0..5003u32 {
        buffer.append(format!("line {i}"));
    }
    assert_eq!(buffer.len(), 5000);
    let lines = logs(&buffer);
    assert_eq!(lines[0], "line 3");
    assert_eq!(lines[4999], "line 5002");
}
