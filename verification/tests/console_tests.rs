use slonk::console::UserLog;

#[test]
fn log_lines_exact() {
    let mut log = UserLog::new();
    let line = log.debug(1, "starting up");
    assert_eq!(String::from_utf8(line).unwrap(), "[1] [DEBUG] starting up\n");
    let line = log.info(22, "accepted client");
    assert_eq!(String::from_utf8(line).unwrap(), "[22] [INFO] accepted client\n");
    let line = log.warn(333, "sensor misread");
    assert_eq!(String::from_utf8(line).unwrap(), "[333] [WARN] sensor misread\n");
    let line = log.critical(4444, "lock poisoned");
    assert_eq!(
        String::from_utf8(line).unwrap(),
        "[4444] [CRITICAL] lock poisoned\n"
    );
}

#[test]
fn log_line_keeps_message_bytes() {
    let mut log = UserLog::new();
    let line = log.info(0, "naïve message");
    assert_eq!(String::from_utf8(line).unwrap(), "[0] [INFO] naïve message\n");
}
