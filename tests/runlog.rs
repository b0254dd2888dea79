use jjq::runlog::{is_sentinel, log_finished, log_path, sentinel_line, tail_lines, tail_start, visible_log_lines};

#[test]
fn sentinel_line_frames_the_exit_status() {
    assert_eq!(sentinel_line(0), "--- jjq: run complete (exit 0) ---");
    assert_eq!(sentinel_line(1), "--- jjq: run complete (exit 1) ---");
    assert_eq!(sentinel_line(-1), "--- jjq: run complete (exit -1) ---");
    assert_eq!(sentinel_line(i32::MIN), "--- jjq: run complete (exit -2147483648) ---");
    assert!(is_sentinel(&sentinel_line(130)));
    assert!(!is_sentinel("--- jjq: run"));
}

#[test]
fn log_of_a_run_ends_with_one_sentinel() {
    let log = format!("building\nok\n{}\n", sentinel_line(0));
    let lines: Vec<&str> = log.lines().collect();
    assert!(lines.last().unwrap().starts_with("--- jjq: run complete (exit "));
    assert_eq!(lines.iter().filter(|l| is_sentinel(l)).count(), 1);
    assert!(log_finished(&log));
    assert!(!log_finished("building\n"));
    assert_eq!(visible_log_lines(&log), vec!["building".to_string(), "ok".to_string()]);
}

#[test]
fn tail_shows_the_last_twenty_lines_unless_all() {
    let mut log = String::new();
    for i in 0..25 {
        log.push_str(&format!("line{}\n", i));
    }
    log.push_str(&sentinel_line(2));
    let last = tail_lines(&log, false);
    assert_eq!(last.len(), 20);
    assert_eq!(last[0], "line5");
    assert_eq!(tail_lines(&log, true).len(), 25);
    assert_eq!(tail_start(20, false), 0);
    assert_eq!(tail_start(21, false), 1);
    assert_eq!(tail_start(21, true), 0);
}

#[test]
fn log_lives_under_the_repository_metadata_directory() {
    assert_eq!(log_path("/repo"), "/repo/.jj/jjq-run.log");
}
