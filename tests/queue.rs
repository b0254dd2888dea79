use jjq::queue::{
    extract_id_from_bookmark, failed_bookmark, format_seq_id, get_failed, get_queue, last_id_text,
    next_id, next_item, parse_seq_id, queue_bookmark, SeqIdError,
};

fn names(v: &[&str]) -> Vec<String> {
    v.iter().map(|s| s.to_string()).collect()
}

fn parse_message(input: &str) -> String {
    match parse_seq_id(input) {
        Ok(id) => format!("ok {}", id),
        Err(e) => e.message(),
    }
}

#[test]
fn test_sequence_id_validation() {
    assert_eq!(parse_message(""), "invalid sequence ID: empty");
    assert_eq!(parse_message("abc"), "invalid sequence ID: 'abc' (must be numeric)");
    assert_eq!(parse_message("1000000"), "invalid sequence ID: 1000000 (must be 1-999999)");
    assert_eq!(parse_message("0"), "invalid sequence ID: 0 (must be 1-999999)");
    assert_eq!(parse_seq_id("000001").ok(), Some(1));
}

#[test]
fn seq_id_domain_accepts_range_and_padding() {
    assert_eq!(parse_seq_id("1").ok(), Some(1));
    assert_eq!(parse_seq_id("999999").ok(), Some(999999));
    assert_eq!(parse_seq_id("042").ok(), Some(42));
    assert_eq!(parse_seq_id("0000999999").ok(), Some(999999));
}

#[test]
fn seq_id_domain_rejects_outside_values() {
    assert!(matches!(parse_seq_id("-1"), Err(SeqIdError::NotNumeric(_))));
    assert!(matches!(parse_seq_id("+1"), Err(SeqIdError::NotNumeric(_))));
    assert!(matches!(parse_seq_id("1a"), Err(SeqIdError::NotNumeric(_))));
    assert!(matches!(parse_seq_id("000"), Err(SeqIdError::OutOfRange(_))));
    assert!(matches!(parse_seq_id("99999999999999999999"), Err(SeqIdError::OutOfRange(_))));
    let e = parse_seq_id("1000000").err().unwrap().into_exit_error();
    assert_eq!(e.code, 10);
}

#[test]
fn seq_ids_format_with_six_digits() {
    assert_eq!(format_seq_id(1), "000001");
    assert_eq!(format_seq_id(42), "000042");
    assert_eq!(format_seq_id(999999), "999999");
    assert_eq!(format_seq_id(1234567), "1234567");
    assert_eq!(queue_bookmark(7), "jjq/queue/000007");
    assert_eq!(failed_bookmark(123456), "jjq/failed/123456");
}

#[test]
fn queue_is_sorted_ascending_and_ignores_other_names() {
    let b = names(&[
        "jjq/queue/000003",
        "jjq/queue/000001",
        "jjq/queue/12",
        "jjq/queue/000002",
        "jjq/failed/000009",
        "jjq/queue/00000x",
        "main",
    ]);
    assert_eq!(get_queue(&b), vec![1, 2, 3]);
    assert_eq!(next_item(&b), Some(1));
    assert_eq!(next_item(&names(&["main"])), None);
    assert_eq!(next_item(&Vec::new()), None);
}

#[test]
fn failed_is_sorted_descending() {
    let b = names(&["jjq/failed/000002", "jjq/failed/000010", "jjq/queue/000004", "jjq/failed/000005"]);
    assert_eq!(get_failed(&b), vec![10, 5, 2]);
}

#[test]
fn id_from_bookmark_reads_the_last_segment() {
    assert_eq!(extract_id_from_bookmark("jjq/queue/000042"), 42);
    assert_eq!(extract_id_from_bookmark("jjq/failed/000007"), 7);
    assert_eq!(extract_id_from_bookmark("jjq/queue/abc"), 0);
    assert_eq!(extract_id_from_bookmark("17"), 17);
    assert_eq!(extract_id_from_bookmark("jjq/queue/"), 0);
}

#[test]
fn ids_increase_by_one_from_the_counter() {
    let mut text = "0".to_string();
    let mut seen = Vec::new();
    for _ in 0..4 {
        let id = next_id(&text).ok().unwrap();
        seen.push(id);
        text = last_id_text(id);
    }
    assert_eq!(seen, vec![1, 2, 3, 4]);
    assert_eq!(next_id(" 41\n").ok(), Some(42));
    assert_eq!(next_id("garbage").ok(), Some(1));
}

#[test]
fn id_range_exhaustion_is_a_usage_error() {
    let e = next_id("999999").err().unwrap();
    assert_eq!(e.code, 10);
    assert_eq!(e.message, "sequence ID exhausted (at 999999)");
    assert_eq!(next_id("999998").ok(), Some(999999));
}

#[test]
fn existence_queries_name_the_item_bookmarks() {
    let q = jjq::queue::queue_item_exists_args(3);
    assert_eq!(q[4], "bookmarks(exact:jjq/queue/000003)");
    let f = jjq::queue::failed_item_exists_args(12);
    assert_eq!(f[4], "bookmarks(exact:jjq/failed/000012)");
    assert_eq!(jjq::config::is_initialized_args()[4], "bookmarks(exact:jjq/_/_)");
}

#[test]
fn formatted_ids_parse_back() {
    for id in [1u32, 42, 1000, 999999] {
        assert_eq!(parse_seq_id(&format_seq_id(id)).ok(), Some(id));
    }
}
