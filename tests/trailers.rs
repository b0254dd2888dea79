use jjq::config::Strategy;
use jjq::trailers::{extract_trailers, failure_description};

#[test]
fn failure_description_has_summary_and_six_trailers() {
    let d = failure_description(3, "check", "kxqz", "abc123", "def456", "/tmp/ws", Strategy::Rebase);
    assert_eq!(
        d,
        "Failed: merge 3 (check)\n\njjq-candidate: kxqz\njjq-candidate-commit: abc123\njjq-trunk: def456\njjq-workspace: /tmp/ws\njjq-failure: check\njjq-strategy: rebase"
    );
}

#[test]
fn trailers_round_trip_through_the_description() {
    let d = failure_description(12, "conflicts", "zzyx", "c0ffee", "beef01", "/tmp/a b/ws", Strategy::Merge);
    for text in [d.clone(), format!("{}\n", d)] {
        let t = extract_trailers(&text);
        assert_eq!(t.entries.len(), 6);
        assert_eq!(t.get("candidate").as_deref(), Some("zzyx"));
        assert_eq!(t.get("candidate-commit").as_deref(), Some("c0ffee"));
        assert_eq!(t.get("trunk").as_deref(), Some("beef01"));
        assert_eq!(t.get("workspace").as_deref(), Some("/tmp/a b/ws"));
        assert_eq!(t.get("failure").as_deref(), Some("conflicts"));
        assert_eq!(t.get("strategy").as_deref(), Some("merge"));
        assert_eq!(t.get("sequence"), None);
    }
}

#[test]
fn trailers_parse_any_order_and_trim_values() {
    let t = extract_trailers("title\n\njjq-b: two  \r\njjq-a: x: y\nnot-a-trailer: 1\njjq-nosep\njjq-b: last\n");
    assert_eq!(t.get("a").as_deref(), Some("x: y"));
    assert_eq!(t.get("b").as_deref(), Some("last"));
    assert_eq!(t.get("nosep"), None);
    assert_eq!(t.entries.len(), 3);
    assert_eq!(extract_trailers("").entries.len(), 0);
}

#[test]
fn trailers_round_trip_with_non_ascii_fields() {
    let d = failure_description(7, "check", "kü", "c7", "t7", "/tmp/räum ws/é", Strategy::Merge);
    let t = extract_trailers(&d);
    assert_eq!(t.get("candidate").as_deref(), Some("kü"));
    assert_eq!(t.get("workspace").as_deref(), Some("/tmp/räum ws/é"));
}
