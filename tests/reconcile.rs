use eha::entry::{decode_meta, Entry};
use eha::instant::Instant;
use eha::reconcile::{reconcile, render, ReconcileError};
use eha::request::{Args, Subcommand};

// 2025-01-01T00:00:00Z
const NOW_NS: i128 = 1_735_689_600_000_000_000;

fn now() -> Instant {
    Instant::from_nanosecond(NOW_NS).unwrap()
}

fn lines(text: &str) -> Vec<String> {
    text.lines().map(String::from).collect()
}

fn run(sub: Subcommand, input: &str) -> String {
    let args = Args { subcommand: sub, input_file: String::new(), test: true };
    args.validate().unwrap();
    args.run(&lines(input), &now(), "/work").unwrap()
}

#[test]
fn test_no_op() {
    let input = r##"# some leading comments followed by whitespace

127.0.0.1   localhost
10.0.0.9    other.name
127.0.0.1	foo.local	# eha {"expiry":"2030-01-01T00:00:00Z","comment":"hello world"}"##;
    let content = run(Subcommand::RemoveExpired, input);
    assert_eq!(content, input);
}

#[test]
fn test_remove_expired_while_adding() {
    let input = r##"# some leading comments followed by whitespace

127.0.0.1   localhost
10.0.0.9    other.name
127.0.0.1	foo.local	# eha {"expiry":"2001-01-01T00:00:00Z","comment":"hello world"}"##;
    let content = run(Subcommand::Add { name: "thing.local".to_string(), expire_minutes: 1 }, input);
    assert!(content.contains("127.0.0.1\tthing.local\t# eha {"));
    assert!(!content.contains("127.0.0.1\tfoo.local\t# eha {"));
}

#[test]
fn test_remove_entry() {
    let input = r##"# some leading comments followed by whitespace

127.0.0.1   localhost
10.0.0.9    other.name
127.0.0.1	foo.local	# eha {"expiry":"2030-01-01T00:00:00Z","comment":"hello world"}"##;
    let content = run(Subcommand::Remove { name: "foo.local".to_string() }, input);
    assert_eq!(
        content,
        r##"# some leading comments followed by whitespace

127.0.0.1   localhost
10.0.0.9    other.name"##
    );
}

#[test]
fn add_writes_exact_line() {
    let content = run(Subcommand::Add { name: "thing.local".to_string(), expire_minutes: 90 }, "# hosts");
    assert_eq!(
        content,
        "# hosts\n127.0.0.1\tthing.local\t# eha {\"expiry\":\"2025-01-01T01:30:00Z\",\"comment\":\"set from /work at 2025-01-01T00:00:00Z\"}"
    );
}

#[test]
fn add_keeps_live_entry_of_same_name() {
    let input = "127.0.0.1\tfoo.local\t# eha {\"expiry\":\"2030-01-01T00:00:00Z\",\"comment\":null}";
    let content = run(Subcommand::Add { name: "foo.local".to_string(), expire_minutes: 1 }, input);
    let out: Vec<&str> = content.lines().collect();
    assert_eq!(out.len(), 2);
    assert_eq!(out[0], input);
    assert!(out[1].starts_with("127.0.0.1\tfoo.local\t# eha {\"expiry\":\"2025-01-01T00:01:00Z\""));
}

#[test]
fn expired_entry_swept_by_every_operation() {
    let input = "a\n127.0.0.1\told.local\t# eha {\"expiry\":\"2020-01-01T00:00:00Z\",\"comment\":null}\nb";
    assert_eq!(run(Subcommand::RemoveExpired, input), "a\nb");
    assert_eq!(run(Subcommand::Remove { name: "other.local".to_string() }, input), "a\nb");
    let added = run(Subcommand::Add { name: "new.local".to_string(), expire_minutes: 5 }, input);
    assert!(added.starts_with("a\nb\n127.0.0.1\tnew.local\t"));
    assert!(!added.contains("old.local"));
}

#[test]
fn entry_expiring_exactly_now_is_swept() {
    let input = "127.0.0.1\tx.local\t# eha {\"expiry\":\"2025-01-01T00:00:00Z\",\"comment\":null}";
    assert_eq!(run(Subcommand::RemoveExpired, input), "");
}

#[test]
fn remove_matches_exact_case_sensitive_name() {
    let input = "127.0.0.1\tFoo.local\t# eha {\"expiry\":\"2030-01-01T00:00:00Z\",\"comment\":null}\n127.0.0.1\tfoo.localhost\t# eha {\"expiry\":\"2030-01-01T00:00:00Z\",\"comment\":null}";
    assert_eq!(run(Subcommand::Remove { name: "foo.local".to_string() }, input), input);
}

#[test]
fn opaque_lines_round_trip() {
    let input = "  # comment\t\n\n::1 localhost\n127.0.0.1 eha.local # eha-ish";
    assert_eq!(run(Subcommand::RemoveExpired, input), input);
    assert_eq!(run(Subcommand::Remove { name: "eha.local".to_string() }, input), input);
}

#[test]
fn malformed_metadata_decodes_to_epoch() {
    let meta = decode_meta("{not json");
    assert_eq!(meta.expiry.nanosecond, 0);
    assert!(meta.comment.is_none());
    let input = "127.0.0.1\tbad.local\t# eha {not json}\nkeep";
    assert_eq!(run(Subcommand::RemoveExpired, input), "keep");
}

#[test]
fn metadata_decodes_expiry_and_comment() {
    let meta = decode_meta("{\"comment\":\"hi\",\"expiry\":\"1970-01-01T00:00:01.5Z\"}");
    assert_eq!(meta.expiry.nanosecond, 1_500_000_000);
    assert_eq!(meta.comment.as_deref(), Some("hi"));
    let missing = decode_meta("{\"expiry\":\"1970-01-01T00:00:02Z\"}");
    assert_eq!(missing.expiry.nanosecond, 2_000_000_000);
    assert!(missing.comment.is_none());
}

#[test]
fn marker_without_name_is_opaque() {
    match Entry::from_line("   # eha {\"expiry\":\"2030-01-01T00:00:00Z\"}") {
        Entry::Opaque(raw) => assert_eq!(raw, "   # eha {\"expiry\":\"2030-01-01T00:00:00Z\"}"),
        Entry::Managed { .. } => panic!("expected an opaque line"),
    }
}

#[test]
fn managed_line_takes_last_word_before_marker() {
    match Entry::from_line("10.0.0.1  alias  host.local # eha {\"expiry\":\"2030-01-01T00:00:00Z\",\"comment\":\"c\"}") {
        Entry::Managed { name, meta } => {
            assert_eq!(name, "host.local");
            assert_eq!(meta.comment.as_deref(), Some("c"));
            assert_eq!(meta.expiry.nanosecond, 1_893_456_000_000_000_000);
        }
        Entry::Opaque(_) => panic!("expected a managed line"),
    }
}

#[test]
fn managed_line_renders_with_escaped_comment() {
    let e = Entry::from_line("x q.local # eha {\"expiry\":\"1970-01-01T00:00:00.25Z\",\"comment\":\"a \\\"b\\\"\"}");
    assert_eq!(
        e.to_line(),
        "127.0.0.1\tq.local\t# eha {\"expiry\":\"1970-01-01T00:00:00.25Z\",\"comment\":\"a \\\"b\\\"\"}"
    );
}

#[test]
fn render_joins_without_final_newline() {
    let entries = vec![Entry::Opaque("a".to_string()), Entry::Opaque(String::new()), Entry::Opaque("c".to_string())];
    assert_eq!(render(&entries), "a\n\nc");
    assert_eq!(render(&Vec::new()), "");
}

#[test]
fn reconcile_reports_unrepresentable_expiry() {
    let late = Instant::from_nanosecond(253_402_207_200_000_000_000).unwrap();
    let op = Subcommand::Add { name: "x.local".to_string(), expire_minutes: 1 };
    assert!(matches!(reconcile(&Vec::new(), &late, &op, "/"), Err(ReconcileError::ExpiryOutOfRange)));
}

#[test]
fn instant_arithmetic_and_text() {
    let t = now().plus_minutes(60).unwrap();
    assert_eq!(t.nanosecond, NOW_NS + 3_600_000_000_000);
    assert_eq!(t.to_text(), "2025-01-01T01:00:00Z");
    let before = Instant::from_nanosecond(-1_500_000_000).unwrap();
    assert_eq!(before.to_text(), "1969-12-31T23:59:58.5Z");
    assert!(t.is_after(&now()));
    assert!(!now().is_after(&now()));
    assert!(Instant::from_nanosecond(i128::MAX).is_none());
}
