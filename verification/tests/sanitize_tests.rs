use sanitizer::boundary::sanitize_line;
use sanitizer::engine::{sanitize, sanitize_isolating};
use sanitizer::patterns::{PatternKind, Registry};

fn bytes(s: &str) -> Vec<u8> {
    s.as_bytes().to_vec()
}

fn run(s: &str) -> String {
    let reg = Registry::new();
    String::from_utf8(sanitize(&bytes(s), &reg)).unwrap()
}

#[test]
fn scenario_ip_and_email() {
    assert_eq!(
        run("connect to 10.0.0.5 from user a@b.com"),
        "connect to [REDACTED_IP] from user [REDACTED_EMAIL]"
    );
}

#[test]
fn scenario_uuid() {
    assert_eq!(
        run("id=550e8400-e29b-41d4-a716-446655440000"),
        "id=[REDACTED_UUID]"
    );
}

#[test]
fn scenario_sha256_not_md5() {
    let line = format!("digest {}", "deadbeef".repeat(8));
    let out = run(&line);
    assert_eq!(out, "digest [REDACTED_SHA256]");
    assert!(!out.contains("[REDACTED_MD5]"));
}

#[test]
fn scenario_md5() {
    let line = format!("digest {}", "deadbeef".repeat(4));
    assert_eq!(run(&line), "digest [REDACTED_MD5]");
}

#[test]
fn scenario_jwt() {
    assert_eq!(
        run("token eyJhbGciOiJIUzI1NiJ9.payload.sig"),
        "token [REDACTED_JWT]"
    );
}

#[test]
fn scenario_null_input() {
    let reg = Registry::new();
    assert_eq!(sanitize_line(None, &reg), None);
}

#[test]
fn non_matching_line_unchanged() {
    let line = "no sensitive data here, just words";
    assert_eq!(run(line), line);
    assert_eq!(run(""), "");
}

#[test]
fn already_redacted_line_stable() {
    let inputs = [
        "connect to 10.0.0.5 from user a@b.com",
        "id=550e8400-e29b-41d4-a716-446655440000",
        "token eyJhbGciOiJIUzI1NiJ9.payload.sig",
        "x 1.2.3.4 y 5.6.7.8 z",
    ];
    for line in inputs {
        let once = run(line);
        let twice = run(&once);
        assert_eq!(twice, once);
    }
}

#[test]
fn ip_replaced_and_gone() {
    let out = run("peer 192.168.7.13 closed");
    assert!(out.contains("[REDACTED_IP]"));
    assert!(!out.contains("192.168.7.13"));
}

#[test]
fn email_replaced_and_gone() {
    let out = run("mail from alice.smith+tag@example.co.uk today");
    assert!(out.contains("[REDACTED_EMAIL]"));
    assert!(!out.contains("alice.smith+tag@example.co.uk"));
}

#[test]
fn invalid_encoding_gives_sentinel() {
    let reg = Registry::new();
    assert_eq!(sanitize_line(Some(&vec![0xff, 0x41]), &reg), None);
    assert_eq!(sanitize_line(Some(&vec![0xc0, 0x80]), &reg), None);
    assert_eq!(sanitize_line(Some(&vec![0xed, 0xa0, 0x80]), &reg), None);
}

#[test]
fn valid_input_gives_redacted_line() {
    let reg = Registry::new();
    let out = sanitize_line(Some(&bytes("ping 10.0.0.1 ok")), &reg).unwrap();
    assert_eq!(String::from_utf8(out).unwrap(), "ping [REDACTED_IP] ok");
    let plain = sanitize_line(Some(&bytes("h\u{e9}llo w\u{f6}rld")), &reg).unwrap();
    assert_eq!(String::from_utf8(plain).unwrap(), "h\u{e9}llo w\u{f6}rld");
}

#[test]
fn fault_in_one_pattern_leaves_others_running() {
    let reg = Registry::new();
    let line = bytes("connect to 10.0.0.5 from user a@b.com");
    let (out, skipped) = sanitize_isolating(&line, &reg, &vec![PatternKind::Email]);
    let out = String::from_utf8(out).unwrap();
    assert_eq!(out, "connect to [REDACTED_IP] from user a@b.com");
    assert_eq!(skipped, vec![PatternKind::Email]);

    let (out2, skipped2) = sanitize_isolating(&line, &reg, &vec![PatternKind::Ip]);
    let out2 = String::from_utf8(out2).unwrap();
    assert_eq!(out2, "connect to 10.0.0.5 from user [REDACTED_EMAIL]");
    assert_eq!(skipped2, vec![PatternKind::Ip]);
}

#[test]
fn no_fault_skips_nothing() {
    let reg = Registry::new();
    let line = bytes("user b@c.de at 1.2.3.4");
    let (out, skipped) = sanitize_isolating(&line, &reg, &vec![]);
    assert_eq!(out, sanitize(&line, &reg));
    assert!(skipped.is_empty());
}

#[test]
fn uuid_requires_version_and_variant() {
    // version digit 6 is outside 1-5, so this is not a UUID shape
    let line = "id=550e8400-e29b-61d4-a716-446655440000";
    assert_eq!(run(line), line);
}

#[test]
fn long_hex_runs_match_neither_digest() {
    // 96 hex digits in a row: neither the 64- nor the 32-digit shape fits
    let line = format!("x {}", "deadbeef".repeat(12));
    assert_eq!(run(&line), line);
}

#[test]
fn adjacent_ips_both_redacted() {
    assert_eq!(
        run("1.2.3.4.5.6.7.8"),
        "[REDACTED_IP].[REDACTED_IP]"
    );
}

#[test]
fn email_swallows_enclosed_hash() {
    // the e-mail pattern runs first and may enclose a bare hex run
    let line = format!("{}@example.com", "deadbeef".repeat(4));
    assert_eq!(run(&line), "[REDACTED_EMAIL]");
}

#[test]
fn markers_pass_through_unchanged() {
    for marker in [
        "[REDACTED_IP]",
        "[REDACTED_EMAIL]",
        "[REDACTED_UUID]",
        "[REDACTED_SHA256]",
        "[REDACTED_MD5]",
        "[REDACTED_JWT]",
    ] {
        assert_eq!(run(marker), marker);
    }
}
