//! Cross-checks the verified matchers against the `regex` crate: applying
//! the six patterns with `Regex::replace_all`, in the library's documented
//! order, must agree with the library's own engine on ASCII input.

use regex::Regex;
use sanitizer::engine::sanitize;
use sanitizer::patterns::Registry;

fn reference_sanitize(line: &str) -> String {
    let patterns: [(&str, &str); 6] = [
        ("EMAIL", r"\b[a-zA-Z0-9._%+-]+@[a-zA-Z0-9.-]+\.[a-zA-Z]{2,}\b"),
        ("JWT", r"\beyJ[a-zA-Z0-9_-]+\.[a-zA-Z0-9_-]+\.[a-zA-Z0-9_-]+\b"),
        (
            "UUID",
            r"\b[0-9a-fA-F]{8}-[0-9a-fA-F]{4}-[1-5][0-9a-fA-F]{3}-[89abAB][0-9a-fA-F]{3}-[0-9a-fA-F]{12}\b",
        ),
        ("IP", r"\b(?:[0-9]{1,3}\.){3}[0-9]{1,3}\b"),
        ("SHA256", r"\b[a-fA-F0-9]{64}\b"),
        ("MD5", r"\b[a-fA-F0-9]{32}\b"),
    ];
    let mut out = line.to_string();
    for (label, pat) in patterns {
        let re = Regex::new(pat).expect("pattern must compile");
        out = re
            .replace_all(&out, format!("[REDACTED_{}]", label).as_str())
            .to_string();
    }
    out
}

#[test]
fn engine_agrees_with_reference_patterns() {
    let lines = [
        "connect to 10.0.0.5 from user a@b.com",
        "id=550e8400-e29b-41d4-a716-446655440000",
        "token eyJhbGciOiJIUzI1NiJ9.payload.sig",
        "no sensitive data here",
        "",
        "1.2.3.4.5.6.7.8",
        "1234.5.6.7",
        "1.2.3.45678",
        "ip 1.2.3.4a trailing word byte",
        "a@b.co.uk7",
        "x.a@b.com",
        ".a@b.com",
        "%a@b.com",
        "me@1.2.3.4",
        "a@b-c.org and d_e%f+g@h.net",
        "a@@b.com",
        "a@b..com",
        "eyJa.b.c-",
        "eyJx..y",
        "eyJ.a.b",
        "xeyJa.b.c",
        "eyJa.b.c.d.e",
        "_underscore before deadbeefdeadbeefdeadbeefdeadbeef",
        "bare deadbeefdeadbeefdeadbeefdeadbeef md5",
        "550e8400-e29b-61d4-a716-446655440000 bad version",
        "550E8400-E29B-41D4-A716-446655440000 upper",
        "hash DEADBEEFdeadbeefDEADBEEFdeadbeefDEADBEEFdeadbeefDEADBEEFdeadbeef end",
        "mix a@b.com 10.0.0.5 eyJh.p.s 550e8400-e29b-41d4-a716-446655440000",
        "[REDACTED_IP] already redacted 10.0.0.5",
        "255.255.255.255 0.0.0.0 999.999.999.999",
        "v4 in text:172.16.254.1,next",
        "trailing dot 1.2.3.4.",
        "a+b@c.de, a-b@c-d.ef, a.b@c.d.ef",
    ];
    for line in lines {
        assert_eq!(
            String::from_utf8(sanitize(&line.as_bytes().to_vec(), &Registry::new())).unwrap(),
            reference_sanitize(line),
            "disagreement on input: {:?}",
            line
        );
    }
}
