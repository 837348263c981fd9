//! Randomized cross-check of the engine against the `regex` crate, over
//! lines drawn from an alphabet rich in the bytes the patterns care about
//! (digits, hex, dots, `@`, hyphens, the `eyJ` prefix).

use regex::Regex;
use sanitizer::engine::sanitize;
use sanitizer::patterns::Registry;

struct Lcg(u64);

impl Lcg {
    fn next(&mut self) -> u64 {
        self.0 = self.0.wrapping_mul(6364136223846793005).wrapping_add(1442695040888963407);
        self.0 >> 33
    }
}

fn random_line(rng: &mut Lcg) -> String {
    const PIECES: [&str; 24] = [
        ".", "@", "-", "_", "%", "+", " ", "a", "e", "y", "J", "Z", "0", "1", "25", "co", "uk",
        "eyJ", "de", "adbeef", "1.2", ".3.4", "x@", "b.com",
    ];
    let len = 1 + (rng.next() as usize) % 14;
    let mut line = String::new();
    for _ in 0..len {
        line.push_str(PIECES[(rng.next() as usize) % PIECES.len()]);
    }
    line
}

fn reference_sanitize(res: &[(String, Regex)], line: &str) -> String {
    let mut out = line.to_string();
    for (marker, re) in res {
        out = re.replace_all(&out, marker.as_str()).to_string();
    }
    out
}

#[test]
fn engine_agrees_with_reference_on_random_lines() {
    let defs: [(&str, &str); 6] = [
        ("EMAIL", r"\b[a-zA-Z0-9._%+-]+@[a-zA-Z0-9.-]+\.[a-zA-Z]{2,}\b"),
        ("JWT", r"\beyJ[a-zA-Z0-9_-]+\.[a-zA-Z0-9_-]+\.[a-zA-Z0-9_-]+\b"),
        (
            "UUID",
            r"\b[0-9a-fA-F]{8}-[0-9a-fA-F]{4}-[1-5][0-9a-fA-F]{3}-[89abAB][0-9a-fA-F]{3}-[0-9a-fA-F]{12}\b",
        ),
        ("IP", r"\b(?:[0-9]{1,3}\.){3}[0-9]{1,3}\b"),
        ("SHA256", r"\b[a-fA-F0-9]{64}\b"),
        ("MD5", r"\b[a-fA-F0-9]{32}\b"),
    ];
    let res: Vec<(String, Regex)> = defs
        .iter()
        .map(|(label, pat)| (format!("[REDACTED_{}]", label), Regex::new(pat).unwrap()))
        .collect();
    let reg = Registry::new();
    let mut rng = Lcg(20241207);
    for _ in 0..800 {
        let line = random_line(&mut rng);
        let got = String::from_utf8(sanitize(&line.as_bytes().to_vec(), &reg)).unwrap();
        let want = reference_sanitize(&res, &line);
        assert_eq!(got, want, "disagreement on input: {:?}", line);
    }
}
