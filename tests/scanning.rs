use echo::models::annotate_file;
use echo::position::Position;
use echo::reporter::SecretReporter;
use echo::scanners::{
    findings_for, scan_file, scan_with, token_shape, DiscordScanner, GenericScanner, InitScanners, Scanner,
    ScannerConfig, ScannerError,
};

const TOKEN: &str = "MTIzNDU2Nzg5MDEyMzQ1Njc4.abc123.ZZZZZZZZZZZZZZZZZZZZZZZZZZZ";

fn registry(extra: Vec<ScannerConfig>) -> Vec<Scanner> {
    match InitScanners::initialize(&extra) {
        Ok(v) => v,
        Err(e) => panic!("registry failed: {:?}", e),
    }
}

#[test]
fn registry_holds_builtin_then_configured() {
    let extra = vec![ScannerConfig {
        name: String::from("Example"),
        pattern: String::from("ex_[0-9]{4}"),
        invalidate: false,
    }];
    let scanners = registry(extra);
    assert_eq!(scanners.len(), 2);
    assert_eq!(scanners[0].service(), "Discord");
    assert!(scanners[0].nullify());
    assert_eq!(scanners[1].service(), "Example");
    assert!(!scanners[1].nullify());
}

#[test]
fn registry_rejects_bad_pattern() {
    let extra = vec![
        ScannerConfig { name: String::from("Fine"), pattern: String::from("abc"), invalidate: true },
        ScannerConfig { name: String::from("Broken"), pattern: String::from("(abc"), invalidate: true },
    ];
    match InitScanners::initialize(&extra) {
        Err(e) => assert_eq!(e, ScannerError::InvalidPattern(1)),
        Ok(_) => panic!("a broken pattern was accepted"),
    }
}

#[test]
fn token_shape_finds_first_segment() {
    assert_eq!(token_shape("abc.de.f"), Some(3));
    assert_eq!(token_shape(".de.f"), Some(0));
    assert_eq!(token_shape("abc.de"), None);
    assert_eq!(token_shape("a.b.c.d"), None);
    assert_eq!(token_shape(""), None);
}

#[test]
fn discord_confirm_needs_base64_user_id() {
    let d = DiscordScanner::new().unwrap();
    assert!(d.confirm(TOKEN));
    // '_' is outside the standard alphabet.
    assert!(!d.confirm("MTIzNDU2Nzg5MDEyMzQ1Nj_4.abc123.ZZZZZZZZZZZZZZZZZZZZZZZZZZZ"));
    // A length of one more than a multiple of four never decodes.
    assert!(!d.confirm("MTIzNDU2Nzg5MDEyMzQ1Njc4M.abc123.ZZZZZZZZZZZZZZZZZZZZZZZZZZZ"));
    assert!(!d.confirm("MTIzNDU2Nzg5MDEyMzQ1Njc4.abc123"));
    // Two symbols past the last whole group: the last one's low four bits must be zero.
    assert!(d.confirm("MTIzNDU2Nzg5MDEyMzQ1Njc4MA.abc123.ZZZZZZZZZZZZZZZZZZZZZZZZZZZ"));
    assert!(!d.confirm("MTIzNDU2Nzg5MDEyMzQ1Njc4MB.abc123.ZZZZZZZZZZZZZZZZZZZZZZZZZZZ"));
}

#[test]
fn scan_finds_token_with_positions() {
    let scanners = registry(Vec::new());
    let content = format!("line one\nkey = {} end", TOKEN);
    let results = scan_file(&scanners, &content, true);
    assert_eq!(results.len(), 1);
    let r = &results[0];
    assert_eq!(r.content, TOKEN);
    assert_eq!(r.start, 15);
    assert_eq!(r.end, 15 + TOKEN.len());
    assert_eq!(r.head, Position::new(1, 6));
    assert_eq!(r.tail, Position::new(1, 6 + TOKEN.len() as i32));
    assert!(r.invalidated);
    assert_eq!(r.service, "Discord");
}

#[test]
fn scan_finds_nothing_in_plain_text() {
    let scanners = registry(Vec::new());
    let results = scan_file(&scanners, "nothing to see here\n", true);
    assert!(results.is_empty());
    let results = scan_file(&scanners, "", true);
    assert!(results.is_empty());
}

#[test]
fn scan_skips_unconfirmed_shape() {
    let scanners = registry(Vec::new());
    let content = "MTIzNDU2Nzg5MDEyMzQ1Nj_4.abc123.ZZZZZZZZZZZZZZZZZZZZZZZZZZZ";
    assert!(scan_file(&scanners, content, true).is_empty());
}

#[test]
fn short_first_segment_is_not_reported() {
    // The first segment has 21 characters: shorter than a user id, and a
    // length that no base64 text has.
    let scanners = registry(Vec::new());
    let content = "AbCdEfGhIjKlMnOpQrStU.abc123.ZZZZZZZZZZZZZZZZZZZZZZZZZZZ";
    assert!(scan_file(&scanners, content, true).is_empty());
}

#[test]
fn generic_scanner_keeps_its_own_flag() {
    let extra = vec![ScannerConfig {
        name: String::from("Example"),
        pattern: String::from("ex_[0-9]{4}"),
        invalidate: false,
    }];
    let scanners = registry(extra);
    let content = "a ex_1234 b\nex_9999";
    let results = scan_file(&scanners, content, true);
    assert_eq!(results.len(), 2);
    assert_eq!(results[0].content, "ex_1234");
    assert_eq!(results[0].head, Position::new(0, 2));
    assert_eq!(results[1].content, "ex_9999");
    assert_eq!(results[1].head, Position::new(1, 0));
    assert_eq!(results[1].tail, Position::new(1, 7));
    assert!(!results[0].invalidated);
    assert_eq!(results[0].service, "Example");
}

#[test]
fn findings_follow_given_spans() {
    let config = ScannerConfig { name: String::from("X"), pattern: String::from("x"), invalidate: true };
    let scanner = Scanner::Generic(GenericScanner::new(&config).unwrap());
    let content = "ab\ncdé";
    let spans = vec![(1usize, 4usize), (4usize, 7usize)];
    let found = findings_for(content, &scanner, &spans, false);
    assert_eq!(found.len(), 2);
    assert_eq!(found[0].content, "b\nc");
    assert_eq!(found[0].head, Position::new(0, 1));
    assert_eq!(found[0].tail, Position::new(1, 1));
    assert_eq!(found[1].content, "dé");
    assert_eq!(found[1].tail, Position::new(1, 4));
    assert!(!found[0].invalidated);
}

#[test]
fn findings_lie_inside_content() {
    let extra = vec![ScannerConfig {
        name: String::from("Word"),
        pattern: String::from("[a-z]+"),
        invalidate: true,
    }];
    let scanners = registry(extra);
    let content = "héllo wörld\n\nabc déf";
    let results = scan_file(&scanners, content, false);
    assert!(!results.is_empty());
    for r in &results {
        assert!(r.start <= r.end && r.end <= content.len());
        assert!((r.head.line(), r.head.char()) <= (r.tail.line(), r.tail.char()));
        assert_eq!(r.content, &content[r.start..r.end]);
        assert!(!r.invalidated);
    }
}

#[test]
fn paste_without_password_invalidates_token() {
    let scanners = registry(Vec::new());
    let mut reporter = SecretReporter::new("tok");
    let with_token = format!("config:\n  token: {}\n", TOKEN);
    let files = ["just some notes", with_token.as_str()];
    let first = annotate_file(&scanners, files[0], true, &mut reporter);
    let second = annotate_file(&scanners, files[1], true, &mut reporter);
    assert!(first.is_empty());
    assert_eq!(second.len(), 1);
    assert_eq!(
        second[0].content,
        "Mystb.in found a secret for Discord. This secret has been invalidated."
    );
    assert_eq!(second[0].head, Position::new(1, 9));
    assert_eq!(reporter.len(), 1);
    assert_eq!(reporter.secret(0), TOKEN);
}

#[test]
fn paste_with_password_only_annotates() {
    let scanners = registry(Vec::new());
    let mut reporter = SecretReporter::new("tok");
    let content = format!("config:\n  token: {}\n", TOKEN);
    let annotations = annotate_file(&scanners, "just some notes", false, &mut reporter);
    assert!(annotations.is_empty());
    let annotations = annotate_file(&scanners, &content, false, &mut reporter);
    assert_eq!(annotations.len(), 1);
    assert_eq!(annotations[0].content, "Mystb.in found a secret for Discord.");
    assert_eq!(reporter.len(), 0);
}

#[test]
fn scan_with_groups_findings_by_scanner() {
    let extra = vec![ScannerConfig {
        name: String::from("Quiet"),
        pattern: String::from("q"),
        invalidate: false,
    }];
    let scanners = registry(extra);
    let content = "abc\ndef";
    let spans = vec![vec![(4usize, 6usize)], vec![(0usize, 1usize), (2usize, 5usize)]];
    let found = scan_with(&scanners, content, &spans, true);
    assert_eq!(found.len(), 3);
    assert_eq!(found[0].content, "de");
    assert_eq!(found[0].service, "Discord");
    assert!(found[0].invalidated);
    assert_eq!(found[0].head, Position::new(1, 0));
    assert_eq!(found[1].content, "a");
    assert_eq!(found[1].service, "Quiet");
    assert!(!found[1].invalidated);
    assert_eq!(found[2].content, "c\nd");
    assert_eq!(found[2].head, Position::new(0, 2));
    assert_eq!(found[2].tail, Position::new(1, 1));
}

#[test]
fn scan_file_follows_registry_order() {
    let extra = vec![
        ScannerConfig { name: String::from("Digits"), pattern: String::from("[0-9]+"), invalidate: true },
        ScannerConfig { name: String::from("Upper"), pattern: String::from("[A-Z]+"), invalidate: false },
    ];
    let scanners = registry(extra);
    let results = scan_file(&scanners, "AB 12\nCD 3", true);
    let seen: Vec<(&str, &str, bool)> =
        results.iter().map(|r| (r.service.as_str(), r.content, r.invalidated)).collect();
    assert_eq!(
        seen,
        vec![
            ("Digits", "12", true),
            ("Digits", "3", true),
            ("Upper", "AB", false),
            ("Upper", "CD", false),
        ]
    );
    assert_eq!(results[1].head, Position::new(1, 3));
}
