use echo::reporter::{decimal_string, CreateGist, SecretReporter, DESCRIPTION};

#[test]
fn decimal_names() {
    assert_eq!(decimal_string(0), "0");
    assert_eq!(decimal_string(7), "7");
    assert_eq!(decimal_string(10), "10");
    assert_eq!(decimal_string(12345), "12345");
}

#[test]
fn reporter_authorization_is_bearer() {
    let r = SecretReporter::new("abc");
    assert_eq!(r.authorization_header(), "Bearer abc");
    assert_eq!(r.len(), 0);
}

#[test]
fn empty_queue_makes_no_report() {
    let r = SecretReporter::new("abc");
    assert!(r.prepare_report().is_none());
}

#[test]
fn report_lists_queue_in_order() {
    let mut r = SecretReporter::new("abc");
    r.add("first");
    r.add("second");
    r.add("first");
    let report = r.prepare_report().unwrap();
    assert_eq!(report.len(), 3);
    assert!(report.public());
    assert_eq!(report.description(), DESCRIPTION);
    assert_eq!(report.file(0), ("0.txt", "first"));
    assert_eq!(report.file(1), ("1.txt", "second"));
    assert_eq!(report.file(2), ("2.txt", "first"));
    // Preparing does not remove anything.
    assert_eq!(r.len(), 3);
}

#[test]
fn successful_tick_drains_exactly_the_report() {
    let mut r = SecretReporter::new("abc");
    r.add("a");
    r.add("b");
    r.add("c");
    let report = r.prepare_report().unwrap();
    // Found while the report was in flight.
    r.add("d");
    r.complete_report(report.len(), true);
    assert_eq!(r.len(), 1);
    assert_eq!(r.secret(0), "d");
}

#[test]
fn failed_tick_drains_nothing() {
    let mut r = SecretReporter::new("abc");
    r.add("a");
    r.add("b");
    let report = r.prepare_report().unwrap();
    r.complete_report(report.len(), false);
    assert_eq!(r.len(), 2);
    assert_eq!(r.secret(0), "a");
    assert_eq!(r.secret(1), "b");
}

#[test]
fn gist_file_replaces_same_name() {
    let mut g = CreateGist::new();
    assert_eq!(g.len(), 0);
    g.add_file(String::from("a.txt"), "one");
    g.add_file(String::from("b.txt"), "two");
    g.add_file(String::from("a.txt"), "three");
    assert_eq!(g.len(), 2);
    assert_eq!(g.file(0), ("a.txt", "three"));
    assert_eq!(g.file(1), ("b.txt", "two"));
}
