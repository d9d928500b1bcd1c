use echo::models::{
    annotations_for, message_for, Annotation, CreateFile, CreatePaste, File, Paste, ValidationError,
};
use echo::position::Position;
use echo::result::HTTPError;

fn file(name: Option<&str>, content: &str) -> CreateFile {
    CreateFile { name: name.map(String::from), content: String::from(content) }
}

fn request(files: Vec<CreateFile>) -> CreatePaste {
    CreatePaste { files, password: None, max_views: None, expires_at: None }
}

#[test]
fn messages_name_service_and_invalidation() {
    assert_eq!(message_for("Discord", false), "Mystb.in found a secret for Discord.");
    assert_eq!(
        message_for("GitHub", true),
        "Mystb.in found a secret for GitHub. This secret has been invalidated."
    );
}

#[test]
fn annotations_of_no_findings_are_empty() {
    assert!(annotations_for(&Vec::new()).is_empty());
}

#[test]
fn from_content_wraps_one_file() {
    let p = CreatePaste::from_content(String::from("hello")).unwrap();
    assert_eq!(p.files().len(), 1);
    assert_eq!(p.files()[0].name(), None);
    assert_eq!(p.files()[0].content(), "hello");
    assert_eq!(p.password(), None);
    assert_eq!(p.max_views(), None);
    assert_eq!(p.expires_at(), None);
    assert!(p.invalidates_secrets());
}

#[test]
fn from_content_rejects_bad_lengths() {
    for content in [String::new(), "x".repeat(300_001)] {
        match CreatePaste::from_content(content) {
            Err(e) => {
                assert_eq!(e.code, 422);
                assert_eq!(e.message(), "Must be between 1 and 300000 in length!");
            }
            Ok(_) => panic!("accepted a bad length"),
        }
    }
    assert!(CreatePaste::from_content("x".repeat(300_000)).is_ok());
}

#[test]
fn valid_request_passes() {
    let mut r = request(vec![file(Some("main.rs"), "fn main() {}"), file(None, "notes")]);
    r.password = Some(String::from("hunter2"));
    r.max_views = Some(128);
    assert_eq!(r.validate(), Ok(()));
    assert!(!r.invalidates_secrets());
}

#[test]
fn validation_errors() {
    assert_eq!(request(Vec::new()).validate(), Err(ValidationError::FileCount));
    let six = (0..6).map(|_| file(None, "x")).collect();
    assert_eq!(request(six).validate(), Err(ValidationError::FileCount));
    let r = request(vec![file(None, "x"), file(Some("a\nb"), "x")]);
    assert_eq!(r.validate(), Err(ValidationError::FileName(1)));
    let r = request(vec![file(Some(""), "x")]);
    assert_eq!(r.validate(), Err(ValidationError::FileName(0)));
    let long_name = "n".repeat(33);
    let r = request(vec![file(Some(&long_name), "x")]);
    assert_eq!(r.validate(), Err(ValidationError::FileName(0)));
    let r = request(vec![file(None, "x"), file(None, "")]);
    assert_eq!(r.validate(), Err(ValidationError::FileContent(1)));
    let mut r = request(vec![file(None, "x")]);
    r.password = Some(String::new());
    assert_eq!(r.validate(), Err(ValidationError::Password));
    let mut r = request(vec![file(None, "x")]);
    r.password = Some("p".repeat(73));
    assert_eq!(r.validate(), Err(ValidationError::Password));
    let mut r = request(vec![file(None, "x")]);
    r.max_views = Some(0);
    assert_eq!(r.validate(), Err(ValidationError::MaxViews));
    let mut r = request(vec![file(None, "x")]);
    r.max_views = Some(129);
    assert_eq!(r.validate(), Err(ValidationError::MaxViews));
}

#[test]
fn name_limit_counts_characters() {
    let name = "é".repeat(32);
    let r = request(vec![file(Some(&name), "x")]);
    assert_eq!(r.validate(), Ok(()));
}

#[test]
fn paste_collects_files() {
    let a = Annotation::new(Position::new(0, 1), Position::new(0, 4), String::from("note"));
    let f = File::new(String::from("a"), String::from("text"), 1, 4, vec![a]);
    let mut p = Paste::new(String::from("id"), 5, None, 0, Some(3), Vec::new(), Some(String::from("tok")));
    p.add_file(f);
    assert_eq!(p.id(), "id");
    assert_eq!(p.files.len(), 1);
    assert_eq!(p.files[0].annotations[0].content, "note");
    assert_eq!(p.security.as_deref(), Some("tok"));
}

#[test]
fn http_error_keeps_code_and_message() {
    let e = HTTPError::new(503, "Database connection unhealthy.");
    assert_eq!(e.code, 503);
    assert_eq!(e.message(), "Database connection unhealthy.");
}
