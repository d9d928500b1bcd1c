use vstd::prelude::*;
use vstd::string::StrSliceExecFns;
use vstd::string::StringExecFns;
use vstd::string::StringSliceAdditionalSpecFns;
use vstd::utf8::encode_utf8;

use crate::access::MAX_VIEW_LIMIT;
use crate::position::Position;
use crate::reporter::{invalidated_texts, SecretReporter};
use crate::result::HTTPError;
use crate::scanners::{
    findings_match, flat_spans, registry_matches, scan_file, secrets_of, span_chars, ScanResult,
    Scanner,
};

verus! {

/// Most files a paste may hold.
pub const MAX_FILES: usize = 5;

/// Longest file name, in characters.
pub const MAX_NAME_CHARS: usize = 32;

/// Longest file content, in characters (bytes for a plain-text paste).
pub const MAX_CONTENT_LEN: usize = 300000;

/// Longest password, in characters.
pub const MAX_PASSWORD_CHARS: usize = 72;

/// Start of every annotation message.
pub const FOUND_PREFIX: &'static str = "Mystb.in found a secret for ";

/// Clause added to the message of an invalidated finding.
pub const INVALIDATED_CLAUSE: &'static str = " This secret has been invalidated.";

/// Message of a plain-text paste whose length is out of bounds.
pub const LENGTH_MESSAGE: &'static str = "Must be between 1 and 300000 in length!";

/// The message of an annotation for a finding of `service`.
pub open spec fn annotation_message(service: Seq<char>, invalidated: bool) -> Seq<char> {
    FOUND_PREFIX@ + service + "."@ + if invalidated {
        INVALIDATED_CLAUSE@
    } else {
        Seq::empty()
    }
}

/// A note attached to a span of a file.
pub struct Annotation {
    pub head: Position,
    pub tail: Position,
    pub content: String,
}

impl Annotation {
    pub fn new(head: Position, tail: Position, content: String) -> (r: Self)
        ensures
            r.head == head,
            r.tail == tail,
            r.content == content,
    {
        Annotation { head, tail, content }
    }

    /// This annotation is the one made for finding `f`.
    pub open spec fn describes(&self, f: ScanResult) -> bool {
        &&& self.head == f.head
        &&& self.tail == f.tail
        &&& self.content@ == annotation_message(f.service@, f.invalidated)
    }
}

/// The annotation message for a finding of `service`.
pub fn message_for(service: &str, invalidated: bool) -> (r: String)
    ensures
        r@ == annotation_message(service@, invalidated),
{
    let mut message = String::from_str(FOUND_PREFIX);
    message.append(service);
    message.append(".");
    if invalidated {
        message.append(INVALIDATED_CLAUSE);
    }
    message
}

/// One annotation per finding, in order.
pub fn annotations_for(results: &Vec<ScanResult>) -> (r: Vec<Annotation>)
    ensures
        r@.len() == results@.len(),
        forall|i: int| 0 <= i < r@.len() ==> (#[trigger] r@[i]).describes(results@[i]),
{
    let mut annotations: Vec<Annotation> = Vec::new();
    let mut i: usize = 0;
    while i < results.len()
        invariant
            i <= results@.len(),
            annotations@.len() == i,
            forall|k: int| 0 <= k < i ==> (#[trigger] annotations@[k]).describes(results@[k]),
        decreases results@.len() - i,
    {
        let scan = &results[i];
        let content = message_for(scan.service.as_str(), scan.invalidated);
        annotations.push(Annotation::new(scan.head, scan.tail, content));
        i = i + 1;
    }
    annotations
}

impl Annotation {
    /// This annotation is the one made for `entry`: range `entry.1` of `b`
    /// reported by `scanners[entry.0]`.
    pub open spec fn annotates(
        &self,
        scanners: Seq<Scanner>,
        b: Seq<u8>,
        entry: (int, (usize, usize)),
        invalidate_secrets: bool,
    ) -> bool {
        &&& self.head.locates(b, entry.1.0 as int)
        &&& self.tail.locates(b, entry.1.1 as int)
        &&& self.content@ == annotation_message(
            scanners[entry.0].service_name(),
            scanners[entry.0].invalidates() && invalidate_secrets,
        )
    }
}

/// The invalidated texts of findings that match `entries` are the secrets of
/// those entries.
proof fn lemma_invalidated_texts(
    results: Seq<ScanResult>,
    scanners: Seq<Scanner>,
    b: Seq<u8>,
    entries: Seq<(int, (usize, usize))>,
    invalidate_secrets: bool,
)
    requires
        findings_match(results, scanners, entries, invalidate_secrets),
        forall|i: int| 0 <= i < results.len() ==> (#[trigger] results[i]).well_placed(b),
    ensures
        invalidated_texts(results) == secrets_of(scanners, b, entries, invalidate_secrets),
    decreases results.len(),
{
    if results.len() > 0 {
        let n = results.len() - 1;
        assert forall|i: int| 0 <= i < n implies (#[trigger] results.drop_last()[i]).from_entry(
            scanners,
            entries.drop_last()[i],
            invalidate_secrets,
        ) && results.drop_last()[i].well_placed(b) by {
            assert(results[i].from_entry(scanners, entries[i], invalidate_secrets));
            assert(results[i].well_placed(b));
        }
        lemma_invalidated_texts(results.drop_last(), scanners, b, entries.drop_last(), invalidate_secrets);
        let last = results[n];
        assert(last.from_entry(scanners, entries[n], invalidate_secrets));
        assert(last.well_placed(b));
        vstd::utf8::encode_utf8_decode_utf8(last.content@);
        assert(last.content@ == span_chars(b, entries[n].1));
    }
}

/// Scans a file being created, queues its invalidated secrets for disclosure,
/// and returns its annotations: one per match that a scanner confirms, in
/// registry order, and one queued secret per such match whose scanner
/// invalidates when invalidation is enabled.
pub fn annotate_file(
    scanners: &Vec<Scanner>,
    content: &str,
    invalidate_secrets: bool,
    reporter: &mut SecretReporter,
) -> (r: Vec<Annotation>)
    requires
        content.spec_bytes().len() <= i32::MAX,
    ensures
        ({
            let b = content.spec_bytes();
            let entries = flat_spans(registry_matches(scanners@, b));
            &&& r@.len() == entries.len()
            &&& forall|i: int|
                0 <= i < r@.len() ==> (#[trigger] r@[i]).annotates(
                    scanners@,
                    b,
                    entries[i],
                    invalidate_secrets,
                )
            &&& final(reporter).pending() == old(reporter).pending() + secrets_of(
                scanners@,
                b,
                entries,
                invalidate_secrets,
            )
        }),
        final(reporter).authorization() == old(reporter).authorization(),
{
    let ghost b = content.spec_bytes();
    let ghost entries = flat_spans(registry_matches(scanners@, b));
    let results = scan_file(scanners, content, invalidate_secrets);
    reporter.add_findings(&results);
    let annotations = annotations_for(&results);
    proof {
        lemma_invalidated_texts(results@, scanners@, b, entries, invalidate_secrets);
        assert forall|i: int| 0 <= i < annotations@.len() implies (#[trigger] annotations@[i]).annotates(
            scanners@,
            b,
            entries[i],
            invalidate_secrets,
        ) by {
            assert(annotations@[i].describes(results@[i]));
            assert(results@[i].from_entry(scanners@, entries[i], invalidate_secrets));
            assert(results@[i].well_placed(b));
        }
    }
    annotations
}

/// A file of a paste, with its derived counts and annotations.
pub struct File {
    pub name: String,
    pub content: String,
    pub lines: i32,
    pub characters: i32,
    pub annotations: Vec<Annotation>,
}

impl File {
    pub fn new(
        name: String,
        content: String,
        lines: i32,
        characters: i32,
        annotations: Vec<Annotation>,
    ) -> (r: Self)
        ensures
            r.name == name,
            r.content == content,
            r.lines == lines,
            r.characters == characters,
            r.annotations == annotations,
    {
        File { name, content, lines, characters, annotations }
    }
}

/// A paste as served. Times are microseconds since the Unix epoch. The safety
/// token is present only in the response to its creation.
pub struct Paste {
    pub id: String,
    pub created_at: i64,
    pub expires_at: Option<i64>,
    pub views: i64,
    pub max_views: Option<i16>,
    pub files: Vec<File>,
    pub security: Option<String>,
}

impl Paste {
    pub fn id(&self) -> (r: &str)
        ensures
            r@ == self.id@,
    {
        self.id.as_str()
    }

    pub fn add_file(&mut self, file: File)
        ensures
            final(self).files@ == old(self).files@.push(file),
            final(self).id == old(self).id,
            final(self).views == old(self).views,
            final(self).security == old(self).security,
    {
        self.files.push(file);
    }

    pub fn new(
        id: String,
        created_at: i64,
        expires_at: Option<i64>,
        views: i64,
        max_views: Option<i16>,
        files: Vec<File>,
        security: Option<String>,
    ) -> (r: Self)
        ensures
            r.id == id,
            r.created_at == created_at,
            r.expires_at == expires_at,
            r.views == views,
            r.max_views == max_views,
            r.files == files,
            r.security == security,
    {
        Paste { id, created_at, expires_at, views, max_views, files, security }
    }
}

/// A file of a creation request.
pub struct CreateFile {
    pub name: Option<String>,
    pub content: String,
}

impl CreateFile {
    pub fn name(&self) -> (r: Option<&str>)
        ensures
            r is Some <==> self.name is Some,
            r matches Some(n) ==> n@ == self.name->0@,
    {
        match &self.name {
            Some(n) => Some(n.as_str()),
            None => None,
        }
    }

    pub fn content(&self) -> (r: &str)
        ensures
            r@ == self.content@,
    {
        self.content.as_str()
    }
}

/// A creation request. The deadline is in microseconds since the Unix epoch.
pub struct CreatePaste {
    pub files: Vec<CreateFile>,
    pub password: Option<String>,
    pub max_views: Option<i16>,
    pub expires_at: Option<i64>,
}

/// Which rule a creation request breaks.
#[derive(Clone, Copy, Debug, PartialEq, Eq, Structural)]
pub enum ValidationError {
    /// Fewer than one or more than five files.
    FileCount,
    /// A file name that is empty, longer than 32 characters, or holds a newline.
    FileName(usize),
    /// A file content that is empty or longer than 300000 characters.
    FileContent(usize),
    /// A password that is empty or longer than 72 characters.
    Password,
    /// A view limit outside 1 to 128.
    MaxViews,
}

/// A file name is 1 to 32 characters without a newline.
pub open spec fn name_valid(name: Seq<char>) -> bool {
    &&& 1 <= name.len() <= MAX_NAME_CHARS
    &&& !name.contains('\n')
}

/// A file content is 1 to 300000 characters.
pub open spec fn content_valid(content: Seq<char>) -> bool {
    1 <= content.len() <= MAX_CONTENT_LEN
}

/// A file is valid when its name, if any, and its content are.
pub open spec fn file_valid(f: CreateFile) -> bool {
    &&& (f.name matches Some(n) ==> name_valid(n@))
    &&& content_valid(f.content@)
}

/// A password is 1 to 72 characters.
pub open spec fn password_valid(p: Seq<char>) -> bool {
    1 <= p.len() <= MAX_PASSWORD_CHARS
}

fn has_newline(s: &str) -> (r: bool)
    ensures
        r == s@.contains('\n'),
{
    let n = s.unicode_len();
    let mut i: usize = 0;
    while i < n
        invariant
            n == s@.len(),
            i <= n,
            forall|k: int| 0 <= k < i ==> s@[k] != '\n',
        decreases n - i,
    {
        if s.get_char(i) == '\n' {
            return true;
        }
        i = i + 1;
    }
    false
}

impl CreatePaste {
    pub fn files(&self) -> (r: &Vec<CreateFile>)
        ensures
            r == &self.files,
    {
        &self.files
    }

    pub fn password(&self) -> (r: Option<&str>)
        ensures
            r is Some <==> self.password is Some,
            r matches Some(p) ==> p@ == self.password->0@,
    {
        match &self.password {
            Some(p) => Some(p.as_str()),
            None => None,
        }
    }

    pub fn max_views(&self) -> (r: Option<i16>)
        ensures
            r == self.max_views,
    {
        self.max_views
    }

    pub fn expires_at(&self) -> (r: Option<i64>)
        ensures
            r == self.expires_at,
    {
        self.expires_at
    }

    /// Secrets found in a paste are invalidated only when no password guards
    /// it: a guarded paste is readable by its password holders alone.
    pub fn invalidates_secrets(&self) -> (r: bool)
        ensures
            r == self.password is None,
    {
        self.password.is_none()
    }

    /// The request passes every rule of its shape.
    pub open spec fn valid(&self) -> bool {
        &&& 1 <= self.files@.len() <= MAX_FILES
        &&& forall|i: int| 0 <= i < self.files@.len() ==> file_valid(#[trigger] self.files@[i])
        &&& (self.password matches Some(p) ==> password_valid(p@))
        &&& (self.max_views matches Some(m) ==> 1 <= m <= MAX_VIEW_LIMIT)
    }

    /// Checks the request's shape before any storage work: the file count,
    /// then each file in order, then the password, then the view limit.
    pub fn validate(&self) -> (r: Result<(), ValidationError>)
        ensures
            r is Ok <==> self.valid(),
            r == Err::<(), ValidationError>(ValidationError::FileCount) <==> !(1 <= self.files@.len()
                <= MAX_FILES),
            r matches Err(ValidationError::FileName(i)) ==> i < self.files@.len() && !(
            self.files@[i as int].name matches Some(n) ==> name_valid(n@)),
            r matches Err(ValidationError::FileContent(i)) ==> i < self.files@.len()
                && !content_valid(self.files@[i as int].content@),
            r == Err::<(), ValidationError>(ValidationError::Password) ==> (
            self.password matches Some(p) && !password_valid(p@)),
            r == Err::<(), ValidationError>(ValidationError::MaxViews) ==> (
            self.max_views matches Some(m) && !(1 <= m <= MAX_VIEW_LIMIT)),
    {
        if self.files.len() < 1 || self.files.len() > MAX_FILES {
            return Err(ValidationError::FileCount);
        }
        let mut i: usize = 0;
        while i < self.files.len()
            invariant
                1 <= self.files@.len() <= MAX_FILES,
                i <= self.files@.len(),
                forall|k: int| 0 <= k < i ==> file_valid(#[trigger] self.files@[k]),
            decreases self.files@.len() - i,
        {
            let file = &self.files[i];
            match &file.name {
                Some(n) => {
                    let len = n.as_str().unicode_len();
                    if len < 1 || len > MAX_NAME_CHARS || has_newline(n.as_str()) {
                        return Err(ValidationError::FileName(i));
                    }
                },
                None => {},
            }
            let len = file.content.as_str().unicode_len();
            if len < 1 || len > MAX_CONTENT_LEN {
                return Err(ValidationError::FileContent(i));
            }
            i = i + 1;
        }
        match &self.password {
            Some(p) => {
                let len = p.as_str().unicode_len();
                if len < 1 || len > MAX_PASSWORD_CHARS {
                    return Err(ValidationError::Password);
                }
            },
            None => {},
        }
        match self.max_views {
            Some(m) => {
                if m < 1 || m > MAX_VIEW_LIMIT {
                    return Err(ValidationError::MaxViews);
                }
            },
            None => {},
        }
        Ok(())
    }

    /// A request for a single unnamed file holding `content`, as a plain-text
    /// upload makes it; its length in bytes must lie between 1 and 300000.
    pub fn from_content(content: String) -> (r: Result<Self, HTTPError>)
        ensures
            r is Ok <==> 1 <= encode_utf8(content@).len() as usize <= MAX_CONTENT_LEN,
            r matches Ok(p) ==> {
                &&& p.files@.len() == 1
                &&& p.files@[0].name is None
                &&& p.files@[0].content == content
                &&& p.password is None
                &&& p.max_views is None
                &&& p.expires_at is None
            },
            r matches Err(e) ==> e.code == 422 && e.inner.message@ == LENGTH_MESSAGE@,
    {
        let len = content.as_str().len();
        if len < 1 || len > MAX_CONTENT_LEN {
            return Err(HTTPError::new(422, LENGTH_MESSAGE));
        }
        let file = CreateFile { name: None, content };
        let mut files: Vec<CreateFile> = Vec::new();
        files.push(file);
        Ok(CreatePaste { files, password: None, max_views: None, expires_at: None })
    }
}

} // verus!
