use base64::prelude::BASE64_STANDARD_NO_PAD;
use base64::Engine;
use vstd::prelude::*;
use vstd::string::StringSliceAdditionalSpecFns;
use vstd::string::StrSliceExecFns;
use vstd::utf8::is_char_boundary;
use vstd::utf8::decode_utf8;
use vstd::utf8::valid_utf8;

use crate::pattern::{compile, find_spans, regex_compiles, regex_spans, spans_within, Pattern};
use crate::position::{
    find_position, lemma_locate_monotonic, lemma_locate_round_trip, line_begin, position_le,
    Position,
};

verus! {

broadcast use vstd::utf8::group_utf8_lib;

/// The shape of a Discord bot token: three dot-separated segments.
pub const DISCORD_PATTERN: &'static str = r"[a-zA-Z0-9_-]{23,28}\.[a-zA-Z0-9_-]{6,7}\.[a-zA-Z0-9_-]{27,}";

/// Service name reported for Discord tokens.
pub const DISCORD_NAME: &'static str = "Discord";

/// The byte that separates token segments.
pub const DOT: u8 = 46;

/// Number of '.' bytes in `s`.
pub open spec fn dot_count(s: Seq<u8>) -> nat
    decreases s.len(),
{
    if s.len() == 0 {
        0
    } else {
        dot_count(s.drop_last()) + if s.last() == DOT {
            1nat
        } else {
            0nat
        }
    }
}

/// Length of the part of `s` before its first '.', or the length of `s` when
/// it holds none.
pub open spec fn first_segment_len(s: Seq<u8>) -> int
    decreases s.len(),
{
    if s.len() == 0 {
        0
    } else if dot_count(s.drop_last()) > 0 {
        first_segment_len(s.drop_last())
    } else if s.last() == DOT {
        s.len() - 1
    } else {
        s.len() as int
    }
}

/// Value of byte `c` in base64's standard alphabet (`A-Z`, `a-z`, `0-9`,
/// `+`, `/`), or -1 for a byte outside it.
pub open spec fn base64_value(c: u8) -> int {
    if 65 <= c <= 90 {
        c - 65
    } else if 97 <= c <= 122 {
        c - 71
    } else if 48 <= c <= 57 {
        c + 4
    } else if c == 43 {
        62
    } else if c == 47 {
        63
    } else {
        -1
    }
}

/// Whether base64's standard alphabet without padding decodes `input`:
/// every byte is a symbol (no `=`), no group ends with a single symbol, and
/// the bits of the last symbol that fall past the last whole byte are zero.
pub open spec fn no_pad_decodes(input: Seq<u8>) -> bool {
    &&& forall|i: int| 0 <= i < input.len() ==> base64_value(#[trigger] input[i]) >= 0
    &&& input.len() % 4 != 1
    &&& input.len() % 4 == 2 ==> base64_value(input.last()) % 16 == 0
    &&& input.len() % 4 == 3 ==> base64_value(input.last()) % 4 == 0
}

/// A Discord token is taken as real when it has exactly three segments and
/// its first segment (the user id) is valid unpadded base64.
pub open spec fn token_confirmed(token: Seq<u8>) -> bool {
    &&& dot_count(token) == 2
    &&& no_pad_decodes(token.take(first_segment_len(token)))
}

/// Relies on base64's `STANDARD_NO_PAD` engine: `decode` rejects a byte
/// outside the alphabet or any `=`, a final group of one symbol, and nonzero
/// trailing bits, and accepts everything else (the empty input too).
#[verifier::external_body]
fn decodes_without_padding(input: &str) -> (r: bool)
    ensures
        r == no_pad_decodes(input.spec_bytes()),
{
    BASE64_STANDARD_NO_PAD.decode(input).is_ok()
}

/// When `token` has exactly three dot-separated segments, the length of the
/// first one; `None` otherwise.
pub fn token_shape(token: &str) -> (r: Option<usize>)
    ensures
        r is Some <==> dot_count(token.spec_bytes()) == 2,
        r matches Some(n) ==> {
            &&& n == first_segment_len(token.spec_bytes())
            &&& n < token.spec_bytes().len()
            &&& token.spec_bytes()[n as int] == DOT
        },
{
    let bytes = token.as_bytes();
    let ghost b = token.spec_bytes();
    let mut dots: usize = 0;
    let mut first: usize = 0;
    let mut i: usize = 0;
    while i < bytes.len()
        invariant
            bytes@ == b,
            i <= b.len(),
            dots <= i,
            dots == dot_count(b.take(i as int)),
            first == first_segment_len(b.take(i as int)),
            dots == 0 ==> first == i,
            dots > 0 ==> first < i && b[first as int] == DOT,
        decreases b.len() - i,
    {
        assert(b.take(i + 1).drop_last() =~= b.take(i as int));
        if bytes[i] == DOT {
            dots = dots + 1;
        } else if dots == 0 {
            first = i + 1;
        }
        i = i + 1;
    }
    assert(b.take(i as int) =~= b);
    if dots == 2 {
        Some(first)
    } else {
        None
    }
}

/// The text of the byte range `start..end` of `content`.
fn span_text<'a>(content: &'a str, start: usize, end: usize) -> (r: &'a str)
    requires
        start <= end <= content.spec_bytes().len(),
        is_char_boundary(content.spec_bytes(), start as int),
        is_char_boundary(content.spec_bytes(), end as int),
    ensures
        r.spec_bytes() == content.spec_bytes().subrange(start as int, end as int),
{
    let ghost b = content.spec_bytes();
    let (left, _) = content.split_at(end);
    proof {
        let lb = left.spec_bytes();
        vstd::utf8::encode_utf8_valid_utf8(content@);
        vstd::utf8::valid_utf8_split(b, end as int);
        assert(lb =~= b.subrange(0, end as int));
        vstd::utf8::is_char_boundary_start_end_of_seq(lb);
        if 0 < start && start < end {
            assert(lb[start as int] == b[start as int]);
            vstd::utf8::is_char_boundary_iff_not_is_continuation_byte(b, start as int);
            vstd::utf8::is_char_boundary_iff_not_is_continuation_byte(lb, start as int);
        }
    }
    let (_, mid) = left.split_at(start);
    proof {
        assert(mid.spec_bytes() =~= b.subrange(start as int, end as int));
    }
    mid
}

/// The built-in scanner for Discord bot tokens.
pub struct DiscordScanner {
    pattern: Pattern,
}

impl DiscordScanner {
    pub closed spec fn pattern_text(&self) -> Seq<char> {
        self.pattern.text()
    }

    /// Compiles the token pattern; `None` only when the regex engine refuses it.
    pub fn new() -> (r: Option<Self>)
        ensures
            r is Some <==> regex_compiles(DISCORD_PATTERN@),
            r matches Some(d) ==> d.pattern_text() == DISCORD_PATTERN@,
    {
        match compile(DISCORD_PATTERN) {
            Some(pattern) => Some(DiscordScanner { pattern }),
            None => None,
        }
    }

    /// Whether a matched token is likely real: three segments, the first of
    /// them valid unpadded base64.
    pub fn confirm(&self, item: &str) -> (r: bool)
        ensures
            r == token_confirmed(item.spec_bytes()),
    {
        match token_shape(item) {
            None => false,
            Some(n) => {
                let ghost b = item.spec_bytes();
                proof {
                    vstd::utf8::encode_utf8_valid_utf8(item@);
                    vstd::utf8::is_char_boundary_iff_not_is_continuation_byte(b, n as int);
                }
                let (head, _) = item.split_at(n);
                assert(head.spec_bytes() =~= b.take(n as int));
                decodes_without_padding(head)
            },
        }
    }
}

/// Settings of a scanner defined by configuration.
pub struct ScannerConfig {
    pub name: String,
    pub pattern: String,
    pub invalidate: bool,
}

/// A scanner defined by configuration: its own service name, pattern and
/// invalidation flag; every match counts.
pub struct GenericScanner {
    name: String,
    pattern: Pattern,
    nullify: bool,
}

impl GenericScanner {
    pub closed spec fn service_name(&self) -> Seq<char> {
        self.name@
    }

    pub closed spec fn invalidates(&self) -> bool {
        self.nullify
    }

    pub closed spec fn pattern_text(&self) -> Seq<char> {
        self.pattern.text()
    }

    /// Compiles the configured pattern; `None` when the regex engine refuses it.
    pub fn new(config: &ScannerConfig) -> (r: Option<Self>)
        ensures
            r is Some <==> regex_compiles(config.pattern@),
            r matches Some(s) ==> {
                &&& s.service_name() == config.name@
                &&& s.invalidates() == config.invalidate
                &&& s.pattern_text() == config.pattern@
            },
    {
        match compile(config.pattern.as_str()) {
            Some(pattern) => Some(GenericScanner {
                name: config.name.clone(),
                pattern,
                nullify: config.invalidate,
            }),
            None => None,
        }
    }
}

/// A registered scanner.
pub enum Scanner {
    Discord(DiscordScanner),
    Generic(GenericScanner),
}

/// The ranges of `spans`, in order, whose text `scanner` confirms.
pub open spec fn kept(scanner: Scanner, b: Seq<u8>, spans: Seq<(usize, usize)>) -> Seq<(usize, usize)>
    decreases spans.len(),
{
    if spans.len() == 0 {
        Seq::empty()
    } else {
        let prior = kept(scanner, b, spans.drop_last());
        let last = spans.last();
        if scanner.confirms(b.subrange(last.0 as int, last.1 as int)) {
            prior.push(last)
        } else {
            prior
        }
    }
}

impl Scanner {
    /// Name of the service whose secrets this scanner finds.
    pub open spec fn service_name(&self) -> Seq<char> {
        match self {
            Scanner::Discord(_) => DISCORD_NAME@,
            Scanner::Generic(g) => g.service_name(),
        }
    }

    /// Whether findings of this scanner are to be invalidated.
    pub open spec fn invalidates(&self) -> bool {
        match self {
            Scanner::Discord(_) => true,
            Scanner::Generic(g) => g.invalidates(),
        }
    }

    /// Whether this scanner keeps a match with the given text.
    pub open spec fn confirms(&self, text: Seq<u8>) -> bool {
        match self {
            Scanner::Discord(_) => token_confirmed(text),
            Scanner::Generic(_) => true,
        }
    }

    /// The text of this scanner's pattern.
    pub open spec fn pattern_text(&self) -> Seq<char> {
        match self {
            Scanner::Discord(d) => d.pattern_text(),
            Scanner::Generic(g) => g.pattern_text(),
        }
    }

    /// The ranges this scanner reports in `b`: its pattern's matches that it
    /// confirms, in order.
    pub open spec fn matches_in(&self, b: Seq<u8>) -> Seq<(usize, usize)> {
        kept(*self, b, regex_spans(self.pattern_text(), b))
    }

    pub fn service(&self) -> (r: String)
        ensures
            r@ == self.service_name(),
    {
        match self {
            Scanner::Discord(_) => String::from_str(DISCORD_NAME),
            Scanner::Generic(g) => g.name.clone(),
        }
    }

    pub fn nullify(&self) -> (r: bool)
        ensures
            r == self.invalidates(),
    {
        match self {
            Scanner::Discord(_) => true,
            Scanner::Generic(g) => g.nullify,
        }
    }

    pub fn confirm(&self, item: &str) -> (r: bool)
        ensures
            r == self.confirms(item.spec_bytes()),
    {
        match self {
            Scanner::Discord(d) => d.confirm(item),
            Scanner::Generic(_) => true,
        }
    }

    fn pattern(&self) -> (r: &Pattern)
        ensures
            r.text() == self.pattern_text(),
    {
        match self {
            Scanner::Discord(d) => &d.pattern,
            Scanner::Generic(g) => &g.pattern,
        }
    }

    /// The matches of this scanner's pattern in `haystack` that it confirms,
    /// as byte ranges, in order.
    pub fn execute(&self, haystack: &str) -> (r: Vec<(usize, usize)>)
        ensures
            r@ == self.matches_in(haystack.spec_bytes()),
            spans_within(haystack.spec_bytes(), r@),
            forall|i: int|
                0 <= i < r@.len() ==> self.confirms(
                    haystack.spec_bytes().subrange(
                        (#[trigger] r@[i]).0 as int,
                        r@[i].1 as int,
                    ),
                ),
    {
        let ghost b = haystack.spec_bytes();
        let found = find_spans(self.pattern(), haystack);
        let mut confirmed: Vec<(usize, usize)> = Vec::new();
        let mut i: usize = 0;
        while i < found.len()
            invariant
                b == haystack.spec_bytes(),
                found@ == regex_spans(self.pattern_text(), b),
                spans_within(b, found@),
                i <= found@.len(),
                confirmed@ == kept(*self, b, found@.take(i as int)),
                spans_within(b, confirmed@),
                forall|k: int|
                    0 <= k < confirmed@.len() ==> self.confirms(
                        b.subrange((#[trigger] confirmed@[k]).0 as int, confirmed@[k].1 as int),
                    ),
                forall|k: int, j: int|
                    0 <= k < confirmed@.len() && i <= j < found@.len() ==> (#[trigger] confirmed@[k]).1
                        <= (#[trigger] found@[j]).0,
            decreases found@.len() - i,
        {
            let span = found[i];
            assert(found@[i as int] == span);
            assert(found@.take(i + 1).drop_last() =~= found@.take(i as int));
            assert(found@.take(i + 1).last() == span);
            let text = span_text(haystack, span.0, span.1);
            if self.confirm(text) {
                let ghost prior = confirmed@;
                confirmed.push(span);
                proof {
                    assert forall|k: int| 0 <= k < confirmed@.len() implies self.confirms(
                        b.subrange((#[trigger] confirmed@[k]).0 as int, confirmed@[k].1 as int),
                    ) by {
                        if k < prior.len() {
                            assert(confirmed@[k] == prior[k]);
                        }
                    }
                }
            }
            i = i + 1;
        }
        assert(found@.take(i as int) =~= found@);
        confirmed
    }
}

/// One confirmed match inside scanned content.
pub struct ScanResult<'r> {
    pub head: Position,
    pub tail: Position,
    /// Byte offset of the first matched byte.
    pub start: usize,
    /// Byte offset just past the last matched byte.
    pub end: usize,
    pub content: &'r str,
    pub invalidated: bool,
    pub service: String,
}

impl<'r> ScanResult<'r> {
    /// The finding lies inside `b`: its positions are those of its offsets,
    /// head comes no later than tail, each position leads back to its offset,
    /// and its text is the bytes between them.
    pub open spec fn well_placed(&self, b: Seq<u8>) -> bool {
        &&& self.start <= self.end <= b.len()
        &&& self.head.locates(b, self.start as int)
        &&& self.tail.locates(b, self.end as int)
        &&& position_le(self.head, self.tail)
        &&& line_begin(b, self.head.line as int) + self.head.char == self.start
        &&& line_begin(b, self.tail.line as int) + self.tail.char == self.end
        &&& self.content.spec_bytes() == b.subrange(self.start as int, self.end as int)
    }

    /// The finding carries the scanner's service name, and is invalidated
    /// exactly when the scanner invalidates and invalidation is enabled.
    pub open spec fn attributed(&self, scanner: Scanner, invalidate_secrets: bool) -> bool {
        &&& self.service@ == scanner.service_name()
        &&& self.invalidated == (scanner.invalidates() && invalidate_secrets)
    }

    /// The finding is the one for `entry`: range `entry.1` reported by
    /// `scanners[entry.0]`.
    pub open spec fn from_entry(
        &self,
        scanners: Seq<Scanner>,
        entry: (int, (usize, usize)),
        invalidate_secrets: bool,
    ) -> bool {
        &&& 0 <= entry.0 < scanners.len()
        &&& self.start == entry.1.0
        &&& self.end == entry.1.1
        &&& self.attributed(scanners[entry.0], invalidate_secrets)
    }
}

/// All ranges of `groups`, group after group, each with the index of its group.
pub open spec fn flat_spans(groups: Seq<Seq<(usize, usize)>>) -> Seq<(int, (usize, usize))>
    decreases groups.len(),
{
    if groups.len() == 0 {
        Seq::empty()
    } else {
        flat_spans(groups.drop_last()) + Seq::new(
            groups.last().len(),
            |m: int| ((groups.len() - 1) as int, groups.last()[m]),
        )
    }
}

/// The views of the groups of ranges `spans`.
pub open spec fn groups_of(spans: Seq<Vec<(usize, usize)>>) -> Seq<Seq<(usize, usize)>> {
    Seq::new(spans.len(), |k: int| spans[k]@)
}

/// What each scanner of `scanners` reports in `b`, in registry order.
pub open spec fn registry_matches(scanners: Seq<Scanner>, b: Seq<u8>) -> Seq<Seq<(usize, usize)>> {
    Seq::new(scanners.len(), |k: int| scanners[k].matches_in(b))
}

/// `results` holds one finding per entry of `entries`, in order.
pub open spec fn findings_match(
    results: Seq<ScanResult>,
    scanners: Seq<Scanner>,
    entries: Seq<(int, (usize, usize))>,
    invalidate_secrets: bool,
) -> bool {
    &&& results.len() == entries.len()
    &&& forall|i: int|
        0 <= i < results.len() ==> (#[trigger] results[i]).from_entry(
            scanners,
            entries[i],
            invalidate_secrets,
        )
}

/// Turns the byte ranges that `scanner` kept in `content` into findings, one
/// for each range, in order.
pub fn findings_for<'r>(
    content: &'r str,
    scanner: &Scanner,
    spans: &Vec<(usize, usize)>,
    invalidate_secrets: bool,
) -> (r: Vec<ScanResult<'r>>)
    requires
        spans_within(content.spec_bytes(), spans@),
        content.spec_bytes().len() <= i32::MAX,
    ensures
        r@.len() == spans@.len(),
        forall|i: int|
            0 <= i < r@.len() ==> {
                &&& (#[trigger] r@[i]).start == spans@[i].0
                &&& r@[i].end == spans@[i].1
                &&& r@[i].well_placed(content.spec_bytes())
                &&& r@[i].attributed(*scanner, invalidate_secrets)
            },
{
    let ghost b = content.spec_bytes();
    let mut results: Vec<ScanResult<'r>> = Vec::new();
    let mut i: usize = 0;
    while i < spans.len()
        invariant
            b == content.spec_bytes(),
            spans_within(b, spans@),
            b.len() <= i32::MAX,
            i <= spans@.len(),
            results@.len() == i,
            forall|k: int|
                0 <= k < i ==> {
                    &&& (#[trigger] results@[k]).start == spans@[k].0
                    &&& results@[k].end == spans@[k].1
                    &&& results@[k].well_placed(b)
                    &&& results@[k].attributed(*scanner, invalidate_secrets)
                },
        decreases spans@.len() - i,
    {
        let (start, end) = spans[i];
        assert(spans@[i as int] == (start, end));
        let head = find_position(content, start);
        let tail = find_position(content, end);
        proof {
            lemma_locate_monotonic(b, start as int, end as int);
            lemma_locate_round_trip(b, start as int);
            lemma_locate_round_trip(b, end as int);
        }
        let result = ScanResult {
            head,
            tail,
            start,
            end,
            content: span_text(content, start, end),
            invalidated: scanner.nullify() && invalidate_secrets,
            service: scanner.service(),
        };
        results.push(result);
        i = i + 1;
    }
    results
}

/// Turns the ranges each scanner kept into findings: group `k` of `spans`
/// belongs to `scanners[k]`, and the findings follow the groups in order.
pub fn scan_with<'r>(
    scanners: &Vec<Scanner>,
    content: &'r str,
    spans: &Vec<Vec<(usize, usize)>>,
    invalidate_secrets: bool,
) -> (r: Vec<ScanResult<'r>>)
    requires
        spans@.len() == scanners@.len(),
        forall|k: int| 0 <= k < spans@.len() ==> spans_within(content.spec_bytes(), (#[trigger] spans@[k])@),
        content.spec_bytes().len() <= i32::MAX,
    ensures
        findings_match(r@, scanners@, flat_spans(groups_of(spans@)), invalidate_secrets),
        forall|i: int| 0 <= i < r@.len() ==> (#[trigger] r@[i]).well_placed(content.spec_bytes()),
{
    let ghost b = content.spec_bytes();
    let ghost groups = groups_of(spans@);
    let mut results: Vec<ScanResult<'r>> = Vec::new();
    let mut j: usize = 0;
    while j < scanners.len()
        invariant
            b == content.spec_bytes(),
            groups == groups_of(spans@),
            b.len() <= i32::MAX,
            spans@.len() == scanners@.len(),
            forall|k: int| 0 <= k < spans@.len() ==> spans_within(b, (#[trigger] spans@[k])@),
            j <= scanners@.len(),
            findings_match(results@, scanners@, flat_spans(groups.take(j as int)), invalidate_secrets),
            forall|i: int| 0 <= i < results@.len() ==> (#[trigger] results@[i]).well_placed(b),
        decreases scanners@.len() - j,
    {
        let scanner = &scanners[j];
        let group = &spans[j];
        assert(group@ == spans@[j as int]@);
        assert(spans_within(b, spans@[j as int]@));
        let mut found = findings_for(content, scanner, group, invalidate_secrets);
        let ghost before = results@;
        let ghost added = found@;
        results.append(&mut found);
        proof {
            let prev = groups.take(j as int);
            let next = groups.take(j + 1);
            assert(next.drop_last() =~= prev);
            assert(next.last() == group@);
            let flat = flat_spans(next);
            assert(flat == flat_spans(prev) + Seq::new(
                group@.len(),
                |m: int| (j as int, group@[m]),
            ));
            assert forall|i: int| 0 <= i < results@.len() implies (#[trigger] results@[i]).from_entry(
                scanners@,
                flat[i],
                invalidate_secrets,
            ) && results@[i].well_placed(b) by {
                if i >= before.len() {
                    let m = i - before.len();
                    assert(results@[i] == added[m]);
                    assert(flat[i] == (j as int, group@[m]));
                } else {
                    assert(results@[i] == before[i]);
                    assert(flat[i] == flat_spans(prev)[i]);
                }
            }
        }
        j = j + 1;
    }
    assert(groups.take(j as int) =~= groups);
    results
}

/// Runs every scanner, in registry order, over `content`: one finding per
/// match that its scanner confirms, with the scanner's name and flag.
pub fn scan_file<'r>(scanners: &Vec<Scanner>, content: &'r str, invalidate_secrets: bool) -> (r:
    Vec<ScanResult<'r>>)
    requires
        content.spec_bytes().len() <= i32::MAX,
    ensures
        findings_match(
            r@,
            scanners@,
            flat_spans(registry_matches(scanners@, content.spec_bytes())),
            invalidate_secrets,
        ),
        forall|i: int| 0 <= i < r@.len() ==> (#[trigger] r@[i]).well_placed(content.spec_bytes()),
{
    let ghost b = content.spec_bytes();
    let mut spans: Vec<Vec<(usize, usize)>> = Vec::new();
    let mut j: usize = 0;
    while j < scanners.len()
        invariant
            b == content.spec_bytes(),
            j <= scanners@.len(),
            spans@.len() == j,
            groups_of(spans@) == registry_matches(scanners@, b).take(j as int),
            forall|k: int| 0 <= k < j ==> spans_within(b, (#[trigger] spans@[k])@),
        decreases scanners@.len() - j,
    {
        let kept = scanners[j].execute(content);
        let ghost prior = spans@;
        spans.push(kept);
        proof {
            assert(groups_of(spans@) =~= registry_matches(scanners@, b).take(j + 1));
            assert forall|k: int| 0 <= k < j + 1 implies spans_within(b, (#[trigger] spans@[k])@) by {
                if k < j {
                    assert(spans@[k] == prior[k]);
                }
            }
        }
        j = j + 1;
    }
    assert(registry_matches(scanners@, b).take(j as int) =~= registry_matches(scanners@, b));
    scan_with(scanners, content, &spans, invalidate_secrets)
}

/// The text of the range `span` of `b`.
pub open spec fn span_chars(b: Seq<u8>, span: (usize, usize)) -> Seq<char> {
    decode_utf8(b.subrange(span.0 as int, span.1 as int))
}

/// The texts of the entries whose scanner invalidates, when invalidation is
/// enabled, in order.
pub open spec fn secrets_of(
    scanners: Seq<Scanner>,
    b: Seq<u8>,
    entries: Seq<(int, (usize, usize))>,
    invalidate_secrets: bool,
) -> Seq<Seq<char>>
    decreases entries.len(),
{
    if entries.len() == 0 {
        Seq::empty()
    } else {
        let prior = secrets_of(scanners, b, entries.drop_last(), invalidate_secrets);
        let last = entries.last();
        if scanners[last.0].invalidates() && invalidate_secrets {
            prior.push(span_chars(b, last.1))
        } else {
            prior
        }
    }
}

} // verus!
verus! {

/// Why the scanner registry could not be built.
#[derive(Clone, Copy, Debug, PartialEq, Eq, Structural)]
pub enum ScannerError {
    /// The built-in token pattern did not compile.
    InvalidBuiltin,
    /// The configured scanner at this index has a pattern that does not compile.
    InvalidPattern(usize),
}

/// Builds the scanner registry once, at startup.
pub struct InitScanners;

impl InitScanners {
    /// The registry: the Discord scanner first, then one generic scanner per
    /// configured entry, in order. Fails on the first pattern that does not
    /// compile.
    pub fn initialize(extra: &Vec<ScannerConfig>) -> (r: Result<Vec<Scanner>, ScannerError>)
        ensures
            r is Ok <==> regex_compiles(DISCORD_PATTERN@) && forall|i: int|
                0 <= i < extra@.len() ==> regex_compiles((#[trigger] extra@[i]).pattern@),
            r matches Ok(v) ==> {
                &&& v@.len() == extra@.len() + 1
                &&& v@[0] is Discord
                &&& v@[0].pattern_text() == DISCORD_PATTERN@
                &&& forall|i: int|
                    0 <= i < extra@.len() ==> {
                        &&& v@[i + 1] is Generic
                        &&& (#[trigger] v@[i + 1]).service_name() == extra@[i].name@
                        &&& v@[i + 1].invalidates() == extra@[i].invalidate
                        &&& v@[i + 1].pattern_text() == extra@[i].pattern@
                    }
            },
            r == Err::<Vec<Scanner>, ScannerError>(ScannerError::InvalidBuiltin) <==> !regex_compiles(
                DISCORD_PATTERN@,
            ),
            r matches Err(ScannerError::InvalidPattern(i)) ==> {
                &&& regex_compiles(DISCORD_PATTERN@)
                &&& i < extra@.len()
                &&& !regex_compiles(extra@[i as int].pattern@)
                &&& forall|j: int| 0 <= j < i ==> regex_compiles((#[trigger] extra@[j]).pattern@)
            },
    {
        let discord = match DiscordScanner::new() {
            Some(d) => d,
            None => return Err(ScannerError::InvalidBuiltin),
        };
        let mut active: Vec<Scanner> = Vec::new();
        active.push(Scanner::Discord(discord));
        let mut i: usize = 0;
        while i < extra.len()
            invariant
                regex_compiles(DISCORD_PATTERN@),
                i <= extra@.len(),
                active@.len() == i + 1,
                active@[0] is Discord,
                active@[0].pattern_text() == DISCORD_PATTERN@,
                forall|j: int| 0 <= j < i ==> regex_compiles((#[trigger] extra@[j]).pattern@),
                forall|j: int|
                    0 <= j < i ==> {
                        &&& active@[j + 1] is Generic
                        &&& (#[trigger] active@[j + 1]).service_name() == extra@[j].name@
                        &&& active@[j + 1].invalidates() == extra@[j].invalidate
                        &&& active@[j + 1].pattern_text() == extra@[j].pattern@
                    },
            decreases extra@.len() - i,
        {
            match GenericScanner::new(&extra[i]) {
                Some(g) => {
                    let ghost prior = active@;
                    active.push(Scanner::Generic(g));
                    assert forall|j: int| 0 <= j < i implies (#[trigger] active@[j + 1]) == prior[j + 1] by {}
                },
                None => return Err(ScannerError::InvalidPattern(i)),
            }
            i = i + 1;
        }
        Ok(active)
    }
}

} // verus!
