use vstd::prelude::*;
use vstd::string::StringSliceAdditionalSpecFns;

verus! {

/// The byte that ends a line.
pub const NEWLINE: u8 = 10;

/// Offsets, in order, of every newline byte of `b`.
pub open spec fn newline_offsets(b: Seq<u8>) -> Seq<int>
    decreases b.len(),
{
    if b.len() == 0 {
        Seq::empty()
    } else {
        let prior = newline_offsets(b.drop_last());
        if b.last() == NEWLINE {
            prior.push(b.len() - 1)
        } else {
            prior
        }
    }
}

/// Offset at which line `line` (0-indexed) of `b` begins: just past its
/// `line`-th newline, or 0 for the first line.
pub open spec fn line_begin(b: Seq<u8>, line: int) -> int {
    if line <= 0 {
        0
    } else {
        newline_offsets(b)[line - 1] + 1
    }
}

/// Line of `offset`: the number of newlines in the bytes before it.
pub open spec fn line_at(b: Seq<u8>, offset: int) -> int {
    newline_offsets(b.take(offset)).len() as int
}

/// Column of `offset`: the number of bytes between the start of its line and it.
pub open spec fn column_at(b: Seq<u8>, offset: int) -> int {
    offset - line_begin(b.take(offset), line_at(b, offset))
}

/// Lexicographic order on (line, column) pairs.
pub open spec fn position_le(a: Position, b: Position) -> bool {
    a.line < b.line || (a.line == b.line && a.char <= b.char)
}

/// A 0-indexed line and column inside some content; columns count bytes.
#[derive(Clone, Copy, Debug, PartialEq, Eq, Structural)]
pub struct Position {
    pub line: i32,
    pub char: i32,
}

impl Position {
    pub fn line(&self) -> (r: i32)
        ensures
            r == self.line,
    {
        self.line
    }

    pub fn char(&self) -> (r: i32)
        ensures
            r == self.char,
    {
        self.char
    }

    pub fn new(line: i32, char: i32) -> (r: Self)
        ensures
            r.line == line,
            r.char == char,
    {
        Position { line, char }
    }

    /// Whether this position is the one `locate` gives for `offset` in `b`.
    pub open spec fn locates(self, b: Seq<u8>, offset: int) -> bool {
        &&& self.line == line_at(b, offset)
        &&& self.char == column_at(b, offset)
    }
}

proof fn lemma_offsets_bounded(b: Seq<u8>)
    ensures
        newline_offsets(b).len() <= b.len(),
        forall|k: int|
            0 <= k < newline_offsets(b).len() ==> 0 <= #[trigger] newline_offsets(b)[k] < b.len()
                && b[newline_offsets(b)[k]] == NEWLINE,
        forall|j: int, k: int|
            0 <= j < k < newline_offsets(b).len() ==> #[trigger] newline_offsets(b)[j]
                < #[trigger] newline_offsets(b)[k],
    decreases b.len(),
{
    if b.len() > 0 {
        lemma_offsets_bounded(b.drop_last());
    }
}

/// The newlines of a prefix are a prefix of the newlines of the whole.
proof fn lemma_offsets_prefix(b: Seq<u8>, offset: int)
    requires
        0 <= offset <= b.len(),
    ensures
        newline_offsets(b.take(offset)).len() <= newline_offsets(b).len(),
        newline_offsets(b.take(offset)) == newline_offsets(b).take(
            newline_offsets(b.take(offset)).len() as int,
        ),
    decreases b.len() - offset,
{
    if offset == b.len() {
        assert(b.take(offset) =~= b);
        assert(newline_offsets(b).take(newline_offsets(b).len() as int) =~= newline_offsets(b));
    } else {
        lemma_offsets_prefix(b, offset + 1);
        assert(b.take(offset + 1).drop_last() =~= b.take(offset));
        let small = newline_offsets(b.take(offset));
        let mid = newline_offsets(b.take(offset + 1));
        let all = newline_offsets(b);
        assert(small =~= mid.take(small.len() as int));
        assert(small =~= all.take(small.len() as int));
    }
}

/// Decoding a position: the line's first offset plus the column gives the
/// offset back.
pub proof fn lemma_locate_round_trip(b: Seq<u8>, offset: int)
    requires
        0 <= offset <= b.len(),
    ensures
        0 <= line_at(b, offset) <= newline_offsets(b).len(),
        0 <= column_at(b, offset),
        line_begin(b, line_at(b, offset)) + column_at(b, offset) == offset,
{
    lemma_offsets_prefix(b, offset);
    lemma_offsets_bounded(b.take(offset));
    let k = line_at(b, offset);
    if k > 0 {
        assert(newline_offsets(b.take(offset))[k - 1] == newline_offsets(b)[k - 1]);
    }
}

/// Moving forward in the content never moves back in (line, column) order.
pub proof fn lemma_locate_monotonic(b: Seq<u8>, lo: int, hi: int)
    requires
        0 <= lo <= hi <= b.len(),
    ensures
        line_at(b, lo) <= line_at(b, hi),
        line_at(b, lo) == line_at(b, hi) ==> column_at(b, lo) <= column_at(b, hi),
{
    let bh = b.take(hi);
    assert(bh.take(lo) =~= b.take(lo));
    lemma_offsets_prefix(bh, lo);
    lemma_offsets_bounded(bh);
    lemma_offsets_bounded(b.take(lo));
    let k = line_at(b, lo);
    if k > 0 {
        assert(newline_offsets(b.take(lo))[k - 1] == newline_offsets(bh)[k - 1]);
    }
}

/// Finds the line and column of byte `offset` in `content`: the line is the
/// number of newlines before `offset`, the column the number of bytes since the
/// last of them (or since the start).
pub fn find_position(content: &str, offset: usize) -> (r: Position)
    requires
        offset <= content.spec_bytes().len(),
        offset <= i32::MAX,
    ensures
        r.locates(content.spec_bytes(), offset as int),
        r.line >= 0,
        r.char >= 0,
{
    let bytes = content.as_bytes();
    let ghost b = content.spec_bytes();
    let mut line: usize = 0;
    let mut start: usize = 0;
    let mut i: usize = 0;
    while i < offset
        invariant
            bytes@ == b,
            offset <= b.len(),
            offset <= i32::MAX,
            i <= offset,
            line <= i,
            start <= i,
            line == newline_offsets(b.take(i as int)).len(),
            start == line_begin(b.take(i as int), line as int),
        decreases offset - i,
    {
        assert(b.take(i + 1).drop_last() =~= b.take(i as int));
        if bytes[i] == NEWLINE {
            line = line + 1;
            start = i + 1;
        }
        i = i + 1;
    }
    Position { line: line as i32, char: (offset - start) as i32 }
}

} // verus!
