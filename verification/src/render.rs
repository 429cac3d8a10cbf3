//! The diagnostic renderer: resolves a flagged span to a line and column,
//! extracts the line's text, and builds the caret-underlined diagnostic block.
//!
//! Position resolution mirrors the syntax front-end's own lookup: it walks the
//! line records in order, subtracting each line's length from the offset until
//! the offset falls inside a line. Where the front-end would abort on records
//! that contradict the buffer (a defect, not an expected input), the functions
//! here return `None` instead and the file's remaining findings go on.

use vstd::prelude::*;
use crate::ast::{Finding, Span};

verus! {

/// One record of the line index: the byte range of a line, terminator
/// included; `ends_with_eof` marks the final line, which has no terminator.
#[derive(Clone, Copy, PartialEq, Eq, Structural, Debug)]
pub struct LineRec {
    pub start: usize,
    pub end: usize,
    pub ends_with_eof: bool,
}

impl LineRec {
    /// Length of the line in bytes, terminator included.
    pub open spec fn spec_len(self) -> int {
        self.end - self.start
    }

    /// End offset of the line's text, the trailing newline excluded.
    pub open spec fn spec_line_end(self) -> int {
        if self.ends_with_eof {
            self.end as int
        } else {
            self.end - 1
        }
    }
}

/// A decoded source file: its display name, its decoded bytes, and its line
/// index, all as handed over by the syntax front-end.
pub struct SourceFile {
    pub name: Vec<u8>,
    pub bytes: Vec<u8>,
    pub lines: Vec<LineRec>,
}

/// The mathematical model of a decoded source file.
pub ghost struct FileModel {
    pub name: Seq<u8>,
    pub bytes: Seq<u8>,
    pub lines: Seq<LineRec>,
}

impl View for SourceFile {
    type V = FileModel;

    open spec fn view(&self) -> FileModel {
        FileModel { name: self.name@, bytes: self.bytes@, lines: self.lines@ }
    }
}

/// Line lookup by walking `lines` in order: the first line whose length
/// exceeds what is left of `pos` contains the offset, and the remainder is the
/// byte column. `None` when the offset lies past every line, or on a line
/// record whose `end` lies before its `start`.
pub open spec fn lookup_from(lines: Seq<LineRec>, pos: int) -> Option<(int, int)>
    decreases lines.len(),
{
    if lines.len() == 0 {
        None
    } else if lines[0].end < lines[0].start {
        None
    } else if lines[0].spec_len() > pos {
        Some((0, pos))
    } else {
        match lookup_from(lines.drop_first(), pos - lines[0].spec_len()) {
            None => None,
            Some((l, c)) => Some((l + 1, c)),
        }
    }
}

/// The same lookup with every line number moved down by `d` records.
pub open spec fn lookup_shift(r: Option<(int, int)>, d: int) -> Option<(int, int)> {
    match r {
        None => None,
        Some((l, c)) => Some((l + d, c)),
    }
}

/// The (line, column) pair of byte offset `pos`, both 0-based; the column
/// counts bytes from the line's start. The end-of-file offset maps to the end
/// of the last line.
pub open spec fn spec_line_col(m: FileModel, pos: int) -> Option<(int, int)> {
    if pos == m.bytes.len() {
        if m.lines.len() == 0 {
            None
        } else if m.lines.last().end < m.lines.last().start {
            None
        } else {
            Some((m.lines.len() - 1, m.lines.last().spec_len()))
        }
    } else {
        lookup_from(m.lines, pos)
    }
}

/// A successful lookup names a line inside the index and a column inside that
/// line.
pub proof fn lemma_lookup_bounds(lines: Seq<LineRec>, pos: int)
    requires
        pos >= 0,
        lookup_from(lines, pos) is Some,
    ensures
        lookup_from(lines, pos) matches Some(lc) ==> 0 <= lc.0 < lines.len() && 0 <= lc.1
            && lc.1 < lines[lc.0].spec_len(),
    decreases lines.len(),
{
    if lines.len() == 0 {
    } else if lines[0].end < lines[0].start {
    } else if lines[0].spec_len() > pos {
    } else {
        lemma_lookup_bounds(lines.drop_first(), pos - lines[0].spec_len());
        let rest = lookup_from(lines.drop_first(), pos - lines[0].spec_len());
        if rest is Some {
            let (l, c) = rest->0;
            assert(lines.drop_first()[l] == lines[l + 1]);
        }
    }
}

impl SourceFile {
    /// Resolves a byte offset to its 0-based (line, column) pair, as the
    /// syntax front-end does; `None` when the offset is out of range or a line
    /// record is inconsistent.
    pub fn line_col_for_pos(&self, pos: usize) -> (r: Option<(usize, usize)>)
        ensures
            match r {
                None => spec_line_col(self@, pos as int) is None,
                Some(lc) => spec_line_col(self@, pos as int) == Some(
                    (lc.0 as int, lc.1 as int),
                ),
            },
    {
        let ghost m = self@;
        if pos == self.bytes.len() {
            if self.lines.len() == 0 {
                return None;
            }
            let last = self.lines[self.lines.len() - 1];
            if last.end < last.start {
                return None;
            }
            return Some((self.lines.len() - 1, last.end - last.start));
        }
        let mut cur: usize = pos;
        let mut i: usize = 0;
        proof {
            assert(m.lines.skip(0) =~= m.lines);
        }
        while i < self.lines.len()
            invariant
                self@ == m,
                i <= m.lines.len(),
                pos as int != m.bytes.len(),
                lookup_shift(lookup_from(m.lines.skip(i as int), cur as int), i as int)
                    == lookup_from(m.lines, pos as int),
            decreases m.lines.len() - i,
        {
            let line = self.lines[i];
            proof {
                assert(m.lines.skip(i as int)[0] == m.lines[i as int]);
            }
            if line.end < line.start {
                return None;
            }
            let len = line.end - line.start;
            if len > cur {
                return Some((i, cur));
            }
            cur = cur - len;
            proof {
                assert(m.lines.skip(i as int).drop_first() =~= m.lines.skip(i as int + 1));
            }
            i = i + 1;
        }
        proof {
            assert(m.lines.skip(i as int).len() == 0);
        }
        None
    }
}

/// Decimal digits of `n`, most significant first.
pub open spec fn dec_digits(n: int) -> Seq<u8>
    decreases n,
{
    if n < 10 {
        seq![(48 + n) as u8]
    } else {
        dec_digits(n / 10) + seq![(48 + n % 10) as u8]
    }
}

/// Writes `n` in decimal.
pub fn dec_bytes(n: usize) -> (r: Vec<u8>)
    ensures
        r@ == dec_digits(n as int),
    decreases n,
{
    if n < 10 {
        let mut r: Vec<u8> = Vec::new();
        r.push(48 + n as u8);
        proof {
            assert(r@ =~= dec_digits(n as int));
        }
        r
    } else {
        let mut r = dec_bytes(n / 10);
        r.push(48 + (n % 10) as u8);
        proof {
            assert(r@ =~= dec_digits(n as int));
        }
        r
    }
}

/// `n` copies of byte `b`.
pub open spec fn repeat_byte(b: u8, n: int) -> Seq<u8> {
    Seq::new(if n < 0 { 0 } else { n as nat }, |i: int| b)
}

/// Builds `n` copies of byte `b`.
pub fn repeat_bytes(b: u8, n: usize) -> (r: Vec<u8>)
    ensures
        r@ == repeat_byte(b, n as int),
{
    let mut r: Vec<u8> = Vec::new();
    let mut i: usize = 0;
    while i < n
        invariant
            i <= n,
            r@.len() == i,
            forall|j: int| 0 <= j < i ==> r@[j] == b,
        decreases n - i,
    {
        r.push(b);
        i = i + 1;
    }
    proof {
        assert(r@ =~= repeat_byte(b, n as int));
    }
    r
}

/// Appends `src` to `dst`.
pub(crate) fn push_all(dst: &mut Vec<u8>, src: &Vec<u8>)
    ensures
        final(dst)@ == old(dst)@ + src@,
{
    let mut i: usize = 0;
    while i < src.len()
        invariant
            i <= src@.len(),
            dst@ == old(dst)@ + src@.take(i as int),
        decreases src@.len() - i,
    {
        let b = src[i];
        dst.push(b);
        proof {
            assert(old(dst)@ + src@.take(i as int + 1) =~= (old(dst)@ + src@.take(
                i as int,
            )).push(src@[i as int]));
        }
        i = i + 1;
    }
    proof {
        assert(src@.take(src@.len() as int) =~= src@);
    }
}

/// Copies `v[from..to]` out as a fresh vector.
fn slice_bytes(v: &Vec<u8>, from: usize, to: usize) -> (r: Vec<u8>)
    requires
        from <= to,
        to <= v@.len(),
    ensures
        r@ == v@.subrange(from as int, to as int),
{
    let mut r: Vec<u8> = Vec::new();
    let mut i: usize = from;
    while i < to
        invariant
            from <= i <= to,
            to <= v@.len(),
            r@ == v@.subrange(from as int, i as int),
        decreases to - i,
    {
        let b = v[i];
        r.push(b);
        proof {
            assert(v@.subrange(from as int, i as int + 1) =~= v@.subrange(
                from as int,
                i as int,
            ).push(v@[i as int]));
        }
        i = i + 1;
    }
    r
}

/// The `  --> ` arrow that introduces the location line.
pub open spec fn arrow_prefix() -> Seq<u8> {
    seq![32u8, 32, 45, 45, 62, 32]
}

/// The location prefix `name:line:col`, line and column reported 1-based.
pub open spec fn location_prefix(name: Seq<u8>, line_no: int, col: int) -> Seq<u8> {
    name + seq![58u8] + dec_digits(line_no + 1) + seq![58u8] + dec_digits(col + 1)
}

/// The rendered diagnostic block for one finding: the message line, the
/// arrow-and-location line, a blank line, the text of the line holding the
/// span's begin, and a caret underline of the span's size at its column.
/// `None` when the span cannot be resolved against the file's line index, or
/// when a record contradicts the buffer: the defect path.
pub open spec fn spec_block(m: FileModel, span: Span, message: Seq<u8>) -> Option<Seq<u8>> {
    match spec_line_col(m, span.begin as int) {
        None => None,
        Some((line_no, col)) => {
            let line = m.lines[line_no];
            if !(line.start <= line.spec_line_end() && line.spec_line_end() <= m.bytes.len()) {
                None
            } else if span.end < span.begin {
                None
            } else if col + 1 > usize::MAX as int {
                None
            } else {
                Some(
                    message + seq![10u8] + arrow_prefix() + location_prefix(m.name, line_no, col)
                        + seq![10u8, 10u8] + m.bytes.subrange(line.start as int,
                        line.spec_line_end(),
                    ) + seq![10u8] + repeat_byte(32u8, col) + repeat_byte(94u8, span.spec_size())
                        + seq![10u8],
                )
            }
        },
    }
}

/// Law: a rendered block splits into a header (message, arrow line, blank
/// line), then the full text of the line that contains the span's begin, then
/// an underline of exactly `col` spaces followed by exactly `end - begin`
/// carets. The excerpt and the underline depend on the span's end only
/// through the caret count, never on which line the end falls in.
pub proof fn lemma_block_shape(m: FileModel, span: Span, message: Seq<u8>)
    requires
        spec_block(m, span, message) is Some,
    ensures
        ({
            let (line_no, col) = spec_line_col(m, span.begin as int)->0;
            let line = m.lines[line_no];
            let text = m.bytes.subrange(line.start as int, line.spec_line_end());
            let header = message + seq![10u8] + arrow_prefix() + location_prefix(
                m.name,
                line_no,
                col,
            ) + seq![10u8, 10u8];
            &&& spec_block(m, span, message)->0 == header + text + seq![10u8] + (repeat_byte(
                32u8,
                col,
            ) + repeat_byte(94u8, span.spec_size())) + seq![10u8]
            &&& repeat_byte(32u8, col).len() == col
            &&& repeat_byte(94u8, span.spec_size()).len() == span.end - span.begin
        }),
{
    let pos = span.begin as int;
    if pos != m.bytes.len() {
        lemma_lookup_bounds(m.lines, pos);
    }
    let (line_no, col) = spec_line_col(m, pos)->0;
    assert(col >= 0);
    assert(span.spec_size() >= 0);
    let line = m.lines[line_no];
    let text = m.bytes.subrange(line.start as int, line.spec_line_end());
    let header = message + seq![10u8] + arrow_prefix() + location_prefix(m.name, line_no, col)
        + seq![10u8, 10u8];
    assert(spec_block(m, span, message)->0 =~= header + text + seq![10u8] + (repeat_byte(
        32u8,
        col,
    ) + repeat_byte(94u8, span.spec_size())) + seq![10u8]);
}

/// Renders one finding into its diagnostic block.
pub fn render_finding(input: &SourceFile, finding: &Finding) -> (r: Option<Vec<u8>>)
    ensures
        match r {
            None => spec_block(input@, finding.span, finding.message@) is None,
            Some(b) => spec_block(input@, finding.span, finding.message@) == Some(b@),
        },
{
    let span = finding.span;
    let (line_no, col) = match input.line_col_for_pos(span.begin) {
        None => {
            return None;
        },
        Some(lc) => lc,
    };
    proof {
        if span.begin as int != input@.bytes.len() {
            lemma_lookup_bounds(input@.lines, span.begin as int);
        }
        assert(line_no < input@.lines.len());
    }
    // The call pins lines@.len() to usize, which bounds the 1-based line number.
    let _line_count = input.lines.len();
    let line = line_at(input, line_no);
    let line_end: usize = if line.ends_with_eof {
        line.end
    } else {
        if line.end == 0 {
            return None;
        }
        line.end - 1
    };
    if line.start > line_end || line_end > input.bytes.len() {
        return None;
    }
    if span.end < span.begin {
        return None;
    }
    if col == usize::MAX {
        return None;
    }
    let ghost s1 = finding.message@ + seq![10u8];
    let ghost s2 = s1 + arrow_prefix();
    let ghost s3 = s2 + location_prefix(input@.name, line_no as int, col as int);
    let ghost s4 = s3 + seq![10u8, 10u8];
    let ghost s5 = s4 + input@.bytes.subrange(line.start as int, line.spec_line_end());
    let ghost s6 = s5 + seq![10u8];
    let ghost s7 = s6 + repeat_byte(32u8, col as int);
    let ghost s8 = s7 + repeat_byte(94u8, span.spec_size());
    let ghost s9 = s8 + seq![10u8];
    let mut out: Vec<u8> = Vec::new();
    push_all(&mut out, &finding.message);
    out.push(10);
    proof {
        assert(out@ =~= s1);
    }
    out.push(32);
    out.push(32);
    out.push(45);
    out.push(45);
    out.push(62);
    out.push(32);
    proof {
        assert(out@ =~= s2);
    }
    push_all(&mut out, &input.name);
    out.push(58);
    let line_digits = dec_bytes(line_no + 1);
    push_all(&mut out, &line_digits);
    out.push(58);
    let col_digits = dec_bytes(col + 1);
    push_all(&mut out, &col_digits);
    proof {
        assert(out@ =~= s3);
    }
    out.push(10);
    out.push(10);
    proof {
        assert(out@ =~= s4);
    }
    let text = slice_bytes(&input.bytes, line.start, line_end);
    push_all(&mut out, &text);
    proof {
        assert(out@ =~= s5);
    }
    out.push(10);
    proof {
        assert(out@ =~= s6);
    }
    let indent = repeat_bytes(32, col);
    push_all(&mut out, &indent);
    proof {
        assert(out@ =~= s7);
    }
    let carets = repeat_bytes(94, span.size());
    push_all(&mut out, &carets);
    proof {
        assert(out@ =~= s8);
    }
    out.push(10);
    proof {
        assert(out@ =~= s9);
        assert(spec_block(input@, finding.span, finding.message@) == Some(s9));
    }
    Some(out)
}

/// Reads one line record; the caller knows the index lies inside the index.
fn line_at(input: &SourceFile, line_no: usize) -> (line: LineRec)
    requires
        line_no < input@.lines.len(),
    ensures
        line == input@.lines[line_no as int],
{
    input.lines[line_no]
}

} // verus!
