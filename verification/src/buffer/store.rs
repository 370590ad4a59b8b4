//! A bounded store of output lines.
use super::view::{BufferLine, BufferReadPage, BufferReadRequest, BufferView};
use crate::outside::{
    check_pattern, decode_lossy, escapes_stripped, match_pattern, pattern_fault, pattern_matches,
    printable, strip_escapes, utf8_lossy,
};
use std::collections::VecDeque;
use vstd::prelude::*;
use vstd::utf8::{decode_utf8, valid_utf8};

verus! {

/// Why a page could not be read.
#[derive(Debug, PartialEq, Eq)]
pub enum BufferReadError {
    InvalidRegex { pattern: String, message: String },
}

impl BufferReadError {
    /// The code under which the error is reported.
    pub fn error_code(&self) -> (r: &'static str)
        ensures
            r@ == "INVALID_REGEX"@,
    {
        match self {
            BufferReadError::InvalidRegex { .. } => "INVALID_REGEX",
        }
    }
}

/// Counts of what the store has seen and what it still holds.
#[derive(Debug, Clone, Copy, PartialEq, Eq, Structural)]
pub struct BufferStoreStats {
    pub total_lines_seen: usize,
    pub retained_lines: usize,
    pub dropped_lines: usize,
    pub total_bytes_seen: usize,
    pub retained_bytes: usize,
}

/// The abstract content of a store: the complete lines that it still holds, the
/// line that has begun and not ended, and how much went before.
pub struct Transcript {
    pub max_lines: nat,
    pub lines: Seq<Seq<u8>>,
    pub pending: Option<Seq<u8>>,
    pub dropped: nat,
    pub total_bytes: nat,
}

/// A line without the carriage return that may end it.
pub open spec fn without_cr(line: Seq<u8>) -> Seq<u8> {
    if line.len() > 0 && line.last() == 13 {
        line.drop_last()
    } else {
        line
    }
}

/// The bytes of the line that has begun and not ended.
pub open spec fn pending_bytes(t: Transcript) -> Seq<u8> {
    match t.pending {
        Some(p) => p,
        None => Seq::empty(),
    }
}

/// How many lines are held, the unfinished one among them.
pub open spec fn held_lines(t: Transcript) -> nat {
    t.lines.len() + if t.pending is Some {
        1nat
    } else {
        0nat
    }
}

/// The transcript after one more byte, before any line is dropped.
pub open spec fn absorb_byte(t: Transcript, byte: u8) -> Transcript {
    if byte == 10 {
        Transcript {
            lines: t.lines.push(without_cr(pending_bytes(t))),
            pending: None,
            total_bytes: t.total_bytes + 1,
            ..t
        }
    } else {
        Transcript {
            pending: Some(pending_bytes(t).push(byte)),
            total_bytes: t.total_bytes + 1,
            ..t
        }
    }
}

/// The transcript after more bytes, before any line is dropped.
pub open spec fn absorb(t: Transcript, bytes: Seq<u8>) -> Transcript
    decreases bytes.len(),
{
    if bytes.len() == 0 {
        t
    } else {
        absorb_byte(absorb(t, bytes.drop_last()), bytes.last())
    }
}

/// How many of the oldest lines are too many.
pub open spec fn excess(t: Transcript) -> nat {
    if held_lines(t) > t.max_lines {
        (held_lines(t) - t.max_lines) as nat
    } else {
        0
    }
}

/// The transcript once the oldest lines have been dropped to fit the limit.
pub open spec fn retain(t: Transcript) -> Transcript {
    Transcript {
        lines: t.lines.skip(excess(t) as int),
        dropped: t.dropped + excess(t),
        ..t
    }
}

/// The transcript after a chunk of output has arrived.
pub open spec fn appended(t: Transcript, chunk: Seq<u8>) -> Transcript {
    retain(absorb(t, chunk))
}

/// The bytes held by complete lines.
pub open spec fn lines_bytes(lines: Seq<Seq<u8>>) -> nat
    decreases lines.len(),
{
    if lines.len() == 0 {
        0
    } else {
        lines_bytes(lines.drop_last()) + lines.last().len()
    }
}

/// The bytes held in all.
pub open spec fn held_bytes(t: Transcript) -> nat {
    lines_bytes(t.lines) + pending_bytes(t).len()
}

/// How a byte is written in the raw view.
pub open spec fn raw_byte(b: u8) -> Seq<char> {
    if b == 9 {
        seq!['\\', 't']
    } else if b == 10 {
        seq!['\\', 'n']
    } else if b == 13 {
        seq!['\\', 'r']
    } else if b == 34 || b == 39 || b == 92 {
        seq!['\\', b as char]
    } else if 0x20 <= b <= 0x7e {
        seq![b as char]
    } else {
        seq!['\\', 'x', hex_digit(b / 16), hex_digit(b % 16)]
    }
}

/// The hexadecimal digit, in lower case, of a number below sixteen.
pub open spec fn hex_digit(d: u8) -> char {
    if d < 10 {
        (d + 48) as char
    } else {
        (d + 87) as char
    }
}

/// How bytes are written in the raw view.
pub open spec fn raw_text(bytes: Seq<u8>) -> Seq<char>
    decreases bytes.len(),
{
    if bytes.len() == 0 {
        Seq::empty()
    } else {
        raw_text(bytes.drop_last()) + raw_byte(bytes.last())
    }
}

/// How a line is shown in a view.
pub open spec fn rendered(view: BufferView, bytes: Seq<u8>) -> Seq<char> {
    match view {
        BufferView::Plain => utf8_lossy(escapes_stripped(bytes)),
        BufferView::Ansi => utf8_lossy(bytes),
        BufferView::Raw => raw_text(bytes),
    }
}

/// Whether a line shows as the text that it is: in the `Ansi` view where it is
/// valid UTF-8, and in the `Plain` view where it holds no control characters.
pub open spec fn line_reads_true(line: Seq<u8>) -> bool {
    &&& valid_utf8(line) ==> rendered(BufferView::Ansi, line) == decode_utf8(line)
    &&& printable(line) ==> rendered(BufferView::Plain, line) == decode_utf8(line)
}

/// Whether every complete line shows as the text that it is.
pub open spec fn reads_true(t: Transcript) -> bool {
    forall|i: int| 0 <= i < t.lines.len() ==> line_reads_true(#[trigger] t.lines[i])
}

/// A line as a reader sees it.
pub struct ShownLine {
    pub number: nat,
    pub text: Seq<char>,
}

/// All lines that are held, numbered from the first line ever seen.
pub open spec fn shown(t: Transcript, view: BufferView) -> Seq<ShownLine> {
    let complete = Seq::new(
        t.lines.len(),
        |i: int|
            ShownLine { number: (t.dropped + 1 + i) as nat, text: rendered(view, t.lines[i]) },
    );
    match t.pending {
        Some(p) => complete.push(
            ShownLine { number: t.dropped + 1 + t.lines.len(), text: rendered(view, p) },
        ),
        None => complete,
    }
}

/// The lines that a request selects, before paging.
pub open spec fn selected(t: Transcript, request: BufferReadRequest) -> Seq<ShownLine> {
    match request.pattern {
        Some(p) => shown(t, request.view).filter(
            |l: ShownLine| pattern_matches(p@, request.ignore_case, l.text),
        ),
        None => shown(t, request.view),
    }
}

/// The smaller of two numbers.
pub open spec fn least(a: int, b: int) -> int {
    if a <= b {
        a
    } else {
        b
    }
}

/// The lines of a page as a reader sees them.
pub open spec fn page_lines(lines: Seq<BufferLine>) -> Seq<ShownLine> {
    lines.map_values(|l: BufferLine| ShownLine { number: l.line_number as nat, text: l.text@ })
}

/// Whether a page is the one that a request asks for.
pub open spec fn is_page(t: Transcript, request: BufferReadRequest, page: BufferReadPage) -> bool {
    let all = selected(t, request);
    let start = least(request.offset as int, all.len() as int);
    let end = least(start + request.limit, all.len() as int);
    &&& page.offset == start
    &&& page_lines(page.lines@) == all.subrange(start, end)
    &&& page.returned == end - start
    &&& page.has_more == (end < all.len())
    &&& page.total_lines == held_lines(t)
}

/// A complete line with its three forms.
struct StoredLine {
    line_number: usize,
    ansi: String,
    plain: String,
    raw: String,
    byte_len: usize,
    bytes: Ghost<Seq<u8>>,
}

impl StoredLine {
    /// The three forms are those of the bytes.
    spec fn wf(&self) -> bool {
        &&& self.ansi@ == rendered(BufferView::Ansi, self.bytes@)
        &&& self.plain@ == rendered(BufferView::Plain, self.bytes@)
        &&& self.raw@ == rendered(BufferView::Raw, self.bytes@)
        &&& self.byte_len == self.bytes@.len()
        &&& line_reads_true(self.bytes@)
    }

    fn text_for_view(&self, view: BufferView) -> (r: String)
        requires
            self.wf(),
        ensures
            r@ == rendered(view, self.bytes@),
    {
        match view {
            BufferView::Plain => self.plain.clone(),
            BufferView::Ansi => self.ansi.clone(),
            BufferView::Raw => self.raw.clone(),
        }
    }
}

/// A store of output lines that holds at most `max_lines` of them.
pub struct BufferStore {
    max_lines: usize,
    lines: VecDeque<StoredLine>,
    pending_bytes: Vec<u8>,
    pending_line_number: Option<usize>,
    next_line_number: usize,
    total_bytes_seen: usize,
    retained_bytes: usize,
    dropped_lines: usize,
}

impl BufferStore {
    /// What the store holds.
    pub closed spec fn view(&self) -> Transcript {
        Transcript {
            max_lines: self.max_lines as nat,
            lines: self.lines@.map_values(|l: StoredLine| l.bytes@),
            pending: if self.pending_line_number is Some {
                Some(self.pending_bytes@)
            } else {
                None
            },
            dropped: self.dropped_lines as nat,
            total_bytes: self.total_bytes_seen as nat,
        }
    }

    /// Everything that holds of a store at any time but the line limit.
    closed spec fn coherent(&self) -> bool {
        &&& self.max_lines >= 1
        &&& forall|i: int|
            0 <= i < self.lines@.len() ==> (#[trigger] self.lines@[i]).wf()
                && self.lines@[i].line_number == self.dropped_lines + 1 + i
        &&& self.pending_line_number is None ==> self.pending_bytes@.len() == 0
        &&& match self.pending_line_number {
            Some(n) => n == self.dropped_lines + 1 + self.lines@.len(),
            None => true,
        }
        &&& self.next_line_number == self.dropped_lines + held_lines(self@) + 1
        &&& self.retained_bytes == held_bytes(self@)
    }

    /// A store is valid: lines are numbered without gaps, the counts agree with
    /// what is held, no more lines are held than allowed, and neither lines nor
    /// bytes are more than were seen, which can be counted.
    pub closed spec fn wf(&self) -> bool {
        &&& self.coherent()
        &&& held_lines(self@) <= self.max_lines
        &&& self.dropped_lines + held_lines(self@) <= self.total_bytes_seen
        &&& held_bytes(self@) <= self.total_bytes_seen
        &&& self.total_bytes_seen < usize::MAX
    }

    /// What a valid store promises to everyone.
    pub proof fn lemma_wf(&self)
        requires
            self.wf(),
        ensures
            1 <= self@.max_lines,
            held_lines(self@) <= self@.max_lines,
            self@.dropped + held_lines(self@) <= self@.total_bytes,
            held_bytes(self@) <= self@.total_bytes,
            self@.total_bytes < usize::MAX,
            retain(self@) == self@,
            reads_true(self@),
    {
        assert forall|i: int| 0 <= i < self@.lines.len() implies line_reads_true(
            #[trigger] self@.lines[i],
        ) by {
            assert(self.lines@[i].wf());
        }
        assert(self@.lines.skip(0) =~= self@.lines);
    }

    /// An empty store for at most `max_lines` lines, and for one at least.
    pub fn new(max_lines: usize) -> (r: Self)
        ensures
            r.wf(),
            r@ == (Transcript {
                max_lines: line_limit(max_lines),
                lines: Seq::empty(),
                pending: None,
                dropped: 0,
                total_bytes: 0,
            }),
    {
        let r = BufferStore {
            max_lines: if max_lines >= 1 {
                max_lines
            } else {
                1
            },
            lines: VecDeque::new(),
            pending_bytes: Vec::new(),
            pending_line_number: None,
            next_line_number: 1,
            total_bytes_seen: 0,
            retained_bytes: 0,
            dropped_lines: 0,
        };
        assert(r@.lines =~= Seq::<Seq<u8>>::empty());
        r
    }

    fn total_retained_lines(&self) -> (r: usize)
        requires
            self.lines@.len() < usize::MAX,
        ensures
            r == held_lines(self@),
    {
        let n: usize = self.lines.len();
        if self.pending_line_number.is_some() {
            n + 1
        } else {
            n
        }
    }

    fn enforce_retention(&mut self)
        requires
            old(self).coherent(),
            old(self).next_line_number <= old(self).total_bytes_seen + 1,
            old(self).total_bytes_seen < usize::MAX,
        ensures
            final(self).coherent(),
            final(self)@ == retain(old(self)@),
    {
        let ghost start = self@;
        proof {
            assert(start.lines.skip(0) =~= start.lines);
        }
        while self.total_retained_lines() > self.max_lines
            invariant
                self.coherent(),
                self.next_line_number <= self.total_bytes_seen + 1,
                self.total_bytes_seen < usize::MAX,
                self@.dropped >= start.dropped,
                self@ == (Transcript {
                    lines: start.lines.skip(self@.dropped - start.dropped),
                    dropped: self@.dropped,
                    ..start
                }),
                self@.dropped - start.dropped <= start.lines.len(),
                self@.dropped - start.dropped <= excess(start),
            decreases self.lines@.len(),
        {
            let ghost before = *self;
            let ghost seqs = self@.lines;
            proof {
                assert(self.lines@.len() > 0);
                lemma_lines_bytes_first(seqs);
            }
            match self.lines.pop_front() {
                Some(dropped) => {
                    proof {
                        assert(before.lines@[0].wf());
                        assert(seqs[0] == before.lines@[0].bytes@);
                    }
                    self.dropped_lines = self.dropped_lines + 1;
                    self.retained_bytes = self.retained_bytes - dropped.byte_len;
                    proof {
                        assert(self@.lines =~= seqs.skip(1));
                        assert(seqs.skip(1) =~= start.lines.skip(self@.dropped - start.dropped));
                        assert forall|i: int| 0 <= i < self.lines@.len() implies (
                        #[trigger] self.lines@[i]).wf() && self.lines@[i].line_number
                            == self.dropped_lines + 1 + i by {
                            assert(self.lines@[i] == before.lines@[i + 1]);
                        }
                    }
                },
                None => {},
            }
        }
    }

    fn ensure_pending_line(&mut self)
        requires
            old(self).coherent(),
            old(self).next_line_number < usize::MAX,
        ensures
            final(self).coherent(),
            final(self).pending_line_number is Some,
            final(self)@ == (Transcript { pending: Some(pending_bytes(old(self)@)), ..old(self)@ }),
    {
        if self.pending_line_number.is_none() {
            self.pending_line_number = Some(self.next_line_number);
            self.next_line_number = self.next_line_number + 1;
            assert(self.pending_bytes@ =~= Seq::<u8>::empty());
        }
    }

    fn finalize_pending_line(&mut self)
        requires
            old(self).coherent(),
            old(self).pending_line_number is Some,
            old(self).next_line_number <= old(self).total_bytes_seen + 1,
            old(self).total_bytes_seen < usize::MAX,
        ensures
            final(self).coherent(),
            final(self)@ == retain(
                Transcript {
                    lines: old(self)@.lines.push(without_cr(pending_bytes(old(self)@))),
                    pending: None,
                    ..old(self)@
                },
            ),
    {
        let ghost before = *self;
        let line_number: usize = match self.pending_line_number.take() {
            Some(n) => n,
            None => {
                return ;
            },
        };
        let mut line_bytes: Vec<u8> = Vec::new();
        std::mem::swap(&mut line_bytes, &mut self.pending_bytes);
        if line_bytes.len() > 0 && line_bytes[line_bytes.len() - 1] == 13 {
            line_bytes.pop();
            self.retained_bytes = self.retained_bytes - 1;
        }
        assert(line_bytes@ =~= without_cr(before.pending_bytes@));
        let ansi = decode_lossy(line_bytes.as_slice());
        let stripped = strip_escapes(line_bytes.as_slice());
        let plain = decode_lossy(stripped.as_slice());
        let raw = bytes_to_raw_string(line_bytes.as_slice());
        let byte_len: usize = line_bytes.len();
        let ghost bytes = line_bytes@;
        let line = StoredLine { line_number, ansi, plain, raw, byte_len, bytes: Ghost(bytes) };
        self.lines.push_back(line);
        proof {
            assert(self@.lines =~= before@.lines.push(bytes));
            assert(self@.lines.drop_last() =~= before@.lines);
            assert forall|i: int| 0 <= i < self.lines@.len() implies (
            #[trigger] self.lines@[i]).wf() && self.lines@[i].line_number == self.dropped_lines + 1
                + i by {
                if i < before.lines@.len() {
                    assert(self.lines@[i] == before.lines@[i]);
                }
            }
        }
        self.enforce_retention();
    }

    /// Takes in a chunk of output.
    pub fn append_bytes(&mut self, chunk: &[u8])
        requires
            old(self).wf(),
            old(self)@.total_bytes + chunk@.len() < usize::MAX,
        ensures
            final(self).wf(),
            final(self)@ == appended(old(self)@, chunk@),
    {
        let ghost t0 = self@;
        proof {
            self.lemma_wf();
            assert(chunk@.take(0) =~= Seq::<u8>::empty());
        }
        let mut i: usize = 0;
        while i < chunk.len()
            invariant
                i <= chunk@.len(),
                self.coherent(),
                t0.total_bytes + chunk@.len() < usize::MAX,
                self@.total_bytes == t0.total_bytes + i,
                self.dropped_lines + held_lines(self@) <= self.total_bytes_seen,
                held_bytes(self@) <= self.total_bytes_seen,
                self@.max_lines == t0.max_lines,
                retain(self@) == retain(absorb(t0, chunk@.take(i as int))),
            decreases chunk@.len() - i,
        {
            let byte: u8 = chunk[i];
            let ghost before = *self;
            let ghost target = absorb(t0, chunk@.take(i as int));
            proof {
                assert(chunk@.take(i + 1).drop_last() =~= chunk@.take(i as int));
                lemma_absorb_keeps(t0, chunk@.take(i as int));
                lemma_retain_absorb(before@, byte);
                lemma_retain_absorb(target, byte);
                lemma_retain_twice(absorb_byte(before@, byte));
                lemma_retain_bytes(absorb_byte(before@, byte));
            }
            self.total_bytes_seen = self.total_bytes_seen + 1;
            self.ensure_pending_line();
            if byte == 10 {
                proof {
                    assert(without_cr(pending_bytes(before@)).len() <= pending_bytes(before@).len());
                    assert(absorb_byte(before@, byte).lines.drop_last() =~= before@.lines);
                }
                self.finalize_pending_line();
                assert(self@ == retain(absorb_byte(before@, byte)));
            } else {
                self.pending_bytes.push(byte);
                self.retained_bytes = self.retained_bytes + 1;
                assert(self@ == absorb_byte(before@, byte));
            }
            i = i + 1;
        }
        proof {
            assert(chunk@.take(i as int) =~= chunk@);
            lemma_retain_bytes(self@);
        }
        self.enforce_retention();
    }

    /// The counts of the store.
    pub fn stats(&self) -> (r: BufferStoreStats)
        requires
            self.wf(),
        ensures
            r.total_lines_seen == self@.dropped + held_lines(self@),
            r.retained_lines == held_lines(self@),
            r.dropped_lines == self@.dropped,
            r.total_bytes_seen == self@.total_bytes,
            r.retained_bytes == held_bytes(self@),
    {
        BufferStoreStats {
            total_lines_seen: self.next_line_number - 1,
            retained_lines: self.total_retained_lines(),
            dropped_lines: self.dropped_lines,
            total_bytes_seen: self.total_bytes_seen,
            retained_bytes: self.retained_bytes,
        }
    }

    /// How many lines the store holds at most.
    pub fn max_lines(&self) -> (r: usize)
        ensures
            r == self@.max_lines,
    {
        self.max_lines
    }

    /// Changes the line limit, which is one at least, and drops what no longer
    /// fits.
    pub fn set_max_lines(&mut self, max_lines: usize)
        requires
            old(self).wf(),
        ensures
            final(self).wf(),
            final(self)@ == retain(
                Transcript { max_lines: line_limit(max_lines), ..old(self)@ },
            ),
    {
        self.max_lines = if max_lines >= 1 {
            max_lines
        } else {
            1
        };
        proof {
            lemma_retain_bytes(self@);
        }
        self.enforce_retention();
    }

    /// All lines that are held, in the form of `view`.
    fn all_lines(&self, view: BufferView) -> (r: Vec<BufferLine>)
        requires
            self.wf(),
        ensures
            page_lines(r@) == shown(self@, view),
    {
        let mut r: Vec<BufferLine> = Vec::new();
        let mut i: usize = 0;
        let n: usize = self.lines.len();
        while i < n
            invariant
                self.wf(),
                n == self.lines@.len(),
                i <= n,
                page_lines(r@) == Seq::new(
                    i as nat,
                    |k: int|
                        ShownLine {
                            number: (self@.dropped + 1 + k) as nat,
                            text: rendered(view, self@.lines[k]),
                        },
                ),
            decreases n - i,
        {
            let line = &self.lines[i];
            let ghost before = r@;
            proof {
                assert(self.lines@[i as int].wf());
                assert(self@.lines[i as int] == self.lines@[i as int].bytes@);
            }
            let item = BufferLine { line_number: line.line_number, text: line.text_for_view(view) };
            r.push(item);
            i = i + 1;
            assert(page_lines(r@) =~= page_lines(before).push(
                ShownLine { number: item.line_number as nat, text: item.text@ },
            ));
        }
        if let Some(line_number) = self.pending_line_number {
            let ghost before = r@;
            let text = match view {
                BufferView::Plain => decode_lossy(
                    strip_escapes(self.pending_bytes.as_slice()).as_slice(),
                ),
                BufferView::Ansi => decode_lossy(self.pending_bytes.as_slice()),
                BufferView::Raw => bytes_to_raw_string(self.pending_bytes.as_slice()),
            };
            let item = BufferLine { line_number, text };
            r.push(item);
            assert(page_lines(r@) =~= page_lines(before).push(
                ShownLine { number: item.line_number as nat, text: item.text@ },
            ));
        }
        assert(page_lines(r@) =~= shown(self@, view));
        r
    }

    /// The lines that a request selects.
    fn filter_lines(&self, request: &BufferReadRequest) -> (r: Result<
        Vec<BufferLine>,
        BufferReadError,
    >)
        requires
            self.wf(),
        ensures
            match r {
                Ok(lines) => {
                    &&& request.pattern is Some ==> pattern_fault(
                        request.pattern->0@,
                        request.ignore_case,
                    ) is None
                    &&& page_lines(lines@) == selected(self@, *request)
                },
                Err(BufferReadError::InvalidRegex { pattern, message }) => {
                    &&& request.pattern matches Some(p)
                    &&& pattern@ == p@
                    &&& pattern_fault(p@, request.ignore_case) == Some(message@)
                },
            },
    {
        let lines = self.all_lines(request.view);
        match &request.pattern {
            None => Ok(lines),
            Some(pattern) => match check_pattern(pattern.as_str(), request.ignore_case) {
                Some(message) => Err(
                    BufferReadError::InvalidRegex { pattern: pattern.clone(), message },
                ),
                None => Ok(
                    matching(lines, pattern.as_str(), request.ignore_case),
                ),
            },
        }
    }

    /// Reads the page that a request asks for. The only error is that of a
    /// pattern which is no regular expression.
    pub fn read(&self, request: &BufferReadRequest) -> (r: Result<BufferReadPage, BufferReadError>)
        requires
            self.wf(),
        ensures
            match r {
                Ok(page) => {
                    &&& request.pattern is Some ==> pattern_fault(
                        request.pattern->0@,
                        request.ignore_case,
                    ) is None
                    &&& is_page(self@, *request, page)
                },
                Err(BufferReadError::InvalidRegex { pattern, message }) => {
                    &&& request.pattern matches Some(p)
                    &&& pattern@ == p@
                    &&& pattern_fault(p@, request.ignore_case) == Some(message@)
                },
            },
    {
        let filtered = match self.filter_lines(request) {
            Ok(lines) => lines,
            Err(error) => {
                return Err(error);
            },
        };
        Ok(page_of(filtered, request, self.total_retained_lines()))
    }
}

/// Cuts the page that a request asks for out of the lines it selects.
pub fn page_of(filtered: Vec<BufferLine>, request: &BufferReadRequest, total_lines: usize) -> (page:
    BufferReadPage)
    ensures
        ({
            let all = page_lines(filtered@);
            let start = least(request.offset as int, all.len() as int);
            let end = least(start + request.limit, all.len() as int);
            &&& page.offset == start
            &&& page_lines(page.lines@) == all.subrange(start, end)
            &&& page.returned == end - start
            &&& page.has_more == (end < all.len())
            &&& page.total_lines == total_lines
        }),
{
    let n: usize = filtered.len();
    let ghost all = filtered@;
    let start: usize = if request.offset <= n {
        request.offset
    } else {
        n
    };
    let end: usize = if request.limit <= n - start {
        start + request.limit
    } else {
        n
    };
    let mut head = filtered;
    head.truncate(end);
    let lines = head.split_off(start);
    proof {
        assert(page_lines(lines@) =~= page_lines(all).subrange(start as int, end as int));
    }
    BufferReadPage {
        offset: start,
        returned: lines.len(),
        has_more: end < n,
        total_lines,
        lines,
    }
}

/// The lines in which a pattern is found.
fn matching(lines: Vec<BufferLine>, pattern: &str, ignore_case: bool) -> (r: Vec<BufferLine>)
    requires
        pattern_fault(pattern@, ignore_case) is None,
    ensures
        page_lines(r@) == page_lines(lines@).filter(
            |l: ShownLine| pattern_matches(pattern@, ignore_case, l.text),
        ),
{
    let ghost keep = |l: ShownLine| pattern_matches(pattern@, ignore_case, l.text);
    let mut r: Vec<BufferLine> = Vec::new();
    let mut i: usize = 0;
    proof {
        assert(page_lines(lines@).take(0).filter(keep) =~= page_lines(r@)) by {
            reveal(Seq::filter);
        }
    }
    while i < lines.len()
        invariant
            pattern_fault(pattern@, ignore_case) is None,
            i <= lines@.len(),
            keep == (|l: ShownLine| pattern_matches(pattern@, ignore_case, l.text)),
            page_lines(r@) == page_lines(lines@).take(i as int).filter(keep),
        decreases lines@.len() - i,
    {
        let line = &lines[i];
        let ghost before = r@;
        let ghost item = ShownLine { number: line.line_number as nat, text: line.text@ };
        proof {
            assert(page_lines(lines@).take(i + 1) =~= page_lines(lines@).take(i as int).push(item));
            page_lines(lines@).take(i as int).lemma_filter_push(item, keep);
        }
        if match_pattern(pattern, ignore_case, line.text.as_str()) {
            r.push(BufferLine { line_number: line.line_number, text: line.text.clone() });
            assert(page_lines(r@) =~= page_lines(before).push(item));
        }
        i = i + 1;
    }
    assert(page_lines(lines@).take(i as int) =~= page_lines(lines@));
    r
}

/// Writes bytes with everything but printable ASCII escaped.
pub fn bytes_to_raw_string(bytes: &[u8]) -> (r: String)
    ensures
        r@ == raw_text(bytes@),
{
    let mut r: String = String::new();
    let mut i: usize = 0;
    while i < bytes.len()
        invariant
            i <= bytes@.len(),
            r@ == raw_text(bytes@.take(i as int)),
        decreases bytes@.len() - i,
    {
        let b: u8 = bytes[i];
        let ghost before = r@;
        if b == 9 {
            r.push('\\');
            r.push('t');
        } else if b == 10 {
            r.push('\\');
            r.push('n');
        } else if b == 13 {
            r.push('\\');
            r.push('r');
        } else if b == 34 || b == 39 || b == 92 {
            r.push('\\');
            r.push(b as char);
        } else if 0x20 <= b && b <= 0x7e {
            r.push(b as char);
        } else {
            r.push('\\');
            r.push('x');
            r.push(hex_char(b / 16));
            r.push(hex_char(b % 16));
        }
        assert(r@ =~= before + raw_byte(b));
        i = i + 1;
        assert(bytes@.take(i as int).drop_last() =~= bytes@.take(i - 1));
    }
    assert(bytes@.take(i as int) =~= bytes@);
    r
}

/// The hexadecimal digit, in lower case, of a number below sixteen.
fn hex_char(d: u8) -> (r: char)
    requires
        d < 16,
    ensures
        r == hex_digit(d),
{
    if d < 10 {
        (d + 48) as char
    } else {
        (d + 87) as char
    }
}

proof fn lemma_lines_bytes_first(lines: Seq<Seq<u8>>)
    requires
        lines.len() > 0,
    ensures
        lines_bytes(lines) == lines[0].len() + lines_bytes(lines.skip(1)),
    decreases lines.len(),
{
    if lines.len() == 1 {
        assert(lines.drop_last() =~= Seq::<Seq<u8>>::empty());
        assert(lines.skip(1) =~= Seq::<Seq<u8>>::empty());
    } else {
        lemma_lines_bytes_first(lines.drop_last());
        assert(lines.drop_last().skip(1) =~= lines.skip(1).drop_last());
    }
}

proof fn lemma_lines_bytes_skip(lines: Seq<Seq<u8>>, n: int)
    requires
        0 <= n <= lines.len(),
    ensures
        lines_bytes(lines.skip(n)) <= lines_bytes(lines),
    decreases n,
{
    if n > 0 {
        lemma_lines_bytes_first(lines);
        lemma_lines_bytes_skip(lines.skip(1), n - 1);
        assert(lines.skip(1).skip(n - 1) =~= lines.skip(n));
    } else {
        assert(lines.skip(0) =~= lines);
    }
}

/// Dropping lines frees bytes and leaves the number of lines seen as it is.
proof fn lemma_retain_bytes(t: Transcript)
    requires
        t.max_lines >= 1,
    ensures
        held_bytes(retain(t)) <= held_bytes(t),
        retain(t).dropped + held_lines(retain(t)) == t.dropped + held_lines(t),
        held_lines(retain(t)) <= t.max_lines,
{
    lemma_lines_bytes_skip(t.lines, excess(t) as int);
}

proof fn lemma_absorb_keeps(t: Transcript, bytes: Seq<u8>)
    ensures
        absorb(t, bytes).max_lines == t.max_lines,
        absorb(t, bytes).dropped == t.dropped,
        absorb(t, bytes).total_bytes == t.total_bytes + bytes.len(),
    decreases bytes.len(),
{
    if bytes.len() > 0 {
        lemma_absorb_keeps(t, bytes.drop_last());
    }
}

/// The line limit is not touched by what arrives.
pub proof fn lemma_appended_limit(t: Transcript, chunk: Seq<u8>)
    ensures
        appended(t, chunk).max_lines == t.max_lines,
{
    lemma_absorb_keeps(t, chunk);
}

/// Dropping twice is dropping once.
proof fn lemma_retain_twice(t: Transcript)
    requires
        t.max_lines >= 1,
    ensures
        retain(retain(t)) == retain(t),
{
    assert(retain(t).lines.skip(0) =~= retain(t).lines);
}

/// Lines may be dropped before a byte comes in or after it.
proof fn lemma_retain_absorb(t: Transcript, byte: u8)
    requires
        t.max_lines >= 1,
    ensures
        retain(absorb_byte(retain(t), byte)) == retain(absorb_byte(t, byte)),
{
    let a = absorb_byte(retain(t), byte);
    let b = absorb_byte(t, byte);
    assert(retain(a).lines =~= retain(b).lines);
}

/// Output that arrives in two chunks is kept as if it had arrived in one.
pub proof fn law_chunking_does_not_matter(t: Transcript, first: Seq<u8>, second: Seq<u8>)
    requires
        t.max_lines >= 1,
    ensures
        appended(appended(t, first), second) == appended(t, first + second),
    decreases second.len(),
{
    if second.len() == 0 {
        lemma_absorb_keeps(t, first);
        lemma_retain_twice(absorb(t, first));
        assert(first + second =~= first);
    } else {
        let head = second.drop_last();
        law_chunking_does_not_matter(t, first, head);
        assert((first + second).drop_last() =~= first + head);
        lemma_absorb_keeps(t, first);
        lemma_absorb_keeps(t, first + head);
        lemma_absorb_keeps(appended(t, first), head);
        lemma_retain_absorb(absorb(appended(t, first), head), second.last());
        lemma_retain_absorb(absorb(t, first + head), second.last());
    }
}

/// Wherever output is cut into two chunks, inside a line or a character or between
/// a carriage return and its line feed, counts and pages are those of the output
/// that arrives at once.
pub proof fn law_cut_shows_nowhere(
    t: Transcript,
    first: Seq<u8>,
    second: Seq<u8>,
    request: BufferReadRequest,
    a: BufferReadPage,
    b: BufferReadPage,
)
    requires
        t.max_lines >= 1,
        is_page(appended(appended(t, first), second), request, a),
        is_page(appended(t, first + second), request, b),
    ensures
        ({
            let cut = appended(appended(t, first), second);
            let whole = appended(t, first + second);
            &&& held_lines(cut) == held_lines(whole)
            &&& held_bytes(cut) == held_bytes(whole)
            &&& cut.dropped == whole.dropped
            &&& cut.total_bytes == whole.total_bytes
        }),
        page_lines(a.lines@) == page_lines(b.lines@),
        a.offset == b.offset,
        a.returned == b.returned,
        a.has_more == b.has_more,
        a.total_lines == b.total_lines,
{
    law_chunking_does_not_matter(t, first, second);
}

/// Every line ever seen is either still held or counted as dropped, and no more
/// lines are held than the limit allows, whatever arrives.
pub proof fn law_every_line_is_accounted_for(t: Transcript, chunk: Seq<u8>)
    requires
        t.max_lines >= 1,
    ensures
        held_lines(appended(t, chunk)) <= t.max_lines,
        appended(t, chunk).dropped + held_lines(appended(t, chunk)) == absorb(t, chunk).dropped
            + held_lines(absorb(t, chunk)),
        appended(t, chunk).total_bytes == t.total_bytes + chunk.len(),
{
    lemma_absorb_keeps(t, chunk);
    lemma_retain_bytes(absorb(t, chunk));
}

/// What can happen to a store: output arrives, or the line limit changes.
pub enum StoreEvent {
    Append(Seq<u8>),
    Limit(usize),
}

/// A line limit that was asked for: one at least.
pub open spec fn line_limit(max_lines: usize) -> nat {
    if max_lines >= 1 {
        max_lines as nat
    } else {
        1
    }
}

/// What a store holds that was made for `max_lines` lines, once things have happened
/// to it.
pub open spec fn after_events(max_lines: usize, events: Seq<StoreEvent>) -> Transcript
    decreases events.len(),
{
    if events.len() == 0 {
        Transcript {
            max_lines: line_limit(max_lines),
            lines: Seq::empty(),
            pending: None,
            dropped: 0,
            total_bytes: 0,
        }
    } else {
        let t = after_events(max_lines, events.drop_last());
        match events.last() {
            StoreEvent::Append(chunk) => appended(t, chunk),
            StoreEvent::Limit(n) => retain(Transcript { max_lines: line_limit(n), ..t }),
        }
    }
}

/// All output that has arrived.
pub open spec fn all_output(events: Seq<StoreEvent>) -> Seq<u8>
    decreases events.len(),
{
    if events.len() == 0 {
        Seq::empty()
    } else {
        all_output(events.drop_last()) + match events.last() {
            StoreEvent::Append(chunk) => chunk,
            StoreEvent::Limit(_) => Seq::empty(),
        }
    }
}

/// The line limit that was set last.
pub open spec fn last_limit(max_lines: usize, events: Seq<StoreEvent>) -> nat
    decreases events.len(),
{
    if events.len() == 0 {
        line_limit(max_lines)
    } else {
        match events.last() {
            StoreEvent::Append(_) => last_limit(max_lines, events.drop_last()),
            StoreEvent::Limit(n) => line_limit(n),
        }
    }
}

/// Whether the last line of a text has begun and not ended.
pub open spec fn ends_open(bytes: Seq<u8>) -> bool {
    bytes.len() > 0 && bytes.last() != 10
}

/// How many lines a text has: those that end, and one that does not where there is
/// one.
pub open spec fn line_count(bytes: Seq<u8>) -> nat {
    bytes.filter(|b: u8| b == 10).len() + if ends_open(bytes) {
        1nat
    } else {
        0nat
    }
}

/// More output adds to a transcript what it adds to the text.
proof fn lemma_absorb_counts(t: Transcript, before: Seq<u8>, bytes: Seq<u8>)
    requires
        t.dropped + held_lines(t) == line_count(before),
        t.pending is Some <==> ends_open(before),
        held_bytes(t) <= t.total_bytes,
    ensures
        ({
            let r = absorb(t, bytes);
            &&& r.dropped + held_lines(r) == line_count(before + bytes)
            &&& r.pending is Some <==> ends_open(before + bytes)
            &&& held_bytes(r) <= r.total_bytes
        }),
    decreases bytes.len(),
{
    if bytes.len() == 0 {
        assert(before + bytes =~= before);
    } else {
        let head = bytes.drop_last();
        let b = bytes.last();
        let m = absorb(t, head);
        let r = absorb(t, bytes);
        let text = before + head;
        lemma_absorb_counts(t, before, head);
        assert(before + bytes =~= text.push(b));
        text.lemma_filter_push(b, |b: u8| b == 10);
        assert((before + bytes).last() == b);
        if b == 10 {
            assert(r.lines.drop_last() =~= m.lines);
            assert(without_cr(pending_bytes(m)).len() <= pending_bytes(m).len());
        }
    }
}

/// Whatever happens to a store, its counts agree with all that has arrived: every
/// line is held or was dropped, no more lines are held than the limit allows, all
/// bytes were counted, and no more of them are held than arrived.
pub proof fn law_counts_agree_with_all_output(max_lines: usize, events: Seq<StoreEvent>)
    ensures
        ({
            let t = after_events(max_lines, events);
            &&& t.dropped + held_lines(t) == line_count(all_output(events))
            &&& held_lines(t) <= t.max_lines
            &&& 1 <= t.max_lines == last_limit(max_lines, events)
            &&& t.total_bytes == all_output(events).len()
            &&& held_bytes(t) <= t.total_bytes
            &&& t.pending is Some <==> ends_open(all_output(events))
        }),
    decreases events.len(),
{
    if events.len() == 0 {
        reveal(Seq::filter);
        assert(lines_bytes(Seq::empty()) == 0);
    } else {
        let t = after_events(max_lines, events.drop_last());
        let seen = all_output(events.drop_last());
        law_counts_agree_with_all_output(max_lines, events.drop_last());
        match events.last() {
            StoreEvent::Append(chunk) => {
                lemma_absorb_counts(t, seen, chunk);
                lemma_absorb_keeps(t, chunk);
                lemma_retain_bytes(absorb(t, chunk));
            },
            StoreEvent::Limit(n) => {
                assert(seen + Seq::<u8>::empty() =~= seen);
                lemma_retain_bytes(Transcript { max_lines: line_limit(n), ..t });
            },
        }
    }
}

/// The lines that stay are the newest ones, unchanged and in their order.
pub proof fn law_newest_lines_stay(t: Transcript, chunk: Seq<u8>)
    requires
        t.max_lines >= 1,
    ensures
        appended(t, chunk).lines.is_suffix_of(absorb(t, chunk).lines),
        appended(t, chunk).pending == absorb(t, chunk).pending,
{
    lemma_absorb_keeps(t, chunk);
    let full = absorb(t, chunk).lines;
    let kept = appended(t, chunk).lines;
    assert(kept =~= full.subrange(full.len() - kept.len(), full.len() as int));
}

proof fn lemma_absorb_text(t: Transcript, bytes: Seq<u8>)
    requires
        !bytes.contains(10u8),
        bytes.len() > 0,
    ensures
        absorb(t, bytes) == (Transcript {
            pending: Some(pending_bytes(t) + bytes),
            total_bytes: t.total_bytes + bytes.len(),
            ..t
        }),
    decreases bytes.len(),
{
    assert(bytes.last() == bytes[bytes.len() - 1]);
    assert(bytes.contains(bytes.last()));
    let head = bytes.drop_last();
    assert(absorb(t, bytes) == absorb_byte(absorb(t, head), bytes.last()));
    if head.len() > 0 {
        assert(!head.contains(10u8)) by {
            if head.contains(10u8) {
                let i = head.index_of(10u8);
                assert(bytes[i] == 10u8);
            }
        }
        lemma_absorb_text(t, head);
        assert((pending_bytes(t) + head).push(bytes.last()) =~= pending_bytes(t) + bytes);
    } else {
        assert(head =~= Seq::<u8>::empty());
        assert(absorb(t, head) == t);
        assert(pending_bytes(t).push(bytes.last()) =~= pending_bytes(t) + bytes);
    }
}

/// A line that is printed whole becomes the newest line, without its line end.
pub proof fn law_printed_line_is_last(t: Transcript, line: Seq<u8>)
    requires
        t.max_lines >= 1,
        t.pending is None,
        !line.contains(10u8),
    ensures
        appended(t, line.push(10u8)).pending is None,
        appended(t, line.push(10u8)).lines.len() > 0,
        appended(t, line.push(10u8)).lines.last() == without_cr(line),
{
    let all = line.push(10u8);
    assert(all.drop_last() =~= line);
    lemma_absorb_keeps(t, line);
    if line.len() > 0 {
        lemma_absorb_text(t, line);
        assert(pending_bytes(t) + line =~= line);
    } else {
        assert(line =~= Seq::<u8>::empty());
    }
    assert(pending_bytes(absorb(t, line)) == line);
}

/// A printed line of valid UTF-8 reads back as the newest line: as it was printed
/// in the `Ansi` view, and in the `Plain` view too where it holds no control
/// characters.
pub proof fn law_printed_line_reads_back(t: Transcript, line: Seq<u8>)
    requires
        t.max_lines >= 1,
        t.pending is None,
        !line.contains(10u8),
        !(line.len() > 0 && line.last() == 13),
        valid_utf8(line),
        reads_true(appended(t, line.push(10u8))),
    ensures
        shown(appended(t, line.push(10u8)), BufferView::Ansi).len() > 0,
        shown(appended(t, line.push(10u8)), BufferView::Ansi).last().text == decode_utf8(line),
        printable(line) ==> shown(
            appended(t, line.push(10u8)),
            BufferView::Plain,
        ).last().text == decode_utf8(line),
{
    law_printed_line_is_last(t, line);
    let after = appended(t, line.push(10u8));
    assert(after.lines[after.lines.len() - 1] == line);
    assert(line_reads_true(after.lines[after.lines.len() - 1]));
}

/// Two pages that follow each other make the page of both lengths: no line between
/// them is lost or shown twice.
pub proof fn law_pages_follow_each_other(
    t: Transcript,
    first: BufferReadRequest,
    second: BufferReadRequest,
    both: BufferReadRequest,
    a: BufferReadPage,
    b: BufferReadPage,
    c: BufferReadPage,
)
    requires
        second == (BufferReadRequest { offset: second.offset, limit: second.limit, ..first }),
        both == (BufferReadRequest { limit: both.limit, ..first }),
        second.offset == first.offset + first.limit,
        both.limit == first.limit + second.limit,
        is_page(t, first, a),
        is_page(t, second, b),
        is_page(t, both, c),
    ensures
        page_lines(a.lines@) + page_lines(b.lines@) == page_lines(c.lines@),
        c.has_more == b.has_more,
        !a.has_more ==> b.returned == 0,
{
    assert(page_lines(a.lines@) + page_lines(b.lines@) =~= page_lines(c.lines@));
}

/// The raw form of bytes, from the first byte on.
proof fn lemma_raw_first(bytes: Seq<u8>)
    requires
        bytes.len() > 0,
    ensures
        raw_text(bytes) == raw_byte(bytes[0]) + raw_text(bytes.drop_first()),
    decreases bytes.len(),
{
    if bytes.len() == 1 {
        assert(bytes.drop_last() =~= Seq::<u8>::empty());
        assert(bytes.drop_first() =~= Seq::<u8>::empty());
        assert(raw_text(bytes.drop_last()) =~= Seq::<char>::empty());
        assert(bytes.last() == bytes[0]);
        assert(raw_text(bytes) =~= raw_byte(bytes[0]));
        assert(raw_byte(bytes[0]) + raw_text(bytes.drop_first()) =~= raw_byte(bytes[0]));
    } else {
        let front = bytes.drop_last();
        let rest = bytes.drop_first();
        lemma_raw_first(front);
        assert(front.drop_first() =~= rest.drop_last());
        assert(raw_byte(front[0]) + raw_text(front.drop_first()) + raw_byte(bytes.last())
            =~= raw_byte(bytes[0]) + (raw_text(rest.drop_last()) + raw_byte(rest.last())));
    }
}

/// The raw forms of two bytes differ within the length of the shorter one.
proof fn lemma_raw_bytes_differ(a: u8, b: u8, x: Seq<char>, y: Seq<char>)
    requires
        raw_byte(a) + x == raw_byte(b) + y,
    ensures
        a == b,
        x == y,
{
    let u = raw_byte(a) + x;
    let v = raw_byte(b) + y;
    assert(u[0] == v[0]);
    if raw_byte(a).len() >= 2 {
        assert(u[0] == raw_byte(a)[0]);
        assert(u[1] == raw_byte(a)[1]);
    } else {
        assert(u[0] == raw_byte(a)[0]);
    }
    if raw_byte(b).len() >= 2 {
        assert(v[0] == raw_byte(b)[0]);
        assert(v[1] == raw_byte(b)[1]);
    } else {
        assert(v[0] == raw_byte(b)[0]);
    }
    if raw_byte(a).len() == 4 && raw_byte(b).len() == 4 {
        assert(u[2] == hex_digit(a / 16) && u[3] == hex_digit(a % 16));
        assert(v[2] == hex_digit(b / 16) && v[3] == hex_digit(b % 16));
        assert(a / 16 == b / 16 && a % 16 == b % 16);
    }
    assert(a == b);
    let n = raw_byte(a).len() as int;
    assert(u.skip(n) =~= x);
    assert(v.skip(n) =~= y);
}

/// The raw view loses nothing: lines that look the same in it are the same.
pub proof fn law_raw_view_loses_nothing(a: Seq<u8>, b: Seq<u8>)
    requires
        rendered(BufferView::Raw, a) == rendered(BufferView::Raw, b),
    ensures
        a == b,
    decreases a.len(),
{
    if a.len() == 0 || b.len() == 0 {
        if a.len() > 0 {
            lemma_raw_first(a);
            assert(raw_byte(a[0]).len() >= 1);
            assert(raw_text(a).len() >= 1);
            assert(raw_text(b).len() == 0);
        }
        if b.len() > 0 {
            lemma_raw_first(b);
            assert(raw_byte(b[0]).len() >= 1);
            assert(raw_text(b).len() >= 1);
            assert(raw_text(a).len() == 0);
        }
        assert(a =~= b);
    } else {
        lemma_raw_first(a);
        lemma_raw_first(b);
        lemma_raw_bytes_differ(a[0], b[0], raw_text(a.drop_first()), raw_text(b.drop_first()));
        law_raw_view_loses_nothing(a.drop_first(), b.drop_first());
        assert(a =~= seq![a[0]] + a.drop_first());
        assert(b =~= seq![b[0]] + b.drop_first());
    }
}

/// Every line that is held is shown, the unfinished one last, under its number from
/// the first line ever seen, and in the form that is asked for: without terminal
/// sequences, with them, or byte by byte.
pub proof fn law_held_lines_are_shown(t: Transcript, view: BufferView, i: int)
    ensures
        ({
            let all = shown(t, view);
            let line = if i < t.lines.len() {
                t.lines[i]
            } else {
                t.pending->0
            };
            &&& t.pending is Some ==> all.len() == t.lines.len() + 1
            &&& t.pending is None ==> all.len() == t.lines.len()
            &&& held_lines(t) == all.len()
            &&& 0 <= i < all.len() ==> {
                &&& all[i].number == t.dropped + 1 + i
                &&& view == BufferView::Plain ==> all[i].text == utf8_lossy(escapes_stripped(line))
                &&& view == BufferView::Ansi ==> all[i].text == utf8_lossy(line)
                &&& view == BufferView::Raw ==> all[i].text == raw_text(line)
            }
        }),
{
}

/// Whether lines are a page of others: those from an offset on, as far as there are
/// any, and at most so many.
pub open spec fn is_part_of(
    lines: Seq<ShownLine>,
    all: Seq<ShownLine>,
    offset: int,
    limit: int,
) -> bool {
    let rest = if offset <= all.len() {
        all.len() - offset
    } else {
        0
    };
    &&& limit <= rest ==> lines.len() == limit
    &&& limit > rest ==> lines.len() == rest
    &&& forall|i: int| 0 <= i < lines.len() ==> #[trigger] lines[i] == all[offset + i]
}

/// A page shows the lines from the offset on that hold the pattern, or all of them
/// where there is none, and at most as many as the limit says; it says how many these
/// are, whether more follow, and how many lines are held in all.
pub proof fn law_page_shows_what_is_asked(
    t: Transcript,
    request: BufferReadRequest,
    page: BufferReadPage,
)
    requires
        is_page(t, request, page),
    ensures
        ({
            let held = shown(t, request.view);
            let all = if request.pattern is Some {
                held.filter(
                    |l: ShownLine|
                        pattern_matches(request.pattern->0@, request.ignore_case, l.text),
                )
            } else {
                held
            };
            &&& is_part_of(
                page_lines(page.lines@),
                all,
                request.offset as int,
                request.limit as int,
            )
            &&& page.returned == page.lines@.len()
            &&& request.offset <= all.len() ==> page.offset == request.offset
            &&& request.offset > all.len() ==> page.offset == all.len()
            &&& page.has_more <==> request.offset + request.limit < all.len()
            &&& page.total_lines == held.len()
        }),
{
    law_held_lines_are_shown(t, request.view, 0);
    let all = selected(t, request);
    let start = least(request.offset as int, all.len() as int);
    assert(page_lines(page.lines@).len() == page.lines@.len());
    assert forall|i: int| 0 <= i < page.lines@.len() implies #[trigger] page_lines(page.lines@)[i]
        == all[request.offset + i] by {
        assert(start == request.offset);
        assert(page_lines(page.lines@)[i] == all.subrange(
            start,
            least(start + request.limit, all.len() as int),
        )[i]);
    }
}

/// A line ends with a line feed, or with a carriage return and a line feed, and is
/// kept without them.
pub proof fn law_line_ends_are_left_out(t: Transcript, line: Seq<u8>)
    requires
        t.max_lines >= 1,
        t.pending is None,
        !line.contains(10u8),
        !(line.len() > 0 && line.last() == 13),
    ensures
        appended(t, line.push(10u8)).lines.last() == line,
        appended(t, line.push(13u8).push(10u8)).lines.last() == line,
        appended(t, line.push(10u8)).pending is None,
        appended(t, line.push(13u8).push(10u8)).pending is None,
{
    law_printed_line_is_last(t, line);
    let ended = line.push(13u8);
    assert(!ended.contains(10u8)) by {
        if ended.contains(10u8) {
            let i = ended.index_of(10u8);
            if i < line.len() {
                assert(line[i] == 10u8);
            }
        }
    }
    law_printed_line_is_last(t, ended);
    assert(ended.drop_last() =~= line);
}

/// Output without a line feed goes behind the line that has begun.
pub proof fn law_unfinished_line_grows(t: Transcript, bytes: Seq<u8>)
    requires
        t.max_lines >= 1,
        !bytes.contains(10u8),
        bytes.len() > 0,
    ensures
        ({
            let after = appended(t, bytes);
            &&& t.pending is Some ==> after.pending == Some(t.pending->0 + bytes)
            &&& t.pending is None ==> after.pending == Some(bytes)
            &&& after.total_bytes == t.total_bytes + bytes.len()
        }),
{
    lemma_absorb_text(t, bytes);
    assert(Seq::<u8>::empty() + bytes =~= bytes);
}

/// Lines are dropped only where more are held than the limit allows, and then no more
/// than that takes.
pub proof fn law_no_more_is_dropped_than_needed(t: Transcript)
    requires
        t.max_lines >= 1,
    ensures
        ({
            let kept = retain(t);
            let held: int = t.lines.len() as int + if t.pending is Some {
                1int
            } else {
                0int
            };
            &&& held <= t.max_lines ==> kept == t
            &&& held > t.max_lines ==> kept.lines.len() + (if t.pending is Some {
                1int
            } else {
                0int
            }) == t.max_lines && kept.dropped == t.dropped + held - t.max_lines
            &&& kept.lines == t.lines.skip(t.lines.len() - kept.lines.len())
            &&& kept.pending == t.pending
            &&& kept.max_lines == t.max_lines
            &&& kept.total_bytes == t.total_bytes
        }),
{
    assert(t.lines.skip(0) =~= t.lines);
}

/// The value of a hexadecimal digit in lower case.
pub open spec fn hex_digit_value(c: char) -> int {
    if '0' <= c && c <= '9' {
        c as int - '0' as int
    } else if 'a' <= c && c <= 'f' {
        c as int - 'a' as int + 10
    } else {
        -1
    }
}

/// In the raw view printable ASCII stands for itself, quotes and backslashes behind a
/// backslash; the tabulator, the line feed and the carriage return are `\t`, `\n` and
/// `\r`; and any other byte is `\x` with its two hexadecimal digits.
pub proof fn law_raw_view_escapes(b: u8)
    ensures
        ({
            let r = raw_byte(b);
            let quoted = b == 34 || b == 39 || b == 92;
            let plain = 32 <= b <= 126;
            &&& plain && !quoted ==> r.len() == 1 && r[0] as int == b
            &&& quoted ==> r.len() == 2 && r[0] == '\\' && r[1] as int == b
            &&& b == 9 ==> r == seq!['\\', 't']
            &&& b == 10 ==> r == seq!['\\', 'n']
            &&& b == 13 ==> r == seq!['\\', 'r']
            &&& !plain && b != 9 && b != 10 && b != 13 ==> {
                &&& r.len() == 4
                &&& r[0] == '\\'
                &&& r[1] == 'x'
                &&& 0 <= hex_digit_value(r[2]) < 16
                &&& 0 <= hex_digit_value(r[3]) < 16
                &&& 16 * hex_digit_value(r[2]) + hex_digit_value(r[3]) == b
            }
        }),
        forall|bytes: Seq<u8>, c: u8|
            raw_text(#[trigger] bytes.push(c)) == raw_text(bytes) + raw_byte(c),
        raw_text(Seq::empty()).len() == 0,
{
    assert forall|bytes: Seq<u8>, c: u8| raw_text(#[trigger] bytes.push(c)) == raw_text(bytes)
        + raw_byte(c) by {
        assert(bytes.push(c).drop_last() =~= bytes);
    }
}

/// A store holds one line at least, and as many as it is told to.
pub proof fn law_line_limit(max_lines: usize)
    ensures
        max_lines == 0 ==> line_limit(max_lines) == 1,
        max_lines > 0 ==> line_limit(max_lines) == max_lines,
{
}

} // verus!
