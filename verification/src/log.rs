//! Reading the lines of a log file from its end, newest line first.
//!
//! [`TailLines`] holds the decisions of a backward line reader: which chunk
//! of the file to read next, and how buffered bytes split into lines.  The
//! file itself is read by the caller, one chunk at a time, whenever
//! [`TailLines::poll_line`] asks for one.

use vstd::prelude::*;

verus! {

/// Size of each backward read from the file, in bytes.
pub const CHUNK_SIZE: u64 = 8192;

/// The characters `String::from_utf8_lossy` makes of `bytes`.
pub uninterp spec fn utf8_lossy(bytes: Seq<u8>) -> Seq<char>;

/// Decode bytes as UTF-8, replacing invalid sequences:
/// `String::from_utf8_lossy(bytes).into_owned()`.
///
/// Trusted: the result is std's lossy decoding of the bytes (named
/// `utf8_lossy`), and for valid UTF-8 it is the plain decoding, as std's
/// documentation states.
#[verifier::external_body]
pub(crate) fn from_utf8_lossy(bytes: &Vec<u8>) -> (r: String)
    ensures
        r@ == utf8_lossy(bytes@),
        vstd::utf8::valid_utf8(bytes@) ==> r@ == vstd::utf8::decode_utf8(bytes@),
{
    String::from_utf8_lossy(bytes).into_owned()
}

/// Position of the last newline byte of `s`.
pub open spec fn last_newline(s: Seq<u8>) -> Option<int> {
    if exists|i: int| 0 <= i < s.len() && s[i] == 10u8 && forall|j: int| i < j < s.len() ==> s[j] != 10u8 {
        Some(choose|i: int| 0 <= i < s.len() && s[i] == 10u8 && forall|j: int| i < j < s.len() ==> s[j] != 10u8)
    } else {
        None
    }
}

/// The pieces of `s` between newline bytes, last piece first (the newlines
/// belong to no piece); the text before the first newline counts only when
/// it is not empty.
pub open spec fn rev_pieces(s: Seq<u8>) -> Seq<Seq<u8>>
    decreases s.len(),
{
    if s.len() == 0 {
        seq![]
    } else {
        match last_newline(s) {
            None => seq![s],
            Some(i) => if 0 <= i < s.len() {
                seq![s.subrange(i + 1, s.len() as int)] + rev_pieces(s.subrange(0, i))
            } else {
                seq![]
            },
        }
    }
}

/// `s` without its final newline byte, if it ends in one.
pub open spec fn strip_final_newline(s: Seq<u8>) -> Seq<u8> {
    if s.len() > 0 && s.last() == 10u8 {
        s.drop_last()
    } else {
        s
    }
}

/// The lines of a file's bytes `s`, last line first, without their newline
/// bytes: a final newline ends the last line (it starts no empty line), and
/// the text before the first newline counts as a line only when it is not
/// empty.
pub open spec fn rev_lines(s: Seq<u8>) -> Seq<Seq<u8>> {
    rev_pieces(strip_final_newline(s))
}

/// The value of a [`TailLines`].
pub struct TailModel {
    /// Offset up to which the file has been consumed (reads end here).
    pub pos: u64,
    /// Bytes read but not yet turned into lines, in file order.
    pub buffer: Seq<u8>,
    /// The start of the file has been read.
    pub reached_start: bool,
    /// Number of lines still to be yielded.
    pub remaining: usize,
    /// No byte has been buffered yet: the end of the file is still to be
    /// looked at.
    pub at_end: bool,
}

/// What the reader asks for or yields.
#[derive(Debug)]
pub enum TailPoll {
    /// The next line, newest first.
    Line(String),
    /// Read `len` bytes at `offset` and hand them to `accept_chunk`.
    NeedChunk { offset: u64, len: usize },
    /// No more lines.
    Done,
}

/// The value of a [`TailPoll`], with the line as bytes.
pub enum PollView {
    Line(Seq<u8>),
    NeedChunk { offset: u64, len: usize },
    Done,
}

/// The reader's state once it has looked at the end of the file: the first
/// buffered bytes end the file, and a final newline there is dropped.
pub open spec fn look_at_end(t: TailModel) -> TailModel {
    if t.at_end && t.buffer.len() > 0 {
        TailModel { buffer: strip_final_newline(t.buffer), at_end: false, ..t }
    } else {
        t
    }
}

/// The reader's next state and answer.
pub open spec fn poll_spec(t: TailModel) -> (TailModel, PollView) {
    if t.remaining == 0 {
        (t, PollView::Done)
    } else {
        poll_step(look_at_end(t))
    }
}

/// The reader's next state and answer once the end of the file is handled.
pub open spec fn poll_step(t: TailModel) -> (TailModel, PollView) {
    {
        match last_newline(t.buffer) {
            Some(i) => (
                TailModel { buffer: t.buffer.subrange(0, i), remaining: (t.remaining - 1) as usize, ..t },
                PollView::Line(t.buffer.subrange(i + 1, t.buffer.len() as int)),
            ),
            None => if t.reached_start || t.pos == 0 {
                if t.buffer.len() == 0 {
                    (TailModel { reached_start: true, ..t }, PollView::Done)
                } else {
                    (
                        TailModel {
                            buffer: Seq::empty(),
                            reached_start: true,
                            remaining: (t.remaining - 1) as usize,
                            ..t
                        },
                        PollView::Line(t.buffer),
                    )
                }
            } else {
                let size: u64 = if t.pos < CHUNK_SIZE {
                    t.pos
                } else {
                    CHUNK_SIZE
                };
                (
                    TailModel { pos: (t.pos - size) as u64, ..t },
                    PollView::NeedChunk { offset: (t.pos - size) as u64, len: size as usize },
                )
            },
        }
    }
}

/// The reader's state after the requested chunk arrived.
pub open spec fn accept_spec(t: TailModel, chunk: Seq<u8>) -> TailModel {
    TailModel { buffer: chunk + t.buffer, reached_start: t.reached_start || t.pos == 0, ..t }
}


/// The reader's state is consistent with `file` after yielding `emitted`:
/// before the end of the file is looked at, nothing is yielded and the
/// unread prefix and the buffer make up the file; afterwards, the lines
/// still to come are the pieces of the unread prefix followed by the
/// buffered bytes.
pub open spec fn tail_consistent(t: TailModel, file: Seq<u8>, emitted: Seq<Seq<u8>>) -> bool {
    &&& t.pos <= file.len()
    &&& (t.reached_start ==> t.pos == 0)
    &&& if t.at_end {
        emitted.len() == 0 && file.subrange(0, t.pos as int) + t.buffer == file
    } else {
        emitted + rev_pieces(file.subrange(0, t.pos as int) + t.buffer) == rev_lines(file)
    }
}

proof fn lemma_last_newline_is(s: Seq<u8>, k: int)
    requires
        0 <= k < s.len(),
        s[k] == 10u8,
        forall|j: int| k < j < s.len() ==> s[j] != 10u8,
    ensures
        last_newline(s) == Some(k),
{
    let c = choose|c: int| 0 <= c < s.len() && s[c] == 10u8 && forall|j: int| c < j < s.len() ==> s[j] != 10u8;
    if c < k {
        assert(s[k] != 10u8);
    } else if k < c {
        assert(s[c] != 10u8);
    }
}

proof fn lemma_last_newline_props(s: Seq<u8>)
    ensures
        match last_newline(s) {
            Some(i) => 0 <= i < s.len() && s[i] == 10u8 && forall|j: int| i < j < s.len() ==> s[j] != 10u8,
            None => forall|j: int| 0 <= j < s.len() ==> s[j] != 10u8,
        },
{
    if last_newline(s) is None {
        assert forall|j: int| 0 <= j < s.len() implies s[j] != 10u8 by {
            if s[j] == 10u8 {
                // the last newline at or after j exists
                lemma_newline_from(s, j);
            }
        }
    }
}

proof fn lemma_newline_from(s: Seq<u8>, j: int)
    requires
        0 <= j < s.len(),
        s[j] == 10u8,
    ensures
        last_newline(s) is Some,
    decreases s.len() - j,
{
    if exists|k: int| j < k < s.len() && s[k] == 10u8 {
        let k = choose|k: int| j < k < s.len() && s[k] == 10u8;
        lemma_newline_from(s, k);
    } else {
        lemma_last_newline_is(s, j);
    }
}

/// Splitting off the last line of the buffered bytes splits off the last
/// line of everything that is left to read.
proof fn lemma_rev_lines_of_suffix(p: Seq<u8>, b: Seq<u8>, i: int)
    requires
        last_newline(b) == Some(i),
    ensures
        rev_pieces(p + b) == seq![b.subrange(i + 1, b.len() as int)] + rev_pieces(p + b.subrange(0, i)),
{
    lemma_last_newline_props(b);
    let s = p + b;
    let k = p.len() + i;
    assert forall|j: int| k < j < s.len() implies s[j] != 10u8 by {
        assert(s[j] == b[j - p.len()]);
    }
    lemma_last_newline_is(s, k);
    assert(s.subrange(k + 1, s.len() as int) =~= b.subrange(i + 1, b.len() as int));
    assert(s.subrange(0, k) =~= p + b.subrange(0, i));
}

/// The reader starts consistent with any file: nothing yielded, nothing buffered.
pub proof fn law_tail_start(file: Seq<u8>, n: usize)
    requires
        file.len() <= u64::MAX,
    ensures
        tail_consistent(
            TailModel {
                pos: file.len() as u64,
                buffer: Seq::empty(),
                reached_start: file.len() == 0,
                remaining: n,
                at_end: true,
            },
            file,
            Seq::empty(),
        ),
{
    assert(file.subrange(0, file.len() as int) + Seq::<u8>::empty() =~= file);
}

/// Looking at the end of the file keeps the reader consistent; afterwards
/// it is either past the end or still has nothing buffered.
proof fn lemma_look_at_end(t: TailModel, file: Seq<u8>, emitted: Seq<Seq<u8>>)
    requires
        tail_consistent(t, file, emitted),
    ensures
        tail_consistent(look_at_end(t), file, emitted),
        look_at_end(t).at_end ==> look_at_end(t).buffer.len() == 0,
        look_at_end(t).pos == t.pos,
        look_at_end(t).remaining == t.remaining,
        look_at_end(t).reached_start == t.reached_start,
{
    if t.at_end && t.buffer.len() > 0 {
        let p = file.subrange(0, t.pos as int);
        let b = t.buffer;
        assert(file.len() == p.len() + b.len());
        assert(file.last() == b.last()) by {
            assert(file[file.len() - 1] == (p + b)[p.len() + b.len() - 1]);
        }
        if b.last() == 10u8 {
            assert(p + b.drop_last() =~= file.drop_last());
        }
        assert(p + strip_final_newline(b) == strip_final_newline(file));
        assert(emitted + rev_pieces(p + strip_final_newline(b)) =~= rev_lines(file));
    }
}

/// One step of a reader that is past the end of the file.
proof fn lemma_step_past_end(t: TailModel, file: Seq<u8>, emitted: Seq<Seq<u8>>)
    requires
        tail_consistent(t, file, emitted),
        !t.at_end,
        t.remaining > 0,
    ensures
        match poll_step(t) {
            (t1, PollView::Line(b)) => tail_consistent(t1, file, emitted.push(b)) && t1.remaining == t.remaining - 1,
            (t1, PollView::NeedChunk { offset, len }) => offset + len == t.pos && tail_consistent(
                accept_spec(t1, file.subrange(offset as int, offset + len)),
                file,
                emitted,
            ) && t1.remaining == t.remaining,
            (t1, PollView::Done) => emitted == rev_lines(file),
        },
{
    let p = file.subrange(0, t.pos as int);
    let pending = p + t.buffer;
    lemma_last_newline_props(t.buffer);
    match last_newline(t.buffer) {
        Some(i) => {
            lemma_rev_lines_of_suffix(p, t.buffer, i);
            let line = t.buffer.subrange(i + 1, t.buffer.len() as int);
            assert(emitted.push(line) + rev_pieces(p + t.buffer.subrange(0, i)) =~= emitted + rev_pieces(pending));
        },
        None => {
            if t.reached_start || t.pos == 0 {
                assert(p =~= Seq::<u8>::empty());
                assert(pending =~= t.buffer);
                if t.buffer.len() == 0 {
                    assert(emitted + Seq::<Seq<u8>>::empty() =~= emitted);
                } else {
                    assert(rev_pieces(t.buffer) == seq![t.buffer]);
                    assert(p + Seq::<u8>::empty() =~= Seq::<u8>::empty());
                    assert(emitted.push(t.buffer) + rev_pieces(Seq::<u8>::empty()) =~= emitted + rev_pieces(pending));
                }
            } else {
                let size: u64 = if t.pos < CHUNK_SIZE {
                    t.pos
                } else {
                    CHUNK_SIZE
                };
                let off = (t.pos - size) as u64;
                assert(file.subrange(0, off as int) + (file.subrange(off as int, off + size) + t.buffer) =~= pending);
            }
        },
    }
}

/// Every step of the reader keeps it consistent with the file it reads,
/// when each requested chunk is the file's bytes at the requested offset:
/// a yielded line is the next of the file's lines, newest first, and the
/// reader reports that it is done only when it has yielded all of them or
/// its line budget is spent.
pub proof fn law_tail_step(t: TailModel, file: Seq<u8>, emitted: Seq<Seq<u8>>)
    requires
        tail_consistent(t, file, emitted),
    ensures
        match poll_spec(t) {
            (t1, PollView::Line(b)) => tail_consistent(t1, file, emitted.push(b)) && t1.remaining == t.remaining - 1,
            (t1, PollView::NeedChunk { offset, len }) => offset + len == t.pos && tail_consistent(
                accept_spec(t1, file.subrange(offset as int, offset + len)),
                file,
                emitted,
            ) && t1.remaining == t.remaining,
            (t1, PollView::Done) => t.remaining == 0 || emitted == rev_lines(file),
        },
{
    if t.remaining == 0 {
        return;
    }
    let t0 = look_at_end(t);
    lemma_look_at_end(t, file, emitted);
    if t0.at_end {
        let p = file.subrange(0, t0.pos as int);
        assert(t0.buffer =~= Seq::<u8>::empty());
        lemma_last_newline_props(t0.buffer);
        assert(p + t0.buffer =~= p);
        assert(p == file);
        if t0.reached_start || t0.pos == 0 {
            assert(file =~= Seq::<u8>::empty());
            assert(strip_final_newline(file) =~= Seq::<u8>::empty());
            assert(emitted =~= Seq::<Seq<u8>>::empty());
        } else {
            let size: u64 = if t0.pos < CHUNK_SIZE {
                t0.pos
            } else {
                CHUNK_SIZE
            };
            let off = (t0.pos - size) as u64;
            assert(file.subrange(0, off as int) + (file.subrange(off as int, off + size) + t0.buffer) =~= file);
        }
    } else {
        lemma_step_past_end(t0, file, emitted);
    }
}

/// A lazy reader of the lines of a file, from the end backwards: the last
/// line of the file comes first.  Only as much of the file's tail is read
/// as the lines actually consumed need.
pub struct TailLines {
    pos: u64,
    buffer: Vec<u8>,
    reached_start: bool,
    remaining: usize,
    at_end: bool,
}

impl View for TailLines {
    type V = TailModel;

    closed spec fn view(&self) -> TailModel {
        TailModel {
            pos: self.pos,
            buffer: self.buffer@,
            reached_start: self.reached_start,
            remaining: self.remaining,
            at_end: self.at_end,
        }
    }
}

impl TailLines {
    /// Prepare to yield up to `n` lines from the end of a file of
    /// `file_len` bytes; `usize::MAX` means no limit.
    pub fn new(file_len: u64, n: usize) -> (r: TailLines)
        ensures
            r@ == (TailModel { pos: file_len, buffer: Seq::empty(), reached_start: file_len == 0, remaining: n, at_end: true }),
    {
        TailLines { pos: file_len, buffer: Vec::new(), reached_start: file_len == 0, remaining: n, at_end: true }
    }

    fn last_newline_index(&self) -> (r: Option<usize>)
        ensures
            match r {
                Some(i) => last_newline(self.buffer@) == Some(i as int) && i < self.buffer@.len(),
                None => last_newline(self.buffer@) is None,
            },
    {
        let mut i: usize = self.buffer.len();
        while i > 0
            invariant
                i <= self.buffer.len(),
                forall|j: int| i <= j < self.buffer@.len() ==> self.buffer@[j] != 10u8,
            decreases i,
        {
            if self.buffer[i - 1] == 10u8 {
                proof {
                    let s = self.buffer@;
                    let k = (i - 1) as int;
                    assert(0 <= k < s.len() && s[k] == 10u8 && forall|j: int| k < j < s.len() ==> s[j] != 10u8);
                    let c = choose|c: int| 0 <= c < s.len() && s[c] == 10u8 && forall|j: int| c < j < s.len() ==> s[j] != 10u8;
                    if c < k {
                        assert(s[k] != 10u8);
                    } else if k < c {
                        assert(s[c] != 10u8);
                    }
                }
                return Some(i - 1);
            }
            i = i - 1;
        }
        None
    }

    /// Pop the trailing complete line out of the buffer, if the buffer
    /// contains a newline; the newline itself is discarded.
    fn take_trailing_line(&mut self) -> (r: Option<Vec<u8>>)
        ensures
            match last_newline(old(self)@.buffer) {
                Some(i) => r is Some && r->0@ == old(self)@.buffer.subrange(i + 1, old(self)@.buffer.len() as int)
                    && final(self)@ == (TailModel { buffer: old(self)@.buffer.subrange(0, i), ..old(self)@ }),
                None => r is None && final(self)@ == old(self)@,
            },
    {
        let newline_idx = match self.last_newline_index() {
            Some(i) => i,
            None => return None,
        };
        let blen = self.buffer.len();
        assert(newline_idx < blen);
        let line_bytes = self.buffer.split_off(newline_idx + 1);
        self.buffer.pop();
        proof {
            assert(self.buffer@ =~= old(self)@.buffer.subrange(0, newline_idx as int));
        }
        Some(line_bytes)
    }

    /// Prepend the chunk read for the last `NeedChunk` request.
    pub fn accept_chunk(&mut self, chunk: Vec<u8>)
        ensures
            final(self)@ == accept_spec(old(self)@, chunk@),
    {
        let mut chunk = chunk;
        let ghost c = chunk@;
        chunk.append(&mut self.buffer);
        self.buffer = chunk;
        if self.pos == 0 {
            self.reached_start = true;
        }
        proof {
            assert(self.buffer@ =~= c + old(self)@.buffer);
        }
    }

    /// Yield the next line, ask for the next chunk of the file, or report
    /// that no line is left.
    pub fn poll_line(&mut self) -> (r: TailPoll)
        ensures
            ({
                let (t, p) = poll_spec(old(self)@);
                &&& final(self)@ == t
                &&& match (r, p) {
                    (TailPoll::Line(s), PollView::Line(b)) => s@ == utf8_lossy(b) && (vstd::utf8::valid_utf8(b)
                        ==> s@ == vstd::utf8::decode_utf8(b)),
                    (TailPoll::NeedChunk { offset, len }, PollView::NeedChunk { offset: o, len: l }) => offset == o && len == l,
                    (TailPoll::Done, PollView::Done) => true,
                    _ => false,
                }
            }),
    {
        if self.remaining == 0 {
            return TailPoll::Done;
        }
        let ghost t0 = look_at_end(self@);
        if self.at_end && self.buffer.len() > 0 {
            self.at_end = false;
            let last = self.buffer[self.buffer.len() - 1];
            if last == 10u8 {
                self.buffer.pop();
            }
            assert(self.buffer@ =~= strip_final_newline(old(self)@.buffer));
        }
        assert(self@ == t0);
        if let Some(line) = self.take_trailing_line() {
            self.remaining = self.remaining - 1;
            return TailPoll::Line(from_utf8_lossy(&line));
        }
        if self.reached_start || self.pos == 0 {
            self.reached_start = true;
            if self.buffer.len() == 0 {
                return TailPoll::Done;
            }
            let ghost b = self.buffer@;
            let line_bytes = self.buffer.split_off(0);
            self.remaining = self.remaining - 1;
            proof {
                assert(self.buffer@ =~= Seq::<u8>::empty());
                assert(line_bytes@ =~= b);
            }
            return TailPoll::Line(from_utf8_lossy(&line_bytes));
        }
        let read_size: u64 = if self.pos < CHUNK_SIZE {
            self.pos
        } else {
            CHUNK_SIZE
        };
        self.pos = self.pos - read_size;
        TailPoll::NeedChunk { offset: self.pos, len: read_size as usize }
    }
}

} // verus!

verus! {

/// A file found in the log directory: its name and its modification time,
/// in nanoseconds since the Unix epoch.
pub struct LogFileEntry {
    pub name: String,
    pub modified: u128,
}

/// The UTF-8 bytes of `name` begin with those of `prefix` (what
/// `str::starts_with` tests).
pub open spec fn has_name_prefix(name: Seq<char>, prefix: Seq<char>) -> bool {
    vstd::utf8::encode_utf8(prefix).is_prefix_of(vstd::utf8::encode_utf8(name))
}

/// File `a` is read before file `b`: it is newer, or as new and listed first.
pub open spec fn read_before(files: Seq<LogFileEntry>, a: int, b: int) -> bool {
    files[a].modified > files[b].modified || (files[a].modified == files[b].modified && a < b)
}

/// `order` lists the positions of the rotated log files among `files`:
/// exactly those whose name starts with `prefix`, newest first, and in
/// directory order among files modified at the same time.
pub open spec fn is_log_order(files: Seq<LogFileEntry>, prefix: Seq<char>, order: Seq<usize>) -> bool {
    &&& forall|k: int| 0 <= k < order.len() ==> (#[trigger] order[k]) < files.len() && has_name_prefix(
        files[order[k] as int].name@,
        prefix,
    )
    &&& forall|i: int| 0 <= i < files.len() && has_name_prefix(#[trigger] files[i].name@, prefix) ==> order.contains(
        i as usize,
    )
    &&& forall|p: int, q: int| 0 <= p < q < order.len() ==> read_before(files, #[trigger] order[p] as int, #[trigger] order[q] as int)
}

/// Whether `name` starts with `prefix`, byte by byte.
pub fn starts_with(name: &String, prefix: &str) -> (r: bool)
    ensures
        r == has_name_prefix(name@, prefix@),
{
    let nb = name.as_str().as_bytes();
    let pb = prefix.as_bytes();
    if pb.len() > nb.len() {
        return false;
    }
    let mut i: usize = 0;
    while i < pb.len()
        invariant
            pb.len() <= nb.len(),
            i <= pb.len(),
            pb@ == vstd::utf8::encode_utf8(prefix@),
            nb@ == vstd::utf8::encode_utf8(name@),
            forall|j: int| 0 <= j < i ==> pb@[j] == nb@[j],
        decreases pb.len() - i,
    {
        if pb[i] != nb[i] {
            return false;
        }
        i = i + 1;
    }
    true
}

/// The order in which the rotated log files are read: the positions of
/// the files whose name starts with `prefix`, newest first (a stable sort,
/// so files modified at the same time keep their directory order).
pub fn log_file_order(files: &Vec<LogFileEntry>, prefix: &str) -> (r: Vec<usize>)
    ensures
        is_log_order(files@, prefix@, r@),
{
    let mut order: Vec<usize> = Vec::new();
    let mut i: usize = 0;
    while i < files.len()
        invariant
            i <= files.len(),
            forall|k: int| 0 <= k < order@.len() ==> (#[trigger] order@[k]) < i && has_name_prefix(
                files@[order@[k] as int].name@,
                prefix@,
            ),
            forall|j: int| 0 <= j < i && has_name_prefix(#[trigger] files@[j].name@, prefix@) ==> order@.contains(
                j as usize,
            ),
            forall|p: int, q: int|
                0 <= p < q < order@.len() ==> read_before(files@, #[trigger] order@[p] as int, #[trigger] order@[q] as int),
        decreases files.len() - i,
    {
        if starts_with(&files[i].name, prefix) {
            let m = files[i].modified;
            let mut pos: usize = 0;
            while pos < order.len() && files[order[pos]].modified >= m
                invariant
                    pos <= order@.len(),
                    forall|k: int| 0 <= k < order@.len() ==> (#[trigger] order@[k]) < i,
                    i < files.len(),
                    m == files@[i as int].modified,
                    forall|k: int| 0 <= k < pos ==> files@[(#[trigger] order@[k]) as int].modified >= m,
                decreases order.len() - pos,
            {
                pos = pos + 1;
            }
            let ghost old_order = order@;
            proof {
                assert forall|k: int| pos <= k < old_order.len() implies files@[(#[trigger] old_order[k]) as int].modified < m by {
                    if k > pos {
                        assert(read_before(files@, old_order[pos as int] as int, old_order[k] as int));
                    }
                }
            }
            order.insert(pos, i);
            proof {
                assert forall|p: int, q: int| 0 <= p < q < order@.len() implies read_before(
                    files@,
                    #[trigger] order@[p] as int,
                    #[trigger] order@[q] as int,
                ) by {
                    if q < pos {
                        assert(order@[p] == old_order[p] && order@[q] == old_order[q]);
                    } else if q == pos {
                        assert(order@[p] == old_order[p]);
                    } else if p == pos {
                        assert(order@[q] == old_order[q - 1]);
                    } else if p < pos {
                        assert(order@[p] == old_order[p] && order@[q] == old_order[q - 1]);
                    } else {
                        assert(order@[p] == old_order[p - 1] && order@[q] == old_order[q - 1]);
                    }
                }
                assert forall|j: int| 0 <= j <= i && has_name_prefix(#[trigger] files@[j].name@, prefix@) implies order@.contains(
                    j as usize,
                ) by {
                    if j == i {
                        assert(order@[pos as int] == i);
                    } else {
                        let k = choose|k: int| 0 <= k < old_order.len() && old_order[k] == j as usize;
                        if k < pos {
                            assert(order@[k] == j as usize);
                        } else {
                            assert(order@[k + 1] == j as usize);
                        }
                    }
                }
                assert forall|k: int| 0 <= k < order@.len() implies (#[trigger] order@[k]) < i + 1 && has_name_prefix(
                    files@[order@[k] as int].name@,
                    prefix@,
                ) by {
                    if k < pos {
                        assert(order@[k] == old_order[k]);
                    } else if k > pos {
                        assert(order@[k] == old_order[k - 1]);
                    }
                }
            }
        }
        i = i + 1;
    }
    order
}

} // verus!

verus! {

/// How many more lines to read from the next log file when `n` lines are
/// wanted in all and `collected` have been read: the files' lines are taken
/// in order until `n` are collected.
pub fn lines_still_wanted(n: usize, collected: usize) -> (r: usize)
    ensures
        r == if collected < n {
            n - collected
        } else {
            0
        },
{
    if collected < n {
        n - collected
    } else {
        0
    }
}

} // verus!

verus! {

/// The lines read from the log files, newest file first, when `n` lines are
/// wanted in all: each file gives its lines (`per_file[f]`, newest first)
/// until [`lines_still_wanted`] says no more are wanted.
pub open spec fn lines_across_files(per_file: Seq<Seq<Seq<u8>>>, n: nat) -> Seq<Seq<u8>>
    decreases per_file.len(),
{
    if per_file.len() == 0 {
        seq![]
    } else {
        let first = per_file[0];
        let taken = if n < first.len() {
            first.take(n as int)
        } else {
            first
        };
        taken + lines_across_files(per_file.drop_first(), (n - taken.len()) as nat)
    }
}

proof fn lemma_no_lines_wanted(per_file: Seq<Seq<Seq<u8>>>)
    ensures
        lines_across_files(per_file, 0) == Seq::<Seq<u8>>::empty(),
    decreases per_file.len(),
{
    if per_file.len() > 0 {
        lemma_no_lines_wanted(per_file.drop_first());
        assert(per_file[0].take(0) =~= Seq::<Seq<u8>>::empty());
        assert(Seq::<Seq<u8>>::empty() + Seq::<Seq<u8>>::empty() =~= Seq::<Seq<u8>>::empty());
    }
}

/// Reading the log files one after the other, each only as far as lines
/// are still wanted, gives the first `n` lines of all files' lines
/// together, newest file first (all of them when there are fewer).
pub proof fn law_lines_across_files(per_file: Seq<Seq<Seq<u8>>>, n: nat)
    ensures
        lines_across_files(per_file, n) == per_file.flatten().take(
            if n < per_file.flatten().len() {
                n as int
            } else {
                per_file.flatten().len() as int
            },
        ),
    decreases per_file.len(),
{
    let flat = per_file.flatten();
    if per_file.len() == 0 {
        assert(flat.take(0) =~= Seq::<Seq<u8>>::empty());
    } else {
        let first = per_file[0];
        let rest = per_file.drop_first();
        let rest_flat = rest.flatten();
        assert(flat == first + rest_flat);
        if n < first.len() {
            lemma_no_lines_wanted(rest);
            assert(lines_across_files(per_file, n) =~= first.take(n as int));
            assert(flat.take(n as int) =~= first.take(n as int));
        } else {
            let m = (n - first.len()) as nat;
            law_lines_across_files(rest, m);
            let k = if m < rest_flat.len() {
                m as int
            } else {
                rest_flat.len() as int
            };
            assert(lines_across_files(per_file, n) == first + rest_flat.take(k));
            assert(first + rest_flat.take(k) =~= flat.take(first.len() + k));
        }
    }
}

} // verus!

verus! {

/// The lines a reader in state `t` yields, having yielded `emitted`, when
/// each requested chunk is the bytes of `file` at the requested offset:
/// `Some` with all yielded lines once it reports that it is done within
/// `fuel` polls, `None` if it is not done by then.
pub open spec fn run_reader(t: TailModel, file: Seq<u8>, emitted: Seq<Seq<u8>>, fuel: nat) -> Option<Seq<Seq<u8>>>
    decreases fuel,
{
    if fuel == 0 {
        None
    } else {
        match poll_spec(t) {
            (t1, PollView::Line(b)) => run_reader(t1, file, emitted.push(b), (fuel - 1) as nat),
            (t1, PollView::NeedChunk { offset, len }) => run_reader(
                accept_spec(t1, file.subrange(offset as int, offset + len)),
                file,
                emitted,
                (fuel - 1) as nat,
            ),
            (_, PollView::Done) => Some(emitted),
        }
    }
}

/// The first `k` of `lines`, or all of them when there are fewer.
pub open spec fn first_lines(lines: Seq<Seq<u8>>, k: int) -> Seq<Seq<u8>> {
    lines.take(if k < lines.len() {
        k
    } else {
        lines.len() as int
    })
}

proof fn lemma_run_reader(t: TailModel, file: Seq<u8>, emitted: Seq<Seq<u8>>, fuel: nat, lines: Seq<Seq<u8>>)
    requires
        tail_consistent(t, file, emitted),
        run_reader(t, file, emitted, fuel) == Some(lines),
    ensures
        lines == first_lines(rev_lines(file), emitted.len() + t.remaining),
    decreases fuel,
{
    let all = rev_lines(file);
    // what has been yielded is the start of the file's lines
    assert(emitted.len() <= all.len() && all.take(emitted.len() as int) == emitted) by {
        if t.at_end {
            assert(emitted =~= Seq::<Seq<u8>>::empty());
            assert(all.take(0) =~= Seq::<Seq<u8>>::empty());
        } else {
            let rest = rev_pieces(file.subrange(0, t.pos as int) + t.buffer);
            assert(emitted + rest == all);
            assert(all.take(emitted.len() as int) =~= emitted);
        }
    }
    law_tail_step(t, file, emitted);
    match poll_spec(t) {
        (t1, PollView::Line(b)) => {
            lemma_run_reader(t1, file, emitted.push(b), (fuel - 1) as nat, lines);
        },
        (t1, PollView::NeedChunk { offset, len }) => {
            lemma_run_reader(accept_spec(t1, file.subrange(offset as int, offset + len)), file, emitted, (fuel - 1) as nat, lines);
        },
        (_, PollView::Done) => {
            assert(lines == emitted);
            if t.remaining == 0 {
                assert(first_lines(all, emitted.len() + t.remaining) =~= emitted);
            } else {
                assert(first_lines(all, emitted.len() + t.remaining) =~= all);
            }
        },
    }
}

/// Reading a file backwards yields its last lines, newest first: a reader
/// made for a file of `file.len()` bytes and a budget of `wanted` lines,
/// fed the file's bytes at each requested offset, yields exactly the first
/// `wanted` of the file's lines counted from the end (all of them when
/// there are fewer) by the time it reports that it is done.  Taking these
/// from each file in turn, with the budget [`lines_still_wanted`] leaves,
/// gives the lines of [`law_lines_across_files`].
pub proof fn law_reader_yields_last_lines(file: Seq<u8>, wanted: usize, fuel: nat, lines: Seq<Seq<u8>>)
    requires
        file.len() <= u64::MAX,
        run_reader(
            TailModel { pos: file.len() as u64, buffer: Seq::empty(), reached_start: file.len() == 0, remaining: wanted, at_end: true },
            file,
            Seq::empty(),
            fuel,
        ) == Some(lines),
    ensures
        lines == first_lines(rev_lines(file), wanted as int),
{
    law_tail_start(file, wanted);
    lemma_run_reader(
        TailModel { pos: file.len() as u64, buffer: Seq::empty(), reached_start: file.len() == 0, remaining: wanted, at_end: true },
        file,
        Seq::empty(),
        fuel,
        lines,
    );
}

} // verus!
