//! Cutting modem output into lines and collecting it up to a delimiter.
use vstd::prelude::*;

verus! {

/// Carriage return, the first byte of a modem line ending.
pub const CR: u8 = 13;

/// Line feed, the second byte of a modem line ending.
pub const LF: u8 = 10;

/// A `"\r\n"` pair starts at index `i` of `buf`.
pub open spec fn is_crlf_at(buf: Seq<u8>, i: int) -> bool {
    0 <= i && i + 1 < buf.len() && buf[i] == CR && buf[i + 1] == LF
}

/// The lines that a left-to-right scan of `buf` emits from position `i` on,
/// when the current line began at `start`.
///
/// Every `"\r\n"` at a position other than `start` closes the line
/// `buf[start..i]` and opens the next one after the pair; a pair found exactly
/// at `start` is kept inside the following line. Whatever remains after the
/// last closed line is the final line, if it is not empty.
pub open spec fn split_lines_from(buf: Seq<u8>, start: int, i: int) -> Seq<Seq<u8>>
    decreases buf.len() - i,
{
    if i + 1 >= buf.len() {
        if start < buf.len() {
            seq![buf.subrange(start, buf.len() as int)]
        } else {
            Seq::empty()
        }
    } else if is_crlf_at(buf, i) && start != i {
        seq![buf.subrange(start, i)] + split_lines_from(buf, i + 2, i + 1)
    } else {
        split_lines_from(buf, start, i + 1)
    }
}

/// The lines of a modem response, as the modem's line splitter cuts them.
pub open spec fn split_lines(buf: Seq<u8>) -> Seq<Seq<u8>> {
    split_lines_from(buf, 0, 0)
}

/// The byte contents of a list of lines.
pub open spec fn lines_view(parts: Seq<Vec<u8>>) -> Seq<Seq<u8>> {
    parts.map_values(|p: Vec<u8>| p@)
}

/// A copy of `buf[lo..hi]`.
fn copy_range(buf: &[u8], lo: usize, hi: usize) -> (out: Vec<u8>)
    requires
        lo <= hi <= buf@.len(),
    ensures
        out@ == buf@.subrange(lo as int, hi as int),
{
    let mut out: Vec<u8> = Vec::new();
    out.extend_from_slice(&buf[lo..hi]);
    assert(out@ =~= buf@.subrange(lo as int, hi as int));
    out
}

/// Cuts a modem response into its lines at each `"\r\n"`.
///
/// The buffer must not be empty (the scan runs over all positions but the last).
pub fn split_vec_on_crlf(buf: &[u8]) -> (parts: Vec<Vec<u8>>)
    requires
        buf@.len() > 0,
    ensures
        lines_view(parts@) == split_lines(buf@),
{
    let mut parts: Vec<Vec<u8>> = Vec::new();
    let mut start: usize = 0;
    let last = buf.len() - 1;
    let mut i: usize = 0;
    while i < last
        invariant
            last == buf@.len() - 1,
            i <= last,
            start <= i || (start == i + 1 && i >= 1 && buf@[i - 1] == CR && buf@[i as int] == LF),
            start <= i + 1,
            lines_view(parts@) + split_lines_from(buf@, start as int, i as int) == split_lines(buf@),
        decreases last - i,
    {
        let ghost before = lines_view(parts@);
        if buf[i] == CR && buf[i + 1] == LF && start != i {
            assert(start < i) by {
                if start == i + 1 {
                    assert(buf@[i as int] == LF);
                }
            }
            let line = copy_range(buf, start, i);
            parts.push(line);
            assert(lines_view(parts@) =~= before.push(buf@.subrange(start as int, i as int)));
            assert(lines_view(parts@) + split_lines_from(buf@, (i + 2) as int, (i + 1) as int)
                =~= before + split_lines_from(buf@, start as int, i as int));
            start = i + 2;
        }
        i = i + 1;
    }
    if start < buf.len() {
        let ghost before = lines_view(parts@);
        let line = copy_range(buf, start, buf.len());
        parts.push(line);
        assert(lines_view(parts@) =~= before + split_lines_from(buf@, start as int, i as int));
    } else {
        assert(lines_view(parts@) =~= lines_view(parts@) + split_lines_from(buf@, start as int, i as int));
    }
    parts
}

} // verus!

verus! {

/// `delimiter` occurs somewhere in `haystack` as a contiguous run.
pub open spec fn contains_window(haystack: Seq<u8>, delimiter: Seq<u8>) -> bool {
    exists|k: int|
        0 <= k && k + delimiter.len() <= haystack.len()
            && #[trigger] haystack.subrange(k, k + delimiter.len()) == delimiter
}

fn window_matches(haystack: &[u8], k: usize, delimiter: &[u8]) -> (m: bool)
    requires
        k + delimiter@.len() <= haystack@.len(),
    ensures
        m == (haystack@.subrange(k as int, k + delimiter@.len()) == delimiter@),
{
    let mut j: usize = 0;
    while j < delimiter.len()
        invariant
            j <= delimiter@.len(),
            k + delimiter@.len() <= haystack@.len(),
            forall|m: int| 0 <= m < j ==> haystack@[k + m] == delimiter@[m],
        decreases delimiter@.len() - j,
    {
        assert(haystack@.len() == haystack.len());
        let pos = k + j;
        if haystack[pos] != delimiter[j] {
            assert(haystack@.subrange(k as int, k + delimiter@.len())[j as int] != delimiter@[j as int]);
            return false;
        }
        j = j + 1;
    }
    assert(haystack@.subrange(k as int, k + delimiter@.len()) =~= delimiter@);
    true
}

/// Whether `delimiter` occurs in `haystack`.
pub fn contains_delimiter(haystack: &[u8], delimiter: &[u8]) -> (found: bool)
    ensures
        found == contains_window(haystack@, delimiter@),
{
    if delimiter.len() == 0 {
        assert(haystack@.subrange(0int, 0int + delimiter@.len()) =~= delimiter@);
        return true;
    }
    if delimiter.len() > haystack.len() {
        return false;
    }
    let last = haystack.len() - delimiter.len();
    let mut k: usize = 0;
    while k <= last
        invariant
            last + delimiter@.len() == haystack@.len(),
            delimiter@.len() >= 1,
            k <= last + 1,
            forall|m: int| 0 <= m < k ==> #[trigger] haystack@.subrange(m, m + delimiter@.len()) != delimiter@,
        decreases last + 1 - k,
    {
        if window_matches(haystack, k, delimiter) {
            return true;
        }
        assert(haystack@.len() == haystack.len());
        k = k + 1;
    }
    false
}

/// What one read from the serial line brought.
pub enum ReadEvent {
    /// Some bytes arrived.
    Received(Vec<u8>),
    /// The read returned no bytes.
    Nothing,
    /// The read timed out.
    TimedOut,
    /// The read failed otherwise.
    Failed,
}

/// What to do after a read.
#[derive(Clone, Copy, Debug, PartialEq, Eq, Structural)]
pub enum ReadOutcome {
    Continue,
    Done,
    Failed,
}

/// Collects what the modem sends until a delimiter shows up.
pub struct DelimitedRead {
    received: Vec<u8>,
    delimiter: Vec<u8>,
}

impl DelimitedRead {
    pub closed spec fn received_view(&self) -> Seq<u8> {
        self.received@
    }

    pub closed spec fn delimiter_view(&self) -> Seq<u8> {
        self.delimiter@
    }

    /// Starts collecting, with nothing received yet.
    pub fn new(delimiter: Vec<u8>) -> (reader: DelimitedRead)
        ensures
            reader.received_view() == Seq::<u8>::empty(),
            reader.delimiter_view() == delimiter@,
    {
        DelimitedRead { received: Vec::new(), delimiter }
    }

    /// Whether reading is needed at all: an empty delimiter ends at once.
    pub fn should_read(&self) -> (read: bool)
        ensures
            read == (self.delimiter_view().len() > 0),
    {
        self.delimiter.len() > 0
    }

    /// Takes in one read: received bytes are appended and end the collection
    /// once the delimiter occurs in everything received; an empty read goes on;
    /// a timeout ends it; any other failure aborts it.
    pub fn on_event(&mut self, event: ReadEvent) -> (outcome: ReadOutcome)
        ensures
            final(self).delimiter_view() == old(self).delimiter_view(),
            match event {
                ReadEvent::Received(bytes) => {
                    &&& final(self).received_view() == old(self).received_view() + bytes@
                    &&& outcome == if contains_window(final(self).received_view(), old(self).delimiter_view()) {
                        ReadOutcome::Done
                    } else {
                        ReadOutcome::Continue
                    }
                },
                ReadEvent::Nothing => final(self).received_view() == old(self).received_view()
                    && outcome == ReadOutcome::Continue,
                ReadEvent::TimedOut => final(self).received_view() == old(self).received_view()
                    && outcome == ReadOutcome::Done,
                ReadEvent::Failed => final(self).received_view() == old(self).received_view()
                    && outcome == ReadOutcome::Failed,
            },
    {
        match event {
            ReadEvent::Received(bytes) => {
                self.received.extend_from_slice(bytes.as_slice());
                assert(self.received@ =~= old(self).received@ + bytes@);
                if contains_delimiter(self.received.as_slice(), self.delimiter.as_slice()) {
                    ReadOutcome::Done
                } else {
                    ReadOutcome::Continue
                }
            },
            ReadEvent::Nothing => ReadOutcome::Continue,
            ReadEvent::TimedOut => ReadOutcome::Done,
            ReadEvent::Failed => ReadOutcome::Failed,
        }
    }

    /// Everything received so far.
    pub fn into_received(self) -> (received: Vec<u8>)
        ensures
            received@ == self.received_view(),
    {
        self.received
    }
}

/// `OK`: the end of a command's answer.
pub fn ok_delimiter() -> (d: Vec<u8>)
    ensures
        d@ == seq![79u8, 75],
{
    vec![79, 75]
}

/// `\r`: the end of an unsolicited line.
pub fn line_delimiter() -> (d: Vec<u8>)
    ensures
        d@ == seq![13u8],
{
    vec![13]
}

/// `\n\r`: sent after every command.
pub fn send_terminator() -> (d: Vec<u8>)
    ensures
        d@ == seq![10u8, 13],
{
    vec![10, 13]
}

} // verus!

verus! {

proof fn lemma_lines_from_not_empty(buf: Seq<u8>, start: int, i: int)
    requires
        0 <= start,
        0 <= i,
        start <= i || (start == i + 1 && i < buf.len() && buf[i] == LF) || (start == i + 1 && i >= buf.len()),
    ensures
        forall|k: int| 0 <= k < split_lines_from(buf, start, i).len()
            ==> #[trigger] split_lines_from(buf, start, i)[k].len() > 0,
    decreases buf.len() - i,
{
    if i + 1 >= buf.len() {
        if start < buf.len() {
            assert(split_lines_from(buf, start, i) == seq![buf.subrange(start, buf.len() as int)]);
            assert(buf.subrange(start, buf.len() as int).len() > 0);
        } else {
            assert(split_lines_from(buf, start, i).len() == 0);
        }
    } else if is_crlf_at(buf, i) && start != i {
        lemma_lines_from_not_empty(buf, i + 2, i + 1);
        let rest = split_lines_from(buf, i + 2, i + 1);
        assert forall|k: int| 0 <= k < split_lines_from(buf, start, i).len()
            implies #[trigger] split_lines_from(buf, start, i)[k].len() > 0 by {
            assert(start < i);
            assert(split_lines_from(buf, start, i) == seq![buf.subrange(start, i)] + rest);
            if k > 0 {
                assert(split_lines_from(buf, start, i)[k] == rest[k - 1]);
            } else {
                assert(split_lines_from(buf, start, i)[k] == buf.subrange(start, i));
            }
        }
    } else {
        lemma_lines_from_not_empty(buf, start, i + 1);
        assert(split_lines_from(buf, start, i) == split_lines_from(buf, start, i + 1));
    }
}

/// No line that the splitter emits is empty.
pub proof fn lemma_lines_not_empty(buf: Seq<u8>)
    ensures
        forall|k: int| 0 <= k < split_lines(buf).len() ==> #[trigger] split_lines(buf)[k].len() > 0,
{
    lemma_lines_from_not_empty(buf, 0, 0);
}

proof fn lemma_lines_from_without_crlf(buf: Seq<u8>, start: int, i: int)
    requires
        0 <= start <= i,
        start < buf.len(),
        forall|j: int| #![trigger buf[j]] 0 <= j ==> !is_crlf_at(buf, j),
    ensures
        split_lines_from(buf, start, i) == seq![buf.subrange(start, buf.len() as int)],
    decreases buf.len() - i,
{
    if i + 1 < buf.len() {
        assert(!is_crlf_at(buf, i)) by {
            let _ = buf[i];
        }
        lemma_lines_from_without_crlf(buf, start, i + 1);
    }
}

/// A non-empty buffer without a `"\r\n"` is one line.
pub proof fn lemma_single_line(buf: Seq<u8>)
    requires
        buf.len() > 0,
        forall|j: int| #![trigger buf[j]] 0 <= j ==> !is_crlf_at(buf, j),
    ensures
        split_lines(buf) == seq![buf],
{
    lemma_lines_from_without_crlf(buf, 0, 0);
    assert(buf.subrange(0, buf.len() as int) =~= buf);
}

} // verus!
