use vstd::prelude::*;
use vstd::utf8::*;

use crate::error::WatchdogError;

verus! {

/// The byte that ends a line.
pub const LINE_TERMINATOR: u8 = 10;

/// The complete lines of `s`, scanning from `i` with the current line starting at
/// `start`; terminators are stripped and an unterminated tail is left out.
pub open spec fn lines_scan(s: Seq<u8>, start: int, i: int) -> Seq<Seq<u8>>
    decreases s.len() - i,
{
    if i < 0 || i >= s.len() {
        seq![]
    } else if s[i] == LINE_TERMINATOR {
        seq![s.subrange(start, i)] + lines_scan(s, i + 1, i + 1)
    } else {
        lines_scan(s, start, i + 1)
    }
}

/// The number of bytes of `s` taken up by complete lines, scanning as in `lines_scan`.
pub open spec fn consumed_scan(s: Seq<u8>, start: int, i: int) -> int
    decreases s.len() - i,
{
    if i < 0 || i >= s.len() {
        start
    } else if s[i] == LINE_TERMINATOR {
        consumed_scan(s, i + 1, i + 1)
    } else {
        consumed_scan(s, start, i + 1)
    }
}

/// The complete lines of `s` in order, terminators stripped.
pub open spec fn complete_lines(s: Seq<u8>) -> Seq<Seq<u8>> {
    lines_scan(s, 0, 0)
}

/// The length of the prefix of `s` that ends with its last terminator (0 if it has none).
pub open spec fn consumed_len(s: Seq<u8>) -> int {
    consumed_scan(s, 0, 0)
}

/// Every complete line of `s` is valid UTF-8.
pub open spec fn lines_are_text(s: Seq<u8>) -> bool {
    forall|k: int| 0 <= k < complete_lines(s).len() ==> valid_utf8(#[trigger] complete_lines(s)[k])
}

/// Scanning the tail `b` of `a + b` gives what scanning `b` alone gives, with
/// consumed lengths shifted by `a.len()`.
proof fn lemma_scan_shift(a: Seq<u8>, b: Seq<u8>, start: int, i: int)
    requires
        0 <= start <= i <= b.len(),
    ensures
        lines_scan(a + b, a.len() as int + start, a.len() as int + i) == lines_scan(b, start, i),
        consumed_scan(a + b, a.len() as int + start, a.len() as int + i) == a.len() + consumed_scan(b, start, i),
    decreases b.len() - i,
{
    let s = a + b;
    if i < b.len() {
        assert(s[a.len() + i] == b[i]);
        if b[i] == LINE_TERMINATOR {
            lemma_scan_shift(a, b, i + 1, i + 1);
            assert(s.subrange(a.len() + start, a.len() + i) =~= b.subrange(start, i));
        } else {
            lemma_scan_shift(a, b, start, i + 1);
        }
    }
}

/// Scanning a first line `p` that holds no terminator, followed by a terminator.
proof fn lemma_scan_first_line(p: Seq<u8>, q: Seq<u8>, i: int)
    requires
        !p.contains(LINE_TERMINATOR),
        0 <= i <= p.len(),
    ensures
        lines_scan(p + seq![LINE_TERMINATOR] + q, 0, i) == seq![p] + lines_scan(
            p + seq![LINE_TERMINATOR] + q,
            p.len() + 1 as int,
            p.len() + 1 as int,
        ),
        consumed_scan(p + seq![LINE_TERMINATOR] + q, 0, i) == consumed_scan(
            p + seq![LINE_TERMINATOR] + q,
            p.len() + 1 as int,
            p.len() + 1 as int,
        ),
    decreases p.len() - i,
{
    let s = p + seq![LINE_TERMINATOR] + q;
    if i < p.len() {
        assert(s[i] == p[i]);
        assert(p[i] != LINE_TERMINATOR);
        lemma_scan_first_line(p, q, i + 1);
    } else {
        assert(s[i] == LINE_TERMINATOR);
        assert(s.subrange(0, i) =~= p);
    }
}

/// Scanning from `i` over bytes that hold no terminator finds no line.
proof fn lemma_scan_no_terminator(s: Seq<u8>, start: int, i: int)
    requires
        0 <= start <= i <= s.len(),
        forall|k: int| i <= k < s.len() ==> s[k] != LINE_TERMINATOR,
    ensures
        lines_scan(s, start, i) == Seq::<Seq<u8>>::empty(),
        consumed_scan(s, start, i) == start,
    decreases s.len() - i,
{
    if i < s.len() {
        lemma_scan_no_terminator(s, start, i + 1);
    }
}

/// Bytes without a terminator hold no complete line and consume nothing: a reader
/// reports nothing until a terminator is appended.
pub proof fn lemma_no_terminator_no_lines(s: Seq<u8>)
    requires
        !s.contains(LINE_TERMINATOR),
    ensures
        complete_lines(s) == Seq::<Seq<u8>>::empty(),
        consumed_len(s) == 0,
{
    assert forall|k: int| 0 <= k < s.len() implies s[k] != LINE_TERMINATOR by {
        if s[k] == LINE_TERMINATOR {
            assert(s.contains(LINE_TERMINATOR));
        }
    }
    lemma_scan_no_terminator(s, 0, 0);
}

/// A line `p` followed by a terminator and more bytes `q` is reported first, whole,
/// and before the lines of `q`; the offset moves past its terminator and then as
/// `q` alone would move it.
pub proof fn lemma_first_line_then_rest(p: Seq<u8>, q: Seq<u8>)
    requires
        !p.contains(LINE_TERMINATOR),
    ensures
        complete_lines(p + seq![LINE_TERMINATOR] + q) == seq![p] + complete_lines(q),
        consumed_len(p + seq![LINE_TERMINATOR] + q) == p.len() + 1 + consumed_len(q),
{
    let a = p + seq![LINE_TERMINATOR];
    assert(p + seq![LINE_TERMINATOR] + q == a + q);
    lemma_scan_first_line(p, q, 0);
    lemma_scan_shift(a, q, 0, 0);
}

/// An unterminated write `p` is not reported, and the reader stays before it; once
/// a terminator and any further bytes `q` follow, the next poll reports `p` whole
/// as its first line and moves past it, so it is reported exactly once.
pub proof fn lemma_partial_line_reported_once(p: Seq<u8>, q: Seq<u8>)
    requires
        !p.contains(LINE_TERMINATOR),
    ensures
        complete_lines(p) == Seq::<Seq<u8>>::empty(),
        consumed_len(p) == 0,
        complete_lines(p + seq![LINE_TERMINATOR] + q)[0] == p,
        consumed_len(p + seq![LINE_TERMINATOR] + q) >= p.len() + 1,
{
    lemma_no_terminator_no_lines(p);
    lemma_first_line_then_rest(p, q);
    lemma_consumed_bounds(q);
}

/// The consumed prefix never exceeds the bytes given.
pub proof fn lemma_consumed_bounds(s: Seq<u8>)
    ensures
        0 <= consumed_len(s) <= s.len(),
{
    lemma_consumed_scan_bounds(s, 0, 0);
}

proof fn lemma_consumed_scan_bounds(s: Seq<u8>, start: int, i: int)
    requires
        0 <= start <= i <= s.len(),
    ensures
        start <= consumed_scan(s, start, i) <= s.len(),
    decreases s.len() - i,
{
    if i < s.len() {
        if s[i] == LINE_TERMINATOR {
            lemma_consumed_scan_bounds(s, i + 1, i + 1);
        } else {
            lemma_consumed_scan_bounds(s, start, i + 1);
        }
    }
}

/// Scanning `x + y`, where `x` ends with a terminator, goes through `x` as scanning
/// `x` alone does and then starts afresh at `y`.
proof fn lemma_scan_through(x: Seq<u8>, y: Seq<u8>, start: int, i: int)
    requires
        x.len() > 0,
        x.last() == LINE_TERMINATOR,
        0 <= start <= i <= x.len(),
        i == x.len() ==> start == i,
    ensures
        lines_scan(x + y, start, i) == lines_scan(x, start, i) + lines_scan(
            x + y,
            x.len() as int,
            x.len() as int,
        ),
        consumed_scan(x + y, start, i) == consumed_scan(x + y, x.len() as int, x.len() as int),
        consumed_scan(x, start, i) == x.len(),
    decreases x.len() - i,
{
    let s = x + y;
    if i < x.len() {
        assert(s[i] == x[i]);
        if x[i] == LINE_TERMINATOR {
            lemma_scan_through(x, y, i + 1, i + 1);
            assert(s.subrange(start, i) =~= x.subrange(start, i));
            assert(seq![x.subrange(start, i)] + lines_scan(x, i + 1, i + 1) + lines_scan(
                s,
                x.len() as int,
                x.len() as int,
            ) =~= seq![x.subrange(start, i)] + (lines_scan(x, i + 1, i + 1) + lines_scan(
                s,
                x.len() as int,
                x.len() as int,
            )));
        } else {
            lemma_scan_through(x, y, start, i + 1);
        }
    } else {
        assert(lines_scan(x, start, i) =~= Seq::<Seq<u8>>::empty());
        assert(lines_scan(x, start, i) + lines_scan(s, x.len() as int, x.len() as int) =~= lines_scan(
            s,
            x.len() as int,
            x.len() as int,
        ));
    }
}

/// Two polls compose: polling `x`, which ends with a terminator, and then the
/// bytes `y` appended after it reports the same lines in the same order, and moves
/// the offset as far, as one poll of `x + y`; the first poll consumes all of `x`.
pub proof fn lemma_polls_compose(x: Seq<u8>, y: Seq<u8>)
    requires
        x.len() > 0,
        x.last() == LINE_TERMINATOR,
    ensures
        consumed_len(x) == x.len(),
        complete_lines(x + y) == complete_lines(x) + complete_lines(y),
        consumed_len(x + y) == consumed_len(x) + consumed_len(y),
{
    lemma_scan_through(x, y, 0, 0);
    lemma_scan_shift(x, y, 0, 0);
}

/// Relies on `String::from_utf8`: it succeeds exactly on valid UTF-8 and then holds
/// the decoded characters.
#[verifier::external_body]
fn decode_text(bytes: Vec<u8>) -> (r: Option<String>)
    ensures
        r is Some <==> valid_utf8(bytes@),
        r matches Some(s) ==> s@ == decode_utf8(bytes@),
{
    String::from_utf8(bytes).ok()
}

/// A copy of `src[from..to]`.
fn copy_range(src: &[u8], from: usize, to: usize) -> (r: Vec<u8>)
    requires
        from <= to <= src@.len(),
    ensures
        r@ == src@.subrange(from as int, to as int),
{
    let mut r: Vec<u8> = Vec::new();
    let mut j: usize = from;
    while j < to
        invariant
            from <= j <= to <= src@.len(),
            r@ == src@.subrange(from as int, j as int),
        decreases to - j,
    {
        r.push(src[j]);
        j = j + 1;
    }
    r
}

/// Follows one log file by a byte offset and extracts the whole lines appended
/// after it.
pub struct TailReader {
    offset: u64,
}

impl View for TailReader {
    type V = u64;

    closed spec fn view(&self) -> u64 {
        self.offset
    }
}

impl TailReader {
    /// A reader positioned at `file_len`, the end of the file when watching starts,
    /// so that earlier content is never reported.
    pub fn new(file_len: u64) -> (r: TailReader)
        ensures
            r@ == file_len,
    {
        TailReader { offset: file_len }
    }

    /// The number of bytes of the file already consumed.
    pub fn offset(&self) -> (r: u64)
        ensures
            r == self@,
    {
        self.offset
    }

    /// Takes `appended`, the file's bytes from the current offset to its end, and
    /// returns the complete lines among them in file order. The offset moves past
    /// the last terminator; an unterminated tail is left for a later poll. When a
    /// complete line is not valid UTF-8 nothing is returned and the offset stays.
    pub fn poll(&mut self, appended: &[u8]) -> (r: Result<Vec<String>, WatchdogError>)
        requires
            old(self)@ + appended@.len() <= u64::MAX,
        ensures
            r is Ok <==> lines_are_text(appended@),
            r is Ok ==> final(self)@ == old(self)@ + consumed_len(appended@),
            old(self)@ <= final(self)@ <= old(self)@ + appended@.len(),
            r is Err ==> final(self)@ == old(self)@ && r == Err::<Vec<String>, WatchdogError>(
                WatchdogError::InvalidText,
            ),
            r matches Ok(v) ==> v@.len() == complete_lines(appended@).len() && forall|k: int|
                0 <= k < v@.len() ==> #[trigger] v@[k]@ == decode_utf8(complete_lines(appended@)[k]),
    {
        let mut lines: Vec<String> = Vec::new();
        let mut start: usize = 0;
        let mut i: usize = 0;
        let ghost s = appended@;
        let ghost mut raw: Seq<Seq<u8>> = seq![];
        while i < appended.len()
            invariant
                s == appended@,
                0 <= start <= i <= s.len(),
                complete_lines(s) == raw + lines_scan(s, start as int, i as int),
                consumed_len(s) == consumed_scan(s, start as int, i as int),
                lines@.len() == raw.len(),
                forall|k: int| 0 <= k < raw.len() ==> #[trigger] lines@[k]@ == decode_utf8(raw[k]),
                forall|k: int| 0 <= k < raw.len() ==> valid_utf8(#[trigger] raw[k]),
            decreases s.len() - i,
        {
            if appended[i] == LINE_TERMINATOR {
                let bytes = copy_range(appended, start, i);
                match decode_text(bytes) {
                    Some(text) => {
                        lines.push(text);
                        proof {
                            raw = raw.push(s.subrange(start as int, i as int));
                            assert(complete_lines(s) == raw + lines_scan(s, i + 1, i + 1));
                        }
                    },
                    None => {
                        proof {
                            let k = raw.len() as int;
                            assert(complete_lines(s)[k] == s.subrange(start as int, i as int));
                        }
                        return Err(WatchdogError::InvalidText);
                    },
                }
                start = i + 1;
            }
            i = i + 1;
        }
        assert(complete_lines(s) =~= raw);
        proof {
            lemma_consumed_bounds(s);
        }
        self.offset = self.offset + start as u64;
        Ok(lines)
    }
}

} // verus!
