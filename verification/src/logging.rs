//! Runtime logging rules: the logging mode (`off` / `normal` / `debug`), its
//! textual form, and the bounded in-memory ring buffer that the UI tails
//! incrementally by sequence number.

use std::collections::VecDeque;

use vstd::prelude::*;

use crate::text::{chars_eq, chars_of, decimal, lower, lower_chars, push_u64, trim, trim_chars};

verus! {

#[derive(Clone, Copy, Debug, PartialEq, Eq, Structural)]
pub enum LoggingMode {
    Off,
    Normal,
    Debug,
}

/// Lines the buffer retains; older lines scroll out.
pub const LOG_BUFFER_MAX_LINES: usize = 20000;

/// The mode named by a user string (trimmed, ASCII case ignored).
pub open spec fn parse_mode_spec(s: Seq<char>) -> Option<LoggingMode> {
    let k = lower(trim(s));
    if k == "off"@ {
        Some(LoggingMode::Off)
    } else if k == "normal"@ {
        Some(LoggingMode::Normal)
    } else if k == "debug"@ {
        Some(LoggingMode::Debug)
    } else {
        None
    }
}

pub open spec fn mode_name(m: LoggingMode) -> Seq<char> {
    match m {
        LoggingMode::Off => "off"@,
        LoggingMode::Normal => "normal"@,
        LoggingMode::Debug => "debug"@,
    }
}

pub fn parse_logging_mode(mode: &str) -> (r: Option<LoggingMode>)
    ensures
        r == parse_mode_spec(mode@),
{
    let k = lower_chars(&trim_chars(&chars_of(mode)));
    if chars_eq(&k, &chars_of("off")) {
        Some(LoggingMode::Off)
    } else if chars_eq(&k, &chars_of("normal")) {
        Some(LoggingMode::Normal)
    } else if chars_eq(&k, &chars_of("debug")) {
        Some(LoggingMode::Debug)
    } else {
        None
    }
}

/// Switch `current` to the mode named by `mode`; an unknown name is an error
/// and leaves the mode as it was.
pub fn set_logging_mode_from_str(current: &mut LoggingMode, mode: &str) -> (r: Result<(), String>)
    ensures
        match parse_mode_spec(mode@) {
            Some(m) => r is Ok && *final(current) == m,
            None => r is Err && r->Err_0@ == "invalid logging mode (expected: off | normal | debug)"@
                && *final(current) == *old(current),
        },
{
    match parse_logging_mode(mode) {
        Some(m) => {
            *current = m;
            Ok(())
        },
        None => Err(String::from_str("invalid logging mode (expected: off | normal | debug)")),
    }
}

/// The mode as a stable lowercase string for the UI.
pub fn current_mode_str(mode: LoggingMode) -> (r: &'static str)
    ensures
        r@ == mode_name(mode),
{
    match mode {
        LoggingMode::Off => "off",
        LoggingMode::Normal => "normal",
        LoggingMode::Debug => "debug",
    }
}

/// Encoding of a mode in the process-wide atomic cell.
pub open spec fn mode_code(m: LoggingMode) -> u8 {
    match m {
        LoggingMode::Off => 0,
        LoggingMode::Normal => 1,
        LoggingMode::Debug => 2,
    }
}

pub fn mode_to_u8(mode: LoggingMode) -> (r: u8)
    ensures
        r == mode_code(mode),
{
    match mode {
        LoggingMode::Off => 0,
        LoggingMode::Normal => 1,
        LoggingMode::Debug => 2,
    }
}

/// Decode the atomic cell; anything unexpected reads as `Normal`.
pub fn current_mode(raw: u8) -> (r: LoggingMode)
    ensures
        r == (if raw == 0 {
            LoggingMode::Off
        } else if raw == 2 {
            LoggingMode::Debug
        } else {
            LoggingMode::Normal
        }),
{
    if raw == 0 {
        LoggingMode::Off
    } else if raw == 2 {
        LoggingMode::Debug
    } else {
        LoggingMode::Normal
    }
}

pub fn should_log_normal(mode: LoggingMode) -> (r: bool)
    ensures
        r == (mode != LoggingMode::Off),
{
    mode != LoggingMode::Off
}

pub fn should_log_debug(mode: LoggingMode) -> (r: bool)
    ensures
        r == (mode == LoggingMode::Debug),
{
    mode == LoggingMode::Debug
}

/// A buffered log line and its sequence number.
#[derive(Debug)]
pub struct LogLine {
    pub seq: u64,
    pub text: String,
}

impl LogLine {
    pub fn copy(&self) -> (r: LogLine)
        ensures
            r == *self,
    {
        LogLine { seq: self.seq, text: self.text.clone() }
    }
}

/// Result of an incremental tail request.
#[derive(Debug)]
pub struct LogTail {
    pub lines: Vec<LogLine>,
    /// Highest sequence known, even when no line was returned.
    pub last_seq: u64,
    /// The caller's `after_seq` predates the retained window: some lines
    /// scrolled out before they could be delivered.
    pub dropped: bool,
}

/// The ring buffer and the sequence counter of the lines appended so far.
pub struct LogBuffer {
    pub lines: VecDeque<LogLine>,
    pub seq: u64,
}

/// Lines of `ls` with a sequence number above `after`, in order.
pub open spec fn newer(ls: Seq<LogLine>, after: int) -> Seq<LogLine>
    decreases ls.len(),
{
    if ls.len() == 0 {
        Seq::empty()
    } else {
        let prev = newer(ls.drop_last(), after);
        if ls.last().seq > after {
            prev.push(ls.last())
        } else {
            prev
        }
    }
}

/// The last `n` elements of `s` (all of them when there are fewer).
pub open spec fn keep_last<T>(s: Seq<T>, n: int) -> Seq<T> {
    if s.len() > n {
        s.subrange(s.len() - n, s.len() as int)
    } else {
        s
    }
}

pub open spec fn clamp_max(max: int) -> int {
    if max < 1 {
        1
    } else if max > LOG_BUFFER_MAX_LINES {
        LOG_BUFFER_MAX_LINES as int
    } else {
        max
    }
}

/// What a tail request returns for the retained lines `ls`.
pub open spec fn tail_spec(ls: Seq<LogLine>, after_seq: Option<u64>, max: int) -> (
    Seq<LogLine>,
    u64,
    bool,
) {
    let last_seq: u64 = if ls.len() > 0 { ls.last().seq } else { 0 };
    let earliest: u64 = if ls.len() > 0 { ls[0].seq } else { 0 };
    let after: u64 = match after_seq { Some(a) => a, None => 0 };
    let dropped = after_seq is Some && earliest > 0 && after + 1 < earliest;
    (keep_last(newer(ls, after as int), clamp_max(max)), last_seq, dropped)
}

/// The retained lines after appending `text` as line number `seq`: the
/// oldest line scrolls out when the buffer is full.
pub open spec fn append_spec(ls: Seq<LogLine>, seq: u64, text: String) -> Seq<LogLine> {
    (if ls.len() >= LOG_BUFFER_MAX_LINES {
        ls.drop_first()
    } else {
        ls
    }).push(LogLine { seq, text })
}

/// The retained lines after appending `texts` in order to a buffer whose
/// counter stood at `seq`.
pub open spec fn append_all(ls: Seq<LogLine>, seq: u64, texts: Seq<String>) -> Seq<LogLine>
    decreases texts.len(),
{
    if texts.len() == 0 {
        ls
    } else {
        append_spec(append_all(ls, seq, texts.drop_last()), (seq + texts.len()) as u64, texts.last())
    }
}

/// Every line of the snapshot export followed by a newline.
pub open spec fn snapshot_spec(ls: Seq<LogLine>) -> Seq<char>
    decreases ls.len(),
{
    if ls.len() == 0 {
        Seq::empty()
    } else {
        snapshot_spec(ls.drop_last()) + ls.last().text@ + "\n"@
    }
}

impl LogBuffer {
    /// Retained lines are at most the cap and carry consecutive sequence
    /// numbers ending at the counter.
    pub open spec fn wf(&self) -> bool {
        &&& self.lines@.len() <= LOG_BUFFER_MAX_LINES
        &&& self.lines@.len() <= self.seq
        &&& (self.lines@.len() == 0 ==> self.seq == 0)
        &&& forall|i: int|
            0 <= i < self.lines@.len() ==> (#[trigger] self.lines@[i]).seq == self.seq
                - self.lines@.len() + 1 + i
    }

    pub fn new() -> (r: LogBuffer)
        ensures
            r.wf(),
            r.lines@.len() == 0,
            r.seq == 0,
    {
        LogBuffer { lines: VecDeque::new(), seq: 0 }
    }

    /// Append a line: it gets the next sequence number and the oldest line
    /// scrolls out when the buffer is full. Returns the line's number.
    pub fn append_log_line(&mut self, line: String) -> (r: u64)
        requires
            old(self).wf(),
            old(self).seq < u64::MAX,
        ensures
            final(self).wf(),
            r == old(self).seq + 1,
            final(self).seq == r,
            final(self).lines@ == append_spec(old(self).lines@, r, line),
    {
        let seq = self.seq + 1;
        if self.lines.len() >= LOG_BUFFER_MAX_LINES {
            self.lines.pop_front();
        }
        self.lines.push_back(LogLine { seq, text: line });
        self.seq = seq;
        seq
    }

    /// Retained lines with `seq > after_seq`, at most `max` (clamped to
    /// `1..=LOG_BUFFER_MAX_LINES`), most recent kept.
    pub fn tail_logs(&self, after_seq: Option<u64>, max: usize) -> (r: LogTail)
        requires
            self.wf(),
        ensures
            (r.lines@, r.last_seq, r.dropped) == tail_spec(self.lines@, after_seq, max as int),
    {
        let max = if max < 1 {
            1
        } else if max > LOG_BUFFER_MAX_LINES {
            LOG_BUFFER_MAX_LINES
        } else {
            max
        };
        let n = self.lines.len();
        let last_seq: u64 = if n > 0 { self.lines[n - 1].seq } else { 0 };
        let earliest: u64 = if n > 0 { self.lines[0].seq } else { 0 };
        let after: u64 = match after_seq { Some(a) => a, None => 0 };
        let dropped = after_seq.is_some() && earliest > 0 && after < earliest - 1;
        let mut picked: Vec<LogLine> = Vec::new();
        let mut i: usize = 0;
        while i < n
            invariant
                n == self.lines@.len(),
                i <= n,
                picked@ == newer(self.lines@.take(i as int), after as int),
            decreases n - i,
        {
            assert(self.lines@.take(i + 1).drop_last() =~= self.lines@.take(i as int));
            if self.lines[i].seq > after {
                let ghost old_picked = picked@;
                picked.push(self.lines[i].copy());
                assert(picked@ =~= old_picked.push(self.lines@[i as int]));
            }
            i += 1;
        }
        assert(self.lines@.take(n as int) =~= self.lines@);
        let mut lines: Vec<LogLine> = Vec::new();
        let start = if picked.len() > max { picked.len() - max } else { 0 };
        let mut j: usize = start;
        while j < picked.len()
            invariant
                start <= j <= picked@.len(),
                lines@ == picked@.subrange(start as int, j as int),
            decreases picked.len() - j,
        {
            let ghost old_lines = lines@;
            lines.push(picked[j].copy());
            assert(lines@ =~= picked@.subrange(start as int, j + 1));
            j += 1;
        }
        assert(picked@.subrange(0, picked@.len() as int) =~= picked@);
        LogTail { lines, last_seq, dropped }
    }

    /// Text of an export: every retained line followed by a newline.
    pub fn snapshot_text(&self) -> (r: String)
        ensures
            r@ == snapshot_spec(self.lines@),
    {
        let mut s = String::new();
        let mut i: usize = 0;
        while i < self.lines.len()
            invariant
                i <= self.lines@.len(),
                s@ == snapshot_spec(self.lines@.take(i as int)),
            decreases self.lines.len() - i,
        {
            assert(self.lines@.take(i + 1).drop_last() =~= self.lines@.take(i as int));
            s.append(self.lines[i].text.as_str());
            s.append("\n");
            i += 1;
        }
        assert(self.lines@.take(self.lines@.len() as int) =~= self.lines@);
        s
    }
}


/// Naming a mode by its UI string selects that mode again.
pub proof fn law_mode_name_roundtrip(m: LoggingMode)
    ensures
        parse_mode_spec(mode_name(m)) == Some(m),
{
    reveal_strlit("off");
    reveal_strlit("normal");
    reveal_strlit("debug");
    let n = mode_name(m);
    assert(!crate::text::is_ws(n[0]));
    assert(!crate::text::is_ws(n.last()));
    assert(trim(n) == n) by {
        assert(crate::text::trim_start(n) == n);
        assert(crate::text::trim_end(n) == n);
    }
    assert(lower(n) =~= n);
    assert("off"@[0] == 'o' && "normal"@[0] == 'n' && "debug"@[0] == 'd');
}

/// The atomic encoding of a mode decodes to the same mode.
pub proof fn law_mode_code_roundtrip(m: LoggingMode)
    ensures
        (if mode_code(m) == 0 {
            LoggingMode::Off
        } else if mode_code(m) == 2 {
            LoggingMode::Debug
        } else {
            LoggingMode::Normal
        }) == m,
{
}

proof fn lemma_newer_props(ls: Seq<LogLine>, after: int)
    ensures
        newer(ls, after).len() <= ls.len(),
        forall|i: int| 0 <= i < newer(ls, after).len() ==> (#[trigger] newer(ls, after)[i]).seq > after,
        forall|i: int| 0 <= i < newer(ls, after).len() ==> ls.contains(#[trigger] newer(ls, after)[i]),
        (forall|i: int| 0 <= i < ls.len() ==> (#[trigger] ls[i]).seq <= after) ==> newer(ls, after).len() == 0,
    decreases ls.len(),
{
    if ls.len() > 0 {
        lemma_newer_props(ls.drop_last(), after);
        let prev = newer(ls.drop_last(), after);
        assert forall|i: int| 0 <= i < newer(ls, after).len() implies ls.contains(#[trigger] newer(ls, after)[i]) by {
            if i < prev.len() {
                assert(newer(ls, after)[i] == prev[i]);
                let k = choose|k: int| 0 <= k < ls.drop_last().len() && ls.drop_last()[k] == prev[i];
                assert(ls[k] == prev[i]);
            } else {
                assert(newer(ls, after)[i] == ls[ls.len() - 1]);
            }
        }
        if forall|i: int| 0 <= i < ls.len() ==> (#[trigger] ls[i]).seq <= after {
            assert forall|i: int| 0 <= i < ls.drop_last().len() implies (#[trigger] ls.drop_last()[i]).seq <= after by {
                assert(ls.drop_last()[i] == ls[i]);
            }
            assert(ls[ls.len() - 1].seq <= after);
        }
    }
}

/// A tail returns only lines newer than the cursor, taken from the buffer,
/// at most the clamped maximum of them, none newer than the reported
/// `last_seq`.
pub proof fn law_tail_bounds(b: LogBuffer, after_seq: Option<u64>, max: int)
    requires
        b.wf(),
    ensures
        ({
            let (lines, last_seq, dropped) = tail_spec(b.lines@, after_seq, max);
            let after: int = match after_seq { Some(a) => a as int, None => 0 };
            &&& lines.len() <= clamp_max(max)
            &&& forall|i: int| 0 <= i < lines.len() ==> (#[trigger] lines[i]).seq > after
            &&& forall|i: int| 0 <= i < lines.len() ==> (#[trigger] lines[i]).seq <= last_seq
            &&& forall|i: int| 0 <= i < lines.len() ==> b.lines@.contains(#[trigger] lines[i])
        }),
{
    let after: int = match after_seq { Some(a) => a as int, None => 0 };
    lemma_newer_props(b.lines@, after);
    let nw = newer(b.lines@, after);
    let (lines, last_seq, dropped) = tail_spec(b.lines@, after_seq, max);
    assert forall|i: int| 0 <= i < lines.len() implies (#[trigger] lines[i]).seq > after && b.lines@.contains(lines[i]) && lines[i].seq <= last_seq by {
        if nw.len() > clamp_max(max) {
            assert(lines[i] == nw[nw.len() - clamp_max(max) + i]);
        } else {
            assert(lines[i] == nw[i]);
        }
        let k = choose|k: int| 0 <= k < b.lines@.len() && b.lines@[k] == lines[i];
        assert(b.lines@[k].seq <= b.lines@.last().seq);
    }
}

/// Reading right after a write: tailing from just before the number an
/// append returned yields exactly the appended line.
pub proof fn law_tail_reads_back_append(before: LogBuffer, after: LogBuffer, text: String, r: u64)
    requires
        before.wf(),
        before.seq < u64::MAX,
        r == before.seq + 1,
        after.seq == r,
        after.lines@ == append_spec(before.lines@, r, text),
    ensures
        tail_spec(after.lines@, Some((r - 1) as u64), 1).0 == seq![LogLine { seq: r, text }],
{
    let ls = after.lines@;
    let kept = if before.lines@.len() >= LOG_BUFFER_MAX_LINES {
        before.lines@.drop_first()
    } else {
        before.lines@
    };
    assert(ls.drop_last() == kept);
    lemma_newer_props(kept, r - 1);
    assert forall|i: int| 0 <= i < kept.len() implies (#[trigger] kept[i]).seq <= r - 1 by {
        if before.lines@.len() >= LOG_BUFFER_MAX_LINES {
            assert(kept[i] == before.lines@[i + 1]);
        } else {
            assert(kept[i] == before.lines@[i]);
        }
    }
    assert(newer(ls, r - 1) =~= seq![LogLine { seq: r, text }]);
}

/// Lines numbered consecutively from `base`.
pub open spec fn numbered_from(ls: Seq<LogLine>, base: int) -> bool {
    forall|i: int| 0 <= i < ls.len() ==> (#[trigger] ls[i]).seq == base + i
}

proof fn lemma_newer_numbered(ls: Seq<LogLine>, base: int, after: int)
    requires
        numbered_from(ls, base),
    ensures
        newer(ls, after) == ls.subrange(
            if after < base {
                0
            } else if after - base + 1 > ls.len() {
                ls.len() as int
            } else {
                after - base + 1
            },
            ls.len() as int,
        ),
    decreases ls.len(),
{
    if ls.len() > 0 {
        let prev = ls.drop_last();
        assert(numbered_from(prev, base)) by {
            assert forall|i: int| 0 <= i < prev.len() implies (#[trigger] prev[i]).seq == base + i by {
                assert(prev[i] == ls[i]);
            }
        }
        lemma_newer_numbered(prev, base, after);
        let cut = if after < base {
            0
        } else if after - base + 1 > ls.len() {
            ls.len() as int
        } else {
            after - base + 1
        };
        assert(ls[ls.len() - 1].seq == base + ls.len() - 1);
        if ls.last().seq > after {
            assert(ls.subrange(cut, ls.len() as int) =~= prev.subrange(cut, prev.len() as int).push(ls.last()));
        } else {
            assert(ls.subrange(cut, ls.len() as int) =~= Seq::<LogLine>::empty());
            assert(prev.subrange(prev.len() as int, prev.len() as int) =~= Seq::<LogLine>::empty());
        }
    }
}

proof fn lemma_append_all_shape(ls: Seq<LogLine>, seq: u64, texts: Seq<String>)
    requires
        ls.len() <= LOG_BUFFER_MAX_LINES,
        ls.len() <= seq,
        numbered_from(ls, seq - ls.len() + 1),
        texts.len() <= LOG_BUFFER_MAX_LINES,
        seq + texts.len() <= u64::MAX,
    ensures
        ({
            let out = append_all(ls, seq, texts);
            &&& out.len() == (if ls.len() + texts.len() > LOG_BUFFER_MAX_LINES {
                LOG_BUFFER_MAX_LINES as int
            } else {
                (ls.len() + texts.len()) as int
            })
            &&& numbered_from(out, seq + texts.len() - out.len() + 1)
            &&& forall|i: int|
                0 <= i < texts.len() ==> #[trigger] out[out.len() - texts.len() + i] == LogLine {
                    seq: (seq + 1 + i) as u64,
                    text: texts[i],
                }
        }),
    decreases texts.len(),
{
    if texts.len() > 0 {
        let k = texts.len() as int;
        let front = texts.drop_last();
        lemma_append_all_shape(ls, seq, front);
        let prev = append_all(ls, seq, front);
        let out = append_all(ls, seq, texts);
        let base = seq + k - 1 - prev.len() + 1;
        let kept = if prev.len() >= LOG_BUFFER_MAX_LINES { prev.drop_first() } else { prev };
        let kbase = if prev.len() >= LOG_BUFFER_MAX_LINES { base + 1 } else { base };
        assert(numbered_from(kept, kbase)) by {
            assert forall|i: int| 0 <= i < kept.len() implies (#[trigger] kept[i]).seq == kbase + i by {
                if prev.len() >= LOG_BUFFER_MAX_LINES {
                    assert(kept[i] == prev[i + 1]);
                } else {
                    assert(kept[i] == prev[i]);
                }
            }
        }
        assert(out == kept.push(LogLine { seq: (seq + k) as u64, text: texts.last() }));
        assert forall|i: int| 0 <= i < out.len() implies (#[trigger] out[i]).seq == seq + k - out.len() + 1 + i by {
            if i < kept.len() {
                assert(out[i] == kept[i]);
            }
        }
        assert forall|i: int| 0 <= i < k implies #[trigger] out[out.len() - k + i] == LogLine {
            seq: (seq + 1 + i) as u64,
            text: texts[i],
        } by {
            if i < k - 1 {
                assert(front[i] == texts[i]);
                let j = prev.len() - (k - 1) + i;
                assert(prev[j] == LogLine { seq: (seq + 1 + i) as u64, text: front[i] });
                if prev.len() >= LOG_BUFFER_MAX_LINES {
                    assert(kept[j - 1] == prev[j]);
                    assert(out[j - 1] == kept[j - 1]);
                } else {
                    assert(out[j] == kept[j]);
                }
            }
        }
    }
}

/// Polling picks up exactly what was appended since: after `texts` are
/// appended one by one, a tail from the `last_seq` of an earlier tail
/// returns those lines in order, numbered on from that `last_seq`, reports
/// the counter moved on by their count, and drops nothing, as long as the
/// request's maximum covers them.
pub proof fn law_tail_after_appends(
    b: LogBuffer,
    first_after: Option<u64>,
    first_max: int,
    texts: Seq<String>,
    max: int,
)
    requires
        b.wf(),
        b.seq + texts.len() <= u64::MAX,
        texts.len() <= clamp_max(max),
    ensures
        ({
            let t1 = tail_spec(b.lines@, first_after, first_max);
            let t2 = tail_spec(append_all(b.lines@, b.seq, texts), Some(t1.1), max);
            &&& t2.0.len() == texts.len()
            &&& forall|i: int|
                0 <= i < texts.len() ==> #[trigger] t2.0[i] == LogLine {
                    seq: (t1.1 + 1 + i) as u64,
                    text: texts[i],
                }
            &&& t2.1 == t1.1 + texts.len()
            &&& !t2.2
        }),
{
    let ls = b.lines@;
    let k = texts.len() as int;
    let t1 = tail_spec(ls, first_after, first_max);
    if ls.len() > 0 {
        assert(ls[ls.len() - 1].seq == b.seq);
    }
    assert(t1.1 == b.seq);
    assert(numbered_from(ls, b.seq - ls.len() + 1)) by {
        assert forall|i: int| 0 <= i < ls.len() implies (#[trigger] ls[i]).seq == b.seq - ls.len() + 1 + i by {}
    }
    lemma_append_all_shape(ls, b.seq, texts);
    let out = append_all(ls, b.seq, texts);
    let base = b.seq + k - out.len() + 1;
    lemma_newer_numbered(out, base, b.seq as int);
    let nw = newer(out, b.seq as int);
    assert(nw == out.subrange(out.len() - k, out.len() as int));
    let t2 = tail_spec(out, Some(t1.1), max);
    assert(t2.0 == nw);
    assert forall|i: int| 0 <= i < k implies #[trigger] t2.0[i] == LogLine {
        seq: (t1.1 + 1 + i) as u64,
        text: texts[i],
    } by {
        assert(t2.0[i] == out[out.len() - k + i]);
    }
    if out.len() > 0 {
        assert(out[out.len() - 1].seq == b.seq + k);
        assert(out[0].seq == base);
    }
}

/// A tail returns the most recent lines newer than the cursor: of the
/// retained lines numbered above `after_seq` (all of them for `None`), the
/// last `clamp_max(max)` ones, which end at the newest line; `last_seq` is
/// the counter.
pub proof fn law_tail_keeps_most_recent(b: LogBuffer, after_seq: Option<u64>, max: int)
    requires
        b.wf(),
    ensures
        ({
            let (lines, last_seq, dropped) = tail_spec(b.lines@, after_seq, max);
            let len = b.lines@.len() as int;
            let after: int = match after_seq { Some(a) => a as int, None => 0 };
            let newer_count: int = if after >= b.seq {
                0
            } else if b.seq - after > len {
                len
            } else {
                b.seq - after
            };
            let shown: int = if newer_count > clamp_max(max) { clamp_max(max) } else { newer_count };
            &&& last_seq == b.seq
            &&& lines == b.lines@.subrange(len - shown, len)
            &&& forall|i: int| 0 <= i < lines.len() ==> (#[trigger] lines[i]).seq == b.seq - shown + 1 + i
        }),
{
    let ls = b.lines@;
    let len = ls.len() as int;
    if len > 0 {
        assert(ls[len - 1].seq == b.seq);
    }
    let after: int = match after_seq { Some(a) => a as int, None => 0 };
    let base = b.seq - len + 1;
    assert(numbered_from(ls, base)) by {
        assert forall|i: int| 0 <= i < ls.len() implies (#[trigger] ls[i]).seq == base + i by {}
    }
    lemma_newer_numbered(ls, base, after);
    let nw = newer(ls, after);
    let cut = if after < base {
        0
    } else if after - base + 1 > len {
        len
    } else {
        after - base + 1
    };
    assert(nw == ls.subrange(cut, len));
    let newer_count: int = if after >= b.seq {
        0
    } else if b.seq - after > len {
        len
    } else {
        b.seq - after
    };
    assert(len - cut == newer_count);
    let shown: int = if newer_count > clamp_max(max) { clamp_max(max) } else { newer_count };
    let (lines, last_seq, dropped) = tail_spec(ls, after_seq, max);
    assert(lines =~= ls.subrange(len - shown, len));
    assert forall|i: int| 0 <= i < lines.len() implies (#[trigger] lines[i]).seq == b.seq - shown + 1 + i by {
        assert(lines[i] == ls[len - shown + i]);
    }
}

/// Milliseconds as three digits, zero-padded (`{:03}`).
pub open spec fn millis3(ms: nat) -> Seq<char> {
    if ms < 10 {
        "00"@ + decimal(ms)
    } else if ms < 100 {
        "0"@ + decimal(ms)
    } else {
        decimal(ms)
    }
}

fn push_millis3(out: &mut String, ms: u32)
    requires
        ms < 1000,
    ensures
        final(out)@ == old(out)@ + millis3(ms as nat),
{
    if ms < 10 {
        out.append("00");
    } else if ms < 100 {
        out.append("0");
    }
    push_u64(out, ms as u64);
}

/// The local timestamp of a log line. `date` is the local date and time
/// (`%Y-%m-%d %H:%M:%S`) and `tz` the UTC offset (`%z`), each when the
/// platform could render it: without a date the Unix seconds stand in, and
/// the offset is left out when it is unknown.
pub open spec fn timestamp_spec(secs: u64, millis: u32, date: Option<Seq<char>>, tz: Option<Seq<char>>) -> Seq<
    char,
> {
    match date {
        None => decimal(secs as nat) + "."@ + millis3(millis as nat),
        Some(d) => match tz {
            None => d + "."@ + millis3(millis as nat),
            Some(z) => d + "."@ + millis3(millis as nat) + " "@ + z,
        },
    }
}

pub fn assemble_log_timestamp(secs: u64, millis: u32, date: Option<&str>, tz: Option<&str>) -> (r: String)
    requires
        millis < 1000,
    ensures
        r@ == timestamp_spec(
            secs,
            millis,
            match date {
                Some(d) => Some(d@),
                None => None,
            },
            match tz {
                Some(z) => Some(z@),
                None => None,
            },
        ),
{
    let mut out = String::new();
    match date {
        None => {
            push_u64(&mut out, secs);
            out.append(".");
            push_millis3(&mut out, millis);
        },
        Some(d) => {
            out.append(d);
            out.append(".");
            push_millis3(&mut out, millis);
            if let Some(z) = tz {
                out.append(" ");
                out.append(z);
            }
        },
    }
    out
}

/// A log line: the bracketed timestamp, then the message when there is one.
pub fn format_log_line(ts: &str, message: Option<&str>) -> (r: String)
    ensures
        r@ == "["@ + ts@ + "]"@ + match message {
            Some(m) => " "@ + m@,
            None => Seq::empty(),
        },
{
    let s = String::from_str("[").concat(ts).concat("]");
    match message {
        Some(m) => s.concat(" ").concat(m),
        None => s,
    }
}

} // verus!
