//! Incremental tailing of an append-only byte source. A cursor marks how
//! much of the file has been consumed; each read cycle emits every
//! complete line appended since the cursor, with its line terminator
//! stripped, and advances the cursor past the last complete line.
//! Not-yet-terminated trailing bytes stay unread until a later cycle
//! completes them: no line is ever emitted twice and no complete line is
//! ever skipped, however appends and read cycles interleave.

use vstd::prelude::*;

verus! {

/// A line with one trailing carriage return removed: the text of a line
/// terminated by either `\n` or `\r\n` is the same.
pub open spec fn strip_cr(l: Seq<u8>) -> Seq<u8> {
    if l.len() > 0 && l.last() == 13 {
        l.drop_last()
    } else {
        l
    }
}

/// Scan of a byte sequence into its complete lines (terminator
/// stripped, in order) and the unterminated trailing bytes.
pub open spec fn scan_lines(s: Seq<u8>) -> (Seq<Seq<u8>>, Seq<u8>)
    decreases s.len(),
{
    if s.len() == 0 {
        (seq![], seq![])
    } else {
        let p = scan_lines(s.drop_last());
        if s.last() == 10 {
            (p.0.push(strip_cr(p.1)), seq![])
        } else {
            (p.0, p.1.push(s.last()))
        }
    }
}

/// The complete lines of `s`, in file order, terminators stripped.
pub open spec fn complete_lines(s: Seq<u8>) -> Seq<Seq<u8>> {
    scan_lines(s).0
}

/// The trailing bytes of `s` after its last newline.
pub open spec fn partial_tail(s: Seq<u8>) -> Seq<u8> {
    scan_lines(s).1
}

/// How many leading bytes of `s` belong to complete lines: the index
/// just past the last newline.
pub open spec fn consumed(s: Seq<u8>) -> int {
    s.len() - partial_tail(s).len()
}

/// Every line of `s`, the unterminated last one included.
pub open spec fn all_lines(s: Seq<u8>) -> Seq<Seq<u8>> {
    if partial_tail(s).len() == 0 {
        complete_lines(s)
    } else {
        complete_lines(s).push(strip_cr(partial_tail(s)))
    }
}

/// The unterminated tail holds no newline and is no longer than its
/// source.
pub proof fn lemma_partial_no_nl(s: Seq<u8>)
    ensures
        !partial_tail(s).contains(10u8),
        partial_tail(s).len() <= s.len(),
    decreases s.len(),
{
    if s.len() > 0 {
        lemma_partial_no_nl(s.drop_last());
        if s.last() != 10 {
            let p = partial_tail(s.drop_last());
            assert forall|i: int| 0 <= i < partial_tail(s).len() implies partial_tail(s)[i]
                != 10u8 by {
                if i < p.len() {
                    assert(p[i] != 10u8);
                }
            }
        }
    }
}

/// Scanning newline-free bytes yields no lines and leaves them all as
/// the tail.
pub proof fn lemma_scan_no_nl(s: Seq<u8>)
    requires
        !s.contains(10u8),
    ensures
        complete_lines(s) == Seq::<Seq<u8>>::empty(),
        partial_tail(s) == s,
    decreases s.len(),
{
    if s.len() == 0 {
        assert(complete_lines(s) =~= Seq::<Seq<u8>>::empty());
        assert(partial_tail(s) =~= s);
    } else {
        assert(s[s.len() - 1] != 10u8);
        assert forall|i: int| 0 <= i < s.drop_last().len() implies s.drop_last()[i] != 10u8 by {
            assert(s[i] != 10u8);
        }
        lemma_scan_no_nl(s.drop_last());
        assert(partial_tail(s) =~= s);
    }
}

/// The unterminated tail is exactly the suffix of its source past the
/// consumed prefix.
pub proof fn lemma_partial_is_suffix(s: Seq<u8>)
    ensures
        0 <= consumed(s) <= s.len(),
        partial_tail(s) == s.skip(consumed(s)),
    decreases s.len(),
{
    lemma_partial_no_nl(s);
    if s.len() == 0 {
        assert(partial_tail(s) =~= s.skip(consumed(s)));
    } else {
        lemma_partial_is_suffix(s.drop_last());
        if s.last() == 10 {
            assert(partial_tail(s) =~= s.skip(consumed(s)));
        } else {
            assert(partial_tail(s) =~= s.skip(consumed(s)));
        }
    }
}

/// Scanning a concatenation: the lines of `a + b` are the lines of `a`
/// followed by the lines formed when `b` extends `a`'s unterminated
/// tail, and the new tail comes from that extension alone.
pub proof fn lemma_scan_append(a: Seq<u8>, b: Seq<u8>)
    ensures
        complete_lines(a + b) == complete_lines(a) + complete_lines(partial_tail(a) + b),
        partial_tail(a + b) == partial_tail(partial_tail(a) + b),
    decreases b.len(),
{
    if b.len() == 0 {
        lemma_partial_no_nl(a);
        lemma_scan_no_nl(partial_tail(a));
        assert(a + b =~= a);
        assert(partial_tail(a) + b =~= partial_tail(a));
        assert(complete_lines(a) + complete_lines(partial_tail(a) + b) =~= complete_lines(a + b));
    } else {
        let b0 = b.drop_last();
        let x = b.last();
        lemma_scan_append(a, b0);
        assert(a + b =~= (a + b0).push(x));
        assert(partial_tail(a) + b =~= (partial_tail(a) + b0).push(x));
        assert((a + b0).push(x).drop_last() =~= a + b0);
        assert((partial_tail(a) + b0).push(x).drop_last() =~= partial_tail(a) + b0);
        if x == 10 {
            assert(complete_lines(a + b) =~= complete_lines(a) + complete_lines(
                partial_tail(a) + b,
            ));
        } else {
            assert(partial_tail(a + b) =~= partial_tail(partial_tail(a) + b));
        }
    }
}

/// Re-running a read cycle when nothing has been appended emits zero
/// further lines and leaves the cursor where it was: the suffix past the
/// cursor holds no newline after a cycle, so a second cycle consumes
/// nothing.
pub proof fn lemma_tail_idempotent(s: Seq<u8>, c: int)
    requires
        0 <= c <= s.len(),
        !s.skip(c).contains(10u8),
    ensures
        complete_lines(s.skip(c)).len() == 0,
        consumed(s.skip(c)) == 0,
{
    lemma_scan_no_nl(s.skip(c));
}

/// No duplication and no loss across an append: one cycle before the
/// append and one after emit, together, exactly the complete lines of
/// the final content past the original cursor — each line once, in file
/// order — and leave the cursor where a single cycle over the final
/// content would have left it.
pub proof fn lemma_tail_no_dup_no_loss(s: Seq<u8>, t: Seq<u8>, c: int)
    requires
        0 <= c <= s.len(),
    ensures
        ({
            let first = s.skip(c);
            let c1 = c + consumed(first);
            let second = (s + t).skip(c1);
            &&& complete_lines(first) + complete_lines(second) == complete_lines(
                (s + t).skip(c),
            )
            &&& c1 + consumed(second) == c + consumed((s + t).skip(c))
        }),
{
    let first = s.skip(c);
    let c1 = c + consumed(first);
    let second = (s + t).skip(c1);
    lemma_partial_is_suffix(first);
    assert(second =~= partial_tail(first) + t);
    assert((s + t).skip(c) =~= first + t);
    lemma_scan_append(first, t);
}

/// The incremental tailer: a byte cursor into the watched file, moved
/// monotonically forward by read cycles, reset only by a fresh `start`.
pub struct Tailer {
    pub cursor: usize,
}

fn split_complete(content: &Vec<u8>, from: usize) -> (r: (Vec<Vec<u8>>, usize))
    requires
        from <= content@.len(),
    ensures
        ({
            let s0 = content@.skip(from as int);
            &&& r.1 == from + consumed(s0)
            &&& from <= r.1 <= content@.len()
            &&& r.0.deep_view() == complete_lines(s0)
            &&& content@.skip(r.1 as int) == partial_tail(s0)
            &&& !content@.skip(r.1 as int).contains(10u8)
        }),
{
    let ghost s0 = content@.skip(from as int);
    let mut lines: Vec<Vec<u8>> = Vec::new();
    let mut part: Vec<u8> = Vec::new();
    let mut j: usize = from;
    while j < content.len()
        invariant
            from <= j <= content@.len(),
            s0 == content@.skip(from as int),
            lines.deep_view() == complete_lines(s0.take(j - from)),
            part@ == partial_tail(s0.take(j - from)),
            part@.len() <= j - from,
        decreases content@.len() - j,
    {
        let ghost k = j - from;
        let ghost prev_lines = lines.deep_view();
        proof {
            assert(s0.take(k + 1).drop_last() =~= s0.take(k));
            assert(s0.take(k + 1).last() == content@[j as int]);
        }
        let b = content[j];
        if b == 10 {
            if part.len() > 0 && part[part.len() - 1] == 13 {
                part.pop();
            }
            proof {
                assert(part@ == strip_cr(partial_tail(s0.take(k))));
            }
            lines.push(part);
            part = Vec::new();
            proof {
                assert(lines.deep_view() =~~= prev_lines.push(
                    strip_cr(partial_tail(s0.take(k))),
                ));
                assert(part@ =~= partial_tail(s0.take(k + 1)));
            }
        } else {
            part.push(b);
        }
        j += 1;
    }
    proof {
        assert(s0.take(content@.len() - from) =~= s0);
    }
    let newc = content.len() - part.len();
    proof {
        lemma_partial_is_suffix(s0);
        lemma_partial_no_nl(s0);
        assert(newc == from + consumed(s0));
        assert(content@.skip(newc as int) =~= s0.skip(consumed(s0)));
    }
    (lines, newc)
}

impl Tailer {
    /// Opens the tail on a snapshot of the file. If asked to emit the
    /// existing content, every line currently present leaves in file
    /// order, an unterminated last line included; either way the cursor
    /// starts at the snapshot's end, so that later cycles see only what
    /// is appended after this point.
    pub fn start(content: &Vec<u8>, emit_existing: bool) -> (r: (Tailer, Vec<Vec<u8>>))
        ensures
            r.0.cursor == content@.len(),
            emit_existing ==> r.1.deep_view() == all_lines(content@),
            !emit_existing ==> r.1@.len() == 0,
    {
        if !emit_existing {
            return (Tailer { cursor: content.len() }, Vec::new());
        }
        let (mut lines, c) = split_complete(content, 0);
        proof {
            assert(content@.skip(0) =~= content@);
        }
        if c < content.len() {
            let ghost prev_lines = lines.deep_view();
            let mut partv: Vec<u8> = Vec::new();
            let mut j: usize = c;
            while j < content.len()
                invariant
                    c <= j <= content@.len(),
                    partv@ == content@.subrange(c as int, j as int),
                decreases content@.len() - j,
            {
                partv.push(content[j]);
                proof {
                    assert(partv@ =~= content@.subrange(c as int, j + 1));
                }
                j += 1;
            }
            proof {
                assert(partv@ =~= partial_tail(content@));
            }
            if partv.len() > 0 && partv[partv.len() - 1] == 13 {
                partv.pop();
            }
            proof {
                assert(partv@ == strip_cr(partial_tail(content@)));
            }
            lines.push(partv);
            proof {
                assert(lines.deep_view() =~~= prev_lines.push(strip_cr(partial_tail(content@))));
            }
        }
        (Tailer { cursor: content.len() }, lines)
    }

    /// One tail-read cycle over the file's current content: emits every
    /// complete line past the cursor, terminators stripped, in file
    /// order, and advances the cursor just past the last one. Trailing
    /// bytes not yet terminated stay for a later cycle; afterwards no
    /// newline stands past the cursor, so a cycle with nothing appended
    /// emits nothing. Content shorter than the cursor (a truncated
    /// file) is left alone until a fresh `start`.
    pub fn drain(&mut self, content: &Vec<u8>) -> (lines: Vec<Vec<u8>>)
        ensures
            old(self).cursor > content@.len() ==> *final(self) == *old(self) && lines@.len()
                == 0,
            old(self).cursor <= content@.len() ==> ({
                let s0 = content@.skip(old(self).cursor as int);
                &&& final(self).cursor == old(self).cursor + consumed(s0)
                &&& old(self).cursor <= final(self).cursor <= content@.len()
                &&& lines.deep_view() == complete_lines(s0)
                &&& content@.skip(final(self).cursor as int) == partial_tail(s0)
                &&& !content@.skip(final(self).cursor as int).contains(10u8)
            }),
    {
        if self.cursor > content.len() {
            return Vec::new();
        }
        let (lines, c) = split_complete(content, self.cursor);
        self.cursor = c;
        lines
    }
}

} // verus!
