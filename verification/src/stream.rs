use vstd::prelude::*;

use crate::text::has_byte_substring;
use crate::text::vec_has_substring;

verus! {

// ---------------------------------------------------------------------------
// Splitting a byte stream into lines
//
// A remote command channel delivers stdout and stderr as arbitrary chunks of
// bytes.  The streaming contract is line-buffered: a line is emitted to the
// sink as soon as its terminating line feed is observed, however the chunks
// were cut.  The functions below model that splitting.
// ---------------------------------------------------------------------------

/// Index of the first line feed in `s`, or `s.len()` when there is none.
pub open spec fn line_break_at(s: Seq<u8>) -> nat
    decreases s.len(),
{
    if s.len() == 0 {
        0
    } else if s[0] == 10 {
        0
    } else {
        1 + line_break_at(s.skip(1))
    }
}

/// The complete (line-feed-terminated) lines of `s`, in order, without their
/// terminators.
pub open spec fn complete_lines(s: Seq<u8>) -> Seq<Seq<u8>>
    decreases s.len(),
{
    let i = line_break_at(s);
    if i >= s.len() {
        Seq::empty()
    } else {
        seq![s.take(i as int)] + complete_lines(s.skip(i as int + 1))
    }
}

/// The bytes of `s` after its last line feed: the still-unterminated tail.
pub open spec fn line_rest(s: Seq<u8>) -> Seq<u8>
    decreases s.len(),
{
    let i = line_break_at(s);
    if i >= s.len() {
        s
    } else {
        line_rest(s.skip(i as int + 1))
    }
}

pub proof fn lemma_line_break_at(s: Seq<u8>)
    ensures
        line_break_at(s) <= s.len(),
        forall|j: int| 0 <= j < line_break_at(s) ==> s[j] != 10,
        line_break_at(s) < s.len() ==> s[line_break_at(s) as int] == 10,
    decreases s.len(),
{
    if s.len() == 0 {
    } else if s[0] == 10 {
    } else {
        lemma_line_break_at(s.skip(1));
        assert forall|j: int| 0 <= j < line_break_at(s) implies s[j] != 10 by {
            if j > 0 {
                assert(s.skip(1)[j - 1] == s[j]);
            }
        }
        if line_break_at(s) < s.len() {
            assert(s.skip(1)[line_break_at(s) - 1] == s[line_break_at(s) as int]);
        }
    }
}

/// A sequence without a line feed has no complete line and is all tail.
pub proof fn lemma_no_break(s: Seq<u8>)
    requires
        forall|j: int| 0 <= j < s.len() ==> s[j] != 10,
    ensures
        line_break_at(s) == s.len(),
        complete_lines(s) == Seq::<Seq<u8>>::empty(),
        line_rest(s) == s,
    decreases s.len(),
{
    if s.len() > 0 {
        assert forall|j: int| 0 <= j < s.skip(1).len() implies s.skip(1)[j] != 10 by {
            assert(s.skip(1)[j] == s[j + 1]);
        }
        lemma_no_break(s.skip(1));
    }
}

pub proof fn lemma_line_break_at_append(s: Seq<u8>, t: Seq<u8>)
    ensures
        line_break_at(s) < s.len() ==> line_break_at(s + t) == line_break_at(s),
        line_break_at(s) >= s.len() ==> line_break_at(s + t) == s.len() + line_break_at(t),
    decreases s.len(),
{
    lemma_line_break_at(s);
    if s.len() == 0 {
        assert(s + t =~= t);
    } else if s[0] == 10 {
        assert((s + t)[0] == 10);
    } else {
        lemma_line_break_at_append(s.skip(1), t);
        assert((s + t).skip(1) =~= s.skip(1) + t);
        assert((s + t)[0] == s[0]);
    }
}

/// Chunk-boundary independence: processing a stream in two pieces
/// yields the same complete lines and the same tail as processing it whole.
/// Feeding a stream chunk by chunk therefore delivers exactly the lines of
/// the concatenated stream, in order, none duplicated and none dropped,
/// however the chunks were cut.
pub proof fn lemma_lines_split(a: Seq<u8>, b: Seq<u8>)
    ensures
        complete_lines(a + b) == complete_lines(a) + complete_lines(line_rest(a) + b),
        line_rest(a + b) == line_rest(line_rest(a) + b),
    decreases a.len(),
{
    let i = line_break_at(a);
    lemma_line_break_at(a);
    lemma_line_break_at_append(a, b);
    if i >= a.len() {
        assert(line_rest(a) + b =~= a + b);
        assert(Seq::<Seq<u8>>::empty() + complete_lines(a + b) =~= complete_lines(a + b));
    } else {
        assert((a + b).take(i as int) =~= a.take(i as int));
        assert((a + b).skip(i as int + 1) =~= a.skip(i as int + 1) + b);
        lemma_lines_split(a.skip(i as int + 1), b);
        assert(complete_lines(a + b) =~= complete_lines(a) + complete_lines(line_rest(a) + b));
    }
}

/// The whole stream: the chunks in arrival order, concatenated.
pub open spec fn concat_chunks(chunks: Seq<Seq<u8>>) -> Seq<u8>
    decreases chunks.len(),
{
    if chunks.len() == 0 {
        Seq::empty()
    } else {
        concat_chunks(chunks.drop_last()) + chunks.last()
    }
}

/// The lines emitted when the chunks are fed, in order, into a fresh line
/// buffer.
pub open spec fn fed_lines(chunks: Seq<Seq<u8>>) -> Seq<Seq<u8>>
    decreases chunks.len(),
{
    if chunks.len() == 0 {
        Seq::empty()
    } else {
        fed_lines(chunks.drop_last()) + complete_lines(
            fed_rest(chunks.drop_last()) + chunks.last(),
        )
    }
}

/// The bytes still buffered after the chunks have been fed, in order, into a
/// fresh line buffer.
pub open spec fn fed_rest(chunks: Seq<Seq<u8>>) -> Seq<u8>
    decreases chunks.len(),
{
    if chunks.len() == 0 {
        Seq::empty()
    } else {
        line_rest(fed_rest(chunks.drop_last()) + chunks.last())
    }
}

/// The chunk-independence law over a whole delivery: however a stream was
/// cut into chunks, feeding them in order emits exactly the lines of the
/// concatenated stream, in order, and buffers exactly its unterminated
/// tail.
pub proof fn lemma_chunked_feeding(chunks: Seq<Seq<u8>>)
    ensures
        fed_lines(chunks) == complete_lines(concat_chunks(chunks)),
        fed_rest(chunks) == line_rest(concat_chunks(chunks)),
    decreases chunks.len(),
{
    if chunks.len() == 0 {
        lemma_no_break(Seq::empty());
    } else {
        lemma_chunked_feeding(chunks.drop_last());
        lemma_lines_split(concat_chunks(chunks.drop_last()), chunks.last());
    }
}

// ---------------------------------------------------------------------------
// Rendering one line for the sink
// ---------------------------------------------------------------------------

/// The filesystem-metadata marker: a line mentioning this name is noise and
/// is suppressed from the sink (though still drained from the stream).
pub open spec fn noise_marker() -> Seq<u8> {
    seq![46u8, 68u8, 83u8, 95u8, 83u8, 116u8, 111u8, 114u8, 101u8]
}

fn noise_marker_bytes() -> (v: Vec<u8>)
    ensures
        v@ == noise_marker(),
{
    let mut v: Vec<u8> = Vec::new();
    v.push(46);
    v.push(68);
    v.push(83);
    v.push(95);
    v.push(83);
    v.push(116);
    v.push(111);
    v.push(114);
    v.push(101);
    proof {
        assert(v@ =~= noise_marker());
    }
    v
}

/// `l` with every trailing carriage return and line feed removed.
pub open spec fn strip_line_ends(l: Seq<u8>) -> Seq<u8>
    decreases l.len(),
{
    if l.len() > 0 && (l.last() == 10 || l.last() == 13) {
        strip_line_ends(l.drop_last())
    } else {
        l
    }
}

/// What one raw line becomes at the sink: `None` when, after trimming line
/// terminators, it is empty or contains the noise marker; otherwise the
/// trimmed line.
pub open spec fn rendered_line(l: Seq<u8>) -> Option<Seq<u8>> {
    let t = strip_line_ends(l);
    if t.len() == 0 {
        None
    } else if has_byte_substring(t, noise_marker()) {
        None
    } else {
        Some(t)
    }
}

/// The lines a whole stream of raw lines delivers to its sink, in order.
pub open spec fn delivered_lines(ls: Seq<Seq<u8>>) -> Seq<Seq<u8>>
    decreases ls.len(),
{
    if ls.len() == 0 {
        Seq::empty()
    } else {
        let rest = delivered_lines(ls.drop_first());
        match rendered_line(ls.first()) {
            Some(t) => seq![t] + rest,
            None => rest,
        }
    }
}

/// Noise filtering: a line whose trimmed content contains the
/// filesystem-metadata marker is never delivered to the sink.
pub proof fn lemma_noise_suppressed(l: Seq<u8>)
    requires
        has_byte_substring(strip_line_ends(l), noise_marker()),
    ensures
        rendered_line(l) is None,
{
}

fn copy_range(v: &Vec<u8>, start: usize, end: usize) -> (r: Vec<u8>)
    requires
        start <= end <= v@.len(),
    ensures
        r@ == v@.subrange(start as int, end as int),
{
    let mut r: Vec<u8> = Vec::new();
    let mut k: usize = start;
    while k < end
        invariant
            start <= k <= end <= v@.len(),
            r@ == v@.subrange(start as int, k as int),
        decreases end - k,
    {
        r.push(v[k]);
        proof {
            assert(v@.subrange(start as int, k + 1) =~= v@.subrange(start as int, k as int).push(
                v@[k as int],
            ));
        }
        k += 1;
    }
    r
}

/// Decides what one raw line contributes to the sink.
pub fn render_line(line: &Vec<u8>) -> (r: Option<Vec<u8>>)
    ensures
        r is Some <==> rendered_line(line@) is Some,
        r matches Some(v) ==> rendered_line(line@) == Some(v@),
{
    let mut end = line.len();
    proof {
        assert(line@.take(end as int) =~= line@);
    }
    while end > 0 && (line[end - 1] == 10 || line[end - 1] == 13)
        invariant
            end <= line@.len(),
            strip_line_ends(line@) == strip_line_ends(line@.take(end as int)),
        decreases end,
    {
        proof {
            assert(line@.take(end as int).drop_last() =~= line@.take(end - 1));
        }
        end -= 1;
    }
    proof {
        if end > 0 {
            assert(line@.take(end as int).last() == line@[end - 1]);
        } else {
            assert(line@.take(0) =~= Seq::<u8>::empty());
        }
        assert(strip_line_ends(line@) == line@.take(end as int));
    }
    if end == 0 {
        return None;
    }
    let t = copy_range(line, 0, end);
    proof {
        assert(line@.subrange(0, end as int) =~= line@.take(end as int));
    }
    let marker = noise_marker_bytes();
    if vec_has_substring(&t, &marker) {
        None
    } else {
        Some(t)
    }
}

/// Renders a batch of raw lines, keeping exactly those the sink receives, in
/// order.
pub fn render_lines(lines: &Vec<Vec<u8>>) -> (out: Vec<Vec<u8>>)
    ensures
        out@.map_values(|l: Vec<u8>| l@) == delivered_lines(lines@.map_values(|l: Vec<u8>| l@)),
{
    let ghost lv = lines@.map_values(|l: Vec<u8>| l@);
    let mut out: Vec<Vec<u8>> = Vec::new();
    let n = lines.len();
    let mut i: usize = 0;
    proof {
        assert(lv.skip(0) =~= lv);
    }
    while i < n
        invariant
            n == lines@.len(),
            i <= n,
            lv == lines@.map_values(|l: Vec<u8>| l@),
            delivered_lines(lv) == out@.map_values(|l: Vec<u8>| l@) + delivered_lines(
                lv.skip(i as int),
            ),
        decreases n - i,
    {
        proof {
            assert(lv.skip(i as int).first() == lv[i as int]);
            assert(lv.skip(i as int).drop_first() =~= lv.skip(i + 1));
        }
        match render_line(&lines[i]) {
            Some(t) => {
                out.push(t);
                proof {
                    assert(out@.map_values(|l: Vec<u8>| l@) =~= out@.map_values(
                        |l: Vec<u8>| l@,
                    ).drop_last() + seq![out@.last()@]);
                    assert(delivered_lines(lv) =~= out@.map_values(|l: Vec<u8>| l@)
                        + delivered_lines(lv.skip(i + 1)));
                }
            },
            None => {
                proof {
                    assert(delivered_lines(lv) =~= out@.map_values(|l: Vec<u8>| l@)
                        + delivered_lines(lv.skip(i + 1)));
                }
            },
        }
        i += 1;
    }
    proof {
        assert(lv.skip(n as int) =~= Seq::<Seq<u8>>::empty());
        assert(out@.map_values(|l: Vec<u8>| l@) =~= delivered_lines(lv));
    }
    out
}

// ---------------------------------------------------------------------------
// The incremental line buffer
// ---------------------------------------------------------------------------

/// Line-buffers one byte stream of a command channel.  Bytes arrive in
/// arbitrary chunks; complete lines come out as soon as their line feed has
/// been seen, and the unterminated tail stays buffered.
pub struct LineBuffer {
    pending: Vec<u8>,
}

impl LineBuffer {
    /// The bytes received after the last line feed.
    pub closed spec fn buffered(&self) -> Seq<u8> {
        self.pending@
    }

    /// No line feed ever stays in the buffer.
    pub closed spec fn wf(&self) -> bool {
        forall|j: int| 0 <= j < self.pending@.len() ==> self.pending@[j] != 10
    }

    pub fn new() -> (r: LineBuffer)
        ensures
            r.wf(),
            r.buffered() == Seq::<u8>::empty(),
    {
        LineBuffer { pending: Vec::new() }
    }

    /// Consumes one chunk of the stream and returns the lines it completes,
    /// in order and without their terminating line feeds.
    pub fn feed(&mut self, chunk: &Vec<u8>) -> (lines: Vec<Vec<u8>>)
        requires
            old(self).wf(),
        ensures
            final(self).wf(),
            lines@.map_values(|l: Vec<u8>| l@) == complete_lines(old(self).buffered() + chunk@),
            final(self).buffered() == line_rest(old(self).buffered() + chunk@),
    {
        let ghost start: Seq<u8> = self.pending@;
        let mut lines: Vec<Vec<u8>> = Vec::new();
        let n = chunk.len();
        let mut i: usize = 0;
        proof {
            assert(start + chunk@.take(0) =~= start);
            lemma_no_break(start);
            assert(lines@.map_values(|l: Vec<u8>| l@) =~= complete_lines(start + chunk@.take(0)));
        }
        while i < n
            invariant
                n == chunk@.len(),
                i <= n,
                forall|j: int| 0 <= j < self.pending@.len() ==> self.pending@[j] != 10,
                lines@.map_values(|l: Vec<u8>| l@) == complete_lines(start + chunk@.take(i as int)),
                self.pending@ == line_rest(start + chunk@.take(i as int)),
            decreases n - i,
        {
            let b = chunk[i];
            let ghost cur = start + chunk@.take(i as int);
            proof {
                lemma_lines_split(cur, seq![b]);
                assert(start + chunk@.take(i + 1) =~= cur + seq![b]);
                lemma_no_break(self.pending@);
            }
            if b == 10 {
                proof {
                    let tail = self.pending@ + seq![b];
                    lemma_line_break_at_append(self.pending@, seq![b]);
                    assert(tail[self.pending@.len() as int] == 10);
                    assert(line_break_at(tail) == self.pending@.len());
                    assert(tail.take(self.pending@.len() as int) =~= self.pending@);
                    assert(tail.skip(self.pending@.len() as int + 1) =~= Seq::<u8>::empty());
                    lemma_no_break(Seq::<u8>::empty());
                    assert(complete_lines(tail) =~= seq![self.pending@]);
                    assert(line_rest(tail) =~= Seq::<u8>::empty());
                }
                let done = copy_range(&self.pending, 0, self.pending.len());
                proof {
                    assert(done@ =~= self.pending@);
                }
                self.pending.clear();
                lines.push(done);
                proof {
                    assert(lines@.map_values(|l: Vec<u8>| l@) =~= complete_lines(
                        start + chunk@.take(i + 1),
                    ));
                }
            } else {
                proof {
                    let tail = self.pending@ + seq![b];
                    assert(forall|j: int| 0 <= j < tail.len() ==> tail[j] != 10);
                    lemma_no_break(tail);
                    assert(complete_lines(cur + seq![b]) =~= complete_lines(cur) + Seq::<
                        Seq<u8>,
                    >::empty());
                    assert(complete_lines(cur + seq![b]) =~= complete_lines(cur));
                }
                self.pending.push(b);
                proof {
                    assert(lines@.map_values(|l: Vec<u8>| l@) =~= complete_lines(
                        start + chunk@.take(i + 1),
                    ));
                }
            }
            i += 1;
        }
        proof {
            assert(chunk@.take(n as int) =~= chunk@);
        }
        lines
    }

    /// Hands out the unterminated tail at end of stream, if any, leaving the
    /// buffer empty.
    pub fn take_rest(&mut self) -> (r: Option<Vec<u8>>)
        requires
            old(self).wf(),
        ensures
            final(self).wf(),
            final(self).buffered() == Seq::<u8>::empty(),
            old(self).buffered().len() == 0 <==> r is None,
            r matches Some(v) ==> v@ == old(self).buffered(),
    {
        if self.pending.len() == 0 {
            None
        } else {
            let v = copy_range(&self.pending, 0, self.pending.len());
            proof {
                assert(v@ =~= self.pending@);
            }
            self.pending.clear();
            Some(v)
        }
    }
}

} // verus!
