//! Framing of record streams: the wire format is self-delimiting records,
//! concatenated with nothing between them. The framer cuts a byte stream,
//! fed in chunks, into the bytes of whole records; the end of the input is
//! clean only at a record boundary.
use vstd::prelude::*;
use vstd::slice::slice_subrange;

verus! {

/// What the record decoder finds at the front of some bytes.
#[derive(Clone, Copy, Debug, PartialEq, Eq, Structural)]
pub enum Scan {
    /// A whole record, after which this many bytes are left.
    Complete(usize),
    /// The bytes end inside a record.
    Incomplete,
    /// The bytes do not begin with a valid record.
    Invalid,
}

/// What ciborium's decoder finds at the front of some bytes.
pub uninterp spec fn cbor_scan(b: Seq<u8>) -> Scan;

/// Relies on `ciborium::de::from_reader`, reading one record from the front
/// of the bytes: on success it has read at least the record's first byte;
/// running out of bytes is reported as an I/O error, anything else as a
/// decoding error. The decoder reads the slice in order with exact-size
/// reads and never past the record, so bytes after a record do not change
/// what it finds, and any cut-off of the record runs out of bytes.
#[verifier::external_body]
fn scan_record(buf: &[u8]) -> (r: Scan)
    ensures
        r == cbor_scan(buf@),
        r matches Scan::Complete(rest) ==> rest < buf@.len(),
        r matches Scan::Complete(rest) ==> forall|y: Seq<u8>|
            buf@.len() + y.len() <= usize::MAX ==> #[trigger] cbor_scan(buf@ + y)
                == Scan::Complete((rest + y.len()) as usize),
        r matches Scan::Complete(rest) ==> forall|m: int|
            0 <= m < buf@.len() - rest ==> #[trigger] cbor_scan(buf@.subrange(0, m))
                == Scan::Incomplete,
{
    let mut rest: &[u8] = buf;
    match ciborium::de::from_reader::<ciborium::value::Value, _>(&mut rest) {
        Ok(_) => Scan::Complete(rest.len()),
        Err(ciborium::de::Error::Io(_)) => Scan::Incomplete,
        Err(_) => Scan::Invalid,
    }
}

/// Why a record stream stopped with an error.
#[derive(Clone, Copy, Debug, PartialEq, Eq, Structural)]
pub enum StreamError {
    /// Bytes that do not form a valid record.
    Malformed,
    /// The input ended inside a record.
    Truncated,
}

/// How far framing from `start` gets: the records found, the bytes left
/// after them, and whether those bytes are invalid.
pub struct Split {
    pub frames: Seq<Seq<u8>>,
    pub tail: Seq<u8>,
    pub failed: bool,
}

/// Frames `b` from position `start` on.
pub open spec fn split_from(b: Seq<u8>, start: nat) -> Split
    decreases b.len() - start,
{
    if start >= b.len() {
        Split { frames: seq![], tail: seq![], failed: false }
    } else {
        let rest = b.subrange(start as int, b.len() as int);
        match cbor_scan(rest) {
            Scan::Complete(left) => if left < rest.len() {
                let end = (b.len() - left) as nat;
                let s = split_from(b, end);
                Split {
                    frames: seq![b.subrange(start as int, end as int)] + s.frames,
                    tail: s.tail,
                    failed: s.failed,
                }
            } else {
                Split { frames: seq![], tail: rest, failed: true }
            },
            Scan::Incomplete => Split { frames: seq![], tail: rest, failed: false },
            Scan::Invalid => Split { frames: seq![], tail: rest, failed: true },
        }
    }
}

/// An item that framing hands out: a record's bytes, or the error that ends the stream.
pub type Item = Result<Vec<u8>, StreamError>;

/// An item's content.
pub open spec fn item_view(i: Item) -> Result<Seq<u8>, StreamError> {
    match i {
        Ok(v) => Ok(v@),
        Err(e) => Err(e),
    }
}

/// The records of a split, as items.
pub open spec fn ok_items(frames: Seq<Seq<u8>>) -> Seq<Result<Seq<u8>, StreamError>> {
    frames.map_values(|f: Seq<u8>| Ok::<Seq<u8>, StreamError>(f))
}

/// Everything the stream yields for the whole input `b` followed by its
/// end: the records in order, then one error if the bytes after them are
/// invalid or end inside a record, and nothing after that.
pub open spec fn stream_items(b: Seq<u8>) -> Seq<Result<Seq<u8>, StreamError>> {
    let s = split_from(b, 0);
    if s.failed {
        ok_items(s.frames).push(Err(StreamError::Malformed))
    } else if s.tail.len() > 0 {
        ok_items(s.frames).push(Err(StreamError::Truncated))
    } else {
        ok_items(s.frames)
    }
}

/// The bytes of several records, one after the other.
pub open spec fn concat(es: Seq<Seq<u8>>) -> Seq<u8>
    decreases es.len(),
{
    if es.len() == 0 {
        seq![]
    } else {
        es[0] + concat(es.drop_first())
    }
}

/// Whether `e` is the encoding of one record: it is not empty, the decoder
/// reads exactly `e` from the front of `e` followed by anything, and runs
/// out of bytes on every cut-off of `e`.
pub open spec fn whole_record(e: Seq<u8>) -> bool {
    &&& e.len() > 0
    &&& forall|r: Seq<u8>|
        e.len() + r.len() <= usize::MAX ==> #[trigger] cbor_scan(e + r) == Scan::Complete(
            r.len() as usize,
        )
    &&& forall|m: int| 0 <= m < e.len() ==> #[trigger] cbor_scan(e.subrange(0, m)) == Scan::Incomplete
}

/// Framing from `start` reads each whole record of `es` in turn when the
/// bytes from `start` on begin with their encodings.
proof fn lemma_split_records(b: Seq<u8>, start: nat, es: Seq<Seq<u8>>, t: Seq<u8>)
    requires
        b.len() <= usize::MAX,
        start <= b.len(),
        b.subrange(start as int, b.len() as int) == concat(es) + t,
        forall|i: int| 0 <= i < es.len() ==> whole_record(#[trigger] es[i]),
    ensures
        ({
            let after = split_from(b, start + concat(es).len());
            let s = split_from(b, start);
            &&& s.frames == es + after.frames
            &&& s.tail == after.tail
            &&& s.failed == after.failed
        }),
    decreases es.len(),
{
    if es.len() == 0 {
        assert(es + split_from(b, start).frames =~= split_from(b, start).frames);
    } else {
        let e = es[0];
        let more = es.drop_first();
        assert(whole_record(es[0]));
        let rest = b.subrange(start as int, b.len() as int);
        let r = concat(more) + t;
        assert(rest =~= e + r);
        assert(cbor_scan(e + r) == Scan::Complete(r.len() as usize));
        let end = start + e.len();
        assert(b.subrange(start as int, end as int) =~= e);
        assert(b.subrange(end as int, b.len() as int) =~= rest.subrange(
            e.len() as int,
            rest.len() as int,
        ));
        assert((e + r).subrange(e.len() as int, (e + r).len() as int) =~= r);
        assert(b.subrange(end as int, b.len() as int) =~= concat(more) + t);
        assert forall|i: int| 0 <= i < more.len() implies whole_record(#[trigger] more[i]) by {
            assert(more[i] == es[i + 1]);
        }
        lemma_split_records(b, end, more, t);
        assert(concat(es).len() == e.len() + concat(more).len());
        assert(es =~= seq![e] + more);
        assert(seq![e] + (more + split_from(b, end + concat(more).len()).frames) =~= es
            + split_from(b, end + concat(more).len()).frames);
    }
}

/// Streaming the concatenated encodings of whole records gives back those
/// records, in order and with no error; in particular the empty input
/// gives nothing.
pub proof fn lemma_stream_round_trip(es: Seq<Seq<u8>>)
    requires
        concat(es).len() <= usize::MAX,
        forall|i: int| 0 <= i < es.len() ==> whole_record(#[trigger] es[i]),
    ensures
        stream_items(concat(es)) == ok_items(es),
        stream_items(Seq::<u8>::empty()) == Seq::<Result<Seq<u8>, StreamError>>::empty(),
{
    let b = concat(es);
    assert(b.subrange(0, b.len() as int) =~= b + Seq::<u8>::empty());
    lemma_split_records(b, 0, es, Seq::<u8>::empty());
    assert(es + Seq::<Seq<u8>>::empty() =~= es);
    assert(ok_items(Seq::<Seq<u8>>::empty()) =~= Seq::<Result<Seq<u8>, StreamError>>::empty());
}

/// Streaming whole records followed by a non-empty proper prefix `p` of
/// one more record `w` gives those records and then exactly one
/// `Truncated` error.
pub proof fn lemma_stream_truncated(es: Seq<Seq<u8>>, w: Seq<u8>, m: int)
    requires
        concat(es).len() + m <= usize::MAX,
        forall|i: int| 0 <= i < es.len() ==> whole_record(#[trigger] es[i]),
        whole_record(w),
        0 < m < w.len(),
    ensures
        stream_items(concat(es) + w.subrange(0, m)) == ok_items(es).push(
            Err(StreamError::Truncated),
        ),
{
    let p = w.subrange(0, m);
    assert(cbor_scan(p) == Scan::Incomplete);
    let b = concat(es) + p;
    assert(b.subrange(0, b.len() as int) =~= concat(es) + p);
    lemma_split_records(b, 0, es, p);
    let n = concat(es).len();
    assert(b.subrange(n as int, b.len() as int) =~= p);
    assert(es + Seq::<Seq<u8>>::empty() =~= es);
}

/// Whether `fs` are records found one after the other in `rcv` from
/// position `p`, each of which the decoder reads whole from its position
/// whatever follows the bytes received.
pub open spec fn settled(rcv: Seq<u8>, p: int, fs: Seq<Seq<u8>>) -> bool
    decreases fs.len(),
{
    if fs.len() == 0 {
        0 <= p <= rcv.len()
    } else {
        let end = p + fs[0].len();
        &&& 0 <= p
        &&& fs[0].len() > 0
        &&& end <= rcv.len()
        &&& rcv.subrange(p, end) == fs[0]
        &&& forall|y: Seq<u8>|
            rcv.len() - p + y.len() <= usize::MAX ==> #[trigger] cbor_scan(
                rcv.subrange(p, rcv.len() as int) + y,
            ) == Scan::Complete((rcv.len() - end + y.len()) as usize)
        &&& settled(rcv, end, fs.drop_first())
    }
}

/// Settled records stay settled when more bytes arrive.
proof fn lemma_settled_extend(rcv: Seq<u8>, p: int, fs: Seq<Seq<u8>>, c: Seq<u8>)
    requires
        settled(rcv, p, fs),
    ensures
        settled(rcv + c, p, fs),
    decreases fs.len(),
{
    if fs.len() > 0 {
        let end = p + fs[0].len();
        let r2 = rcv + c;
        assert(r2.subrange(p, end) =~= rcv.subrange(p, end));
        assert forall|y: Seq<u8>|
            r2.len() - p + y.len() <= usize::MAX implies #[trigger] cbor_scan(
                r2.subrange(p, r2.len() as int) + y,
            ) == Scan::Complete((r2.len() - end + y.len()) as usize) by {
            assert(r2.subrange(p, r2.len() as int) + y =~= rcv.subrange(p, rcv.len() as int) + (c
                + y));
            assert(cbor_scan(rcv.subrange(p, rcv.len() as int) + (c + y)) == Scan::Complete(
                (rcv.len() - end + (c + y).len()) as usize,
            ));
        }
        lemma_settled_extend(rcv, end, fs.drop_first(), c);
    }
}

/// A settled record can be added after the settled ones.
proof fn lemma_settled_push(rcv: Seq<u8>, p: int, fs: Seq<Seq<u8>>, f: Seq<u8>)
    requires
        settled(rcv, p, fs),
        ({
            let q = p + concat(fs).len();
            let end = q + f.len();
            &&& f.len() > 0
            &&& end <= rcv.len()
            &&& rcv.subrange(q, end) == f
            &&& forall|y: Seq<u8>|
                rcv.len() - q + y.len() <= usize::MAX ==> #[trigger] cbor_scan(
                    rcv.subrange(q, rcv.len() as int) + y,
                ) == Scan::Complete((rcv.len() - end + y.len()) as usize)
        }),
    ensures
        settled(rcv, p, fs.push(f)),
    decreases fs.len(),
{
    if fs.len() == 0 {
        assert(fs.push(f).drop_first() =~= Seq::<Seq<u8>>::empty());
        assert(concat(fs) =~= Seq::<u8>::empty());
        assert(fs.push(f)[0] == f);
        assert(settled(rcv, p + f.len(), Seq::<Seq<u8>>::empty()));
    } else {
        let end = p + fs[0].len();
        assert(fs.push(f)[0] == fs[0]);
        assert(fs.push(f).drop_first() =~= fs.drop_first().push(f));
        assert(concat(fs).len() == fs[0].len() + concat(fs.drop_first()).len());
        lemma_settled_push(rcv, end, fs.drop_first(), f);
    }
}

/// Framing from the start of settled records finds those records first.
proof fn lemma_settled_split(rcv: Seq<u8>, p: int, fs: Seq<Seq<u8>>)
    requires
        settled(rcv, p, fs),
        rcv.len() <= usize::MAX,
    ensures
        p + concat(fs).len() <= rcv.len(),
        ({
            let after = split_from(rcv, (p + concat(fs).len()) as nat);
            let s = split_from(rcv, p as nat);
            &&& s.frames == fs + after.frames
            &&& s.tail == after.tail
            &&& s.failed == after.failed
        }),
    decreases fs.len(),
{
    if fs.len() == 0 {
        assert(fs + split_from(rcv, p as nat).frames =~= split_from(rcv, p as nat).frames);
    } else {
        let end = p + fs[0].len();
        let rest = rcv.subrange(p, rcv.len() as int);
        assert(rest + Seq::<u8>::empty() =~= rest);
        assert(cbor_scan(rest + Seq::<u8>::empty()) == Scan::Complete(
            (rcv.len() - end + 0) as usize,
        ));
        lemma_settled_split(rcv, end, fs.drop_first());
        assert(concat(fs).len() == fs[0].len() + concat(fs.drop_first()).len());
        assert(fs =~= seq![fs[0]] + fs.drop_first());
        assert(seq![fs[0]] + (fs.drop_first() + split_from(
            rcv,
            (end + concat(fs.drop_first()).len()) as nat,
        ).frames) =~= fs + split_from(rcv, (end + concat(fs.drop_first()).len()) as nat).frames);
    }
}

/// Framing the bytes after a prefix `a` is framing them on their own.
proof fn lemma_split_shift(a: Seq<u8>, b: Seq<u8>, k: nat)
    ensures
        split_from(a + b, a.len() + k) == split_from(b, k),
    decreases b.len() - k,
{
    let ab = a + b;
    if k < b.len() {
        let rest = ab.subrange((a.len() + k) as int, ab.len() as int);
        assert(rest =~= b.subrange(k as int, b.len() as int));
        match cbor_scan(rest) {
            Scan::Complete(left) => {
                if left < rest.len() {
                    let end = (b.len() - left) as nat;
                    assert(ab.len() - left == a.len() + end);
                    assert(ab.subrange((a.len() + k) as int, (a.len() + end) as int) =~= b.subrange(
                        k as int,
                        end as int,
                    ));
                    lemma_split_shift(a, b, end);
                }
            },
            _ => {},
        }
    }
}

/// Cuts a stream of record bytes, given in chunks, into whole records.
pub struct InputParser {
    buffer: Vec<u8>,
    done: bool,
    received: Ghost<Seq<u8>>,
    frames: Ghost<Seq<Seq<u8>>>,
    items: Ghost<Seq<Result<Seq<u8>, StreamError>>>,
}

impl InputParser {
    /// Every byte taken while the stream had not ended.
    pub closed spec fn spec_received(&self) -> Seq<u8> {
        self.received@
    }

    /// Bytes received and not yet handed out as a record.
    pub closed spec fn pending(&self) -> Seq<u8> {
        self.buffer@
    }

    /// Everything handed out so far, in order.
    pub closed spec fn spec_items(&self) -> Seq<Result<Seq<u8>, StreamError>> {
        self.items@
    }

    /// Whether the stream has ended: after an error, or after its end was seen.
    pub closed spec fn finished(&self) -> bool {
        self.done
    }

    /// The invariant of a framer.
    pub closed spec fn wf(&self) -> bool {
        &&& self.received@.len() <= usize::MAX ==> (self.done ==> self.items@ == stream_items(
            self.received@,
        ))
        &&& !self.done ==> {
            &&& self.received@ == concat(self.frames@) + self.buffer@
            &&& self.items@ == ok_items(self.frames@)
            &&& settled(self.received@, 0, self.frames@)
            &&& self.buffer@.len() == 0 || cbor_scan(self.buffer@) == Scan::Incomplete
        }
    }

    /// A framer that has seen no input.
    pub fn new() -> (r: InputParser)
        ensures
            r.wf(),
            r.spec_received() == Seq::<u8>::empty(),
            r.spec_items() == Seq::<Result<Seq<u8>, StreamError>>::empty(),
            !r.finished(),
    {
        let r = InputParser {
            buffer: Vec::new(),
            done: false,
            received: Ghost(Seq::empty()),
            frames: Ghost(Seq::empty()),
            items: Ghost(Seq::empty()),
        };
        assert(concat(r.frames@) + r.buffer@ =~= Seq::<u8>::empty());
        assert(ok_items(r.frames@) =~= Seq::<Result<Seq<u8>, StreamError>>::empty());
        r
    }

    /// Takes the next chunk of input and hands out the records it completes.
    /// Invalid bytes give one `Malformed` error, after which the stream has
    /// ended; bytes of a record not yet complete are kept for the next chunk.
    /// A stream that has ended ignores further input. What has been handed
    /// out is always what framing everything received gives: the whole
    /// records so far, and the error once there is one.
    pub fn push(&mut self, chunk: &[u8]) -> (r: Vec<Item>)
        requires
            old(self).wf(),
        ensures
            final(self).wf(),
            old(self).finished() ==> r@.len() == 0 && *final(self) == *old(self),
            !old(self).finished() ==> {
                &&& final(self).spec_received() == old(self).spec_received() + chunk@
                &&& final(self).spec_items() == old(self).spec_items() + r@.map_values(
                    |i: Item| item_view(i),
                )
                &&& final(self).spec_received().len() <= usize::MAX ==> {
                    let s = split_from(final(self).spec_received(), 0);
                    &&& final(self).finished() == s.failed
                    &&& final(self).finished() ==> final(self).spec_items() == stream_items(
                        final(self).spec_received(),
                    )
                    &&& !final(self).finished() ==> final(self).spec_items() == ok_items(s.frames)
                }
            },
    {
        let mut out: Vec<Item> = Vec::new();
        if self.done {
            assert(out@.len() == 0);
            return out;
        }
        let ghost old_frames = self.frames@;
        let ghost rcv = self.received@ + chunk@;
        proof {
            lemma_settled_extend(self.received@, 0, self.frames@, chunk@);
        }
        let mut k: usize = 0;
        while k < chunk.len()
            invariant
                !self.done,
                !old(self).done,
                k <= chunk@.len(),
                self.buffer@ == old(self).buffer@ + chunk@.subrange(0, k as int),
                self.frames@ == old(self).frames@,
                self.received@ == old(self).received@,
                self.items@ == old(self).items@,
            decreases chunk.len() - k,
        {
            self.buffer.push(chunk[k]);
            assert(chunk@.subrange(0, k + 1) == chunk@.subrange(0, k as int).push(chunk@[k as int]));
            k = k + 1;
        }
        assert(chunk@.subrange(0, chunk@.len() as int) == chunk@);
        let ghost b = self.buffer@;
        let ghost base = concat(old_frames);
        assert(rcv =~= base + b);
        self.received = Ghost(rcv);
        let ghost mut frames: Seq<Seq<u8>> = seq![];
        let mut start: usize = 0;
        while start < self.buffer.len()
            invariant
                b == self.buffer@,
                rcv == base + b,
                rcv == old(self).received@ + chunk@,
                base == concat(old_frames),
                self.received@ == rcv,
                self.frames@ == old_frames,
                self.items@ == old(self).items@,
                old(self).items@ == ok_items(old_frames),
                !self.done,
                !old(self).done,
                start <= b.len(),
                settled(rcv, 0, old_frames + frames),
                concat(old_frames + frames).len() == base.len() + start,
                split_from(b, 0).frames == frames + split_from(b, start as nat).frames,
                split_from(b, 0).tail == split_from(b, start as nat).tail,
                split_from(b, 0).failed == split_from(b, start as nat).failed,
                out@.map_values(|i: Item| item_view(i)) == ok_items(frames),
            ensures
                b == self.buffer@,
                start <= b.len(),
                self.received@ == rcv,
                self.frames@ == old_frames,
                self.items@ == old(self).items@,
                settled(rcv, 0, old_frames + frames),
                concat(old_frames + frames).len() == base.len() + start,
                split_from(b, 0).frames == frames + split_from(b, start as nat).frames,
                split_from(b, 0).tail == split_from(b, start as nat).tail,
                split_from(b, 0).failed == split_from(b, start as nat).failed,
                out@.map_values(|i: Item| item_view(i)) == ok_items(frames),
                split_from(b, start as nat).frames == Seq::<Seq<u8>>::empty(),
                split_from(b, start as nat).tail == b.subrange(start as int, b.len() as int),
                !split_from(b, start as nat).failed,
                start == b.len() || cbor_scan(b.subrange(start as int, b.len() as int))
                    == Scan::Incomplete,
            decreases self.buffer.len() - start,
        {
            let len = self.buffer.len();
            let rest = slice_subrange(self.buffer.as_slice(), start, len);
            match scan_record(rest) {
                Scan::Complete(left) => {
                    let end = len - left;
                    let mut frame: Vec<u8> = Vec::new();
                    let mut j: usize = start;
                    while j < end
                        invariant
                            b == self.buffer@,
                            start <= j <= end <= b.len(),
                            frame@ == b.subrange(start as int, j as int),
                        decreases end - j,
                    {
                        frame.push(self.buffer[j]);
                        assert(b.subrange(start as int, j + 1) == b.subrange(start as int, j as int).push(b[j as int]));
                        j = j + 1;
                    }
                    let ghost f = frame@;
                    proof {
                        let s = split_from(b, end as nat);
                        assert(split_from(b, start as nat).frames == seq![f] + s.frames);
                        assert(frames + split_from(b, start as nat).frames =~= frames.push(f) + s.frames);
                        let q = base.len() + start;
                        assert(concat(old_frames + frames).len() == q);
                        assert(rcv.subrange(q as int, q + f.len()) =~= f);
                        assert(rcv.subrange(q as int, rcv.len() as int) =~= rest@);
                        lemma_settled_push(rcv, 0, old_frames + frames, f);
                        assert((old_frames + frames).push(f) =~= old_frames + frames.push(f));
                        lemma_concat_push(old_frames + frames, f);
                        frames = frames.push(f);
                    }
                    let ghost before = out@;
                    out.push(Ok(frame));
                    assert(out@.map_values(|i: Item| item_view(i)) =~= before.map_values(|i: Item| item_view(i)).push(Ok::<Seq<u8>, StreamError>(f)));
                    assert(ok_items(frames) =~= ok_items(frames.drop_last()).push(Ok::<Seq<u8>, StreamError>(f)));
                    start = end;
                },
                Scan::Incomplete => {
                    assert(rest@ == b.subrange(start as int, b.len() as int));
                    break;
                },
                Scan::Invalid => {
                    let ghost before = out@;
                    out.push(Err(StreamError::Malformed));
                    assert(out@.map_values(|i: Item| item_view(i)) =~= before.map_values(|i: Item| item_view(i)).push(Err::<Seq<u8>, StreamError>(StreamError::Malformed)));
                    assert(split_from(b, start as nat).frames =~= seq![]);
                    assert(frames + seq![] =~= frames);
                    proof {
                        let all = old_frames + frames;
                        lemma_split_shift(base, b, start as nat);
                        assert(base.len() + start == concat(all).len());
                        if rcv.len() <= usize::MAX {
                            lemma_settled_split(rcv, 0, all);
                            assert(split_from(rcv, 0).frames =~= all);
                            assert(split_from(rcv, 0).failed);
                        }
                        assert(ok_items(all) =~= ok_items(old_frames) + ok_items(frames));
                        assert(self.items@ + out@.map_values(|i: Item| item_view(i)) =~= ok_items(
                            all,
                        ).push(Err(StreamError::Malformed)));
                    }
                    self.items = Ghost(self.items@ + out@.map_values(|i: Item| item_view(i)));
                    self.done = true;
                    self.buffer = Vec::new();
                    return out;
                },
            }
        }
        let tail = self.buffer.split_off(start);
        self.buffer = tail;
        proof {
            let all = old_frames + frames;
            lemma_split_shift(base, b, start as nat);
            assert(base.len() + start == concat(all).len());
            if rcv.len() <= usize::MAX {
                lemma_settled_split(rcv, 0, all);
                assert(split_from(rcv, 0).frames =~= all);
            }
            assert(frames + Seq::<Seq<u8>>::empty() =~= frames);
            assert(rcv =~= concat(all) + self.buffer@) by {
                lemma_concat_len_split(all, rcv, base.len() + start);
            }
            assert(ok_items(all) =~= ok_items(old_frames) + ok_items(frames));
        }
        self.items = Ghost(self.items@ + out@.map_values(|i: Item| item_view(i)));
        self.frames = Ghost(old_frames + frames);
        out
    }

    /// Takes the end of the input: an error if it came inside a record, else
    /// nothing. The stream has ended afterwards, and what has been handed out
    /// is everything that framing the whole input gives.
    pub fn finish(&mut self) -> (r: Option<StreamError>)
        requires
            old(self).wf(),
        ensures
            final(self).wf(),
            final(self).finished(),
            final(self).spec_received() == old(self).spec_received(),
            old(self).finished() ==> r is None && final(self).spec_items() == old(self).spec_items(),
            !old(self).finished() ==> final(self).spec_items() == match r {
                Some(e) => old(self).spec_items().push(Err(e)),
                None => old(self).spec_items(),
            },
            !old(self).finished() && final(self).spec_received().len() <= usize::MAX
                ==> final(self).spec_items() == stream_items(final(self).spec_received()),
            r == (if !old(self).finished() && old(self).pending().len() > 0 {
                Some(StreamError::Truncated)
            } else {
                None
            }),
    {
        if self.done {
            return None;
        }
        let r = if self.buffer.len() > 0 {
            Some(StreamError::Truncated)
        } else {
            None
        };
        proof {
            let rcv = self.received@;
            let base = concat(self.frames@);
            if rcv.len() <= usize::MAX {
                lemma_settled_split(rcv, 0, self.frames@);
                lemma_split_shift(base, self.buffer@, 0);
                assert(self.frames@ + Seq::<Seq<u8>>::empty() =~= self.frames@);
                if self.buffer@.len() > 0 {
                    assert(self.buffer@.subrange(0, self.buffer@.len() as int) =~= self.buffer@);
                }
            }
        }
        self.items = Ghost(
            match r {
                Some(e) => self.items@.push(Err(e)),
                None => self.items@,
            },
        );
        self.done = true;
        self.buffer = Vec::new();
        r
    }
}

/// The bytes of records followed by one more.
proof fn lemma_concat_push(fs: Seq<Seq<u8>>, f: Seq<u8>)
    ensures
        concat(fs.push(f)) == concat(fs) + f,
    decreases fs.len(),
{
    if fs.len() == 0 {
        assert(fs.push(f).drop_first() =~= Seq::<Seq<u8>>::empty());
        assert(concat(Seq::<Seq<u8>>::empty()) =~= Seq::<u8>::empty());
        assert(fs.push(f)[0] == f);
        assert(concat(fs) =~= Seq::<u8>::empty());
        assert(concat(fs.push(f)) =~= f + Seq::<u8>::empty());
        assert(concat(fs.push(f)) =~= concat(fs) + f);
    } else {
        assert(fs.push(f).drop_first() =~= fs.drop_first().push(f));
        lemma_concat_push(fs.drop_first(), f);
        assert(concat(fs.push(f)) =~= concat(fs) + f);
    }
}

/// Settled records are exactly the front of what was received.
proof fn lemma_concat_len_split(fs: Seq<Seq<u8>>, rcv: Seq<u8>, n: int)
    requires
        settled(rcv, 0, fs),
        concat(fs).len() == n,
    ensures
        rcv.subrange(0, n) == concat(fs),
{
    lemma_settled_prefix(rcv, 0, fs);
}

/// The settled records from `p` are the bytes of `rcv` from `p` on.
proof fn lemma_settled_prefix(rcv: Seq<u8>, p: int, fs: Seq<Seq<u8>>)
    requires
        settled(rcv, p, fs),
    ensures
        p + concat(fs).len() <= rcv.len(),
        rcv.subrange(p, p + concat(fs).len()) == concat(fs),
    decreases fs.len(),
{
    if fs.len() == 0 {
        assert(rcv.subrange(p, p) =~= concat(fs));
    } else {
        let end = p + fs[0].len();
        lemma_settled_prefix(rcv, end, fs.drop_first());
        assert(rcv.subrange(p, p + concat(fs).len()) =~= rcv.subrange(p, end) + rcv.subrange(
            end,
            end + concat(fs.drop_first()).len(),
        ));
    }
}

} // verus!
